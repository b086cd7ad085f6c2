//! The board: the `Dead`/`Lit` cell buffer, the bait cell, and the snake,
//! with the per-tick state machine (movement, bait consumption, growth,
//! self-collision and reset).

use vstd::prelude::*;

use crate::snake::Direction;
use crate::snake::Snake;
use crate::snake::SnakeView;
use crate::snake::spec_march;

verus! {

/// Minimum board width enforced at construction.
pub const MIN_BOARD_WIDTH: u16 = 10;

/// Minimum board height enforced at construction.
pub const MIN_BOARD_HEIGHT: u16 = 10;

/// Linear index of the bait on a freshly reset board.
pub const DEFAULT_BAIT: u32 = 8;

/// Number of segments of a freshly reset snake.
pub const INITIAL_SNAKE_LENGTH: usize = 3;

/// State of one grid cell in the rendering buffer.
#[derive(Clone, Copy, Debug, PartialEq, Eq, Structural)]
pub enum Cell {
    Dead,
    Lit,
}

/// Injected source of uniform random integers, used only to re-place the
/// bait after it is eaten.
pub trait BaitRng {
    /// A number drawn from the inclusive range `[min, max]`.
    fn random_in_range(&mut self, min: usize, max: usize) -> (r: usize)
        requires
            min <= max,
        ensures
            min <= r <= max,
    ;
}

/// Injected game-over collaborator, invoked exactly once per self-collision,
/// before the board resets.
pub trait GameOverNotifier {
    /// Called when the snake has run into itself.
    fn notify(&mut self);
}

/// A small deterministic linear congruential generator: a ready-made
/// `BaitRng` for hosts and tests that want reproducible games.
pub struct LcgRng {
    state: u64,
}

impl LcgRng {
    /// A generator starting from the given seed.
    pub fn new(seed: u64) -> (r: LcgRng) {
        LcgRng { state: seed }
    }
}

impl BaitRng for LcgRng {
    fn random_in_range(&mut self, min: usize, max: usize) -> (r: usize) {
        let next = ((self.state % 65537) * 75 + 74) % 65537;
        self.state = next;
        let span = max - min;
        if span == usize::MAX {
            next as usize
        } else {
            min + ((next as usize) % (span + 1))
        }
    }
}

/// A notifier that only counts how often it fired; lets a caller observe
/// that a collision was reported exactly once.
pub struct CountingNotifier {
    pub count: u64,
}

impl CountingNotifier {
    /// A notifier that has not fired yet.
    pub fn new() -> (r: CountingNotifier)
        ensures
            r.count == 0,
    {
        CountingNotifier { count: 0 }
    }
}

impl GameOverNotifier for CountingNotifier {
    fn notify(&mut self) {
        if self.count < u64::MAX {
            self.count = self.count + 1;
        }
    }
}

/// The game board; source of truth for rendering and collision detection.
pub struct Board {
    pub(crate) cells: Vec<Cell>,
    pub(crate) snake: Snake,
    pub(crate) bait: u32,
    pub(crate) width: u16,
    pub(crate) height: u16,
}

/// Mathematical model of a `Board`.
#[verifier::ext_equal]
pub struct BoardView {
    pub cells: Seq<Cell>,
    pub snake: SnakeView,
    pub bait: u32,
    pub width: u16,
    pub height: u16,
}

impl View for Board {
    type V = BoardView;

    open(crate) spec fn view(&self) -> BoardView {
        BoardView {
            cells: self.cells@,
            snake: self.snake@,
            bait: self.bait,
            width: self.width,
            height: self.height,
        }
    }
}

/// Number of cells of a `width` by `height` board.
pub open spec fn spec_area(width: u16, height: u16) -> int {
    (width as int) * (height as int)
}

/// The default snake: three contiguous cells in the top row, heading right.
pub open spec fn spec_default_snake() -> SnakeView {
    SnakeView {
        cells: seq![0u32, 1u32, 2u32],
        direction: Direction::Right,
        head: 2u32,
        tail: 0u32,
    }
}

/// The default cell buffer: all `Dead` except the default snake's cells.
pub open spec fn spec_default_cells(width: u16, height: u16) -> Seq<Cell> {
    Seq::new(
        spec_area(width, height) as nat,
        |i: int|
            if 0 <= i < INITIAL_SNAKE_LENGTH {
                Cell::Lit
            } else {
                Cell::Dead
            },
    )
}

/// State of a board right after construction or `reset`.
pub open spec fn spec_default_board(width: u16, height: u16) -> BoardView {
    BoardView {
        cells: spec_default_cells(width, height),
        snake: spec_default_snake(),
        bait: DEFAULT_BAIT,
        width: width,
        height: height,
    }
}

/// The buffer at the start of a tick, after the bait cell has been
/// force-marked `Lit` (so the bait renders even though it is not part of
/// snake occupancy bookkeeping).
pub open spec fn spec_bait_lit_cells(pre: BoardView) -> Seq<Cell> {
    pre.cells.update(pre.bait as int, Cell::Lit)
}

/// The buffer at the end of a tick: the vacated tail cell cleared, then the
/// new head cell set `Lit`.
pub open spec fn spec_step_cells(cells: Seq<Cell>, s: SnakeView) -> Seq<Cell> {
    cells.update(s.tail as int, Cell::Dead).update(s.head as int, Cell::Lit)
}

/// The snake after the normal (cutting) march of a tick.
pub open spec fn spec_tick_snake(pre: BoardView) -> SnakeView {
    spec_march(pre.snake, pre.width, pre.height, true)
}

/// The snake after a consuming tick: the cutting march followed by the
/// growth march past the bait.
pub open spec fn spec_tick_grown_snake(pre: BoardView) -> SnakeView {
    spec_march(spec_tick_snake(pre), pre.width, pre.height, false)
}

/// Whether the tick's first march lands the head on the bait.
pub open spec fn spec_tick_eats(pre: BoardView) -> bool {
    spec_tick_snake(pre).head == pre.bait
}

/// Whether the tick ends in a self-collision: the (possibly re-advanced)
/// head sits on a cell that was already `Lit` and does not coincide with the
/// bait. After a consuming march the freshly placed bait always sits on a
/// cell that was unlit, so there the collision test reduces to the head cell
/// alone.
pub open spec fn spec_tick_collides(pre: BoardView) -> bool {
    let lit = spec_bait_lit_cells(pre);
    if spec_tick_eats(pre) {
        lit[spec_tick_grown_snake(pre).head as int] == Cell::Lit
    } else {
        lit[spec_tick_snake(pre).head as int] == Cell::Lit
    }
}

/// Whether some cell is still unlit once the bait cell is marked, so that a
/// fresh bait can be placed after a consumption.
pub open spec fn spec_has_free_cell(b: BoardView) -> bool {
    exists|i: int| 0 <= i < b.cells.len() && spec_bait_lit_cells(b)[i] == Cell::Dead
}

/// Outcome of a tick that neither consumes the bait nor collides.
pub open spec fn spec_tick_normal_outcome(pre: BoardView) -> BoardView {
    let s1 = spec_tick_snake(pre);
    BoardView {
        cells: spec_step_cells(spec_bait_lit_cells(pre), s1),
        snake: s1,
        bait: pre.bait,
        width: pre.width,
        height: pre.height,
    }
}

/// Outcome of a tick that consumes the bait without colliding; `new_bait` is
/// the freshly sampled bait cell.
pub open spec fn spec_tick_eat_outcome(pre: BoardView, new_bait: u32) -> BoardView {
    let s2 = spec_tick_grown_snake(pre);
    BoardView {
        cells: spec_step_cells(spec_bait_lit_cells(pre), s2),
        snake: s2,
        bait: new_bait,
        width: pre.width,
        height: pre.height,
    }
}

/// State of a board right after a colliding tick: the reset defaults, with
/// the final buffer writes of the tick applied to the default snake — its
/// tail cell cleared and its head cell lit.
pub open spec fn spec_collision_outcome(width: u16, height: u16) -> BoardView {
    let d = spec_default_board(width, height);
    BoardView {
        cells: d.cells.update(d.snake.tail as int, Cell::Dead).update(
            d.snake.head as int,
            Cell::Lit,
        ),
        snake: d.snake,
        bait: d.bait,
        width: width,
        height: height,
    }
}

impl BoardView {
    /// Structural soundness of a board.
    pub open spec fn wf(self) -> bool {
        &&& self.width >= MIN_BOARD_WIDTH
        &&& self.height >= MIN_BOARD_HEIGHT
        &&& self.cells.len() == spec_area(self.width, self.height)
        &&& self.snake.in_bounds(self.width, self.height)
        &&& self.snake.cells.len() >= INITIAL_SNAKE_LENGTH
        &&& self.bait < spec_area(self.width, self.height)
    }
}

/// A board at least as large in both dimensions as the minimums has room
/// for the default snake and bait.
proof fn lemma_min_area(width: u16, height: u16)
    requires
        MIN_BOARD_WIDTH <= width,
        MIN_BOARD_HEIGHT <= height,
    ensures
        spec_area(width, height) >= 100,
{
    assert((width as int) * (height as int) >= 100) by (nonlinear_arith)
        requires
            width >= 10,
            height >= 10,
    ;
}

/// The default board of admissible dimensions is well formed.
pub proof fn lemma_default_board_wf(width: u16, height: u16)
    requires
        MIN_BOARD_WIDTH <= width,
        MIN_BOARD_HEIGHT <= height,
    ensures
        spec_default_board(width, height).wf(),
{
    lemma_min_area(width, height);
}

/// The default cell buffer of a board of admissible dimensions.
fn fresh_cells(width: u16, height: u16) -> (v: Vec<Cell>)
    requires
        MIN_BOARD_WIDTH <= width,
        MIN_BOARD_HEIGHT <= height,
    ensures
        v@ == spec_default_cells(width, height),
{
    proof {
        lemma_min_area(width, height);
        assert((width as int) * (height as int) <= 0xFFFF * 0xFFFF) by (nonlinear_arith)
            requires
                width <= 0xFFFF,
                height <= 0xFFFF,
        ;
    }
    let area = (width as usize) * (height as usize);
    let mut v: Vec<Cell> = Vec::new();
    while v.len() < area
        invariant
            area == spec_area(width, height),
            v@.len() <= area,
            forall|i: int| 0 <= i < v@.len() ==> v@[i] == Cell::Dead,
        decreases area - v@.len(),
    {
        v.push(Cell::Dead);
    }
    v[0] = Cell::Lit;
    v[1] = Cell::Lit;
    v[2] = Cell::Lit;
    proof {
        assert(v@ =~= spec_default_cells(width, height));
    }
    v
}

/// The default snake of a freshly reset board.
fn fresh_snake() -> (s: Snake)
    ensures
        s@ == spec_default_snake(),
{
    let mut cells: Vec<u32> = Vec::new();
    cells.push(0);
    cells.push(1);
    cells.push(2);
    let s = Snake::new(cells, Direction::Right);
    proof {
        assert(s@ =~= spec_default_snake());
    }
    s
}

impl Board {
    /// A fresh board with the default snake, heading, and bait.
    ///
    /// Dimensions below the minimums are construction errors and are ruled
    /// out by the precondition; an unverified caller must test them first.
    pub fn new(width: u16, height: u16) -> (b: Board)
        requires
            MIN_BOARD_WIDTH <= width,
            MIN_BOARD_HEIGHT <= height,
        ensures
            b@ == spec_default_board(width, height),
            b@.wf(),
            b@.cells.len() == width * height,
    {
        let b = Board {
            cells: fresh_cells(width, height),
            snake: fresh_snake(),
            bait: DEFAULT_BAIT,
            width,
            height,
        };
        proof {
            lemma_default_board_wf(width, height);
            assert(b@ =~= spec_default_board(width, height));
        }
        b
    }

    /// Reinitialize the cell buffer, snake, and bait to the same defaults a
    /// fresh board is constructed with; heading, growth, and score revert.
    pub fn reset(&mut self)
        requires
            old(self)@.width >= MIN_BOARD_WIDTH,
            old(self)@.height >= MIN_BOARD_HEIGHT,
        ensures
            final(self)@ == spec_default_board(old(self)@.width, old(self)@.height),
            final(self)@.wf(),
            final(self)@.cells.len() == old(self)@.width * old(self)@.height,
    {
        self.cells = fresh_cells(self.width, self.height);
        self.snake = fresh_snake();
        self.bait = DEFAULT_BAIT;
        proof {
            lemma_default_board_wf(self.width, self.height);
            assert(self@ =~= spec_default_board(old(self)@.width, old(self)@.height));
        }
    }

    /// Advance the game one step, in this exact order: force-mark the bait
    /// cell `Lit`; march the snake with the tail cut (net length unchanged);
    /// if the new head reached the bait, march again without cutting (the
    /// growth step) and draw a fresh bait from `rng`, rejecting cells that
    /// are already `Lit` until an unlit one comes up; if the head now sits
    /// on a `Lit` cell other than the bait, report the self-collision to
    /// `notifier` once and reset; finally clear the vacated tail cell and
    /// light the head cell.
    pub fn tick<R: BaitRng, N: GameOverNotifier>(&mut self, rng: &mut R, notifier: &mut N)
        requires
            old(self)@.wf(),
            spec_tick_eats(old(self)@) ==> spec_has_free_cell(old(self)@),
        ensures
            final(self)@.wf(),
            final(self)@.width == old(self)@.width,
            final(self)@.height == old(self)@.height,
            spec_tick_collides(old(self)@) ==> final(self)@ == spec_collision_outcome(
                old(self)@.width,
                old(self)@.height,
            ),
            !spec_tick_collides(old(self)@) && !spec_tick_eats(old(self)@) ==> final(self)@
                == spec_tick_normal_outcome(old(self)@),
            !spec_tick_collides(old(self)@) && spec_tick_eats(old(self)@) ==> {
                &&& final(self)@ == spec_tick_eat_outcome(old(self)@, final(self)@.bait)
                &&& spec_bait_lit_cells(old(self)@)[final(self)@.bait as int] == Cell::Dead
            },
    {
        let ghost pre = self@;
        proof {
            lemma_min_area(self.width, self.height);
            assert((self.width as int) * (self.height as int) <= 0xFFFF * 0xFFFF)
                by (nonlinear_arith)
                requires
                    self.width <= 0xFFFF,
                    self.height <= 0xFFFF,
            ;
        }
        self.cells[self.bait as usize] = Cell::Lit;
        self.snake.march(self.width, self.height, true);
        let ghost s1 = self.snake@;
        proof {
            assert(s1 == spec_tick_snake(pre));
            assert(forall|i: int|
                0 <= i < s1.cells.len() ==> s1.cells[i] < pre.width * pre.height) by {
                assert(forall|i: int|
                    0 <= i < s1.cells.len() - 1 ==> s1.cells[i] == pre.snake.cells[i + 1]);
            }
        }
        if self.snake.head == self.bait {
            self.snake.march(self.width, self.height, false);
            let ghost s2 = self.snake@;
            proof {
                assert(s2 == spec_tick_grown_snake(pre));
            }
            let len = self.cells.len();
            let mut tries = len;
            let mut bait_i = rng.random_in_range(0, len - 1);
            while tries > 0 && self.cells[bait_i] == Cell::Lit
                invariant
                    len == self.cells@.len(),
                    1 <= len,
                    bait_i < len,
                    self.cells@ == spec_bait_lit_cells(pre),
                    self.snake@ == s2,
                    self.bait == pre.bait,
                    self.width == pre.width,
                    self.height == pre.height,
                decreases tries,
            {
                tries = tries - 1;
                bait_i = rng.random_in_range(0, len - 1);
            }
            if self.cells[bait_i] == Cell::Lit {
                // Random placement kept hitting lit cells; settle for the
                // first unlit cell, which the precondition guarantees.
                bait_i = 0;
                while self.cells[bait_i] == Cell::Lit
                    invariant
                        len == self.cells@.len(),
                        bait_i < len,
                        self.cells@ == spec_bait_lit_cells(pre),
                        self.snake@ == s2,
                        self.bait == pre.bait,
                        self.width == pre.width,
                        self.height == pre.height,
                        exists|i: int| bait_i <= i < len && self.cells@[i] == Cell::Dead,
                    decreases len - bait_i,
                {
                    proof {
                        let i0 = choose|i: int|
                            bait_i <= i < len && self.cells@[i] == Cell::Dead;
                        assert(bait_i + 1 <= i0 < len && self.cells@[i0] == Cell::Dead);
                    }
                    bait_i = bait_i + 1;
                }
            }
            proof {
                assert(self.cells@[bait_i as int] == Cell::Dead);
            }
            self.bait = bait_i as u32;
        }
        if self.snake.head != self.bait {
            let head_cell = self.snake.head as usize;
            if self.cells[head_cell] == Cell::Lit {
                notifier.notify();
                self.reset();
            }
        }
        proof {
            if spec_tick_collides(pre) {
                assert(self@ == spec_default_board(pre.width, pre.height));
            }
        }
        self.cells[self.snake.tail as usize] = Cell::Dead;
        self.cells[self.snake.head as usize] = Cell::Lit;
        proof {
            let post = self@;
            if spec_tick_collides(pre) {
                lemma_default_board_wf(pre.width, pre.height);
                assert(post =~= spec_collision_outcome(pre.width, pre.height));
                assert(post.wf());
            } else if spec_tick_eats(pre) {
                assert(post =~= spec_tick_eat_outcome(pre, post.bait));
                assert(post.wf());
            } else {
                assert(post =~= spec_tick_normal_outcome(pre));
                assert(post.wf());
            }
        }
    }

    /// Points past the start: how many segments the snake has gained since
    /// the last reset.
    pub fn score(&self) -> (r: usize)
        requires
            self@.wf(),
        ensures
            r == self@.snake.cells.len() - INITIAL_SNAKE_LENGTH,
    {
        self.snake.cells().len() - INITIAL_SNAKE_LENGTH
    }

    /// Set the pending heading; it takes effect on the next tick.
    pub fn change_direction(&mut self, direction: Direction)
        ensures
            final(self)@ == (BoardView {
                snake: (SnakeView { direction: direction, ..old(self)@.snake }),
                ..old(self)@
            }),
    {
        self.snake.direction = direction;
    }

    /// Board width in cells.
    pub fn width(&self) -> (r: u16)
        ensures
            r == self@.width,
    {
        self.width
    }

    /// Board height in cells.
    pub fn height(&self) -> (r: u16)
        ensures
            r == self@.height,
    {
        self.height
    }

    /// Read-only view of the cell buffer, row by row.
    pub fn cells(&self) -> (r: &Vec<Cell>)
        ensures
            r@ == self@.cells,
    {
        &self.cells
    }

    /// Current heading of the snake.
    pub fn direction(&self) -> (r: Direction)
        ensures
            r == self@.snake.direction,
    {
        self.snake.direction()
    }

    /// Linear index of the bait cell.
    pub fn bait(&self) -> (r: u32)
        ensures
            r == self@.bait,
    {
        self.bait
    }

    /// The snake's occupied cells, oldest first.
    pub fn snake_cells(&self) -> (r: &Vec<u32>)
        ensures
            r@ == self@.snake.cells,
    {
        self.snake.cells()
    }
}

} // verus!
