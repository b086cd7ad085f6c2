//! The snake: an ordered sequence of occupied cell indices (oldest first,
//! newest last) plus the current heading. `march` advances it one step with
//! toroidal wrap-around and either drops or keeps the oldest segment.

use vstd::prelude::*;

use crate::grid::get_index;
use crate::grid::get_row_col;
use crate::grid::spec_col;
use crate::grid::spec_row;

verus! {

/// Heading of the snake; a closed enumeration with no invalid values.
#[derive(Clone, Copy, Debug, PartialEq, Eq, Structural)]
pub enum Direction {
    Up,
    Right,
    Down,
    Left,
}

/// The snake's occupied cells plus cached head and tail indices.
///
/// `head` always mirrors the newest entry of `cells`. `tail` holds the cell
/// most recently vacated by a cutting march (one tick behind the oldest
/// entry), so that the board can clear exactly that cell from its buffer.
pub struct Snake {
    pub(crate) cells: Vec<u32>,
    pub(crate) direction: Direction,
    pub(crate) head: u32,
    pub(crate) tail: u32,
}

/// Mathematical model of a `Snake`.
#[verifier::ext_equal]
pub struct SnakeView {
    pub cells: Seq<u32>,
    pub direction: Direction,
    pub head: u32,
    pub tail: u32,
}

impl View for Snake {
    type V = SnakeView;

    open(crate) spec fn view(&self) -> SnakeView {
        SnakeView {
            cells: self.cells@,
            direction: self.direction,
            head: self.head,
            tail: self.tail,
        }
    }
}

impl SnakeView {
    /// Structural soundness of a snake on a `width` by `height` grid.
    pub open spec fn in_bounds(self, width: u16, height: u16) -> bool {
        &&& self.cells.len() >= 1
        &&& self.head == self.cells.last()
        &&& self.head < width * height
        &&& self.tail < width * height
        &&& forall|i: int| 0 <= i < self.cells.len() ==> self.cells[i] < width * height
    }
}

/// The linear index one step ahead of `head` in `direction`, with toroidal
/// wrap-around: exiting one edge re-enters from the opposite edge.
pub open spec fn spec_next_head(direction: Direction, head: u32, width: u16, height: u16) -> int {
    let row = spec_row(head as int, width);
    let col = spec_col(head as int, width);
    match direction {
        Direction::Up => ((row + height - 1) % (height as int)) * width + col,
        Direction::Right => row * width + ((col + 1) % (width as int)),
        Direction::Down => ((row + 1) % (height as int)) * width + col,
        Direction::Left => row * width + ((col + width - 1) % (width as int)),
    }
}

/// What `Snake::march` does to the model: compute the new head, drop the
/// oldest segment when cutting (recording it as the vacated `tail`), and
/// append the new head.
pub open spec fn spec_march(s: SnakeView, width: u16, height: u16, cut_tail: bool) -> SnakeView {
    let nh = spec_next_head(s.direction, s.head, width, height) as u32;
    if cut_tail {
        SnakeView {
            cells: s.cells.drop_first().push(nh),
            direction: s.direction,
            head: nh,
            tail: s.cells[0],
        }
    } else {
        SnakeView { cells: s.cells.push(nh), direction: s.direction, head: nh, tail: s.tail }
    }
}

/// The next head of an in-range head is itself an in-range index.
pub proof fn lemma_next_head_in_range(direction: Direction, head: u32, width: u16, height: u16)
    requires
        1 <= width,
        1 <= height,
        head < width * height,
    ensures
        0 <= spec_next_head(direction, head, width, height) < width * height,
{
    let w = width as int;
    let h = height as int;
    let row = spec_row(head as int, width);
    let col = spec_col(head as int, width);
    assert(0 <= row < h && 0 <= col < w) by (nonlinear_arith)
        requires
            1 <= w,
            1 <= h,
            0 <= head < w * h,
            row == head as int / w,
            col == head as int % w,
    ;
    let row2 = match direction {
        Direction::Up => (row + h - 1) % h,
        Direction::Right => row,
        Direction::Down => (row + 1) % h,
        Direction::Left => row,
    };
    let col2 = match direction {
        Direction::Up => col,
        Direction::Right => (col + 1) % w,
        Direction::Down => col,
        Direction::Left => (col + w - 1) % w,
    };
    assert(0 <= row2 < h);
    assert(0 <= col2 < w);
    assert(0 <= row2 * w + col2 < w * h) by (nonlinear_arith)
        requires
            1 <= w,
            1 <= h,
            0 <= row2 < h,
            0 <= col2 < w,
    ;
}

impl Snake {
    /// A snake occupying the given cells (oldest first), headed `direction`.
    pub fn new(cells: Vec<u32>, direction: Direction) -> (s: Snake)
        requires
            cells@.len() >= 1,
        ensures
            s@.cells == cells@,
            s@.direction == direction,
            s@.head == cells@.last(),
            s@.tail == cells@[0],
    {
        let head = cells[cells.len() - 1];
        let tail = cells[0];
        Snake { cells, direction, head, tail }
    }

    /// Newest occupied cell.
    pub fn head(&self) -> (r: u32)
        ensures
            r == self@.head,
    {
        self.head
    }

    /// Cell most recently vacated by a cutting march (the oldest cell before
    /// the last cut, one tick behind the current oldest entry).
    pub fn tail(&self) -> (r: u32)
        ensures
            r == self@.tail,
    {
        self.tail
    }

    /// Current heading.
    pub fn direction(&self) -> (r: Direction)
        ensures
            r == self@.direction,
    {
        self.direction
    }

    /// Occupied cells, oldest first.
    pub fn cells(&self) -> (r: &Vec<u32>)
        ensures
            r@ == self@.cells,
    {
        &self.cells
    }

    /// Advance one step: move the head one cell in the current heading with
    /// wrap-around; when `cut_tail` holds, drop the oldest segment and record
    /// it as the vacated `tail`; otherwise grow, keeping every segment.
    pub fn march(&mut self, width: u16, height: u16, cut_tail: bool)
        requires
            1 <= width,
            1 <= height,
            old(self)@.head < width * height,
            cut_tail ==> old(self)@.cells.len() >= 1,
        ensures
            final(self)@ == spec_march(old(self)@, width, height, cut_tail),
            final(self)@.head < width * height,
    {
        proof {
            lemma_next_head_in_range(self.direction, self.head, width, height);
            assert((self.head as int) < 0x10000 * (width as int)) by (nonlinear_arith)
                requires
                    1 <= width,
                    height <= 0xFFFF,
                    self.head < width * height,
            ;
        }
        let (row, col) = get_row_col(self.head, width);
        let next = match self.direction {
            Direction::Up => {
                let row2 = ((row as u32) + (height as u32) - 1) % (height as u32);
                get_index(row2 as u16, col, width)
            },
            Direction::Right => {
                let col2 = ((col as u32) + 1) % (width as u32);
                get_index(row, col2 as u16, width)
            },
            Direction::Down => {
                let row2 = ((row as u32) + 1) % (height as u32);
                get_index(row2 as u16, col, width)
            },
            Direction::Left => {
                let col2 = ((col as u32) + (width as u32) - 1) % (width as u32);
                get_index(row, col2 as u16, width)
            },
        };
        self.head = next;
        if cut_tail {
            self.tail = self.cells[0];
            self.cells.remove(0);
        }
        self.cells.push(self.head);
        proof {
            assert(self@ =~= spec_march(old(self)@, width, height, cut_tail));
        }
    }
}

} // verus!
