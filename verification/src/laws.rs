//! General laws of the game: how score, length, bait placement, wrap-around
//! movement, collision recovery, and reset relate across ticks, proved over
//! the same spec functions the public contracts use.

use vstd::prelude::*;

use crate::board::BoardView;
use crate::board::Cell;
use crate::board::DEFAULT_BAIT;
use crate::board::INITIAL_SNAKE_LENGTH;
use crate::board::spec_bait_lit_cells;
use crate::board::spec_collision_outcome;
use crate::board::spec_default_board;
use crate::board::spec_tick_collides;
use crate::board::spec_tick_eat_outcome;
use crate::board::spec_tick_eats;
use crate::board::spec_tick_normal_outcome;
use crate::grid::spec_col;
use crate::grid::spec_row;
use crate::snake::Direction;
use crate::snake::spec_next_head;

verus! {

/// Score of a board: segments gained since the last reset.
pub open spec fn spec_score(b: BoardView) -> int {
    b.snake.cells.len() - INITIAL_SNAKE_LENGTH
}

/// A tick that does not reach the bait and does not collide leaves the
/// score, the snake's length, and the bait unchanged.
pub proof fn lemma_tick_without_bait_keeps_score(pre: BoardView, post: BoardView)
    requires
        pre.wf(),
        !spec_tick_eats(pre),
        !spec_tick_collides(pre),
        post == spec_tick_normal_outcome(pre),
    ensures
        spec_score(post) == spec_score(pre),
        post.snake.cells.len() == pre.snake.cells.len(),
        post.bait == pre.bait,
{
}

/// A tick that reaches the bait and does not collide raises the score by
/// exactly one, and places the new bait on a cell that was unlit at
/// selection time — in particular, off the old bait.
pub proof fn lemma_tick_with_bait_grows(pre: BoardView, post: BoardView)
    requires
        pre.wf(),
        spec_tick_eats(pre),
        !spec_tick_collides(pre),
        post == spec_tick_eat_outcome(pre, post.bait),
        spec_bait_lit_cells(pre)[post.bait as int] == Cell::Dead,
    ensures
        spec_score(post) == spec_score(pre) + 1,
        post.snake.cells.len() == pre.snake.cells.len() + 1,
        post.bait != pre.bait,
        0 <= post.bait < pre.cells.len() ==> pre.cells[post.bait as int] == Cell::Dead,
{
    assert(spec_bait_lit_cells(pre)[pre.bait as int] == Cell::Lit);
}

/// Toroidal wrap-around of movement: stepping off an edge re-enters from
/// the opposite edge, keeping the other coordinate; in particular, moving
/// left from column 0 lands on column `width - 1` of the same row, and
/// moving up from row 0 lands on row `height - 1` of the same column.
pub proof fn lemma_march_wraps_around(head: u32, width: u16, height: u16)
    requires
        1 <= width,
        1 <= height,
        head < width * height,
    ensures
        spec_col(head as int, width) == 0 ==> spec_next_head(Direction::Left, head, width, height)
            == head + width - 1,
        spec_col(head as int, width) == width - 1 ==> spec_next_head(
            Direction::Right,
            head,
            width,
            height,
        ) == head - (width - 1),
        spec_row(head as int, width) == 0 ==> spec_next_head(Direction::Up, head, width, height)
            == (height - 1) * width + spec_col(head as int, width),
        spec_row(head as int, width) == height - 1 ==> spec_next_head(
            Direction::Down,
            head,
            width,
            height,
        ) == spec_col(head as int, width),
{
    let w = width as int;
    let h = height as int;
    let row = spec_row(head as int, width);
    let col = spec_col(head as int, width);
    assert(0 <= row < h && 0 <= col < w && head == row * w + col) by (nonlinear_arith)
        requires
            1 <= w,
            1 <= h,
            0 <= head < w * h,
            row == head as int / w,
            col == head as int % w,
    ;
    assert((w - 1) % w == w - 1 && w % w == 0 && (h - 1) % h == h - 1 && h % h == 0)
        by (nonlinear_arith)
        requires
            1 <= w,
            1 <= h,
    ;
    if col == 0 {
        assert(spec_next_head(Direction::Left, head, width, height) == row * w + (w - 1));
    }
    if row == h - 1 {
        assert((row + 1) % h == 0);
        assert(spec_next_head(Direction::Down, head, width, height) == 0 * w + col);
    }
}

/// A colliding tick restores the defaults: the snake, heading, bait, and
/// score of the resulting board equal a freshly constructed board's, and
/// the cell buffer equals a fresh one except that the default snake's tail
/// cell was cleared by the tick's final tail-clearing write.
pub proof fn lemma_collision_resets(pre: BoardView, post: BoardView)
    requires
        pre.wf(),
        spec_tick_collides(pre),
        post == spec_collision_outcome(pre.width, pre.height),
    ensures
        post.snake == spec_default_board(pre.width, pre.height).snake,
        post.bait == DEFAULT_BAIT,
        spec_score(post) == 0,
        post.cells =~= spec_default_board(pre.width, pre.height).cells.update(0, Cell::Dead),
{
    crate::board::lemma_default_board_wf(pre.width, pre.height);
}

/// Resetting a board that is already in the freshly reset state changes
/// nothing: two resets in a row end exactly where one does.
pub proof fn lemma_reset_idempotent(b0: BoardView, b1: BoardView, b2: BoardView)
    requires
        b1 == spec_default_board(b0.width, b0.height),
        b2 == spec_default_board(b1.width, b1.height),
    ensures
        b2 == b1,
{
}

} // verus!
