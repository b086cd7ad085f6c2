use snake_core::BaitRng;
use snake_core::Board;
use snake_core::Cell;
use snake_core::CountingNotifier;
use snake_core::Direction;
use snake_core::GameOverNotifier;
use snake_core::LcgRng;

/// A bait source that always proposes the same cell, clamped to the range.
struct FixedRng(usize);

impl BaitRng for FixedRng {
    fn random_in_range(&mut self, min: usize, max: usize) -> usize {
        if self.0 < min {
            min
        } else if self.0 > max {
            max
        } else {
            self.0
        }
    }
}

/// A bait source that replays a script, clamped to the range, and repeats
/// the last entry once the script runs out.
struct ScriptedRng {
    values: Vec<usize>,
    next: usize,
}

impl BaitRng for ScriptedRng {
    fn random_in_range(&mut self, min: usize, max: usize) -> usize {
        let i = if self.next < self.values.len() { self.next } else { self.values.len() - 1 };
        self.next += 1;
        let v = self.values[i];
        if v < min {
            min
        } else if v > max {
            max
        } else {
            v
        }
    }
}

fn snapshot(b: &Board) -> (Vec<Cell>, Vec<u32>, u32, Direction, usize) {
    (b.cells().clone(), b.snake_cells().clone(), b.bait(), b.direction(), b.score())
}

#[test]
fn fresh_board_has_width_times_height_cells() {
    let b = Board::new(10, 10);
    assert_eq!(b.cells().len(), 100);
    let b = Board::new(12, 15);
    assert_eq!(b.cells().len(), 180);
    let mut b = Board::new(11, 13);
    b.reset();
    assert_eq!(b.cells().len(), 143);
}

#[test]
fn fresh_board_defaults() {
    let b = Board::new(10, 10);
    assert_eq!(b.width(), 10);
    assert_eq!(b.height(), 10);
    assert_eq!(b.bait(), 8);
    assert_eq!(b.direction(), Direction::Right);
    assert_eq!(b.score(), 0);
    assert_eq!(b.snake_cells(), &vec![0, 1, 2]);
    for (i, c) in b.cells().iter().enumerate() {
        if i < 3 {
            assert_eq!(*c, Cell::Lit);
        } else {
            assert_eq!(*c, Cell::Dead);
        }
    }
}

#[test]
fn reset_restores_defaults_after_play() {
    let mut rng = FixedRng(0);
    let mut notifier = CountingNotifier::new();
    let mut b = Board::new(10, 10);
    for _ in 0..4 {
        b.tick(&mut rng, &mut notifier);
    }
    b.reset();
    let fresh = Board::new(10, 10);
    assert_eq!(snapshot(&b), snapshot(&fresh));
    assert_eq!(b.cells().len(), 100);
}

#[test]
fn reset_twice_equals_reset_once() {
    let mut rng = FixedRng(0);
    let mut notifier = CountingNotifier::new();

    let mut once = Board::new(10, 10);
    for _ in 0..3 {
        once.tick(&mut rng, &mut notifier);
    }
    once.reset();

    let mut twice = Board::new(10, 10);
    for _ in 0..3 {
        twice.tick(&mut rng, &mut notifier);
    }
    twice.reset();
    twice.reset();

    assert_eq!(snapshot(&once), snapshot(&twice));
}

#[test]
fn first_tick_moves_head_right() {
    let mut rng = FixedRng(0);
    let mut notifier = CountingNotifier::new();
    let mut b = Board::new(10, 10);
    b.tick(&mut rng, &mut notifier);
    assert_eq!(b.snake_cells(), &vec![1, 2, 3]);
    assert_eq!(b.score(), 0);
    assert_eq!(b.bait(), 8);
    assert_eq!(notifier.count, 0);
    let cells = b.cells();
    assert_eq!(cells[0], Cell::Dead);
    assert_eq!(cells[1], Cell::Lit);
    assert_eq!(cells[2], Cell::Lit);
    assert_eq!(cells[3], Cell::Lit);
    assert_eq!(cells[8], Cell::Lit);
    for (i, c) in cells.iter().enumerate() {
        if !(1..=3).contains(&i) && i != 8 {
            assert_eq!(*c, Cell::Dead);
        }
    }
}

#[test]
fn ticks_without_bait_keep_score_and_length() {
    let mut rng = FixedRng(0);
    let mut notifier = CountingNotifier::new();
    let mut b = Board::new(10, 10);
    for _ in 0..5 {
        b.tick(&mut rng, &mut notifier);
        assert_eq!(b.score(), 0);
        assert_eq!(b.snake_cells().len(), 3);
    }
    assert_eq!(b.snake_cells(), &vec![5, 6, 7]);
    assert_eq!(notifier.count, 0);
}

#[test]
fn eating_bait_grows_snake_and_replaces_bait() {
    let mut rng = FixedRng(0);
    let mut notifier = CountingNotifier::new();
    let mut b = Board::new(10, 10);
    for _ in 0..5 {
        b.tick(&mut rng, &mut notifier);
    }
    // Head sits at 7 just before the bait at 8; cell 0 is unlit.
    assert_eq!(b.cells()[0], Cell::Dead);
    b.tick(&mut rng, &mut notifier);
    assert_eq!(b.score(), 1);
    assert_eq!(b.snake_cells(), &vec![6, 7, 8, 9]);
    assert_eq!(b.bait(), 0);
    assert_eq!(notifier.count, 0);
    let cells = b.cells();
    for (i, c) in cells.iter().enumerate() {
        if (6..=9).contains(&i) {
            assert_eq!(*c, Cell::Lit);
        } else {
            assert_eq!(*c, Cell::Dead);
        }
    }
}

#[test]
fn bait_placement_rejects_lit_cells() {
    let mut rng = ScriptedRng { values: vec![5, 7, 42], next: 0 };
    let mut notifier = CountingNotifier::new();
    let mut b = Board::new(10, 10);
    for _ in 0..6 {
        b.tick(&mut rng, &mut notifier);
    }
    // On the consuming tick the lit cells were {5, 6, 7, 8}; the proposals
    // 5 and 7 must be rejected and 42 accepted.
    assert_eq!(b.score(), 1);
    assert_eq!(b.bait(), 42);
}

#[test]
fn reversing_into_the_body_collides_and_resets() {
    let mut rng = FixedRng(0);
    let mut notifier = CountingNotifier::new();
    let mut b = Board::new(10, 10);
    b.change_direction(Direction::Left);
    b.tick(&mut rng, &mut notifier);
    assert_eq!(notifier.count, 1);
    let fresh = Board::new(10, 10);
    assert_eq!(b.snake_cells(), fresh.snake_cells());
    assert_eq!(b.bait(), fresh.bait());
    assert_eq!(b.direction(), fresh.direction());
    assert_eq!(b.score(), 0);
    // The buffer matches a fresh board's except that the tick's final
    // tail-clearing write leaves the default tail cell unlit.
    assert_eq!(b.cells()[0], Cell::Dead);
    assert_eq!(fresh.cells()[0], Cell::Lit);
    for i in 1..100 {
        assert_eq!(b.cells()[i], fresh.cells()[i]);
    }
}

#[test]
fn collision_notifies_once_per_crash() {
    let mut rng = FixedRng(0);
    let mut notifier = CountingNotifier::new();
    let mut b = Board::new(10, 10);
    b.change_direction(Direction::Left);
    b.tick(&mut rng, &mut notifier);
    assert_eq!(notifier.count, 1);
    // After the reset the game plays on; a clean tick fires nothing.
    b.tick(&mut rng, &mut notifier);
    assert_eq!(notifier.count, 1);
    // A second crash fires exactly once more.
    b.change_direction(Direction::Left);
    b.tick(&mut rng, &mut notifier);
    assert_eq!(notifier.count, 2);
}

#[test]
fn change_direction_takes_effect_next_tick() {
    let mut rng = FixedRng(0);
    let mut notifier = CountingNotifier::new();
    let mut b = Board::new(10, 10);
    b.tick(&mut rng, &mut notifier);
    b.change_direction(Direction::Down);
    assert_eq!(b.snake_cells(), &vec![1, 2, 3]);
    b.tick(&mut rng, &mut notifier);
    assert_eq!(b.snake_cells(), &vec![2, 3, 13]);
    assert_eq!(b.direction(), Direction::Down);
}

#[test]
fn lcg_rng_stays_in_range() {
    let mut rng = LcgRng::new(12345);
    for _ in 0..200 {
        let r = rng.random_in_range(3, 9);
        assert!((3..=9).contains(&r));
    }
    assert_eq!(rng.random_in_range(5, 5), 5);
}

#[test]
fn counting_notifier_counts_calls() {
    let mut n = CountingNotifier::new();
    assert_eq!(n.count, 0);
    n.notify();
    n.notify();
    assert_eq!(n.count, 2);
}
