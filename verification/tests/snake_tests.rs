use snake_core::Direction;
use snake_core::Snake;

#[test]
fn wrap_left_from_column_zero() {
    let mut s = Snake::new(vec![0], Direction::Left);
    s.march(10, 10, false);
    assert_eq!(s.head(), 9);
}

#[test]
fn wrap_right_from_last_column() {
    let mut s = Snake::new(vec![9], Direction::Right);
    s.march(10, 10, false);
    assert_eq!(s.head(), 0);
}

#[test]
fn wrap_up_from_top_row() {
    let mut s = Snake::new(vec![5], Direction::Up);
    s.march(10, 10, false);
    assert_eq!(s.head(), 95);
}

#[test]
fn wrap_down_from_bottom_row() {
    let mut s = Snake::new(vec![95], Direction::Down);
    s.march(10, 10, false);
    assert_eq!(s.head(), 5);
}

#[test]
fn wrap_on_non_square_grid() {
    let mut s = Snake::new(vec![11], Direction::Right);
    s.march(12, 10, false);
    assert_eq!(s.head(), 0);
    let mut s = Snake::new(vec![111], Direction::Down);
    s.march(12, 10, false);
    assert_eq!(s.head(), 3);
}

#[test]
fn interior_moves_do_not_wrap() {
    let mut s = Snake::new(vec![23], Direction::Right);
    s.march(10, 10, false);
    assert_eq!(s.head(), 24);
    let mut s = Snake::new(vec![23], Direction::Left);
    s.march(10, 10, false);
    assert_eq!(s.head(), 22);
    let mut s = Snake::new(vec![23], Direction::Up);
    s.march(10, 10, false);
    assert_eq!(s.head(), 13);
    let mut s = Snake::new(vec![23], Direction::Down);
    s.march(10, 10, false);
    assert_eq!(s.head(), 33);
}

#[test]
fn cutting_march_drops_oldest_segment() {
    let mut s = Snake::new(vec![0, 1, 2], Direction::Right);
    s.march(10, 10, true);
    assert_eq!(s.cells(), &vec![1, 2, 3]);
    assert_eq!(s.head(), 3);
    assert_eq!(s.tail(), 0);
    assert_eq!(s.direction(), Direction::Right);
}

#[test]
fn growing_march_keeps_every_segment() {
    let mut s = Snake::new(vec![0, 1, 2], Direction::Right);
    s.march(10, 10, false);
    assert_eq!(s.cells(), &vec![0, 1, 2, 3]);
    assert_eq!(s.head(), 3);
    assert_eq!(s.tail(), 0);
}

#[test]
fn tail_lags_one_cut_behind() {
    let mut s = Snake::new(vec![0, 1, 2], Direction::Right);
    s.march(10, 10, true);
    assert_eq!(s.tail(), 0);
    s.march(10, 10, true);
    assert_eq!(s.tail(), 1);
    assert_eq!(s.cells(), &vec![2, 3, 4]);
}
