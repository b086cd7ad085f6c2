use snake_core::grid::get_index;
use snake_core::grid::get_row_col;

#[test]
fn index_is_row_major() {
    assert_eq!(get_index(0, 0, 10), 0);
    assert_eq!(get_index(0, 7, 10), 7);
    assert_eq!(get_index(2, 3, 10), 23);
    assert_eq!(get_index(9, 9, 10), 99);
    assert_eq!(get_index(4, 11, 12), 59);
}

#[test]
fn index_handles_largest_grid() {
    assert_eq!(get_index(65535, 65534, 65535), 4294901759);
}

#[test]
fn row_col_inverts_index() {
    assert_eq!(get_row_col(0, 10), (0, 0));
    assert_eq!(get_row_col(7, 10), (0, 7));
    assert_eq!(get_row_col(23, 10), (2, 3));
    assert_eq!(get_row_col(99, 10), (9, 9));
    assert_eq!(get_row_col(59, 12), (4, 11));
}

#[test]
fn row_col_roundtrips_through_index() {
    for index in [0u32, 1, 9, 10, 55, 99] {
        let (row, col) = get_row_col(index, 10);
        assert_eq!(get_index(row, col, 10), index);
    }
}
