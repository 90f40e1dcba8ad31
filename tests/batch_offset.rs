use scroll_window::{snap_to_batch_offset, SnapError};

#[test]
fn snaps_fifty_five_to_fifty() {
    assert_eq!(snap_to_batch_offset(55, 10, 5), Ok(50));
}

#[test]
fn rounds_half_up() {
    assert_eq!(snap_to_batch_offset(24, 10, 5), Ok(0));
    assert_eq!(snap_to_batch_offset(25, 10, 5), Ok(50));
    assert_eq!(snap_to_batch_offset(74, 10, 5), Ok(50));
    assert_eq!(snap_to_batch_offset(75, 10, 5), Ok(100));
}

#[test]
fn zero_offset_stays_zero() {
    assert_eq!(snap_to_batch_offset(0, 7, 3), Ok(0));
}

#[test]
fn result_is_batch_aligned() {
    for top in 0..500usize {
        let s = snap_to_batch_offset(top, 7, 3).unwrap();
        assert_eq!(s % 21, 0);
        assert_eq!(s % 7, 0);
    }
}

#[test]
fn snapping_twice_changes_nothing() {
    for top in 0..500usize {
        let s = snap_to_batch_offset(top, 6, 4).unwrap();
        assert_eq!(snap_to_batch_offset(s, 6, 4), Ok(s));
    }
}

#[test]
fn zero_item_height_is_division_by_zero() {
    assert_eq!(snap_to_batch_offset(55, 0, 5), Err(SnapError::DivisionByZero));
}

#[test]
fn zero_batch_size_is_division_by_zero() {
    assert_eq!(snap_to_batch_offset(55, 10, 0), Err(SnapError::DivisionByZero));
}

#[test]
fn oversized_batch_is_overflow() {
    assert_eq!(snap_to_batch_offset(1, usize::MAX, 2), Err(SnapError::Overflow));
}

#[test]
fn offset_near_the_top_is_overflow() {
    assert_eq!(snap_to_batch_offset(usize::MAX - 10, 10, 5), Err(SnapError::Overflow));
}

#[test]
fn largest_offset_that_fits() {
    assert_eq!(snap_to_batch_offset(usize::MAX - 25, 10, 5), Ok((usize::MAX - 25 + 25) / 50 * 50));
}
