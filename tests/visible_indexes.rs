use scroll_window::get_visible_indexes;

#[test]
fn keeps_in_window_elements_in_order() {
    let r = get_visible_indexes(3, 8, &[10, 7, 2, 3, 8, 5, 7]);
    assert_eq!(r, vec![7, 3, 5, 7]);
}

#[test]
fn every_kept_element_is_in_window_and_each_appears_once() {
    let revealed = [0usize, 4, 9, 4, 6, 1, 5];
    let r = get_visible_indexes(4, 6, &revealed);
    assert!(r.iter().all(|&x| 4 <= x && x < 6));
    for v in 4..6 {
        let want = revealed.iter().filter(|&&x| x == v).count();
        let got = r.iter().filter(|&&x| x == v).count();
        assert_eq!(want, got);
    }
    assert_eq!(r, vec![4, 4, 5]);
}

#[test]
fn empty_window_selects_nothing() {
    assert_eq!(get_visible_indexes(5, 5, &[4, 5, 6]), Vec::<usize>::new());
}

#[test]
fn reversed_window_selects_nothing() {
    assert_eq!(get_visible_indexes(9, 2, &[1, 2, 3, 5, 8, 9]), Vec::<usize>::new());
}

#[test]
fn empty_input_selects_nothing() {
    assert_eq!(get_visible_indexes(0, 100, &[]), Vec::<usize>::new());
}

#[test]
fn window_up_to_largest_index() {
    let r = get_visible_indexes(usize::MAX - 1, usize::MAX, &[usize::MAX, usize::MAX - 1, 0]);
    assert_eq!(r, vec![usize::MAX - 1]);
}
