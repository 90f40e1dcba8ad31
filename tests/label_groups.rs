use scroll_window::group_indexes;

fn labels(xs: &[&str]) -> Vec<Option<String>> {
    xs.iter().map(|s| Some(s.to_string())).collect()
}

#[test]
fn first_occurrence_wins() {
    let r = group_indexes(&labels(&["a", "b", "a", "c"]));
    assert_eq!(r, vec![("a".to_string(), 0), ("b".to_string(), 1), ("c".to_string(), 3)]);
}

#[test]
fn missing_label_groups_as_empty_string() {
    let input = vec![None, Some("x".to_string()), Some(String::new()), None];
    let r = group_indexes(&input);
    assert_eq!(r, vec![(String::new(), 0), ("x".to_string(), 1)]);
}

#[test]
fn no_labels_give_no_groups() {
    assert_eq!(group_indexes(&[]), Vec::<(String, usize)>::new());
}

#[test]
fn all_equal_labels_give_one_group() {
    let r = group_indexes(&labels(&["z", "z", "z"]));
    assert_eq!(r, vec![("z".to_string(), 0)]);
}

#[test]
fn labels_compare_by_content() {
    let r = group_indexes(&labels(&["ab", "a", "abc", "ab", "A"]));
    assert_eq!(
        r,
        vec![
            ("ab".to_string(), 0),
            ("a".to_string(), 1),
            ("abc".to_string(), 2),
            ("A".to_string(), 4)
        ]
    );
}
