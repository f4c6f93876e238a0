use gridedit::selection::Selection;

#[test]
fn single_makes_one_cell_selection() {
    let s = Selection::single(5, 7);
    assert_eq!(s.start, (5, 7));
    assert_eq!(s.end, (5, 7));
    assert!(s.is_single());
}

#[test]
fn bounds_normalize_any_corner_order() {
    let s = Selection { start: (9, 2), end: (3, 8) };
    assert_eq!(s.bounds(), (3, 2, 9, 8));
    let t = Selection { start: (3, 8), end: (9, 2) };
    assert_eq!(t.bounds(), (3, 2, 9, 8));
}

#[test]
fn contains_checks_the_normalized_rectangle() {
    let s = Selection { start: (9, 2), end: (3, 8) };
    assert!(s.contains(3, 2));
    assert!(s.contains(9, 8));
    assert!(s.contains(5, 5));
    assert!(!s.contains(2, 5));
    assert!(!s.contains(10, 5));
    assert!(!s.contains(5, 1));
    assert!(!s.contains(5, 9));
}

#[test]
fn is_single_detects_multi_cell() {
    let s = Selection { start: (1, 1), end: (1, 2) };
    assert!(!s.is_single());
}
