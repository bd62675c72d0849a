use hinaview::sorting::{name_before, natural_cmp_ci, sort_names_naturally};
use std::cmp::Ordering;

#[test]
fn digit_runs_compare_by_value() {
    assert_eq!(natural_cmp_ci("page2.png", "page10.png"), Ordering::Less);
    assert_eq!(natural_cmp_ci("page10.png", "page2.png"), Ordering::Greater);
    assert_eq!(natural_cmp_ci("img007", "img7"), Ordering::Equal);
    assert_eq!(natural_cmp_ci("v1.10", "v1.9"), Ordering::Greater);
}

#[test]
fn letters_compare_ignoring_case() {
    assert_eq!(natural_cmp_ci("Alpha", "alpha"), Ordering::Equal);
    assert_eq!(natural_cmp_ci("abc", "ABD"), Ordering::Less);
    assert_eq!(natural_cmp_ci("", "a"), Ordering::Less);
    assert_eq!(natural_cmp_ci("a", ""), Ordering::Greater);
    assert_eq!(natural_cmp_ci("", ""), Ordering::Equal);
    assert!(name_before("B1", "b2"));
    assert!(!name_before("b2", "B1"));
    assert!(!name_before("same", "SAME"));
}

#[test]
fn names_are_sorted_naturally_and_equal_names_keep_their_order() {
    let names = vec![
        "p10.jpg".to_string(),
        "P2.jpg".to_string(),
        "p1.jpg".to_string(),
        "cover.jpg".to_string(),
        "p02.jpg".to_string(),
    ];
    let sorted = sort_names_naturally(names);
    assert_eq!(sorted, vec!["cover.jpg", "p1.jpg", "P2.jpg", "p02.jpg", "p10.jpg"]);
}
