use morphic_tui::sorting::{stable_sort, SortKey};
use morphic_tui::text::chars_of;

fn text(s: &str) -> SortKey {
    SortKey::Text(chars_of(s))
}

fn labels(v: &Vec<(SortKey, &'static str)>) -> Vec<&'static str> {
    v.iter().map(|e| e.1).collect()
}

#[test]
fn ascending_sort_is_stable() {
    let v = vec![(text("b"), "b1"), (text("a"), "a1"), (text("b"), "b2"), (text("a"), "a2")];
    let r = stable_sort(v, true);
    assert_eq!(labels(&r), vec!["a1", "a2", "b1", "b2"]);
}

#[test]
fn descending_sort_keeps_ties_in_order() {
    let v = vec![(SortKey::Number(1), "x"), (SortKey::Number(3), "y"), (SortKey::Number(1), "z"), (SortKey::Number(2), "w")];
    let r = stable_sort(v, false);
    assert_eq!(labels(&r), vec!["y", "w", "x", "z"]);
}

#[test]
fn numbers_compare_by_value_and_texts_by_code_point() {
    let v = vec![(SortKey::Number(10), "10"), (SortKey::Number(9), "9"), (SortKey::Number(-3), "-3")];
    assert_eq!(labels(&stable_sort(v, true)), vec!["-3", "9", "10"]);
    let v = vec![(text("b"), "b"), (text("B"), "B"), (text("ab"), "ab"), (text("a"), "a")];
    assert_eq!(labels(&stable_sort(v, true)), vec!["B", "a", "ab", "b"]);
}

#[test]
fn sorting_sorted_rows_changes_nothing() {
    let v = vec![(text("a"), "1"), (text("a"), "2"), (text("c"), "3")];
    let once = stable_sort(v, true);
    let once_labels = labels(&once);
    let twice = stable_sort(once, true);
    assert_eq!(labels(&twice), once_labels);
    let empty: Vec<(SortKey, &'static str)> = vec![];
    assert!(stable_sort(empty, false).is_empty());
}
