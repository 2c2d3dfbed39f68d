//! Key-level differences between snapshots.

use configx::{diff_snapshots, ConfigDiff, ConfigMap};

fn snapshot(pairs: &[(&str, &str)]) -> ConfigMap {
    ConfigMap::from_pairs(pairs)
}

#[test]
fn identical_snapshots_produce_empty_diff() {
    let left = snapshot(&[("b", "2"), ("a", "1")]);
    let diff = diff_snapshots(&left, &left.clone());
    assert!(diff.is_empty());
    assert_eq!(diff.total_changes(), 0);
    assert_eq!(diff, ConfigDiff::default());
}

#[test]
fn both_empty_snapshots_agree() {
    let empty = ConfigMap::new();
    let diff = diff_snapshots(&empty, &empty);
    assert!(diff.is_empty());
    assert_eq!(diff.total_changes(), 0);
}

#[test]
fn classifies_left_only_right_only_and_changed() {
    let left = snapshot(&[("keep", "1"), ("changed", "old"), ("only.left", "x")]);
    let right = snapshot(&[("keep", "1"), ("changed", "new"), ("only.right", "y")]);
    let diff = diff_snapshots(&left, &right);
    assert_eq!(diff.only_left, vec!["only.left".to_string()]);
    assert_eq!(diff.only_right, vec!["only.right".to_string()]);
    assert_eq!(diff.changed, vec!["changed".to_string()]);
    assert_eq!(diff.total_changes(), 3);
    assert!(!diff.is_empty());
}

#[test]
fn all_change_kinds_are_sorted_ascending() {
    let left = snapshot(&[("z", "1"), ("m", "1"), ("a", "1")]);
    let right = snapshot(&[("z", "2"), ("m", "2"), ("a", "2")]);
    let diff = diff_snapshots(&left, &right);
    assert_eq!(
        diff.changed,
        vec!["a".to_string(), "m".to_string(), "z".to_string()]
    );

    let left_only = snapshot(&[("z", "1"), ("a", "1")]);
    let diff = diff_snapshots(&left_only, &ConfigMap::new());
    assert_eq!(
        diff.only_left,
        vec!["a".to_string(), "z".to_string()],
        "仅左侧的键同样按键升序"
    );
}

#[test]
fn value_equality_ignores_nothing_by_type() {
    let diff = diff_snapshots(&snapshot(&[("k", "01")]), &snapshot(&[("k", "1")]));
    assert_eq!(diff.changed, vec!["k".to_string()]);
}

#[test]
fn key_order_is_the_byte_order_of_strings() {
    // Upper case sorts before lower case, and multi-byte keys after ASCII ones.
    let left = snapshot(&[("b", "1"), ("B", "1"), ("中", "1"), ("a", "1")]);
    let diff = diff_snapshots(&left, &ConfigMap::new());
    assert_eq!(
        diff.only_left,
        vec![
            "B".to_string(),
            "a".to_string(),
            "b".to_string(),
            "中".to_string()
        ]
    );
    let swapped = diff_snapshots(&ConfigMap::new(), &left);
    assert_eq!(swapped.only_right, diff.only_left);
    assert!(swapped.only_left.is_empty());
}

#[test]
fn swapping_sides_swaps_the_one_sided_lists() {
    let left = snapshot(&[("a", "1"), ("b", "2"), ("c", "3")]);
    let right = snapshot(&[("b", "2"), ("c", "4"), ("d", "5"), ("a", "0")]);
    let forward = diff_snapshots(&left, &right);
    let backward = diff_snapshots(&right, &left);
    assert_eq!(forward.only_left, backward.only_right);
    assert_eq!(forward.only_right, backward.only_left);
    assert_eq!(forward.changed, backward.changed);
    assert_eq!(forward.changed, vec!["a".to_string(), "c".to_string()]);
    assert_eq!(forward.only_right, vec!["d".to_string()]);
}
