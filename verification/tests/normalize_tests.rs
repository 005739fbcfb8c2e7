use zy::normalize::PathError;
use zy::normalize::normalize_path;

fn segs(path: &str) -> Vec<String> {
    normalize_path(path).expect("path should normalize")
}

#[test]
fn leading_separator_is_dropped() {
    assert_eq!(segs("/a"), vec!["a".to_string()]);
}

#[test]
fn parent_segment_pops_previous() {
    assert_eq!(segs("a/../b"), vec!["b".to_string()]);
}

#[test]
fn mixed_segments_normalize() {
    assert_eq!(segs("/a/b/../c/./d"), vec!["a".to_string(), "c".to_string(), "d".to_string()]);
}

#[test]
fn drive_prefix_is_rejected() {
    assert_eq!(normalize_path("C:\\a"), Err(PathError::UnsupportedComponent));
}

#[test]
fn colon_segment_is_rejected_anywhere() {
    assert_eq!(normalize_path("a/b:c/d"), Err(PathError::UnsupportedComponent));
}

#[test]
fn surplus_parents_stay_at_root() {
    assert_eq!(segs("../../x"), vec!["x".to_string()]);
}

#[test]
fn parents_alone_yield_empty() {
    assert_eq!(segs("../.."), Vec::<String>::new());
}

#[test]
fn empty_path_yields_empty() {
    assert_eq!(segs(""), Vec::<String>::new());
}

#[test]
fn doubled_separators_collapse() {
    assert_eq!(segs("a//b"), vec!["a".to_string(), "b".to_string()]);
}

#[test]
fn backslash_separates_too() {
    assert_eq!(segs("a\\b"), vec!["a".to_string(), "b".to_string()]);
}

#[test]
fn current_dir_segments_vanish() {
    assert_eq!(segs("./a/."), vec!["a".to_string()]);
}

#[test]
fn hidden_name_survives_normalization() {
    assert_eq!(segs("/.env"), vec![".env".to_string()]);
}
