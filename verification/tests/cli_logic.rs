//! The argument mappings that `keys create` goes through.

use busbar_admin::argmap::{parse_labels, resolve_allowed_pools};

#[test]
fn main_parse_labels_splits_on_first_equals_only() {
    let m = parse_labels(&["url=http://x?a=b".into(), "team=platform".into()]).unwrap();
    assert_eq!(m.get("url").map(String::as_str), Some("http://x?a=b"));
    assert_eq!(m.get("team").map(String::as_str), Some("platform"));
}

#[test]
fn main_parse_labels_rejects_a_pair_with_no_equals() {
    assert!(parse_labels(&["novalue".into()]).is_err());
}

#[test]
fn main_parse_labels_allows_empty_value() {
    let m = parse_labels(&["k=".into()]).unwrap();
    assert_eq!(m.get("k").map(String::as_str), Some(""));
}

#[test]
fn main_allowed_pools_tristate_no_pools_is_empty_not_none() {
    assert_eq!(
        resolve_allowed_pools(true, &[]),
        Some(Vec::new()),
        "--no-pools => NO pools"
    );
    assert_eq!(
        resolve_allowed_pools(false, &[]),
        None,
        "omitted => ALL pools"
    );
    assert_eq!(
        resolve_allowed_pools(false, &["p1".into()]),
        Some(vec!["p1".into()]),
        "a list => exactly those pools"
    );
}
