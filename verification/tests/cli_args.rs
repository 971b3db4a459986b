//! The mappings from command-line arguments.

use busbar_admin::argmap::{parse_labels, resolve_allowed_pools};

#[test]
fn cli_args_parse_labels_splits_on_first_equals_only() {
    // A value containing '=' (a URL query string, base64 padding) must survive intact: the split
    // is on the first '=', not all of them.
    let m = parse_labels(&["url=http://x?a=b".into(), "team=platform".into()]).unwrap();
    assert_eq!(m.get("url").map(String::as_str), Some("http://x?a=b"));
    assert_eq!(m.get("team").map(String::as_str), Some("platform"));
}

#[test]
fn cli_args_parse_labels_rejects_a_pair_with_no_equals() {
    assert!(parse_labels(&["novalue".into()]).is_err());
}

#[test]
fn cli_args_parse_labels_allows_empty_value() {
    let m = parse_labels(&["k=".into()]).unwrap();
    assert_eq!(m.get("k").map(String::as_str), Some(""));
}

#[test]
fn cli_args_allowed_pools_tristate_no_pools_is_empty_not_none() {
    assert_eq!(
        resolve_allowed_pools(true, &[]),
        Some(Vec::new()),
        "--no-pools => NO pools"
    );
    assert_eq!(
        resolve_allowed_pools(false, &[]),
        None,
        "omitted => ALL pools"
    );
    assert_eq!(
        resolve_allowed_pools(false, &["p1".into()]),
        Some(vec!["p1".into()]),
        "a list => exactly those pools"
    );
}

#[test]
fn labels_come_in_key_order_and_the_last_one_counts() {
    let m = parse_labels(&["b=1".into(), "a=2".into(), "b=3".into(), "=e".into()]).unwrap();
    let pairs: Vec<(&str, &str)> = m
        .entries()
        .iter()
        .map(|(k, v)| (k.as_str(), v.as_str()))
        .collect();
    assert_eq!(pairs, vec![("", "e"), ("a", "2"), ("b", "3")]);
    assert_eq!(m.get("c"), None);
    assert!(!m.is_empty());
    assert!(parse_labels(&[]).unwrap().is_empty());
}

#[test]
fn the_first_pair_without_equals_is_quoted() {
    let e = parse_labels(&["a=1".into(), "no \"value\"".into(), "neither".into()]).unwrap_err();
    assert_eq!(
        e.message(),
        "--label must be KEY=VALUE, got \"no \\\"value\\\"\""
    );
}

#[test]
fn no_pools_outranks_named_pools() {
    assert_eq!(
        resolve_allowed_pools(true, &["p1".into()]),
        Some(Vec::new())
    );
    assert_eq!(
        resolve_allowed_pools(false, &["b".into(), "a".into(), "b".into()]),
        Some(vec!["b".into(), "a".into(), "b".into()])
    );
}
