//! Numbers, columns, lists and durations.

use busbar_admin::labels::{text_precedes, Labels};
use busbar_admin::place::{place_at, placed, Place};
use busbar_admin::text::{
    bool_text, decimal_text, human_duration, join, opt, pad, pools_summary, same_text, truncate,
};

#[test]
fn durations_name_the_units_that_are_not_zero() {
    assert_eq!(human_duration(0), "0s");
    assert_eq!(human_duration(59), "59s");
    assert_eq!(human_duration(72), "1m 12s");
    assert_eq!(human_duration(3_600), "1h 0s");
    assert_eq!(human_duration(3_661), "1h 1m 1s");
    assert_eq!(human_duration(86_400), "1d 0s");
    assert_eq!(human_duration(93_784), "1d 2h 3m 4s");
    assert_eq!(human_duration(u64::MAX), "213503982334601d 7h 15s");
}

#[test]
fn a_cut_text_ends_in_an_ellipsis() {
    assert_eq!(truncate("abc", 3), "abc");
    assert_eq!(truncate("abcd", 3), "ab…");
    assert_eq!(truncate("äöüß", 3), "äö…");
    assert_eq!(truncate("ab", 1), "…");
    assert_eq!(truncate("", 0), "");
    assert_eq!(truncate("ab", 0), "…");
}

#[test]
fn a_column_is_filled_with_spaces() {
    assert_eq!(pad("ab", 4), "ab  ");
    assert_eq!(pad("äb", 3), "äb ");
    assert_eq!(pad("abcd", 3), "abcd");
    assert_eq!(pad("", 2), "  ");
}

#[test]
fn numbers_and_flags_are_spelled_out() {
    assert_eq!(decimal_text(0), "0");
    assert_eq!(decimal_text(1_234_567_890), "1234567890");
    assert_eq!(decimal_text(u64::MAX), "18446744073709551615");
    assert_eq!(bool_text(true), "true");
    assert_eq!(bool_text(false), "false");
    assert_eq!(opt(Some(false)), "false");
    assert_eq!(opt(None), "-");
    assert!(same_text("a", "a"));
    assert!(!same_text("a", "b"));
}

#[test]
fn lists_are_joined() {
    assert_eq!(join(&[], ", "), "");
    assert_eq!(join(&["a".into()], ", "), "a");
    assert_eq!(join(&["a".into(), "".into(), "b".into()], ", "), "a, , b");
}

#[test]
fn the_pools_column_keeps_the_three_states_apart() {
    assert_eq!(pools_summary(&None), "(all)");
    assert_eq!(pools_summary(&Some(vec![])), "(none)");
    assert_eq!(
        pools_summary(&Some(vec!["fast".into(), "cheap".into()])),
        "fast,cheap"
    );
    assert_eq!(
        pools_summary(&Some(vec!["default".into(), "backup".into()])),
        "default,bac…"
    );
}

#[test]
fn labels_are_ordered_as_strings_are() {
    for a in ["", "a", "ab", "b", "Z", "é", "ż"] {
        for b in ["", "a", "ab", "b", "Z", "é", "ż"] {
            assert_eq!(text_precedes(a, b), a < b, "{a} {b}");
        }
    }
    let mut one = Labels::new();
    one.insert("b".into(), "1".into());
    one.insert("a".into(), "2".into());
    one.insert("b".into(), "3".into());
    let mut two = Labels::default();
    two.insert("a".into(), "2".into());
    two.insert("b".into(), "3".into());
    assert_eq!(one, two);
}

#[test]
fn places_count_lines_and_bytes() {
    let text = "ab\n\u{e9}c\n\n";
    let at = |offset: usize| place_at(text.as_bytes(), offset).map(|p| (p.line, p.column));
    assert_eq!(at(0), Some((1, 0)));
    assert_eq!(at(2), Some((1, 2)));
    assert_eq!(at(3), Some((2, 0)));
    assert_eq!(at(6), Some((2, 3)));
    assert_eq!(at(7), Some((3, 0)));
    assert_eq!(at(8), Some((4, 0)));
    assert_eq!(at(9), None);
    assert_eq!(place_at(b"", usize::MAX), None);
    let place = Place {
        line: 3,
        column: 14,
    };
    assert_eq!(placed("odd", Some(place)), "odd at line 3 column 14");
    assert_eq!(placed("odd", None), "odd");
}
