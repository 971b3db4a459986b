//! Which documents stand for which values.

use busbar_admin::client::{
    ErrorEnvelope, HookView, InfoView, InspectView, KeyPage, KeyView, RevokeView,
};
use busbar_admin::json::{parse_json, Json};
use busbar_admin::labels::Labels;
use busbar_admin::wire::{DecodeError, Wire};

fn read<T: Wire>(text: &str) -> Result<T, String> {
    T::from_json(&parse_json(text)?).map_err(|e| e.message())
}

fn fault<T: Wire>(text: &str) -> String {
    match read::<T>(text) {
        Ok(_) => panic!("{text} is read"),
        Err(e) => e,
    }
}

fn text(s: &str) -> Json {
    Json::Text(s.to_string())
}

fn member(name: &str, json: Json) -> (String, Json) {
    (name.to_string(), json)
}

#[test]
fn a_text_is_read_as_a_document() {
    assert_eq!(
        parse_json(r#" {"b": [1, -2, 1.5, true, null], "a": "x\n", "b": {}} "#),
        Ok(Json::Object(vec![
            member("a", text("x\n")),
            member("b", Json::Object(vec![])),
        ]))
    );
    assert_eq!(
        parse_json("[18446744073709551615, -9223372036854775808, 18446744073709551616]"),
        Ok(Json::Array(vec![
            Json::Unsigned(u64::MAX),
            Json::Negative(i64::MIN),
            Json::Float("1.8446744073709552e+19".to_string()),
        ]))
    );
    assert_eq!(
        parse_json("{").unwrap_err(),
        "EOF while parsing an object at line 1 column 1"
    );
    assert_eq!(
        parse_json("1 2").unwrap_err(),
        "trailing characters at line 1 column 3"
    );
}

#[test]
fn a_copy_says_the_same() {
    let j = parse_json(r#"{"a": [1, -2, 1.5, "s", null, {"b": true}]}"#).unwrap();
    assert_eq!(j.copy(), j);
}

#[test]
fn absent_fields_have_their_defaults() {
    let k: KeyView = read(r#"{"id": "i", "name": "n"}"#).unwrap();
    assert_eq!(k.allowed_pools, None);
    assert_eq!(k.group, None);
    assert!(k.labels.is_empty());
    assert_eq!(k.state, "");
    assert!(!k.enabled);
    assert_eq!(k.created_at, 0);
    let page: KeyPage = read("{}").unwrap();
    assert!(page.items.is_empty());
    assert_eq!(page.next_cursor, None);
}

#[test]
fn unknown_members_are_ignored_at_every_level() {
    let page: KeyPage = read(
        r#"{"items": [{"new": {"x": 1}, "id": "i", "name": "n", "newer": null}], "total": 9}"#,
    )
    .unwrap();
    let plain: KeyPage = read(r#"{"items": [{"id": "i", "name": "n"}]}"#).unwrap();
    assert_eq!(page.to_json(), plain.to_json());
}

#[test]
fn what_is_written_is_read_back() {
    let text = r#"{"id":"i","name":"n","allowed_pools":["b","a"],"group":"g",
        "labels":{"z":"1","y":"2"},"state":"active","enabled":true,"created_at":5}"#;
    let k: KeyView = read(text).unwrap();
    let again = KeyView::from_json(&k.to_json()).unwrap();
    assert_eq!(again.to_json(), k.to_json());
    assert_eq!(again.allowed_pools, Some(vec!["b".into(), "a".into()]));
    assert_eq!(again.labels.get("y").map(String::as_str), Some("2"));
}

#[test]
fn metadata_drops_credentials() {
    let k: KeyView =
        read(r#"{"id": "i", "name": "n", "token": "t", "secret": "s"}"#).unwrap();
    match k.to_json() {
        Json::Object(members) => {
            let names: Vec<&str> = members.iter().map(|m| m.0.as_str()).collect();
            assert_eq!(
                names,
                vec![
                    "id",
                    "name",
                    "allowed_pools",
                    "group",
                    "labels",
                    "state",
                    "enabled",
                    "created_at"
                ]
            );
        }
        _ => panic!("no object"),
    }
}

#[test]
fn a_missing_field_is_named() {
    assert_eq!(fault::<RevokeView>("{}"), "missing field `revoked`");
    assert_eq!(fault::<KeyView>(r#"{"id": "i"}"#), "missing field `name`");
    assert_eq!(
        fault::<ErrorEnvelope>(r#"{"error": {"code": "c"}}"#),
        "missing field `message`"
    );
}

#[test]
fn a_repeated_field_is_named() {
    let twice = Json::Object(vec![
        member("revoked", text("a")),
        member("other", Json::Null),
        member("other", Json::Null),
        member("revoked", text("b")),
    ]);
    assert_eq!(
        RevokeView::from_json(&twice).unwrap_err(),
        DecodeError::Repeated {
            field: "revoked".to_string(),
            part: 3
        }
    );
    assert_eq!(
        RevokeView::from_json(&twice).unwrap_err().message(),
        "duplicate field `revoked`"
    );
}

#[test]
fn a_value_of_the_wrong_kind_is_described() {
    for (found, words) in [
        ("null", "null"),
        ("true", "boolean `true`"),
        ("7", "integer `7`"),
        ("-7", "integer `-7`"),
        ("-9223372036854775808", "integer `-9223372036854775808`"),
        ("1.5", "floating point `1.5`"),
        ("1.50", "floating point `1.5`"),
        ("[]", "sequence"),
        ("{}", "map"),
    ] {
        assert_eq!(
            fault::<RevokeView>(&format!(r#"{{"revoked": {found}}}"#)),
            format!("invalid type: {words}, expected a string")
        );
    }
    assert_eq!(
        fault::<KeyView>(r#"{"id": "i", "name": "n", "enabled": "y\"n"}"#),
        r#"invalid type: string "y\"n", expected a boolean"#
    );
    assert_eq!(
        fault::<KeyView>(r#"{"id": "i", "name": "n", "labels": {"a": 1}}"#),
        "invalid type: integer `1`, expected a string"
    );
    assert_eq!(
        fault::<KeyView>(r#"{"id": "i", "name": "n", "labels": []}"#),
        "invalid type: sequence, expected a map"
    );
    assert_eq!(
        fault::<KeyPage>(r#"{"items": {}}"#),
        "invalid type: map, expected a sequence"
    );
    assert_eq!(
        fault::<KeyPage>("7"),
        "invalid type: integer `7`, expected struct KeyPage"
    );
}

#[test]
fn a_number_is_described_as_it_is_read() {
    for (digits, shown) in [
        ("1.50", "1.5"),
        ("1E2", "100.0"),
        ("-0", "-0.0"),
        ("18446744073709551616", "1.8446744073709552e+19"),
    ] {
        let json = Json::Object(vec![member("revoked", Json::Float(digits.to_string()))]);
        assert_eq!(
            RevokeView::from_json(&json).unwrap_err().message(),
            format!("invalid type: floating point `{shown}`, expected a string")
        );
    }
}

#[test]
fn a_number_that_does_not_fit_is_described() {
    let hook = |priority: &str| {
        format!(
            r#"{{"name": "n", "kind": "k", "transport": {{"kind": "t"}}, "priority": {priority}}}"#
        )
    };
    assert_eq!(read::<HookView>(&hook("65535")).unwrap().priority, 65535);
    assert_eq!(
        fault::<HookView>(&hook("65536")),
        "invalid value: integer `65536`, expected u16"
    );
    assert_eq!(
        fault::<HookView>(&hook("-1")),
        "invalid value: integer `-1`, expected u16"
    );
    assert_eq!(
        fault::<HookView>(&hook("1.0")),
        "invalid type: floating point `1.0`, expected u16"
    );
    assert_eq!(
        fault::<KeyView>(r#"{"id": "i", "name": "n", "created_at": -1}"#),
        "invalid value: integer `-1`, expected u64"
    );
}

#[test]
fn a_record_is_read_from_an_array_in_field_order() {
    let k: KeyView = read(r#"["i", "n", ["p"]]"#).unwrap();
    assert_eq!((k.id.as_str(), k.name.as_str()), ("i", "n"));
    assert_eq!(k.allowed_pools, Some(vec!["p".into()]));
    assert_eq!(
        fault::<KeyView>(r#"["i"]"#),
        "invalid length 1, expected struct KeyView with 8 elements"
    );
    assert_eq!(
        fault::<RevokeView>("[]"),
        "invalid length 0, expected struct RevokeView with 1 element"
    );
    assert_eq!(fault::<RevokeView>(r#"["r", 1]"#), "trailing characters");
    assert_eq!(
        fault::<RevokeView>("[2, 1]"),
        "invalid type: integer `2`, expected a string"
    );
}

#[test]
fn the_first_fault_of_the_document_is_told() {
    assert_eq!(
        fault::<KeyView>(r#"{"name": 1}"#),
        "invalid type: integer `1`, expected a string"
    );
    let late = |first: (String, Json), second: (String, Json)| {
        KeyView::from_json(&Json::Object(vec![
            member("unknown", Json::Null),
            first,
            second,
        ]))
        .unwrap_err()
        .message()
    };
    let bad_id = || member("id", Json::Null);
    let bad_name = || member("name", Json::Bool(true));
    assert_eq!(
        late(bad_name(), bad_id()),
        "invalid type: boolean `true`, expected a string"
    );
    assert_eq!(
        late(bad_id(), bad_name()),
        "invalid type: null, expected a string"
    );
    let name = || member("name", text("n"));
    assert_eq!(late(name(), name()), "duplicate field `name`");
    assert_eq!(
        late(name(), bad_id()),
        "invalid type: null, expected a string"
    );
    assert_eq!(fault::<KeyView>("{}"), "missing field `id`");
    assert_eq!(
        fault::<KeyPage>(r#"{"next_cursor": 1, "items": 2}"#),
        "invalid type: integer `2`, expected a sequence"
    );
}

#[test]
fn a_part_that_was_passed_over_matters_only_where_it_is_read() {
    let unread = |t: &str| Json::Unread {
        text: t.to_string(),
        complaint: "number out of range".to_string(),
    };
    let unknown = Json::Object(vec![
        member("revoked", text("r")),
        member("x", Json::Array(vec![unread("1e999")])),
    ]);
    assert_eq!(RevokeView::from_json(&unknown).unwrap().revoked, "r");
    assert_eq!(unknown.copy(), unknown);
    assert_eq!(
        unknown.find_unread().as_deref(),
        Some("number out of range")
    );
    assert_eq!(parse_json("[1, {}]").unwrap().find_unread(), None);
    let known = Json::Object(vec![member("revoked", unread("1e999"))]);
    assert_eq!(
        RevokeView::from_json(&known).unwrap_err().message(),
        "number out of range"
    );
    let schema = Json::Object(vec![
        member("name", text("n")),
        member("schema", unknown.copy()),
    ]);
    assert_eq!(
        InspectView::from_json(&schema).unwrap_err().message(),
        "number out of range"
    );
}

#[test]
fn labels_keep_the_last_of_two_members() {
    let twice = Json::Object(vec![
        member("b", text("1")),
        member("a", text("2")),
        member("b", text("3")),
    ]);
    let labels = Labels::from_json(&twice).unwrap();
    assert_eq!(
        labels.to_json(),
        Json::Object(vec![member("a", text("2")), member("b", text("3"))])
    );
}

#[test]
fn nested_views_are_read() {
    let info: InfoView = read(
        r#"{"version": "v", "build": {}, "topology": {"pools": 1, "models": 2, "providers": 3}}"#,
    )
    .unwrap();
    assert_eq!(info.uptime_seconds, None);
    assert_eq!(
        (info.topology.pools, info.topology.models, info.topology.providers),
        (1, 2, 3)
    );
    assert!(info.build.auth_modules.is_empty());
    assert!(!info.build.weighted_floor);
}
