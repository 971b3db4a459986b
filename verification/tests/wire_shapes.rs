//! The shapes on the wire that the commands depend on: the three states of `allowed_pools`, the
//! signed-token credential, the minimal mint body and the inspect preview.

use busbar_admin::client::{CreateKeyReq, CreatedKeyView, InspectView, KeyView, RotatedKeyView};
use busbar_admin::json::{parse_json, Json};
use busbar_admin::wire::Wire;

fn read<T: Wire>(text: &str) -> Result<T, String> {
    T::from_json(&parse_json(text)?).map_err(|e| e.message())
}

fn names(json: &Json) -> Vec<&str> {
    match json {
        Json::Object(members) => members.iter().map(|m| m.0.as_str()).collect(),
        _ => panic!("expected a JSON object"),
    }
}

fn member<'a>(json: &'a Json, name: &str) -> Option<&'a Json> {
    match json {
        Json::Object(members) => members.iter().find(|m| m.0 == name).map(|m| &m.1),
        _ => panic!("expected a JSON object"),
    }
}

#[test]
fn wire_shapes_key_view_allowed_pools_null_is_all_pools() {
    // null (or omitted) allowed_pools => None => "all pools".
    let k: KeyView = read(
        r#"{"id":"vk_1","name":"n","allowed_pools":null,"state":"active","enabled":true}"#,
    )
    .expect("null allowed_pools must decode");
    assert_eq!(
        k.allowed_pools, None,
        "null must mean all-pools (None), not []"
    );
}

#[test]
fn wire_shapes_key_view_allowed_pools_empty_is_no_pools() {
    let k: KeyView = read(r#"{"id":"vk_1","name":"n","allowed_pools":[]}"#).unwrap();
    assert_eq!(
        k.allowed_pools,
        Some(Vec::new()),
        "explicit [] must stay a distinct empty list (NO pools), never collapse to None"
    );
}

#[test]
fn wire_shapes_created_key_view_carries_signed_token_not_secret() {
    let c: CreatedKeyView = read(
        r#"{"id":"vk_1","name":"n","token":"bbk_abc","expires_at":1785772871,"state":"active"}"#,
    )
    .expect("token-shaped CreatedKeyView must decode");
    assert_eq!(c.token, "bbk_abc");
    assert_eq!(c.expires_at, 1785772871_u64);
}

#[test]
fn wire_shapes_create_key_req_omits_none_fields_and_never_sends_legacy_budget() {
    let req = CreateKeyReq {
        name: "svc".into(),
        allowed_pools: None,
        group: None,
        parent: None,
        expires_in: None,
        expires_at: None,
        labels: Default::default(),
        issue_aws_credential: false,
    };
    let v: Json = req.to_json();
    assert_eq!(
        names(&v),
        vec!["name"],
        "an all-defaults CreateKeyReq must serialize to exactly {{name}}: any extra key is \
         either a leaked None or a reintroduced legacy field the server will 400 on"
    );
    for banned in [
        "budget",
        "budget_period",
        "rpm_limit",
        "tpm_limit",
        "max_budget_cents",
    ] {
        assert!(
            member(&v, banned).is_none(),
            "legacy field {banned} must never serialize"
        );
    }
}

#[test]
fn wire_shapes_create_key_req_empty_allowed_pools_serializes_as_empty_array() {
    // The --no-pools path sets Some(vec![]); it must reach the wire as `[]`, not be dropped.
    let req = CreateKeyReq {
        name: "svc".into(),
        allowed_pools: Some(Vec::new()),
        group: None,
        parent: None,
        expires_in: None,
        expires_at: None,
        labels: Default::default(),
        issue_aws_credential: false,
    };
    let v: Json = req.to_json();
    assert_eq!(member(&v, "allowed_pools"), Some(&Json::Array(Vec::new())));
}

#[test]
fn wire_shapes_rotated_key_view_token_and_secret_are_both_optional() {
    // A token-only rotate decodes without a phantom `secret`.
    let r: RotatedKeyView = read(r#"{"id":"vk_1","name":"n","token":"bbk_new"}"#).unwrap();
    assert_eq!(r.token.as_deref(), Some("bbk_new"));
    assert_eq!(r.secret, None);
}

#[test]
fn inspect_view_carries_manifest_preview_shape() {
    let v: InspectView = read(
        r#"{"name":"acme-store","version":"1.2.3","kind":"store","trust":"unverified",
            "source":"manifest","restart_required_default":true,
            "schema":{"type":"object"},"schema_error":null}"#,
    )
    .expect("inspect preview must decode");
    assert_eq!(v.name, "acme-store");
    assert_eq!(v.version.as_deref(), Some("1.2.3"));
    assert_eq!(v.kind.as_deref(), Some("store"));
    assert_eq!(v.trust, "unverified");
    assert_eq!(v.restart_required_default, Some(true));
    assert!(v.schema.is_some());
    assert_eq!(v.schema_error, None);
}

#[test]
fn inspect_view_tolerates_null_kind_and_absent_version() {
    // An unresolvable candidate must still decode, so that its verdict can be shown.
    let v: InspectView = read(
        r#"{"name":"bad","kind":null,"trust":"rejected","source":"manifest","schema":null,
            "schema_error":"settings_schema is not valid JSON"}"#,
    )
    .expect("a rejected/unresolvable candidate must still decode");
    assert_eq!(v.kind, None);
    assert_eq!(v.version, None);
    assert_eq!(v.trust, "rejected");
    assert_eq!(
        v.schema_error.as_deref(),
        Some("settings_schema is not valid JSON")
    );
}
