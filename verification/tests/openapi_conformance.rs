//! Every view and request against the properties that the gateway's API gives it: the names on
//! the wire, which of them may be `null`, and that values survive being read and written.

use std::collections::BTreeSet;

use busbar_admin::client::{
    BuildInfo, Client, ConfigApplyView, CreateKeyReq, CreatedKeyView, ErrorEnvelope, HookPage,
    HookTransportView, HookView, InfoView, InspectPluginReq, InspectView, InstallPluginReq,
    KeyPage, KeyView, Method, PluginInstallView, PluginPage, PluginReloadView, PluginView, Reply,
    Request, RevokeView, RotatedKeyView, Tls, TopologyInfo,
};
use busbar_admin::json::{parse_json, Json};
use busbar_admin::labels::Labels;
use busbar_admin::wire::Wire;
use serde_json::Value;

/// A property: its name and whether it may be `null`.
type Property = (&'static str, bool);

fn value(json: &Json) -> Value {
    match json {
        Json::Null => Value::Null,
        Json::Bool(b) => Value::from(*b),
        Json::Unsigned(n) => Value::from(*n),
        Json::Negative(n) => Value::from(*n),
        Json::Float(digits) => Value::from(digits.parse::<f64>().unwrap()),
        Json::Text(s) => Value::from(s.as_str()),
        Json::Array(list) => Value::Array(list.iter().map(value).collect()),
        Json::Object(members) => {
            Value::Object(members.iter().map(|m| (m.0.clone(), value(&m.1))).collect())
        }
        Json::Unread { .. } => panic!("a sample is read whole"),
    }
}

fn json(value: &Value) -> Json {
    parse_json(&value.to_string()).unwrap()
}

fn object(text: &str) -> serde_json::Map<String, Value> {
    match value(&parse_json(text).expect("a sample is JSON")) {
        Value::Object(members) => members,
        _ => panic!("a sample is an object"),
    }
}

fn keys_of(v: &Value) -> BTreeSet<String> {
    v.as_object()
        .expect("expected a JSON object")
        .keys()
        .cloned()
        .collect()
}

fn set(names: &[&str]) -> BTreeSet<String> {
    names.iter().map(|n| n.to_string()).collect()
}

/// A view and a sample of it, with the properties that the view knowingly leaves out.
fn check_response<T: Wire>(
    schema: &str,
    properties: &[Property],
    sample: serde_json::Map<String, Value>,
    unmodelled: &[&str],
) {
    let decoded = T::from_json(&json(&Value::Object(sample.clone())))
        .unwrap_or_else(|e| panic!("{schema}: the sample must be read, got: {}", e.message()));
    let round = value(&decoded.to_json());
    let modelled: BTreeSet<String> = properties.iter().map(|p| p.0.to_string()).collect();
    assert_eq!(keys_of(&round), modelled, "{schema}: the names on the wire");
    for u in unmodelled {
        assert!(sample.contains_key(*u), "{schema}: the sample lacks `{u}`");
        assert!(!modelled.contains(*u), "{schema}: `{u}` is modelled");
    }
    for (name, nullable) in properties {
        let mut nulled = sample.clone();
        nulled.insert(name.to_string(), Value::Null);
        let attempt = T::from_json(&json(&Value::Object(nulled)));
        assert_eq!(attempt.is_ok(), *nullable, "{schema}.{name}: null");
    }
    for (name, v) in &sample {
        if !unmodelled.contains(&name.as_str()) {
            assert_eq!(round.get(name), Some(v), "{schema}.{name}: the round trip");
        }
    }
}

/// A request, fully populated and minimal, against its properties and the required ones.
fn check_request(schema: &str, full: &Json, minimal: &Json, properties: &[&str], required: &[&str]) {
    assert_eq!(keys_of(&value(full)), set(properties), "{schema}");
    for name in required {
        assert!(keys_of(&value(minimal)).contains(*name), "{schema}: {name}");
    }
}

const KEY_META: [Property; 8] = [
    ("id", false),
    ("name", false),
    ("allowed_pools", true),
    ("group", true),
    ("labels", false),
    ("state", false),
    ("enabled", false),
    ("created_at", false),
];

const PLUGIN_VIEW: [Property; 11] = [
    ("name", false),
    ("type", false),
    ("loader", false),
    ("active", true),
    ("file", true),
    ("version", true),
    ("publisher", true),
    ("trust", true),
    ("valid", true),
    ("error", true),
    ("has_schema", false),
];

const PLUGIN_VIEW_UNMODELLED: [&str; 4] =
    ["target", "interface_version", "schema_url", "schema_error"];

fn key_meta_with(more: &[Property]) -> Vec<Property> {
    KEY_META.iter().chain(more).copied().collect()
}

fn key_meta_sample() -> serde_json::Map<String, Value> {
    object(
        r#"{
        "id": "vk_0123456789abcdef",
        "name": "svc-checkout",
        "allowed_pools": ["fast", "cheap"],
        "group": "team:payments",
        "labels": {"team": "payments"},
        "state": "active",
        "enabled": true,
        "created_at": 1785772871
    }"#,
    )
}

fn plugin_view_sample() -> serde_json::Map<String, Value> {
    object(
        r#"{
        "name": "acme-store",
        "type": "store",
        "loader": "plugin",
        "active": true,
        "target": "acme-store",
        "file": "acme_store.tar.gz",
        "version": "1.2.3",
        "publisher": "acme",
        "trust": "trusted",
        "valid": true,
        "error": null,
        "has_schema": true,
        "interface_version": 1,
        "schema_url": "/api/v1/admin/plugins/acme_store.tar.gz/schema",
        "schema_error": null
    }"#,
    )
}

fn plugin_view_sample_modelled() -> Value {
    let mut row = plugin_view_sample();
    for k in PLUGIN_VIEW_UNMODELLED {
        row.remove(k);
    }
    Value::Object(row)
}

#[test]
fn info_view_matches_schema() {
    check_response::<InfoView>(
        "InfoView",
        &[
            ("version", false),
            ("build", false),
            ("uptime_seconds", true),
            ("started_at", true),
            ("topology", false),
            ("config_persistence", false),
            ("config_version", false),
        ],
        object(
            r#"{
            "version": "1.5.3",
            "build": {"auth_modules": ["tokens"], "hook_plugins": ["ranking"], "weighted_floor": true},
            "uptime_seconds": 3661,
            "started_at": 1785772871,
            "topology": {"pools": 2, "models": 9, "providers": 3},
            "config_persistence": true,
            "config_version": 7
        }"#,
        ),
        &[],
    );
}

#[test]
fn build_info_matches_schema() {
    check_response::<BuildInfo>(
        "BuildInfo",
        &[
            ("auth_modules", false),
            ("hook_plugins", false),
            ("weighted_floor", false),
        ],
        object(
            r#"{"auth_modules": ["tokens"], "hook_plugins": ["ranking"], "weighted_floor": true}"#,
        ),
        &[],
    );
}

#[test]
fn topology_info_matches_schema() {
    check_response::<TopologyInfo>(
        "TopologyInfo",
        &[("pools", false), ("models", false), ("providers", false)],
        object(r#"{"pools": 2, "models": 9, "providers": 3}"#),
        &[],
    );
}

#[test]
fn key_view_matches_schema() {
    check_response::<KeyView>("KeyView", &KEY_META, key_meta_sample(), &[]);
}

#[test]
fn key_page_matches_key_page_view_schema() {
    let mut sample = object(r#"{"next_cursor": "eyJvIjoyMDB9"}"#);
    sample.insert(
        "items".to_string(),
        Value::Array(vec![Value::Object(key_meta_sample())]),
    );
    check_response::<KeyPage>(
        "KeyPageView",
        &[("items", false), ("next_cursor", true)],
        sample,
        &[],
    );
}

#[test]
fn created_key_view_matches_schema() {
    let mut sample = key_meta_sample();
    sample.insert("token".into(), Value::from("bbk_live_abc"));
    sample.insert("expires_at".into(), Value::from(1785772871_u64));
    sample.insert("group_provisioned".into(), Value::from(true));
    sample.insert("aws_access_key_id".into(), Value::from("AKIAEXAMPLE"));
    sample.insert("aws_secret_access_key".into(), Value::from("s3cr3t"));
    check_response::<CreatedKeyView>(
        "CreatedKeyView",
        &key_meta_with(&[
            ("token", false),
            ("expires_at", false),
            ("group_provisioned", false),
            ("aws_access_key_id", true),
            ("aws_secret_access_key", true),
        ]),
        sample,
        &[],
    );
}

#[test]
fn rotated_key_view_matches_schema() {
    let mut sample = key_meta_sample();
    sample.insert("token".into(), Value::from("bbk_live_new"));
    sample.insert("expires_at".into(), Value::from(1785772871_u64));
    sample.insert("secret".into(), Value::Null);
    check_response::<RotatedKeyView>(
        "RotatedKeyView",
        &key_meta_with(&[("token", true), ("expires_at", true), ("secret", true)]),
        sample,
        &[],
    );
}

#[test]
fn revoke_view_matches_schema() {
    check_response::<RevokeView>(
        "RevokeView",
        &[("revoked", false)],
        object(r#"{"revoked": "vk_0123456789abcdef"}"#),
        &[],
    );
}

#[test]
fn plugin_view_matches_schema() {
    check_response::<PluginView>(
        "PluginView",
        &PLUGIN_VIEW,
        plugin_view_sample(),
        &PLUGIN_VIEW_UNMODELLED,
    );
}

#[test]
fn plugin_page_matches_page_plugin_view_schema() {
    let mut sample = object(r#"{"next_cursor": null}"#);
    sample.insert(
        "items".to_string(),
        Value::Array(vec![plugin_view_sample_modelled()]),
    );
    check_response::<PluginPage>(
        "Page_PluginView",
        &[("items", false), ("next_cursor", true)],
        sample,
        &[],
    );
}

#[test]
fn plugin_install_view_matches_schema() {
    check_response::<PluginInstallView>(
        "PluginInstallView",
        &[
            ("file", false),
            ("name", false),
            ("version", true),
            ("publisher", true),
            ("trust", false),
            ("note", false),
        ],
        object(
            r#"{
            "file": "acme_store.tar.gz",
            "name": "acme-store",
            "version": "1.2.3",
            "publisher": "acme",
            "trust": "trusted",
            "note": "takes effect on the next store reload",
            "interface_version": 1
        }"#,
        ),
        &["interface_version"],
    );
}

#[test]
fn inspect_view_matches_plugin_schema_view_schema() {
    check_response::<InspectView>(
        "PluginSchemaView",
        &[
            ("name", false),
            ("version", true),
            ("kind", true),
            ("trust", false),
            ("source", false),
            ("restart_required_default", true),
            ("schema", true),
            ("schema_error", true),
        ],
        object(
            r#"{
            "name": "acme-store",
            "version": "1.2.3",
            "kind": "store",
            "trust": "unverified",
            "source": "manifest",
            "restart_required_default": true,
            "schema": {"type": "object"},
            "schema_error": null
        }"#,
        ),
        &[],
    );
}

#[test]
fn plugin_reload_view_matches_schema() {
    let mut sample = object(r#"{"note": "a store change applies on the next store reload"}"#);
    sample.insert(
        "plugins".to_string(),
        Value::Array(vec![plugin_view_sample_modelled()]),
    );
    check_response::<PluginReloadView>(
        "PluginReloadView",
        &[("plugins", false), ("note", false)],
        sample,
        &[],
    );
}

#[test]
fn hook_view_matches_schema() {
    check_response::<HookView>(
        "HookView",
        &[
            ("name", false),
            ("kind", false),
            ("transport", false),
            ("prompt", false),
            ("user", false),
            ("priority", false),
            ("at", true),
            ("on_error", false),
            ("timeout_ms", false),
            ("global", false),
        ],
        object(
            r#"{
            "name": "pii-gate",
            "kind": "gate",
            "transport": {"kind": "plugin", "target": "pii"},
            "prompt": "ro",
            "user": "no",
            "priority": 10,
            "at": "request",
            "on_error": "reject",
            "timeout_ms": 250,
            "global": true,
            "settings_keys": ["endpoint"]
        }"#,
        ),
        &["settings_keys"],
    );
}

#[test]
fn hook_transport_view_matches_schema() {
    check_response::<HookTransportView>(
        "HookTransportView",
        &[("kind", false), ("target", true)],
        object(r#"{"kind": "plugin", "target": "pii"}"#),
        &[],
    );
}

#[test]
fn hook_page_matches_page_hook_view_schema() {
    check_response::<HookPage>(
        "Page_HookView",
        &[("items", false), ("next_cursor", true)],
        object(
            r#"{
            "items": [{
                "name": "pii-gate",
                "kind": "gate",
                "transport": {"kind": "plugin", "target": "pii"},
                "prompt": "ro",
                "user": "no",
                "priority": 10,
                "at": null,
                "on_error": "reject",
                "timeout_ms": 250,
                "global": false
            }],
            "next_cursor": null
        }"#,
        ),
        &[],
    );
}

#[test]
fn config_apply_view_matches_schema() {
    check_response::<ConfigApplyView>(
        "ConfigApplyView",
        &[("applied", false), ("config_version", false), ("note", false)],
        object(r#"{"applied": true, "config_version": 8, "note": "live, not persisted"}"#),
        &[],
    );
}

#[test]
fn error_envelope_matches_schema() {
    check_response::<ErrorEnvelope>(
        "Error",
        &[("error", false)],
        object(r#"{"error": {"code": "unauthorized", "message": "admin token rejected"}}"#),
        &[],
    );
}

#[test]
fn create_key_req_matches_schema() {
    let mut labels = Labels::new();
    labels.insert("team".to_string(), "payments".to_string());
    let full = CreateKeyReq {
        name: "svc-checkout".into(),
        allowed_pools: Some(vec!["fast".into()]),
        group: Some("team:payments".into()),
        parent: Some("team".into()),
        expires_in: Some("7d".into()),
        expires_at: Some(1785772871),
        labels,
        issue_aws_credential: true,
    }
    .to_json();
    let minimal = CreateKeyReq {
        name: "svc-checkout".into(),
        allowed_pools: None,
        group: None,
        parent: None,
        expires_in: None,
        expires_at: None,
        labels: Default::default(),
        issue_aws_credential: false,
    }
    .to_json();
    check_request(
        "CreateKeyReq",
        &full,
        &minimal,
        &[
            "name",
            "allowed_pools",
            "group",
            "parent",
            "expires_in",
            "expires_at",
            "labels",
            "issue_aws_credential",
        ],
        &["name"],
    );
    assert_eq!(
        value(&full).to_string(),
        [
            r#"{"allowed_pools":["fast"],"expires_at":1785772871,"expires_in":"7d","#,
            r#""group":"team:payments","issue_aws_credential":true,"#,
            r#""labels":{"team":"payments"},"name":"svc-checkout","parent":"team"}"#,
        ]
        .concat()
    );
}

#[test]
fn install_plugin_req_matches_schema() {
    let body = InstallPluginReq {
        file: "acme_store.tar.gz".into(),
        tarball_b64: "H4sIAA==".into(),
    }
    .to_json();
    let names = ["file", "tarball_b64"];
    check_request("InstallPluginReq", &body, &body, &names, &names);
}

#[test]
fn inspect_plugin_req_matches_schema() {
    let body = InspectPluginReq {
        file: "acme_store.tar.gz".into(),
        tarball_b64: "H4sIAA==".into(),
    }
    .to_json();
    let names = ["file", "tarball_b64"];
    check_request("InspectPluginReq", &body, &body, &names, &names);
}

#[test]
fn error_code_enum_vocabulary_matches_schema() {
    for code in [
        "not_found",
        "unauthorized",
        "method_not_allowed",
        "forbidden",
        "invalid_request",
        "version_conflict",
        "conflict",
        "rate_limited",
        "internal",
    ] {
        let text = format!(r#"{{"error": {{"code": "{code}", "message": "m"}}}}"#);
        let env = ErrorEnvelope::from_json(&parse_json(&text).unwrap())
            .unwrap_or_else(|e| panic!("error code {code} must decode: {}", e.message()));
        assert_eq!(env.error.code, code);
        assert_eq!(env.error.message, "m");
    }
}

#[test]
fn client_endpoints_exist_with_the_expected_response_schema() {
    let c = Client::new("http://localhost:8081", "t", Tls::default()).unwrap();
    let mint = CreateKeyReq {
        name: "n".into(),
        allowed_pools: None,
        group: None,
        parent: None,
        expires_in: None,
        expires_at: None,
        labels: Default::default(),
        issue_aws_credential: false,
    };
    let install = InstallPluginReq {
        file: "f".into(),
        tarball_b64: "".into(),
    };
    let inspect = InspectPluginReq {
        file: "f".into(),
        tarball_b64: "".into(),
    };
    let calls: Vec<(Request, &str, Method, Reply)> = vec![
        (c.info(), "/info", Method::Get, Reply::View),
        (c.list_keys(), "/keys", Method::Get, Reply::View),
        (c.create_key(&mint), "/keys", Method::Post, Reply::View),
        (c.get_key("{id}"), "/keys/{id}", Method::Get, Reply::View),
        (c.delete_key("{id}"), "/keys/{id}", Method::Delete, Reply::Nothing),
        (c.revoke_key("{id}"), "/keys/{id}/revoke", Method::Post, Reply::View),
        (c.rotate_key("{id}"), "/keys/{id}/rotate", Method::Post, Reply::View),
        (c.list_plugins("store"), "/plugins?type=store", Method::Get, Reply::View),
        (c.install_plugin(&install), "/plugins", Method::Post, Reply::View),
        (c.inspect_plugin(&inspect), "/plugins/inspect", Method::Post, Reply::View),
        (c.reload_plugins(), "/plugins/reload", Method::Post, Reply::View),
        (c.list_hooks(), "/hooks", Method::Get, Reply::View),
        (c.config(), "/config", Method::Get, Reply::Raw),
        (c.config_apply(Json::Null), "/config/apply", Method::Post, Reply::View),
    ];
    for (request, rel, method, reply) in calls {
        let full = format!("http://localhost:8081/api/v1/admin{rel}");
        assert_eq!(request.url, full);
        assert_eq!(request.method, method, "{full}");
        assert_eq!(request.reply, reply, "{full}");
    }
}
