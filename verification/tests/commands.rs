//! The commands from their arguments to what they show.

use busbar_admin::cli::{
    cmd_config_apply, require_settings, Command, CommandError, KeyCreateArgs, MissingSetting,
    Outcome, Setting,
};
use busbar_admin::client::{Client, ConfigApplyView, InspectPluginReq, Method, Reply, Tls};
use busbar_admin::json::{parse_json, Json};
use busbar_admin::place::{Mark, Part, Reading};

fn client() -> Client {
    Client::new("http://gw", "tok", Tls::default()).unwrap()
}

/// A text as a document, marked as a whole only.
fn reading(text: &str) -> Result<Reading, String> {
    Ok(Reading {
        json: parse_json(text)?,
        mark: whole(text.len()),
    })
}

fn whole(end: usize) -> Mark {
    Mark {
        start: 0,
        end,
        parts: vec![],
    }
}

fn shown(command: &Command, reply: &str, json: bool) -> Outcome {
    command.answer(reply, reading(reply), json).unwrap()
}

fn text_of(command: &Command, reply: &str) -> String {
    let outcome = shown(command, reply, false);
    assert_eq!(outcome.document, None);
    assert_eq!(outcome.failure, None);
    outcome.text
}

fn document_of(command: &Command, reply: &str) -> Json {
    let outcome = shown(command, reply, true);
    assert_eq!(outcome.text, "");
    outcome.document.unwrap()
}

fn lines(list: &[&str]) -> String {
    list.iter().map(|l| format!("{l}\n")).collect()
}

fn args(name: &str) -> KeyCreateArgs {
    KeyCreateArgs {
        name: name.to_string(),
        group: None,
        parent: None,
        expires_in: None,
        expires_at: None,
        labels: vec![],
        allowed_pools: vec![],
        no_pools: false,
        issue_aws_credential: false,
    }
}

fn id() -> String {
    "vk_1".to_string()
}

fn set(flag: Option<&str>, variable: Option<&str>) -> Setting {
    Setting {
        flag: flag.map(|f| f.to_string()),
        variable: variable.map(|v| v.to_string()),
    }
}

#[test]
fn a_flag_beats_its_variable() {
    for variable in [None, Some("http://v/"), Some("")] {
        let endpoint = set(Some("http://f//"), variable);
        let token = set(Some("ft"), variable);
        let (e, t) = require_settings(endpoint, token).unwrap();
        let request = Client::new(&e, &t, Tls::default()).unwrap().info();
        assert_eq!(request.url, "http://f/api/v1/admin/info");
        assert_eq!(request.headers[0].value, "ft");
        assert_eq!(request.headers[1].value, "Bearer ft");
    }
    let used = require_settings(set(None, Some("http://v")), set(Some(""), Some("vt")));
    assert_eq!(used, Ok(("http://v".to_string(), "".to_string())));
}

#[test]
fn endpoint_and_token_are_both_needed() {
    let none = || set(None, None);
    assert_eq!(
        require_settings(set(Some("e"), None), set(Some("t"), None)),
        Ok(("e".to_string(), "t".to_string()))
    );
    assert_eq!(
        require_settings(none(), none()),
        Err(MissingSetting::Endpoint)
    );
    assert_eq!(
        require_settings(none(), set(Some("t"), None)),
        Err(MissingSetting::Endpoint)
    );
    assert_eq!(
        require_settings(set(None, Some("e")), none()),
        Err(MissingSetting::Token)
    );
    assert_eq!(
        MissingSetting::Endpoint.message(),
        "no endpoint: pass --endpoint or set BUSBAR_ENDPOINT (e.g. http://localhost:8081)"
    );
    assert_eq!(
        MissingSetting::Token.message(),
        "no admin token: pass --token or set BUSBAR_ADMIN_TOKEN"
    );
}

#[test]
fn each_command_makes_its_request() {
    let commands = [
        (Command::Info, Method::Get, "/info"),
        (Command::KeysList, Method::Get, "/keys"),
        (Command::KeysCreate(args("n")), Method::Post, "/keys"),
        (Command::KeysGet { id: id() }, Method::Get, "/keys/vk_1"),
        (Command::KeysRotate { id: id() }, Method::Post, "/keys/vk_1/rotate"),
        (Command::KeysRevoke { id: id() }, Method::Post, "/keys/vk_1/revoke"),
        (Command::KeysDelete { id: id() }, Method::Delete, "/keys/vk_1"),
        (Command::HooksList, Method::Get, "/hooks"),
        (Command::ConfigVersion, Method::Get, "/info"),
        (Command::ConfigShow, Method::Get, "/config"),
        (
            Command::ConfigApply {
                path: "f".into(),
                text: "{}".into(),
            },
            Method::Post,
            "/config/apply",
        ),
        (
            Command::PluginsList {
                plugin_type: "auth".into(),
            },
            Method::Get,
            "/plugins?type=auth",
        ),
        (
            Command::PluginsInstall {
                file: None,
                basename: Some("p.tar.gz".into()),
                tarball: vec![1],
            },
            Method::Post,
            "/plugins",
        ),
        (Command::PluginsReload, Method::Post, "/plugins/reload"),
    ];
    for (command, method, rel) in commands {
        let request = command.request(&client()).unwrap();
        assert_eq!(request.url, format!("http://gw/api/v1/admin{rel}"));
        assert_eq!(request.method, method, "{rel}");
        let reply = match &command {
            Command::KeysDelete { .. } => Reply::Nothing,
            Command::ConfigShow => Reply::Raw,
            _ => Reply::View,
        };
        assert_eq!(request.reply, reply, "{rel}");
        let has_body = matches!(
            command,
            Command::KeysCreate(_) | Command::ConfigApply { .. } | Command::PluginsInstall { .. }
        );
        assert_eq!(request.body.is_some(), has_body, "{rel}");
        assert!(request.headers == client().headers(), "{rel}");
    }
}

fn mint_body(args: KeyCreateArgs) -> Json {
    Command::KeysCreate(args)
        .request(&client())
        .unwrap()
        .body
        .unwrap()
}

fn member<'a>(json: &'a Json, name: &str) -> Option<&'a Json> {
    match json {
        Json::Object(members) => members.iter().find(|m| m.0 == name).map(|m| &m.1),
        _ => panic!("expected a JSON object"),
    }
}

#[test]
fn the_pool_flags_reach_the_gateway() {
    assert_eq!(member(&mint_body(args("n")), "allowed_pools"), None);
    let mut none = args("n");
    none.no_pools = true;
    assert_eq!(
        member(&mint_body(none), "allowed_pools"),
        Some(&Json::Array(vec![]))
    );
    let mut some = args("n");
    some.allowed_pools = vec!["p2".into(), "p1".into()];
    assert_eq!(
        member(&mint_body(some), "allowed_pools"),
        Some(&Json::Array(vec![
            Json::Text("p2".into()),
            Json::Text("p1".into())
        ]))
    );
}

#[test]
fn a_full_mint_body_stands_in_order() {
    let full = KeyCreateArgs {
        name: "my-service".into(),
        group: Some("team-a".into()),
        parent: Some("teams".into()),
        expires_in: Some("30d".into()),
        expires_at: Some(7),
        labels: vec!["team=platform".into(), "a=b=c".into()],
        allowed_pools: vec!["default".into()],
        no_pools: false,
        issue_aws_credential: true,
    };
    let text = |s: &str| Json::Text(s.to_string());
    let named = |n: &str, j: Json| (n.to_string(), j);
    assert_eq!(
        mint_body(full),
        Json::Object(vec![
            named("name", text("my-service")),
            named("allowed_pools", Json::Array(vec![text("default")])),
            named("group", text("team-a")),
            named("parent", text("teams")),
            named("expires_in", text("30d")),
            named("expires_at", Json::Unsigned(7)),
            named(
                "labels",
                Json::Object(vec![named("a", text("b=c")), named("team", text("platform"))])
            ),
            named("issue_aws_credential", Json::Bool(true)),
        ])
    );
}

#[test]
fn a_bad_label_stops_the_request() {
    let mut bad = args("n");
    bad.labels = vec!["oops".into()];
    let e = Command::KeysCreate(bad).request(&client()).err().unwrap();
    assert!(matches!(e, CommandError::Label(_)));
    assert_eq!(e.message(), "--label must be KEY=VALUE, got \"oops\"");
}

fn upload(file: Option<&str>, basename: Option<&str>, tarball: &[u8]) -> Command {
    Command::PluginsInstall {
        file: file.map(|f| f.to_string()),
        basename: basename.map(|b| b.to_string()),
        tarball: tarball.to_vec(),
    }
}

#[test]
fn a_tarball_is_sent_in_base64_under_its_name() {
    for (bytes, encoded) in [
        (&b""[..], ""),
        (&b"f"[..], "Zg=="),
        (&b"fo"[..], "Zm8="),
        (&b"foo"[..], "Zm9v"),
        (&b"\xfb\xff\xfe\x00"[..], "+//+AA=="),
    ] {
        let body = upload(Some("asked"), Some("found"), bytes)
            .request(&client())
            .unwrap()
            .body
            .unwrap();
        assert_eq!(
            body,
            Json::Object(vec![
                ("file".to_string(), Json::Text("asked".to_string())),
                ("tarball_b64".to_string(), Json::Text(encoded.to_string())),
            ])
        );
        let inspect = InspectPluginReq::new("asked".to_string(), bytes);
        assert_eq!(inspect.to_json(), body);
    }
    let named = upload(None, Some("found"), b"f").request(&client()).unwrap();
    assert_eq!(
        member(&named.body.unwrap(), "file"),
        Some(&Json::Text("found".to_string()))
    );
}

#[test]
fn a_tarball_without_a_name_stops_the_request() {
    let e = upload(None, None, b"f").request(&client()).err().unwrap();
    assert!(matches!(e, CommandError::NoFilename));
    assert_eq!(
        e.message(),
        "tarball path has no usable filename; pass --file"
    );
}

#[test]
fn a_config_file_is_sent_as_it_is() {
    let apply = |text: &str| Command::ConfigApply {
        path: "cfg.json".into(),
        text: text.to_string(),
    };
    let request = apply(r#"{"providers": {}, "config": {"a": 1}}"#)
        .request(&client())
        .unwrap();
    assert_eq!(
        request.body,
        Some(parse_json(r#"{"config": {"a": 1}, "providers": {}}"#).unwrap())
    );
    let e = apply("nope").request(&client()).err().unwrap();
    assert!(matches!(e, CommandError::Config { .. }));
    assert_eq!(
        e.message(),
        "parsing cfg.json as JSON: expected ident at line 1 column 2"
    );
}

const INFO: &str = r#"{"version":"1.5.0","build":{"auth_modules":["tokens"],"hook_plugins":[],
    "weighted_floor":true},"uptime_seconds":72,"topology":{"pools":0,"models":1,"providers":1},
    "config_persistence":false,"config_version":0}"#;

#[test]
fn info_is_summarized() {
    assert_eq!(
        text_of(&Command::Info, INFO),
        lines(&[
            "busbar 1.5.0",
            "  uptime:           1m 12s",
            "  config version:   0",
            "  config persist:   off (live-only)",
            "  topology:         0 pools, 1 models, 1 providers",
            "  auth modules:     tokens",
            "  hook plugins:     (none)",
            "  weighted floor:   true",
        ])
    );
    assert_eq!(
        text_of(
            &Command::Info,
            r#"{"version":"v","build":{"auth_modules":["a","b"],"hook_plugins":["h"]},
                "topology":{"pools":1,"models":2,"providers":3},"config_persistence":true}"#
        ),
        lines(&[
            "busbar v",
            "  uptime:           (unknown)",
            "  config version:   0",
            "  config persist:   on (durable)",
            "  topology:         1 pools, 2 models, 3 providers",
            "  auth modules:     a, b",
            "  hook plugins:     h",
            "  weighted floor:   false",
        ])
    );
    assert_eq!(
        member(&document_of(&Command::Info, INFO), "version"),
        Some(&Json::Text("1.5.0".into()))
    );
}

#[test]
fn json_shows_the_reply_itself() {
    let list = Command::PluginsList {
        plugin_type: "store".into(),
    };
    let apply = Command::ConfigApply {
        path: "f".into(),
        text: "{}".into(),
    };
    for (command, reply) in [
        (
            Command::Info,
            r#"{"extra": 1, "version": "v", "build": {"more": {}},
                "topology": {"pools": 1, "models": 2, "providers": 3}}"#,
        ),
        (
            Command::KeysList,
            r#"{"items": [{"id": "i", "name": "n", "extra": 1}]}"#,
        ),
        (
            Command::KeysCreate(args("n")),
            r#"{"id": "i", "name": "n", "token": "t", "extra": 1}"#,
        ),
        (
            Command::KeysGet { id: id() },
            r#"{"id": "i", "name": "n", "extra": 1}"#,
        ),
        (
            Command::KeysRotate { id: id() },
            r#"{"id": "i", "name": "n", "extra": 1}"#,
        ),
        (
            Command::KeysRevoke { id: id() },
            r#"{"revoked": "i", "extra": [1.50]}"#,
        ),
        (Command::HooksList, r#"{"extra": 1}"#),
        (list, r#"{"extra": 1}"#),
        (
            upload(Some("f"), None, b""),
            r#"{"file": "f", "name": "n", "extra": 1}"#,
        ),
        (Command::PluginsReload, r#"{"extra": 1}"#),
        (apply, r#"{"applied": true, "extra": 1}"#),
    ] {
        assert_eq!(document_of(&command, reply), parse_json(reply).unwrap());
    }
    // Members stay in the order and the number in which they came.
    let kept = || {
        Json::Object(vec![
            ("revoked".to_string(), Json::Text("i".to_string())),
            ("z".to_string(), Json::Null),
            ("a".to_string(), Json::Float("1e999".to_string())),
            ("z".to_string(), Json::Bool(true)),
        ])
    };
    let read = Reading {
        json: kept(),
        mark: whole(4),
    };
    let outcome = Command::KeysRevoke { id: id() }.answer("body", Ok(read), true);
    assert_eq!(outcome.unwrap().document, Some(kept()));
}

#[test]
fn a_reply_that_does_not_decode_is_not_shown() {
    let reply = r#"{"extra": 1}"#;
    for json in [false, true] {
        assert_eq!(
            Command::KeysRevoke { id: id() }
                .answer(reply, reading(reply), json)
                .unwrap_err(),
            r#"decoding the gateway response: {"extra": 1}: missing field `revoked` at line 1 column 12"#
        );
    }
}

#[test]
fn keys_are_listed_in_columns() {
    assert_eq!(
        text_of(&Command::KeysList, r#"{"items":[]}"#),
        "no virtual keys\n"
    );
    assert_eq!(
        text_of(
            &Command::KeysList,
            r#"{"items":[{"id":"vk_0123456789abcdef","name":"a-name-of-more-than-twenty",
                "group":"team-of-seventeen","state":"active","allowed_pools":[],"enabled":true},
                {"id":"vk_2","name":"n"}],"next_cursor":"c"}"#
        ),
        lines(&[
            "ID                     NAME                 GROUP            STATE      POOLS        ENABLED",
            "vk_0123456789abcdef    a-name-of-more-than… team-of-sevente… active     (none)       true",
            "vk_2                   n                    -                -          (all)        false",
            "(more keys available — showing the first page)",
        ])
    );
}

#[test]
fn a_created_key_is_shown_with_its_token() {
    let reply = r#"{"id":"vk_1","name":"n","group":"g","group_provisioned":true,"token":"bbk_abc",
        "expires_at":9,"aws_access_key_id":"AKIA","aws_secret_access_key":"s3"}"#;
    assert_eq!(
        text_of(&Command::KeysCreate(args("n")), reply),
        lines(&[
            "created key vk_1 (n)",
            "  group: g  (auto-provisioned)",
            "  expires_at: 9 (unix seconds)",
            "",
            "  ┌─────────────────────────────────────────────────────────────┐",
            "  │  TOKEN (shown once — store it now, it cannot be retrieved)  │",
            "  └─────────────────────────────────────────────────────────────┘",
            "  token: bbk_abc",
            "  aws_access_key_id:     AKIA",
            "  aws_secret_access_key: s3  (shown once)",
        ])
    );
    assert_eq!(
        text_of(
            &Command::KeysCreate(args("n")),
            r#"{"id":"vk_1","name":"n","group":"g","token":"t"}"#
        ),
        lines(&[
            "created key vk_1 (n)",
            "  group: g",
            "  expires_at: 0 (unix seconds)",
            "",
            "  ┌─────────────────────────────────────────────────────────────┐",
            "  │  TOKEN (shown once — store it now, it cannot be retrieved)  │",
            "  └─────────────────────────────────────────────────────────────┘",
            "  token: t",
        ])
    );
}

#[test]
fn a_key_is_shown() {
    assert_eq!(
        text_of(
            &Command::KeysGet { id: id() },
            r#"{"id":"vk_1","name":"n","group":"g","state":"active","enabled":true,
                "allowed_pools":["p","q"],"created_at":5,"labels":{"b":"2","a":"1"}}"#
        ),
        lines(&[
            "key vk_1 (n)",
            "  state:      active",
            "  enabled:    true",
            "  group:      g",
            "  pools:      p, q",
            "  created_at: 5",
            "  labels:     a=1, b=2",
        ])
    );
    assert_eq!(
        text_of(
            &Command::KeysGet { id: id() },
            r#"{"id":"vk_1","name":"n","allowed_pools":[]}"#
        ),
        lines(&[
            "key vk_1 (n)",
            "  state:      -",
            "  enabled:    false",
            "  group:      (none)",
            "  pools:      (none)",
            "  created_at: 0",
        ])
    );
    let all = text_of(&Command::KeysGet { id: id() }, r#"{"id":"i","name":"n"}"#);
    assert!(all.contains("  pools:      (all)\n"));
}

#[test]
fn a_rotated_key_is_shown_with_its_credential() {
    let head = [
        "rotated key vk_1 (n)",
        "",
        "  ┌─────────────────────────────────────────────────────────────────┐",
        "  │  NEW CREDENTIAL (shown once — the old one no longer resolves)  │",
        "  └─────────────────────────────────────────────────────────────────┘",
    ];
    let rotate = Command::KeysRotate { id: id() };
    for (more, rest) in [
        (r#""token":"t","expires_at":9"#, vec!["  token: t", "  expires_at: 9 (unix seconds)"]),
        (r#""token":"t""#, vec!["  token: t"]),
        (r#""secret":"s","expires_at":9"#, vec!["  secret: s"]),
    ] {
        let all: Vec<&str> = head.iter().copied().chain(rest).collect();
        assert_eq!(
            text_of(&rotate, &format!(r#"{{"id":"vk_1","name":"n",{more}}}"#)),
            lines(&all)
        );
    }
}

#[test]
fn revoked_and_deleted_keys_are_told_apart() {
    assert_eq!(
        text_of(&Command::KeysRevoke { id: id() }, r#"{"revoked":"vk_1"}"#),
        "revoked key vk_1 (denylisted; the record remains for audit)\n"
    );
    let delete = Command::KeysDelete { id: id() };
    assert_eq!(
        delete.answer("", reading(""), false).unwrap().text,
        "deleted key vk_1 (revoked and tombstoned)\n"
    );
    assert_eq!(
        delete.answer("", reading(""), true).unwrap().document,
        Some(parse_json(r#"{"deleted":"vk_1"}"#).unwrap())
    );
}

const PLUGIN: &str = r#"{"name":"acme-store","type":"store","loader":"plugin","active":true,
    "file":"a.tar.gz","version":"1.2.3","trust":"trusted"}"#;

#[test]
fn plugins_are_listed_in_columns() {
    let list = Command::PluginsList {
        plugin_type: "store".into(),
    };
    assert_eq!(text_of(&list, "{}"), "no store plugins\n");
    assert_eq!(
        text_of(
            &list,
            &format!(
                r#"{{"items":[{PLUGIN},{{"name":"n","type":"t","loader":"l"}}],"next_cursor":""}}"#
            )
        ),
        lines(&[
            "NAME                 TYPE    LOADER       ACTIVE   VERSION    TRUST      FILE",
            "acme-store           store   plugin       true     1.2.3      trusted    a.tar.gz",
            "n                    t       l            -        -          -          -",
            "(more store plugins available — showing the first page)",
        ])
    );
}

#[test]
fn an_installed_plugin_is_shown() {
    let install = upload(Some("f"), None, b"");
    assert_eq!(
        text_of(
            &install,
            r#"{"file":"f","name":"n","version":"1","trust":"trusted","note":"later"}"#
        ),
        "installed f (plugin n v1, trust: trusted)\nnote: later\n"
    );
    assert_eq!(
        text_of(&install, r#"{"file":"f","name":"n"}"#),
        "installed f (plugin n v?, trust: )\n"
    );
}

#[test]
fn reloaded_plugins_are_listed() {
    assert_eq!(
        text_of(&Command::PluginsReload, r#"{"note":"x"}"#),
        "no dynamic-library plugins in the plugins directory\nnote: x\n"
    );
    assert_eq!(
        text_of(&Command::PluginsReload, &format!(r#"{{"plugins":[{PLUGIN}]}}"#)),
        lines(&[
            "NAME                 TYPE    LOADER       ACTIVE   VERSION    TRUST      FILE",
            "acme-store           store   plugin       true     1.2.3      trusted    a.tar.gz",
        ])
    );
}

#[test]
fn hooks_are_listed_in_columns() {
    assert_eq!(text_of(&Command::HooksList, "{}"), "no hooks registered\n");
    assert_eq!(
        text_of(
            &Command::HooksList,
            r#"{"items":[{"name":"pii-gate","kind":"gate",
                "transport":{"kind":"plugin","target":"pii"},"prompt":"ro","global":true},
                {"name":"n","kind":"k","transport":{"kind":"t"}}],"next_cursor":"c"}"#
        ),
        lines(&[
            "NAME                 KIND   TRANSPORT PROMPT   GLOBAL  TARGET",
            "pii-gate             gate   plugin   ro       true    pii",
            "n                    k      t                 false   -",
            "(more hooks available — showing the first page)",
        ])
    );
}

#[test]
fn the_config_version_is_shown() {
    assert_eq!(
        text_of(&Command::ConfigVersion, INFO),
        lines(&["config version: 0", "persistence:    off (live-only)"])
    );
    assert_eq!(
        text_of(
            &Command::ConfigVersion,
            &INFO.replace("\"config_persistence\":false", "\"config_persistence\":true")
        ),
        lines(&[
            "config version: 0",
            "persistence:    on (durable across restart)"
        ])
    );
    assert_eq!(
        document_of(&Command::ConfigVersion, INFO),
        parse_json(r#"{"config_version":0,"config_persistence":false}"#).unwrap()
    );
}

#[test]
fn the_running_config_is_shown_as_it_is() {
    let reply = r#"{"version": 3, "pools": {"b": [1.5], "a": null}, "version": 4}"#;
    let read = parse_json(r#"{"pools": {"a": null, "b": [1.5]}, "version": 4}"#).unwrap();
    for json in [false, true] {
        let outcome = Command::ConfigShow
            .answer(reply, Err("unread".to_string()), json)
            .unwrap();
        assert_eq!(outcome.document.as_ref(), Some(&read));
        assert_eq!(outcome.text, "");
    }
}

fn applied(reply: &str, json: bool) -> Outcome {
    let apply = Command::ConfigApply {
        path: "f".into(),
        text: "{}".into(),
    };
    shown(&apply, reply, json)
}

#[test]
fn apply_succeeds_only_if_applied() {
    let yes = r#"{"applied":true,"config_version":8,"note":"live"}"#;
    let no = r#"{"applied":false,"config_version":8,"note":"why"}"#;
    let outcome = applied(yes, false);
    assert_eq!(
        outcome.text,
        "config applied — now at version 8\nnote: live\n"
    );
    assert_eq!((outcome.document, outcome.failure), (None, None));
    let outcome = applied(yes, true);
    assert_eq!(outcome.text, "");
    assert_eq!(outcome.document, Some(parse_json(yes).unwrap()));
    assert_eq!(outcome.failure, None);
    let outcome = applied(no, false);
    assert_eq!((outcome.document, outcome.text.as_str()), (None, ""));
    assert_eq!(
        outcome.failure.as_deref(),
        Some("gateway did NOT apply the config (applied=false): why")
    );
    let outcome = applied(no, true);
    assert_eq!(outcome.document, Some(parse_json(no).unwrap()));
    assert!(outcome.failure.is_some());
    let silent = ConfigApplyView {
        applied: false,
        config_version: 0,
        note: "".into(),
    };
    assert_eq!(
        cmd_config_apply(&silent, &Json::Null, false).failure.as_deref(),
        Some("gateway did NOT apply the config (applied=false)")
    );
}

#[test]
fn an_unreadable_reply_is_told_with_its_body() {
    let get = Command::KeysGet { id: id() };
    assert_eq!(
        get.answer("{}", reading("{}"), false).unwrap_err(),
        "decoding the gateway response: {}: missing field `id` at line 1 column 2"
    );
    assert_eq!(
        get.answer("<html>", reading("<html>"), true).unwrap_err(),
        "decoding the gateway response: <html>: expected value at line 1 column 1"
    );
    assert_eq!(
        Command::ConfigShow
            .answer("", reading("null"), false)
            .unwrap_err(),
        "decoding the gateway response: : EOF while parsing a value at line 1 column 0"
    );
}

fn mark(start: usize, end: usize, parts: Vec<(usize, Mark)>) -> Mark {
    Mark {
        start,
        end,
        parts: parts
            .into_iter()
            .map(|(hinge, mark)| Part { hinge, mark })
            .collect(),
    }
}

fn told(command: Command, body: &str, json: Json, mark: Mark) -> String {
    let complaint = command
        .answer(body, Ok(Reading { json, mark }), false)
        .unwrap_err();
    let lead = format!("decoding the gateway response: {body}: ");
    complaint.strip_prefix(&lead).unwrap().to_string()
}

#[test]
fn a_fault_is_told_with_its_place() {
    let revoke = || Command::KeysRevoke { id: id() };
    let named = |n: &str, j: Json| (n.to_string(), j);
    let text = || Json::Text("x".to_string());
    // A scalar is told at its end.
    assert_eq!(
        told(Command::Info, "null", Json::Null, mark(0, 4, vec![])),
        "invalid type: null, expected struct InfoView at line 1 column 4"
    );
    assert_eq!(
        told(
            revoke(),
            "{\n \"revoked\": 12}",
            Json::Object(vec![named("revoked", Json::Unsigned(12))]),
            mark(0, 17, vec![(12, mark(14, 16, vec![]))]),
        ),
        "invalid type: integer `12`, expected a string at line 2 column 14"
    );
    // An array or an object is told at its start.
    assert_eq!(
        told(
            revoke(),
            "{\"revoked\":[]}",
            Json::Object(vec![named("revoked", Json::Array(vec![]))]),
            mark(0, 14, vec![(10, mark(11, 13, vec![]))]),
        ),
        "invalid type: sequence, expected a string at line 1 column 11"
    );
    // A second member is told at its colon.
    assert_eq!(
        told(
            revoke(),
            "{\"revoked\":\"x\",\"revoked\" :\"x\"}",
            Json::Object(vec![named("revoked", text()), named("revoked", text())]),
            mark(
                0,
                29,
                vec![(10, mark(11, 14, vec![])), (25, mark(26, 29, vec![]))]
            ),
        ),
        "duplicate field `revoked` at line 1 column 25"
    );
    // Lists that stand for records: too short, and too long.
    assert_eq!(
        told(revoke(), " [] ", Json::Array(vec![]), mark(1, 3, vec![])),
        "invalid length 0, expected struct RevokeView with 1 element at line 1 column 3"
    );
    assert_eq!(
        told(
            revoke(),
            "[\"x\", 7]",
            Json::Array(vec![text(), Json::Unsigned(7)]),
            mark(0, 8, vec![(2, mark(1, 4, vec![])), (7, mark(6, 7, vec![]))]),
        ),
        "trailing characters at line 1 column 7"
    );
    // The place of a fault inside an item of a list.
    assert_eq!(
        told(
            Command::KeysList,
            "{\"items\":[{\"id\":\"\u{e9}\",\"name\":1}]}",
            Json::Object(vec![named(
                "items",
                Json::Array(vec![Json::Object(vec![
                    named("id", Json::Text("\u{e9}".to_string())),
                    named("name", Json::Unsigned(1)),
                ])])
            )]),
            mark(
                0,
                32,
                vec![(
                    8,
                    mark(
                        9,
                        31,
                        vec![(
                            11,
                            mark(
                                10,
                                30,
                                vec![(15, mark(16, 20, vec![])), (27, mark(28, 29, vec![]))]
                            )
                        )]
                    )
                )]
            ),
        ),
        "invalid type: integer `1`, expected a string at line 1 column 29"
    );
    // A label, and a number that does not fit.
    assert_eq!(
        told(
            Command::KeysGet { id: id() },
            "{\"id\":\"x\",\"name\":\"x\",\"labels\":{\"a\":-1}}",
            Json::Object(vec![
                named("id", text()),
                named("name", text()),
                named("labels", Json::Object(vec![named("a", Json::Negative(-1))])),
            ]),
            mark(
                0,
                40,
                vec![
                    (5, mark(6, 9, vec![])),
                    (16, mark(17, 20, vec![])),
                    (29, mark(30, 38, vec![(34, mark(35, 37, vec![]))]))
                ]
            ),
        ),
        "invalid type: integer `-1`, expected a string at line 1 column 37"
    );
    // A part that was passed over tells its place by itself.
    let unread = Json::Unread {
        text: "1e999".to_string(),
        complaint: "number out of range at line 1 column 16".to_string(),
    };
    assert_eq!(
        told(
            revoke(),
            "{\"revoked\":1e999}",
            Json::Object(vec![named("revoked", unread)]),
            mark(0, 17, vec![(10, mark(11, 16, vec![]))]),
        ),
        "number out of range at line 1 column 16"
    );
}

#[test]
fn encodable_tarballs_are_told() {
    assert!(upload(None, None, b"abc").is_encodable());
    assert!(Command::Info.is_encodable());
}
