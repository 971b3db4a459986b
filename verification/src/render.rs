//! The human-readable form of what a gateway answers.

use vstd::prelude::*;

use crate::client::config::ConfigApplyView;
use crate::client::hooks::HookPage;
use crate::client::hooks::HookView;
use crate::client::info::InfoView;
use crate::client::keys::CreatedKeyView;
use crate::client::keys::KeyPage;
use crate::client::keys::KeyView;
use crate::client::keys::RevokeView;
use crate::client::keys::RotatedKeyView;
use crate::client::plugins::PluginInstallView;
use crate::client::plugins::PluginPage;
use crate::client::plugins::PluginReloadView;
use crate::client::plugins::PluginView;
use crate::labels;
use crate::labels::Labels;
use crate::text;
use crate::wire;
use crate::wire::Wire;

verus! {

/// The text of an optional string, or a stand-in.
pub open spec fn text_or(s: Option<String>, other: Seq<char>) -> Seq<char> {
    match s {
        Some(s) => s@,
        None => other,
    }
}

/// A text, or `-` where it is empty.
pub open spec fn text_or_dash(s: Seq<char>) -> Seq<char> {
    if s.len() == 0 {
        "-"@
    } else {
        s
    }
}

/// A list with commas, or `(none)`.
pub open spec fn list_text(list: Seq<Seq<char>>) -> Seq<char> {
    if list.len() == 0 {
        "(none)"@
    } else {
        text::joined(list, ", "@)
    }
}

/// A column of `width` characters and the space after it.
pub open spec fn column(s: Seq<char>, width: nat) -> Seq<char> {
    text::padded(s, width) + " "@
}

fn text_or_else<'a>(s: &'a Option<String>, other: &'a str) -> (shown: &'a str)
    ensures
        shown@ == text_or(*s, other@),
{
    match s {
        Some(s) => s.as_str(),
        None => other,
    }
}

fn or_dash(s: &String) -> (shown: &str)
    ensures
        shown@ == text_or_dash(s@),
{
    if s.as_str().is_empty() {
        "-"
    } else {
        s.as_str()
    }
}

fn list(items: &Vec<String>) -> (shown: String)
    ensures
        shown@ == list_text(text::texts(items@)),
{
    if items.len() == 0 {
        "(none)".to_owned()
    } else {
        text::join(items.as_slice(), ", ")
    }
}

fn cell(s: &str, width: usize) -> (shown: String)
    ensures
        shown@ == column(s@, width as nat),
{
    let mut shown: String = text::pad(s, width);
    shown.append(" ");
    shown
}

// ---- info ----

/// The uptime of a gateway, where it is known.
pub open spec fn uptime_text(seconds: Option<u64>) -> Seq<char> {
    match seconds {
        Some(s) => text::duration_text(s as nat),
        None => "(unknown)"@,
    }
}

/// What is shown of a gateway.
pub open spec fn info_text(info: InfoView) -> Seq<char> {
    "busbar "@ + info.version@ + "\n"@ + "  uptime:           "@ + uptime_text(info.uptime_seconds)
        + "\n"@ + "  config version:   "@ + text::decimal(info.config_version as nat) + "\n"@
        + "  config persist:   "@ + (if info.config_persistence {
        "on (durable)"@
    } else {
        "off (live-only)"@
    }) + "\n"@ + "  topology:         "@ + text::decimal(info.topology.pools as nat) + " pools, "@
        + text::decimal(info.topology.models as nat) + " models, "@ + text::decimal(
        info.topology.providers as nat,
    ) + " providers"@ + "\n"@ + "  auth modules:     "@ + list_text(
        text::texts(info.build.auth_modules@),
    ) + "\n"@ + "  hook plugins:     "@ + list_text(text::texts(info.build.hook_plugins@)) + "\n"@
        + "  weighted floor:   "@ + text::bool_word(info.build.weighted_floor) + "\n"@
}

/// What is shown of a gateway.
pub fn render_info(info: &InfoView) -> (out: String)
    ensures
        out@ == info_text(*info),
{
    let uptime: String = match info.uptime_seconds {
        Some(s) => text::human_duration(s),
        None => "(unknown)".to_owned(),
    };
    let persist: &str = if info.config_persistence {
        "on (durable)"
    } else {
        "off (live-only)"
    };
    let mut out: String = "busbar ".to_owned();
    out.append(info.version.as_str());
    out.append("\n");
    out.append("  uptime:           ");
    out.append(uptime.as_str());
    out.append("\n");
    out.append("  config version:   ");
    out.append(text::decimal_text(info.config_version).as_str());
    out.append("\n");
    out.append("  config persist:   ");
    out.append(persist);
    out.append("\n");
    out.append("  topology:         ");
    out.append(text::decimal_text(info.topology.pools as u64).as_str());
    out.append(" pools, ");
    out.append(text::decimal_text(info.topology.models as u64).as_str());
    out.append(" models, ");
    out.append(text::decimal_text(info.topology.providers as u64).as_str());
    out.append(" providers");
    out.append("\n");
    out.append("  auth modules:     ");
    out.append(list(&info.build.auth_modules).as_str());
    out.append("\n");
    out.append("  hook plugins:     ");
    out.append(list(&info.build.hook_plugins).as_str());
    out.append("\n");
    out.append("  weighted floor:   ");
    out.append(text::bool_text(info.build.weighted_floor));
    out.append("\n");
    out
}

/// What is shown of the version of the running config.
pub open spec fn config_version_text(info: InfoView) -> Seq<char> {
    "config version: "@ + text::decimal(info.config_version as nat) + "\n"@ + "persistence:    "@ + (
    if info.config_persistence {
        "on (durable across restart)"@
    } else {
        "off (live-only)"@
    }) + "\n"@
}

/// What is shown of the version of the running config.
pub fn render_config_version(info: &InfoView) -> (out: String)
    ensures
        out@ == config_version_text(*info),
{
    let persist: &str = if info.config_persistence {
        "on (durable across restart)"
    } else {
        "off (live-only)"
    };
    let mut out: String = "config version: ".to_owned();
    out.append(text::decimal_text(info.config_version).as_str());
    out.append("\n");
    out.append("persistence:    ");
    out.append(persist);
    out.append("\n");
    out
}

// ---- keys ----

/// The head of the table of keys.
pub open spec fn key_header() -> Seq<char> {
    column("ID"@, 22) + column("NAME"@, 20) + column("GROUP"@, 16) + column("STATE"@, 10) + column(
        "POOLS"@,
        12,
    ) + "ENABLED"@ + "\n"@
}

/// The row of one key.
pub open spec fn key_row(k: KeyView) -> Seq<char> {
    column(k.id@, 22) + column(text::truncated(k.name@, 20), 20) + column(
        text::truncated(text_or(k.group, "-"@), 16),
        16,
    ) + column(text_or_dash(k.state@), 10) + column(
        text::pools_text(text::opt_texts(k.allowed_pools)),
        12,
    ) + text::bool_word(k.enabled) + "\n"@
}

/// The rows of the keys, one below the other.
pub open spec fn key_rows(keys: Seq<KeyView>) -> Seq<char>
    decreases keys.len(),
{
    if keys.len() == 0 {
        Seq::empty()
    } else {
        key_rows(keys.drop_last()) + key_row(keys.last())
    }
}

/// What is shown of a page of keys.
pub open spec fn key_page_text(page: KeyPage) -> Seq<char> {
    if page.items@.len() == 0 {
        "no virtual keys\n"@
    } else {
        key_header() + key_rows(page.items@) + (if page.next_cursor is Some {
            "(more keys available — showing the first page)\n"@
        } else {
            Seq::empty()
        })
    }
}

fn render_key_row(k: &KeyView) -> (out: String)
    ensures
        out@ == key_row(*k),
{
    let name: String = text::truncate(k.name.as_str(), 20);
    let group: String = text::truncate(text_or_else(&k.group, "-"), 16);
    let pools: String = text::pools_summary(&k.allowed_pools);
    let mut out: String = cell(k.id.as_str(), 22);
    out.append(cell(name.as_str(), 20).as_str());
    out.append(cell(group.as_str(), 16).as_str());
    out.append(cell(or_dash(&k.state), 10).as_str());
    out.append(cell(pools.as_str(), 12).as_str());
    out.append(text::bool_text(k.enabled));
    out.append("\n");
    out
}

/// What is shown of a page of keys.
pub fn render_key_page(page: &KeyPage) -> (out: String)
    ensures
        out@ == key_page_text(*page),
{
    if page.items.len() == 0 {
        return "no virtual keys\n".to_owned();
    }
    let mut rows: String = String::new();
    let mut i: usize = 0;
    while i < page.items.len()
        invariant
            i <= page.items@.len(),
            rows@ == key_rows(page.items@.take(i as int)),
        decreases page.items@.len() - i,
    {
        proof {
            assert(page.items@.take(i + 1).drop_last() =~= page.items@.take(i as int));
            assert(page.items@.take(i + 1).last() == page.items@[i as int]);
        }
        rows.append(render_key_row(&page.items[i]).as_str());
        i = i + 1;
    }
    proof {
        assert(page.items@.take(i as int) =~= page.items@);
    }
    let more: &str = if page.next_cursor.is_some() {
        "(more keys available — showing the first page)\n"
    } else {
        ""
    };
    proof {
        reveal_strlit("");
        assert(""@ =~= Seq::empty());
    }
    let mut out: String = cell("ID", 22);
    out.append(cell("NAME", 20).as_str());
    out.append(cell("GROUP", 16).as_str());
    out.append(cell("STATE", 10).as_str());
    out.append(cell("POOLS", 12).as_str());
    out.append("ENABLED");
    out.append("\n");
    out.append(rows.as_str());
    out.append(more);
    out
}

/// The pools of a key, in full.
pub open spec fn all_pools_text(pools: Option<Seq<Seq<char>>>) -> Seq<char> {
    match pools {
        None => "(all)"@,
        Some(list) => list_text(list),
    }
}

/// The labels of a key, as `key=value`.
pub open spec fn label_words(pairs: Seq<(Seq<char>, Seq<char>)>) -> Seq<Seq<char>> {
    pairs.map_values(|p: (Seq<char>, Seq<char>)| p.0 + "="@ + p.1)
}

/// The line of the labels of a key, left out where it has none.
pub open spec fn labels_line(pairs: Seq<(Seq<char>, Seq<char>)>) -> Seq<char> {
    if pairs.len() == 0 {
        Seq::empty()
    } else {
        "  labels:     "@ + text::joined(label_words(pairs), ", "@) + "\n"@
    }
}

/// What is shown of one key.
pub open spec fn key_text(k: KeyView) -> Seq<char> {
    "key "@ + k.id@ + " ("@ + k.name@ + ")"@ + "\n"@ + "  state:      "@ + text_or_dash(k.state@)
        + "\n"@ + "  enabled:    "@ + text::bool_word(k.enabled) + "\n"@ + "  group:      "@ + text_or(
        k.group,
        "(none)"@,
    ) + "\n"@ + "  pools:      "@ + all_pools_text(text::opt_texts(k.allowed_pools)) + "\n"@
        + "  created_at: "@ + text::decimal(k.created_at as nat) + "\n"@ + labels_line(k.labels@)
}

fn render_labels(labels: &Labels) -> (out: String)
    ensures
        out@ == labels_line(labels@),
{
    let entries: &Vec<(String, String)> = labels.entries();
    if entries.len() == 0 {
        return String::new();
    }
    let mut words: Vec<String> = Vec::new();
    let mut i: usize = 0;
    while i < entries.len()
        invariant
            i <= entries@.len(),
            labels::pair_texts(entries@) == labels@,
            text::texts(words@) =~= label_words(labels@).take(i as int),
        decreases entries@.len() - i,
    {
        let ghost before = words@;
        let mut word: String = entries[i].0.clone();
        word.append("=");
        word.append(entries[i].1.as_str());
        words.push(word);
        proof {
            assert(labels@[i as int] == (entries@[i as int].0@, entries@[i as int].1@));
            assert(text::texts(words@) =~= text::texts(before).push(word@));
            assert(label_words(labels@).take(i + 1) =~= label_words(labels@).take(i as int).push(
                label_words(labels@)[i as int],
            ));
        }
        i = i + 1;
    }
    proof {
        assert(text::texts(words@) =~= label_words(labels@));
    }
    let mut out: String = "  labels:     ".to_owned();
    out.append(text::join(words.as_slice(), ", ").as_str());
    out.append("\n");
    out
}

/// What is shown of one key.
pub fn render_key(k: &KeyView) -> (out: String)
    ensures
        out@ == key_text(*k),
{
    let pools: String = match &k.allowed_pools {
        None => "(all)".to_owned(),
        Some(p) => list(p),
    };
    let mut out: String = "key ".to_owned();
    out.append(k.id.as_str());
    out.append(" (");
    out.append(k.name.as_str());
    out.append(")");
    out.append("\n");
    out.append("  state:      ");
    out.append(or_dash(&k.state));
    out.append("\n");
    out.append("  enabled:    ");
    out.append(text::bool_text(k.enabled));
    out.append("\n");
    out.append("  group:      ");
    out.append(text_or_else(&k.group, "(none)"));
    out.append("\n");
    out.append("  pools:      ");
    out.append(pools.as_str());
    out.append("\n");
    out.append("  created_at: ");
    out.append(text::decimal_text(k.created_at).as_str());
    out.append("\n");
    out.append(render_labels(&k.labels).as_str());
    out
}

/// The line of an optional string between two texts, left out where there is none.
pub open spec fn some_line(before: Seq<char>, s: Option<String>, after: Seq<char>) -> Seq<char> {
    match s {
        Some(s) => before + s@ + after,
        None => Seq::empty(),
    }
}

fn line_of(before: &str, s: &Option<String>, after: &str) -> (out: String)
    ensures
        out@ == some_line(before@, *s, after@),
{
    match s {
        Some(s) => {
            let mut out: String = before.to_owned();
            out.append(s.as_str());
            out.append(after);
            out
        },
        None => String::new(),
    }
}

/// What is shown of a key that was created, its token once.
pub open spec fn created_text(k: CreatedKeyView) -> Seq<char> {
    "created key "@ + k.id@ + " ("@ + k.name@ + ")"@ + "\n"@ + some_line(
        "  group: "@,
        k.group,
        if k.group_provisioned {
            "  (auto-provisioned)\n"@
        } else {
            "\n"@
        },
    ) + "  expires_at: "@ + text::decimal(k.expires_at as nat) + " (unix seconds)\n"@ + "\n"@
        + "  ┌─────────────────────────────────────────────────────────────┐\n"@
        + "  │  TOKEN (shown once — store it now, it cannot be retrieved)  │\n"@
        + "  └─────────────────────────────────────────────────────────────┘\n"@ + "  token: "@
        + k.token@ + "\n"@ + some_line("  aws_access_key_id:     "@, k.aws_access_key_id, "\n"@)
        + some_line("  aws_secret_access_key: "@, k.aws_secret_access_key, "  (shown once)\n"@)
}

/// What is shown of a key that was created.
pub fn render_created(k: &CreatedKeyView) -> (out: String)
    ensures
        out@ == created_text(*k),
{
    let group_end: &str = if k.group_provisioned {
        "  (auto-provisioned)\n"
    } else {
        "\n"
    };
    let mut out: String = "created key ".to_owned();
    out.append(k.id.as_str());
    out.append(" (");
    out.append(k.name.as_str());
    out.append(")");
    out.append("\n");
    out.append(line_of("  group: ", &k.group, group_end).as_str());
    out.append("  expires_at: ");
    out.append(text::decimal_text(k.expires_at).as_str());
    out.append(" (unix seconds)\n");
    out.append("\n");
    out.append("  ┌─────────────────────────────────────────────────────────────┐\n");
    out.append("  │  TOKEN (shown once — store it now, it cannot be retrieved)  │\n");
    out.append("  └─────────────────────────────────────────────────────────────┘\n");
    out.append("  token: ");
    out.append(k.token.as_str());
    out.append("\n");
    out.append(line_of("  aws_access_key_id:     ", &k.aws_access_key_id, "\n").as_str());
    out.append(
        line_of("  aws_secret_access_key: ", &k.aws_secret_access_key, "  (shown once)\n").as_str(),
    );
    out
}

/// When a fresh token expires, where both are known.
pub open spec fn fresh_token_text(token: Option<String>, expires_at: Option<u64>) -> Seq<char> {
    match (token, expires_at) {
        (Some(t), Some(at)) => "  token: "@ + t@ + "\n"@ + "  expires_at: "@ + text::decimal(
            at as nat,
        ) + " (unix seconds)\n"@,
        (Some(t), None) => "  token: "@ + t@ + "\n"@,
        (None, _) => Seq::empty(),
    }
}

/// What is shown of a key that was rotated, its new credential once.
pub open spec fn rotated_text(k: RotatedKeyView) -> Seq<char> {
    "rotated key "@ + k.id@ + " ("@ + k.name@ + ")"@ + "\n"@ + "\n"@
        + "  ┌─────────────────────────────────────────────────────────────────┐\n"@
        + "  │  NEW CREDENTIAL (shown once — the old one no longer resolves)  │\n"@
        + "  └─────────────────────────────────────────────────────────────────┘\n"@
        + fresh_token_text(k.token, k.expires_at) + some_line("  secret: "@, k.secret, "\n"@)
}

/// What is shown of a key that was rotated.
pub fn render_rotated(k: &RotatedKeyView) -> (out: String)
    ensures
        out@ == rotated_text(*k),
{
    let mut fresh: String = String::new();
    if let Some(t) = &k.token {
        fresh = "  token: ".to_owned();
        fresh.append(t.as_str());
        fresh.append("\n");
        if let Some(at) = k.expires_at {
            fresh.append("  expires_at: ");
            fresh.append(text::decimal_text(at).as_str());
            fresh.append(" (unix seconds)\n");
        }
    }
    let mut out: String = "rotated key ".to_owned();
    out.append(k.id.as_str());
    out.append(" (");
    out.append(k.name.as_str());
    out.append(")");
    out.append("\n");
    out.append("\n");
    out.append("  ┌─────────────────────────────────────────────────────────────────┐\n");
    out.append("  │  NEW CREDENTIAL (shown once — the old one no longer resolves)  │\n");
    out.append("  └─────────────────────────────────────────────────────────────────┘\n");
    out.append(fresh.as_str());
    out.append(line_of("  secret: ", &k.secret, "\n").as_str());
    out
}

/// What is shown of a key that was revoked.
pub open spec fn revoked_text(v: RevokeView) -> Seq<char> {
    "revoked key "@ + v.revoked@ + " (denylisted; the record remains for audit)\n"@
}

/// What is shown of a key that was revoked.
pub fn render_revoked(v: &RevokeView) -> (out: String)
    ensures
        out@ == revoked_text(*v),
{
    let mut out: String = "revoked key ".to_owned();
    out.append(v.revoked.as_str());
    out.append(" (denylisted; the record remains for audit)\n");
    out
}

/// What is shown of a key that was deleted.
pub open spec fn deleted_text(id: Seq<char>) -> Seq<char> {
    "deleted key "@ + id + " (revoked and tombstoned)\n"@
}

/// What is shown of a key that was deleted.
pub fn render_deleted(id: &str) -> (out: String)
    ensures
        out@ == deleted_text(id@),
{
    let mut out: String = "deleted key ".to_owned();
    out.append(id);
    out.append(" (revoked and tombstoned)\n");
    out
}

// ---- plugins ----

/// The head of the table of plugins.
pub open spec fn plugin_header() -> Seq<char> {
    column("NAME"@, 20) + column("TYPE"@, 7) + column("LOADER"@, 12) + column("ACTIVE"@, 8)
        + column("VERSION"@, 10) + column("TRUST"@, 10) + "FILE"@ + "\n"@
}

/// An optional flag, `-` where it is unknown.
pub open spec fn flag_text(flag: Option<bool>) -> Seq<char> {
    match flag {
        Some(b) => text::bool_word(b),
        None => "-"@,
    }
}

/// The row of one plugin.
pub open spec fn plugin_row(p: PluginView) -> Seq<char> {
    column(text::truncated(p.name@, 20), 20) + column(p.plugin_type@, 7) + column(p.loader@, 12)
        + column(flag_text(p.active), 8) + column(text_or(p.version, "-"@), 10) + column(
        text_or(p.trust, "-"@),
        10,
    ) + text_or(p.file, "-"@) + "\n"@
}

/// The rows of the plugins, one below the other.
pub open spec fn plugin_rows(plugins: Seq<PluginView>) -> Seq<char>
    decreases plugins.len(),
{
    if plugins.len() == 0 {
        Seq::empty()
    } else {
        plugin_rows(plugins.drop_last()) + plugin_row(plugins.last())
    }
}

/// The table of plugins.
pub open spec fn plugin_table(plugins: Seq<PluginView>) -> Seq<char> {
    plugin_header() + plugin_rows(plugins)
}

fn render_plugin_row(p: &PluginView) -> (out: String)
    ensures
        out@ == plugin_row(*p),
{
    let name: String = text::truncate(p.name.as_str(), 20);
    let active: String = text::opt(p.active);
    let mut out: String = cell(name.as_str(), 20);
    out.append(cell(p.plugin_type.as_str(), 7).as_str());
    out.append(cell(p.loader.as_str(), 12).as_str());
    out.append(cell(active.as_str(), 8).as_str());
    out.append(cell(text_or_else(&p.version, "-"), 10).as_str());
    out.append(cell(text_or_else(&p.trust, "-"), 10).as_str());
    out.append(text_or_else(&p.file, "-"));
    out.append("\n");
    out
}

/// The table of plugins.
pub fn print_plugin_rows(items: &Vec<PluginView>) -> (out: String)
    ensures
        out@ == plugin_table(items@),
{
    let mut rows: String = String::new();
    let mut i: usize = 0;
    while i < items.len()
        invariant
            i <= items@.len(),
            rows@ == plugin_rows(items@.take(i as int)),
        decreases items@.len() - i,
    {
        proof {
            assert(items@.take(i + 1).drop_last() =~= items@.take(i as int));
            assert(items@.take(i + 1).last() == items@[i as int]);
        }
        rows.append(render_plugin_row(&items[i]).as_str());
        i = i + 1;
    }
    proof {
        assert(items@.take(i as int) =~= items@);
    }
    let mut out: String = cell("NAME", 20);
    out.append(cell("TYPE", 7).as_str());
    out.append(cell("LOADER", 12).as_str());
    out.append(cell("ACTIVE", 8).as_str());
    out.append(cell("VERSION", 10).as_str());
    out.append(cell("TRUST", 10).as_str());
    out.append("FILE");
    out.append("\n");
    out.append(rows.as_str());
    out
}

/// What is shown of a page of plugins of one type.
pub open spec fn plugin_page_text(page: PluginPage, plugin_type: Seq<char>) -> Seq<char> {
    if page.items@.len() == 0 {
        "no "@ + plugin_type + " plugins\n"@
    } else if page.next_cursor is Some {
        plugin_table(page.items@) + "(more "@ + plugin_type
            + " plugins available — showing the first page)\n"@
    } else {
        plugin_table(page.items@)
    }
}

/// What is shown of a page of plugins of one type.
pub fn render_plugin_page(page: &PluginPage, plugin_type: &str) -> (out: String)
    ensures
        out@ == plugin_page_text(*page, plugin_type@),
{
    if page.items.len() == 0 {
        let mut out: String = "no ".to_owned();
        out.append(plugin_type);
        out.append(" plugins\n");
        return out;
    }
    let mut out: String = print_plugin_rows(&page.items);
    if page.next_cursor.is_some() {
        out.append("(more ");
        out.append(plugin_type);
        out.append(" plugins available — showing the first page)\n");
    }
    out
}

/// The line of a note, left out where it is empty.
pub open spec fn note_line(note: Seq<char>) -> Seq<char> {
    if note.len() == 0 {
        Seq::empty()
    } else {
        "note: "@ + note + "\n"@
    }
}

fn render_note(note: &String) -> (out: String)
    ensures
        out@ == note_line(note@),
{
    if note.as_str().is_empty() {
        String::new()
    } else {
        let mut out: String = "note: ".to_owned();
        out.append(note.as_str());
        out.append("\n");
        out
    }
}

/// What is shown of a plugin that was installed.
pub open spec fn installed_text(v: PluginInstallView) -> Seq<char> {
    "installed "@ + v.file@ + " (plugin "@ + v.name@ + " v"@ + text_or(v.version, "?"@)
        + ", trust: "@ + v.trust@ + ")\n"@ + note_line(v.note@)
}

/// What is shown of a plugin that was installed.
pub fn render_installed(v: &PluginInstallView) -> (out: String)
    ensures
        out@ == installed_text(*v),
{
    let mut out: String = "installed ".to_owned();
    out.append(v.file.as_str());
    out.append(" (plugin ");
    out.append(v.name.as_str());
    out.append(" v");
    out.append(text_or_else(&v.version, "?"));
    out.append(", trust: ");
    out.append(v.trust.as_str());
    out.append(")\n");
    out.append(render_note(&v.note).as_str());
    out
}

/// What is shown of the plugins directory.
pub open spec fn reloaded_text(v: PluginReloadView) -> Seq<char> {
    (if v.plugins@.len() == 0 {
        "no dynamic-library plugins in the plugins directory\n"@
    } else {
        plugin_table(v.plugins@)
    }) + note_line(v.note@)
}

/// What is shown of the plugins directory.
pub fn render_reloaded(v: &PluginReloadView) -> (out: String)
    ensures
        out@ == reloaded_text(*v),
{
    let mut out: String = if v.plugins.len() == 0 {
        "no dynamic-library plugins in the plugins directory\n".to_owned()
    } else {
        print_plugin_rows(&v.plugins)
    };
    out.append(render_note(&v.note).as_str());
    out
}

// ---- hooks ----

/// The head of the table of hooks.
pub open spec fn hook_header() -> Seq<char> {
    column("NAME"@, 20) + column("KIND"@, 6) + column("TRANSPORT"@, 8) + column("PROMPT"@, 8)
        + column("GLOBAL"@, 7) + "TARGET"@ + "\n"@
}

/// The row of one hook.
pub open spec fn hook_row(h: HookView) -> Seq<char> {
    column(text::truncated(h.name@, 20), 20) + column(h.kind@, 6) + column(h.transport.kind@, 8)
        + column(h.prompt@, 8) + column(text::bool_word(h.global), 7) + text_or(
        h.transport.target,
        "-"@,
    ) + "\n"@
}

/// The rows of the hooks, one below the other.
pub open spec fn hook_rows(hooks: Seq<HookView>) -> Seq<char>
    decreases hooks.len(),
{
    if hooks.len() == 0 {
        Seq::empty()
    } else {
        hook_rows(hooks.drop_last()) + hook_row(hooks.last())
    }
}

/// What is shown of a page of hooks.
pub open spec fn hook_page_text(page: HookPage) -> Seq<char> {
    if page.items@.len() == 0 {
        "no hooks registered\n"@
    } else if page.next_cursor is Some {
        hook_header() + hook_rows(page.items@) + "(more hooks available — showing the first page)\n"@
    } else {
        hook_header() + hook_rows(page.items@)
    }
}

fn render_hook_row(h: &HookView) -> (out: String)
    ensures
        out@ == hook_row(*h),
{
    let name: String = text::truncate(h.name.as_str(), 20);
    let mut out: String = cell(name.as_str(), 20);
    out.append(cell(h.kind.as_str(), 6).as_str());
    out.append(cell(h.transport.kind.as_str(), 8).as_str());
    out.append(cell(h.prompt.as_str(), 8).as_str());
    out.append(cell(text::bool_text(h.global), 7).as_str());
    out.append(text_or_else(&h.transport.target, "-"));
    out.append("\n");
    out
}

/// What is shown of a page of hooks.
pub fn render_hook_page(page: &HookPage) -> (out: String)
    ensures
        out@ == hook_page_text(*page),
{
    if page.items.len() == 0 {
        return "no hooks registered\n".to_owned();
    }
    let mut rows: String = String::new();
    let mut i: usize = 0;
    while i < page.items.len()
        invariant
            i <= page.items@.len(),
            rows@ == hook_rows(page.items@.take(i as int)),
        decreases page.items@.len() - i,
    {
        proof {
            assert(page.items@.take(i + 1).drop_last() =~= page.items@.take(i as int));
            assert(page.items@.take(i + 1).last() == page.items@[i as int]);
        }
        rows.append(render_hook_row(&page.items[i]).as_str());
        i = i + 1;
    }
    proof {
        assert(page.items@.take(i as int) =~= page.items@);
    }
    let mut out: String = cell("NAME", 20);
    out.append(cell("KIND", 6).as_str());
    out.append(cell("TRANSPORT", 8).as_str());
    out.append(cell("PROMPT", 8).as_str());
    out.append(cell("GLOBAL", 7).as_str());
    out.append("TARGET");
    out.append("\n");
    out.append(rows.as_str());
    if page.next_cursor.is_some() {
        out.append("(more hooks available — showing the first page)\n");
    }
    out
}

// ---- config ----

/// What is shown of a config that was applied.
pub open spec fn applied_text(v: ConfigApplyView) -> Seq<char> {
    "config applied — now at version "@ + text::decimal(v.config_version as nat) + "\n"@
        + note_line(v.note@)
}

/// What is shown of a config that was applied.
pub fn render_applied(v: &ConfigApplyView) -> (out: String)
    ensures
        out@ == applied_text(*v),
{
    let mut out: String = "config applied — now at version ".to_owned();
    out.append(text::decimal_text(v.config_version).as_str());
    out.append("\n");
    out.append(render_note(&v.note).as_str());
    out
}

/// The complaint about a config that was taken but not applied.
pub open spec fn not_applied_text(note: Seq<char>) -> Seq<char> {
    "gateway did NOT apply the config (applied=false)"@ + (if note.len() == 0 {
        Seq::empty()
    } else {
        ": "@ + note
    })
}

/// The complaint about a config that was taken but not applied.
pub fn render_not_applied(v: &ConfigApplyView) -> (out: String)
    ensures
        out@ == not_applied_text(v.note@),
{
    let mut tail: String = String::new();
    if !v.note.as_str().is_empty() {
        tail = ": ".to_owned();
        tail.append(v.note.as_str());
    }
    let mut out: String = "gateway did NOT apply the config (applied=false)".to_owned();
    out.append(tail.as_str());
    out
}

/// Whether `text` holds `part`.
pub open spec fn holds(text: Seq<char>, part: Seq<char>) -> bool {
    exists|before: Seq<char>, after: Seq<char>| text == #[trigger] (before + part + after)
}

/// What is shown of a key that was created holds its token, and the AWS secret where one was
/// issued: there is no other time to see them.
pub proof fn law_created_key_is_shown_with_its_credential(k: CreatedKeyView)
    ensures
        holds(created_text(k), "  token: "@ + k.token@ + "\n"@),
        k.aws_access_key_id matches Some(id) ==> holds(
            created_text(k),
            "  aws_access_key_id:     "@ + id@ + "\n"@,
        ),
        k.aws_secret_access_key matches Some(secret) ==> holds(
            created_text(k),
            "  aws_secret_access_key: "@ + secret@ + "  (shown once)\n"@,
        ),
{
    let lead = "created key "@ + k.id@ + " ("@ + k.name@ + ")"@ + "\n"@ + some_line(
        "  group: "@,
        k.group,
        if k.group_provisioned {
            "  (auto-provisioned)\n"@
        } else {
            "\n"@
        },
    ) + "  expires_at: "@ + text::decimal(k.expires_at as nat) + " (unix seconds)\n"@ + "\n"@
        + "  ┌─────────────────────────────────────────────────────────────┐\n"@
        + "  │  TOKEN (shown once — store it now, it cannot be retrieved)  │\n"@
        + "  └─────────────────────────────────────────────────────────────┘\n"@;
    let token = "  token: "@ + k.token@ + "\n"@;
    let id = some_line("  aws_access_key_id:     "@, k.aws_access_key_id, "\n"@);
    let secret = some_line(
        "  aws_secret_access_key: "@,
        k.aws_secret_access_key,
        "  (shown once)\n"@,
    );
    let none = Seq::<char>::empty();
    assert(created_text(k) =~= lead + token + (id + secret));
    assert(created_text(k) =~= (lead + token) + id + secret);
    assert(created_text(k) =~= (lead + token + id) + secret + none);
}

/// What is shown of a key that was rotated holds the new credential, token or secret: there is no
/// other time to see it.
pub proof fn law_rotated_key_is_shown_with_its_credential(k: RotatedKeyView)
    ensures
        k.token matches Some(t) ==> holds(rotated_text(k), "  token: "@ + t@ + "\n"@),
        k.secret matches Some(s) ==> holds(rotated_text(k), "  secret: "@ + s@ + "\n"@),
{
    let lead = "rotated key "@ + k.id@ + " ("@ + k.name@ + ")"@ + "\n"@ + "\n"@
        + "  ┌─────────────────────────────────────────────────────────────────┐\n"@
        + "  │  NEW CREDENTIAL (shown once — the old one no longer resolves)  │\n"@
        + "  └─────────────────────────────────────────────────────────────────┘\n"@;
    let fresh = fresh_token_text(k.token, k.expires_at);
    let secret = some_line("  secret: "@, k.secret, "\n"@);
    let none = Seq::<char>::empty();
    assert(rotated_text(k) =~= (lead + fresh) + secret + none);
    if let Some(t) = k.token {
        let token = "  token: "@ + t@ + "\n"@;
        let expiry = match k.expires_at {
            Some(at) => "  expires_at: "@ + text::decimal(at as nat) + " (unix seconds)\n"@,
            None => none,
        };
        assert(fresh =~= token + expiry);
        assert(rotated_text(k) =~= lead + token + (expiry + secret));
    }
}

proof fn lemma_texts_by_doc(a: Seq<String>, b: Seq<String>)
    requires
        wire::list_docs(a) == wire::list_docs(b),
    ensures
        text::texts(a) == text::texts(b),
{
    assert(wire::list_docs(a).len() == a.len());
    assert(wire::list_docs(b).len() == b.len());
    assert forall|i: int| 0 <= i < a.len() implies (#[trigger] a[i])@ == b[i]@ by {
        assert(wire::list_docs(a)[i] == a[i].doc());
        assert(wire::list_docs(b)[i] == b[i].doc());
    }
    assert(text::texts(a) =~= text::texts(b));
}

proof fn lemma_pools_by_doc(a: Option<Vec<String>>, b: Option<Vec<String>>)
    requires
        a.doc() == b.doc(),
    ensures
        text::opt_texts(a) == text::opt_texts(b),
{
    if a is Some && b is Some {
        lemma_texts_by_doc(a->0@, b->0@);
    }
}

proof fn lemma_labels_by_doc(a: Labels, b: Labels)
    requires
        a.doc() == b.doc(),
    ensures
        a@ == b@,
{
    let x = wire::label_members(a@);
    let y = wire::label_members(b@);
    assert(x.len() == a@.len() && y.len() == b@.len());
    assert forall|i: int| 0 <= i < a@.len() implies (#[trigger] a@[i]) == b@[i] by {
        assert(x[i] == y[i]);
    }
    assert(a@ =~= b@);
}

/// The document of a value settles what is shown of it.
pub(crate) proof fn lemma_info_by_doc(a: InfoView, b: InfoView)
    requires
        a.doc() == b.doc(),
        a.well_formed(),
        b.well_formed(),
    ensures
        info_text(a) == info_text(b),
        config_version_text(a) == config_version_text(b),
        a.config_persistence == b.config_persistence,
        a.config_version == b.config_version,
{
    assert(a.doc()->Object_0[0] == b.doc()->Object_0[0]);
    assert(a.doc()->Object_0[1] == b.doc()->Object_0[1]);
    assert(a.doc()->Object_0[2] == b.doc()->Object_0[2]);
    assert(a.doc()->Object_0[3] == b.doc()->Object_0[3]);
    assert(a.doc()->Object_0[4] == b.doc()->Object_0[4]);
    assert(a.doc()->Object_0[5] == b.doc()->Object_0[5]);
    assert(a.doc()->Object_0[6] == b.doc()->Object_0[6]);
    assert(a.build.doc()->Object_0[0] == b.build.doc()->Object_0[0]);
    assert(a.build.doc()->Object_0[1] == b.build.doc()->Object_0[1]);
    assert(a.build.doc()->Object_0[2] == b.build.doc()->Object_0[2]);
    assert(a.topology.doc()->Object_0[0] == b.topology.doc()->Object_0[0]);
    assert(a.topology.doc()->Object_0[1] == b.topology.doc()->Object_0[1]);
    assert(a.topology.doc()->Object_0[2] == b.topology.doc()->Object_0[2]);
    lemma_texts_by_doc(a.build.auth_modules@, b.build.auth_modules@);
    lemma_texts_by_doc(a.build.hook_plugins@, b.build.hook_plugins@);
}

/// The document of a value settles what is shown of it.
pub(crate) proof fn lemma_key_by_doc(a: KeyView, b: KeyView)
    requires
        a.doc() == b.doc(),
        a.well_formed(),
        b.well_formed(),
    ensures
        key_text(a) == key_text(b),
        key_row(a) == key_row(b),
{
    assert(a.doc()->Object_0[0] == b.doc()->Object_0[0]);
    assert(a.doc()->Object_0[1] == b.doc()->Object_0[1]);
    assert(a.doc()->Object_0[2] == b.doc()->Object_0[2]);
    assert(a.doc()->Object_0[3] == b.doc()->Object_0[3]);
    assert(a.doc()->Object_0[4] == b.doc()->Object_0[4]);
    assert(a.doc()->Object_0[5] == b.doc()->Object_0[5]);
    assert(a.doc()->Object_0[6] == b.doc()->Object_0[6]);
    assert(a.doc()->Object_0[7] == b.doc()->Object_0[7]);
    lemma_pools_by_doc(a.allowed_pools, b.allowed_pools);
    lemma_labels_by_doc(a.labels, b.labels);
}

/// The document of a value settles what is shown of it.
pub(crate) proof fn lemma_created_by_doc(a: CreatedKeyView, b: CreatedKeyView)
    requires
        a.doc() == b.doc(),
        a.well_formed(),
        b.well_formed(),
    ensures
        created_text(a) == created_text(b),
{
    assert(a.doc()->Object_0[0] == b.doc()->Object_0[0]);
    assert(a.doc()->Object_0[1] == b.doc()->Object_0[1]);
    assert(a.doc()->Object_0[2] == b.doc()->Object_0[2]);
    assert(a.doc()->Object_0[3] == b.doc()->Object_0[3]);
    assert(a.doc()->Object_0[4] == b.doc()->Object_0[4]);
    assert(a.doc()->Object_0[5] == b.doc()->Object_0[5]);
    assert(a.doc()->Object_0[6] == b.doc()->Object_0[6]);
    assert(a.doc()->Object_0[7] == b.doc()->Object_0[7]);
    assert(a.doc()->Object_0[8] == b.doc()->Object_0[8]);
    assert(a.doc()->Object_0[9] == b.doc()->Object_0[9]);
    assert(a.doc()->Object_0[10] == b.doc()->Object_0[10]);
    assert(a.doc()->Object_0[11] == b.doc()->Object_0[11]);
    assert(a.doc()->Object_0[12] == b.doc()->Object_0[12]);
}

/// The document of a value settles what is shown of it.
pub(crate) proof fn lemma_rotated_by_doc(a: RotatedKeyView, b: RotatedKeyView)
    requires
        a.doc() == b.doc(),
        a.well_formed(),
        b.well_formed(),
    ensures
        rotated_text(a) == rotated_text(b),
{
    assert(a.doc()->Object_0[0] == b.doc()->Object_0[0]);
    assert(a.doc()->Object_0[1] == b.doc()->Object_0[1]);
    assert(a.doc()->Object_0[2] == b.doc()->Object_0[2]);
    assert(a.doc()->Object_0[3] == b.doc()->Object_0[3]);
    assert(a.doc()->Object_0[4] == b.doc()->Object_0[4]);
    assert(a.doc()->Object_0[5] == b.doc()->Object_0[5]);
    assert(a.doc()->Object_0[6] == b.doc()->Object_0[6]);
    assert(a.doc()->Object_0[7] == b.doc()->Object_0[7]);
    assert(a.doc()->Object_0[8] == b.doc()->Object_0[8]);
    assert(a.doc()->Object_0[9] == b.doc()->Object_0[9]);
    assert(a.doc()->Object_0[10] == b.doc()->Object_0[10]);
}

/// The document of a value settles what is shown of it.
pub(crate) proof fn lemma_revoked_by_doc(a: RevokeView, b: RevokeView)
    requires
        a.doc() == b.doc(),
        a.well_formed(),
        b.well_formed(),
    ensures
        revoked_text(a) == revoked_text(b),
{
    assert(a.doc()->Object_0[0] == b.doc()->Object_0[0]);
}

/// The document of a value settles what is shown of it.
pub(crate) proof fn lemma_applied_by_doc(a: ConfigApplyView, b: ConfigApplyView)
    requires
        a.doc() == b.doc(),
        a.well_formed(),
        b.well_formed(),
    ensures
        a.applied == b.applied,
        a.note@ == b.note@,
        applied_text(a) == applied_text(b),
{
    assert(a.doc()->Object_0[0] == b.doc()->Object_0[0]);
    assert(a.doc()->Object_0[1] == b.doc()->Object_0[1]);
    assert(a.doc()->Object_0[2] == b.doc()->Object_0[2]);
}

/// The document of a value settles what is shown of it.
pub(crate) proof fn lemma_installed_by_doc(a: PluginInstallView, b: PluginInstallView)
    requires
        a.doc() == b.doc(),
        a.well_formed(),
        b.well_formed(),
    ensures
        installed_text(a) == installed_text(b),
{
    assert(a.doc()->Object_0[0] == b.doc()->Object_0[0]);
    assert(a.doc()->Object_0[1] == b.doc()->Object_0[1]);
    assert(a.doc()->Object_0[2] == b.doc()->Object_0[2]);
    assert(a.doc()->Object_0[3] == b.doc()->Object_0[3]);
    assert(a.doc()->Object_0[4] == b.doc()->Object_0[4]);
    assert(a.doc()->Object_0[5] == b.doc()->Object_0[5]);
}

/// The document of a value settles what is shown of it.
pub(crate) proof fn lemma_plugin_by_doc(a: PluginView, b: PluginView)
    requires
        a.doc() == b.doc(),
        a.well_formed(),
        b.well_formed(),
    ensures
        plugin_row(a) == plugin_row(b),
{
    assert(a.doc()->Object_0[0] == b.doc()->Object_0[0]);
    assert(a.doc()->Object_0[1] == b.doc()->Object_0[1]);
    assert(a.doc()->Object_0[2] == b.doc()->Object_0[2]);
    assert(a.doc()->Object_0[3] == b.doc()->Object_0[3]);
    assert(a.doc()->Object_0[4] == b.doc()->Object_0[4]);
    assert(a.doc()->Object_0[5] == b.doc()->Object_0[5]);
    assert(a.doc()->Object_0[6] == b.doc()->Object_0[6]);
    assert(a.doc()->Object_0[7] == b.doc()->Object_0[7]);
    assert(a.doc()->Object_0[8] == b.doc()->Object_0[8]);
    assert(a.doc()->Object_0[9] == b.doc()->Object_0[9]);
    assert(a.doc()->Object_0[10] == b.doc()->Object_0[10]);
}

/// The document of a value settles what is shown of it.
pub(crate) proof fn lemma_hook_by_doc(a: HookView, b: HookView)
    requires
        a.doc() == b.doc(),
        a.well_formed(),
        b.well_formed(),
    ensures
        hook_row(a) == hook_row(b),
{
    assert(a.doc()->Object_0[0] == b.doc()->Object_0[0]);
    assert(a.doc()->Object_0[1] == b.doc()->Object_0[1]);
    assert(a.doc()->Object_0[2] == b.doc()->Object_0[2]);
    assert(a.doc()->Object_0[3] == b.doc()->Object_0[3]);
    assert(a.doc()->Object_0[4] == b.doc()->Object_0[4]);
    assert(a.doc()->Object_0[5] == b.doc()->Object_0[5]);
    assert(a.doc()->Object_0[6] == b.doc()->Object_0[6]);
    assert(a.doc()->Object_0[7] == b.doc()->Object_0[7]);
    assert(a.doc()->Object_0[8] == b.doc()->Object_0[8]);
    assert(a.doc()->Object_0[9] == b.doc()->Object_0[9]);
    assert(a.transport.doc()->Object_0[0] == b.transport.doc()->Object_0[0]);
    assert(a.transport.doc()->Object_0[1] == b.transport.doc()->Object_0[1]);
}

proof fn lemma_key_rows_by_doc(a: Seq<KeyView>, b: Seq<KeyView>)
    requires
        wire::list_docs(a) == wire::list_docs(b),
        forall|i: int| 0 <= i < a.len() ==> (#[trigger] a[i]).well_formed(),
        forall|i: int| 0 <= i < b.len() ==> (#[trigger] b[i]).well_formed(),
    ensures
        a.len() == b.len(),
        key_rows(a) == key_rows(b),
    decreases a.len(),
{
    assert(wire::list_docs(a).len() == a.len());
    assert(wire::list_docs(b).len() == b.len());
    if a.len() > 0 {
        let n = a.len() - 1;
        assert(wire::list_docs(a)[n] == a[n].doc());
        assert(wire::list_docs(b)[n] == b[n].doc());
        lemma_key_by_doc(a[n], b[n]);
        assert(wire::list_docs(a.drop_last()) =~= wire::list_docs(a).drop_last());
        assert(wire::list_docs(b.drop_last()) =~= wire::list_docs(b).drop_last());
        lemma_key_rows_by_doc(a.drop_last(), b.drop_last());
    }
}

proof fn lemma_plugin_rows_by_doc(a: Seq<PluginView>, b: Seq<PluginView>)
    requires
        wire::list_docs(a) == wire::list_docs(b),
        forall|i: int| 0 <= i < a.len() ==> (#[trigger] a[i]).well_formed(),
        forall|i: int| 0 <= i < b.len() ==> (#[trigger] b[i]).well_formed(),
    ensures
        a.len() == b.len(),
        plugin_rows(a) == plugin_rows(b),
    decreases a.len(),
{
    assert(wire::list_docs(a).len() == a.len());
    assert(wire::list_docs(b).len() == b.len());
    if a.len() > 0 {
        let n = a.len() - 1;
        assert(wire::list_docs(a)[n] == a[n].doc());
        assert(wire::list_docs(b)[n] == b[n].doc());
        lemma_plugin_by_doc(a[n], b[n]);
        assert(wire::list_docs(a.drop_last()) =~= wire::list_docs(a).drop_last());
        assert(wire::list_docs(b.drop_last()) =~= wire::list_docs(b).drop_last());
        lemma_plugin_rows_by_doc(a.drop_last(), b.drop_last());
    }
}

proof fn lemma_hook_rows_by_doc(a: Seq<HookView>, b: Seq<HookView>)
    requires
        wire::list_docs(a) == wire::list_docs(b),
        forall|i: int| 0 <= i < a.len() ==> (#[trigger] a[i]).well_formed(),
        forall|i: int| 0 <= i < b.len() ==> (#[trigger] b[i]).well_formed(),
    ensures
        a.len() == b.len(),
        hook_rows(a) == hook_rows(b),
    decreases a.len(),
{
    assert(wire::list_docs(a).len() == a.len());
    assert(wire::list_docs(b).len() == b.len());
    if a.len() > 0 {
        let n = a.len() - 1;
        assert(wire::list_docs(a)[n] == a[n].doc());
        assert(wire::list_docs(b)[n] == b[n].doc());
        lemma_hook_by_doc(a[n], b[n]);
        assert(wire::list_docs(a.drop_last()) =~= wire::list_docs(a).drop_last());
        assert(wire::list_docs(b.drop_last()) =~= wire::list_docs(b).drop_last());
        lemma_hook_rows_by_doc(a.drop_last(), b.drop_last());
    }
}

/// The document of a value settles what is shown of it.
pub(crate) proof fn lemma_key_page_by_doc(a: KeyPage, b: KeyPage)
    requires
        a.doc() == b.doc(),
        a.well_formed(),
        b.well_formed(),
    ensures
        key_page_text(a) == key_page_text(b),
{
    assert(a.doc()->Object_0[0] == b.doc()->Object_0[0]);
    assert(a.doc()->Object_0[1] == b.doc()->Object_0[1]);
    lemma_key_rows_by_doc(a.items@, b.items@);
}

/// The document of a value settles what is shown of it.
pub(crate) proof fn lemma_hook_page_by_doc(a: HookPage, b: HookPage)
    requires
        a.doc() == b.doc(),
        a.well_formed(),
        b.well_formed(),
    ensures
        hook_page_text(a) == hook_page_text(b),
{
    assert(a.doc()->Object_0[0] == b.doc()->Object_0[0]);
    assert(a.doc()->Object_0[1] == b.doc()->Object_0[1]);
    lemma_hook_rows_by_doc(a.items@, b.items@);
}

/// The document of a value settles what is shown of it.
pub(crate) proof fn lemma_plugin_page_by_doc(a: PluginPage, b: PluginPage, plugin_type: Seq<char>)
    requires
        a.doc() == b.doc(),
        a.well_formed(),
        b.well_formed(),
    ensures
        plugin_page_text(a, plugin_type) == plugin_page_text(b, plugin_type),
{
    assert(a.doc()->Object_0[0] == b.doc()->Object_0[0]);
    assert(a.doc()->Object_0[1] == b.doc()->Object_0[1]);
    lemma_plugin_rows_by_doc(a.items@, b.items@);
}

/// The document of a value settles what is shown of it.
pub(crate) proof fn lemma_reloaded_by_doc(a: PluginReloadView, b: PluginReloadView)
    requires
        a.doc() == b.doc(),
        a.well_formed(),
        b.well_formed(),
    ensures
        reloaded_text(a) == reloaded_text(b),
{
    assert(a.doc()->Object_0[0] == b.doc()->Object_0[0]);
    assert(a.doc()->Object_0[1] == b.doc()->Object_0[1]);
    lemma_plugin_rows_by_doc(a.plugins@, b.plugins@);
}

} // verus!
