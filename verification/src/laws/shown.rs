//! What each command shows of what the gateway answered.

use vstd::prelude::*;
use vstd::utf8::*;

use crate::cli;
use crate::cli::Command;
use crate::cli::Report;
use crate::client::config::ConfigApplyView;
use crate::client::hooks::HookPage;
use crate::client::hooks::HookView;
use crate::client::info::InfoView;
use crate::client::keys::CreatedKeyView;
use crate::client::keys::KeyPage;
use crate::client::keys::KeyView;
use crate::client::keys::RevokeView;
use crate::client::keys::RotatedKeyView;
use crate::client::plugins::PluginInstallView;
use crate::client::plugins::PluginPage;
use crate::client::plugins::PluginReloadView;
use crate::client::plugins::PluginView;
use crate::json;
use crate::json::Doc;
use crate::laws::words;
use crate::place;
use crate::place::Mark;
use crate::place::Reading;
use crate::render;
use crate::text;
use crate::wire;
use crate::wire::Fault;
use crate::wire::Wire;

verus! {

/// Texts one behind the other.
pub open spec fn stacked(parts: Seq<Seq<char>>) -> Seq<char>
    decreases parts.len(),
{
    if parts.len() == 0 {
        Seq::empty()
    } else {
        stacked(parts.drop_last()) + parts.last()
    }
}

/// Whether a text is made of these parts, one behind the other.
pub open spec fn made_of(s: Seq<char>, parts: Seq<Seq<char>>) -> bool {
    s == stacked(parts)
}

proof fn lemma_stacked()
    ensures
        stacked(Seq::empty()) == Seq::<char>::empty(),
        forall|parts: Seq<Seq<char>>, part: Seq<char>| #[trigger]
            stacked(parts.push(part)) == stacked(parts) + part,
        forall|a: Seq<char>, b: Seq<char>, c: Seq<char>| #[trigger] (a + (b + c)) == a + b + c,
        forall|a: Seq<char>| #[trigger] (a + Seq::<char>::empty()) == a,
        forall|a: Seq<char>| #[trigger] (Seq::<char>::empty() + a) == a,
{
    assert forall|parts: Seq<Seq<char>>, part: Seq<char>| #[trigger]
        stacked(parts.push(part)) == stacked(parts) + part by {
        assert(parts.push(part).drop_last() =~= parts);
    }
    assert forall|a: Seq<char>, b: Seq<char>, c: Seq<char>| #[trigger] (a + (b + c)) == a + b
        + c by {
        assert(a + (b + c) =~= a + b + c);
    }
    assert forall|a: Seq<char>| #[trigger] (a + Seq::<char>::empty()) == a by {
        assert(a + Seq::<char>::empty() =~= a);
    }
    assert forall|a: Seq<char>| #[trigger] (Seq::<char>::empty() + a) == a by {
        assert(Seq::<char>::empty() + a =~= a);
    }
}

/// What is given, or a stand-in.
pub open spec fn given(s: Option<String>, other: Seq<char>) -> Seq<char> {
    match s {
        Some(value) => value@,
        None => other,
    }
}

/// A flag in words.
pub open spec fn flag(b: bool) -> Seq<char> {
    if b {
        "true"@
    } else {
        "false"@
    }
}

/// How much room a cell takes in a row: its width, or its text where that is longer, and the space
/// behind it.
pub open spec fn room(s: Seq<char>, width: nat) -> int {
    (if s.len() < width {
        width as int
    } else {
        s.len() as int
    }) + 1
}

/// Whether the cell of a row that starts at `from` shows `s`: the text stands there, and spaces
/// fill the rest of the cell.
pub open spec fn cell_shows(row: Seq<char>, from: int, s: Seq<char>, width: nat) -> bool {
    &&& 0 <= from
    &&& from + room(s, width) <= row.len()
    &&& row.subrange(from, from + s.len()) == s
    &&& forall|i: int| from + s.len() <= i < from + room(s, width) ==> #[trigger] row[i] == ' '
}

proof fn lemma_cell(before: Seq<char>, s: Seq<char>, width: nat, after: Seq<char>)
    ensures
        cell_shows(
            before + render::column(s, width) + after,
            before.len() as int,
            s,
            width,
        ),
        render::column(s, width).len() == room(s, width),
{
    reveal_strlit(" ");
    assert(" "@ =~= seq![' ']);
    text::law_padded_fills(s, width);
    let cell = render::column(s, width);
    let row = before + cell + after;
    let from = before.len() as int;
    assert(row.subrange(from, from + s.len()) =~= s) by {
        assert forall|i: int| 0 <= i < s.len() implies #[trigger] row[from + i] == s[i] by {
            assert(text::padded(s, width).take(s.len() as int)[i] == s[i]);
        }
    }
    assert forall|i: int| from + s.len() <= i < from + room(s, width) implies #[trigger] row[i]
        == ' ' by {
        assert(row[i] == cell[i - from]);
    }
}

/// Each row of the table of keys shows its own key: id, name, group, state, pools and whether it is
/// enabled, each in its column.
pub proof fn law_key_rows_show_the_key(k: KeyView)
    ensures
        ({
            let row = render::key_row(k);
            let id = k.id@;
            let name = text::truncated(k.name@, 20);
            let group = text::truncated(given(k.group, "-"@), 16);
            let state = if k.state@.len() == 0 {
                "-"@
            } else {
                k.state@
            };
            let pools = text::pools_text(text::opt_texts(k.allowed_pools));
            let at1 = room(id, 22);
            let at2 = at1 + room(name, 20);
            let at3 = at2 + room(group, 16);
            let at4 = at3 + room(state, 10);
            let at5 = at4 + room(pools, 12);
            &&& cell_shows(row, 0, id, 22)
            &&& cell_shows(row, at1, name, 20)
            &&& cell_shows(row, at2, group, 16)
            &&& cell_shows(row, at3, state, 10)
            &&& cell_shows(row, at4, pools, 12)
            &&& row.skip(at5) == flag(k.enabled) + "\n"@
        }),
{
    let id = k.id@;
    let name = text::truncated(k.name@, 20);
    let group = text::truncated(given(k.group, "-"@), 16);
    let state = if k.state@.len() == 0 {
        "-"@
    } else {
        k.state@
    };
    let pools = text::pools_text(text::opt_texts(k.allowed_pools));
    let last = flag(k.enabled) + "\n"@;
    let row = render::key_row(k);
    let none = Seq::<char>::empty();
    let c0 = render::column(id, 22);
    let c1 = render::column(name, 20);
    let c2 = render::column(group, 16);
    let c3 = render::column(state, 10);
    let c4 = render::column(pools, 12);
    lemma_cell(none, id, 22, c1 + c2 + c3 + c4 + last);
    assert(row == none + c0 + (c1 + c2 + c3 + c4 + last)) by {
        lemma_stacked();
    }
    lemma_cell(c0, name, 20, c2 + c3 + c4 + last);
    assert(row == c0 + c1 + (c2 + c3 + c4 + last)) by {
        lemma_stacked();
    }
    lemma_cell(c0 + c1, group, 16, c3 + c4 + last);
    assert(row == (c0 + c1) + c2 + (c3 + c4 + last)) by {
        lemma_stacked();
    }
    lemma_cell(c0 + c1 + c2, state, 10, c4 + last);
    assert(row == (c0 + c1 + c2) + c3 + (c4 + last)) by {
        lemma_stacked();
    }
    lemma_cell(c0 + c1 + c2 + c3, pools, 12, last);
    assert(row == (c0 + c1 + c2 + c3) + c4 + last) by {
        lemma_stacked();
    }
    assert(row == c0 + c1 + c2 + c3 + c4 + last) by {
        lemma_stacked();
    }
    assert(row.skip((c0 + c1 + c2 + c3 + c4).len() as int) =~= last);
}

/// Each row of the table of plugins shows its own plugin: name, type, loader, activity, version,
/// trust and file, each in its column.
pub proof fn law_plugin_rows_show_the_plugin(p: PluginView)
    ensures
        ({
            let row = render::plugin_row(p);
            let name = text::truncated(p.name@, 20);
            let kind = p.plugin_type@;
            let loader = p.loader@;
            let active = match p.active {
                Some(b) => flag(b),
                None => "-"@,
            };
            let version = given(p.version, "-"@);
            let trust = given(p.trust, "-"@);
            let at1 = room(name, 20);
            let at2 = at1 + room(kind, 7);
            let at3 = at2 + room(loader, 12);
            let at4 = at3 + room(active, 8);
            let at5 = at4 + room(version, 10);
            let at6 = at5 + room(trust, 10);
            &&& cell_shows(row, 0, name, 20)
            &&& cell_shows(row, at1, kind, 7)
            &&& cell_shows(row, at2, loader, 12)
            &&& cell_shows(row, at3, active, 8)
            &&& cell_shows(row, at4, version, 10)
            &&& cell_shows(row, at5, trust, 10)
            &&& row.skip(at6) == given(p.file, "-"@) + "\n"@
        }),
{
    let name = text::truncated(p.name@, 20);
    let kind = p.plugin_type@;
    let loader = p.loader@;
    let active = match p.active {
        Some(b) => flag(b),
        None => "-"@,
    };
    let version = given(p.version, "-"@);
    let trust = given(p.trust, "-"@);
    let last = given(p.file, "-"@) + "\n"@;
    let row = render::plugin_row(p);
    let none = Seq::<char>::empty();
    let c0 = render::column(name, 20);
    let c1 = render::column(kind, 7);
    let c2 = render::column(loader, 12);
    let c3 = render::column(active, 8);
    let c4 = render::column(version, 10);
    let c5 = render::column(trust, 10);
    lemma_cell(none, name, 20, c1 + c2 + c3 + c4 + c5 + last);
    assert(row == none + c0 + (c1 + c2 + c3 + c4 + c5 + last)) by {
        lemma_stacked();
    }
    lemma_cell(c0, kind, 7, c2 + c3 + c4 + c5 + last);
    assert(row == c0 + c1 + (c2 + c3 + c4 + c5 + last)) by {
        lemma_stacked();
    }
    lemma_cell(c0 + c1, loader, 12, c3 + c4 + c5 + last);
    assert(row == (c0 + c1) + c2 + (c3 + c4 + c5 + last)) by {
        lemma_stacked();
    }
    lemma_cell(c0 + c1 + c2, active, 8, c4 + c5 + last);
    assert(row == (c0 + c1 + c2) + c3 + (c4 + c5 + last)) by {
        lemma_stacked();
    }
    lemma_cell(c0 + c1 + c2 + c3, version, 10, c5 + last);
    assert(row == (c0 + c1 + c2 + c3) + c4 + (c5 + last)) by {
        lemma_stacked();
    }
    lemma_cell(c0 + c1 + c2 + c3 + c4, trust, 10, last);
    assert(row == (c0 + c1 + c2 + c3 + c4) + c5 + last) by {
        lemma_stacked();
    }
    assert(row == c0 + c1 + c2 + c3 + c4 + c5 + last) by {
        lemma_stacked();
    }
    assert(row.skip((c0 + c1 + c2 + c3 + c4 + c5).len() as int) =~= last);
}

/// Each row of the table of hooks shows its own hook: name, kind, transport, prompt, whether it is
/// global, and target, each in its column.
pub proof fn law_hook_rows_show_the_hook(h: HookView)
    ensures
        ({
            let row = render::hook_row(h);
            let name = text::truncated(h.name@, 20);
            let kind = h.kind@;
            let transport = h.transport.kind@;
            let prompt = h.prompt@;
            let global = flag(h.global);
            let at1 = room(name, 20);
            let at2 = at1 + room(kind, 6);
            let at3 = at2 + room(transport, 8);
            let at4 = at3 + room(prompt, 8);
            let at5 = at4 + room(global, 7);
            &&& cell_shows(row, 0, name, 20)
            &&& cell_shows(row, at1, kind, 6)
            &&& cell_shows(row, at2, transport, 8)
            &&& cell_shows(row, at3, prompt, 8)
            &&& cell_shows(row, at4, global, 7)
            &&& row.skip(at5) == given(h.transport.target, "-"@) + "\n"@
        }),
{
    let name = text::truncated(h.name@, 20);
    let kind = h.kind@;
    let transport = h.transport.kind@;
    let prompt = h.prompt@;
    let global = flag(h.global);
    let last = given(h.transport.target, "-"@) + "\n"@;
    let row = render::hook_row(h);
    let none = Seq::<char>::empty();
    let c0 = render::column(name, 20);
    let c1 = render::column(kind, 6);
    let c2 = render::column(transport, 8);
    let c3 = render::column(prompt, 8);
    let c4 = render::column(global, 7);
    lemma_cell(none, name, 20, c1 + c2 + c3 + c4 + last);
    assert(row == none + c0 + (c1 + c2 + c3 + c4 + last)) by {
        lemma_stacked();
    }
    lemma_cell(c0, kind, 6, c2 + c3 + c4 + last);
    assert(row == c0 + c1 + (c2 + c3 + c4 + last)) by {
        lemma_stacked();
    }
    lemma_cell(c0 + c1, transport, 8, c3 + c4 + last);
    assert(row == (c0 + c1) + c2 + (c3 + c4 + last)) by {
        lemma_stacked();
    }
    lemma_cell(c0 + c1 + c2, prompt, 8, c4 + last);
    assert(row == (c0 + c1 + c2) + c3 + (c4 + last)) by {
        lemma_stacked();
    }
    lemma_cell(c0 + c1 + c2 + c3, global, 7, last);
    assert(row == (c0 + c1 + c2 + c3) + c4 + last) by {
        lemma_stacked();
    }
    assert(row == c0 + c1 + c2 + c3 + c4 + last) by {
        lemma_stacked();
    }
    assert(row.skip((c0 + c1 + c2 + c3 + c4).len() as int) =~= last);
}

/// Each column of the table of keys is headed by what it shows.
pub proof fn law_key_columns_are_headed()
    ensures
        ({
            let head = render::key_header();
            let at1 = room("ID"@, 22);
            let at2 = at1 + room("NAME"@, 20);
            let at3 = at2 + room("GROUP"@, 16);
            let at4 = at3 + room("STATE"@, 10);
            let at5 = at4 + room("POOLS"@, 12);
            &&& cell_shows(head, 0, "ID"@, 22)
            &&& cell_shows(head, at1, "NAME"@, 20)
            &&& cell_shows(head, at2, "GROUP"@, 16)
            &&& cell_shows(head, at3, "STATE"@, 10)
            &&& cell_shows(head, at4, "POOLS"@, 12)
            &&& head.skip(at5) == "ENABLED"@ + "\n"@
        }),
{
    let last = "ENABLED"@ + "\n"@;
    let head = render::key_header();
    let none = Seq::<char>::empty();
    let c0 = render::column("ID"@, 22);
    let c1 = render::column("NAME"@, 20);
    let c2 = render::column("GROUP"@, 16);
    let c3 = render::column("STATE"@, 10);
    let c4 = render::column("POOLS"@, 12);
    lemma_cell(none, "ID"@, 22, c1 + c2 + c3 + c4 + last);
    assert(head == none + c0 + (c1 + c2 + c3 + c4 + last)) by {
        lemma_stacked();
    }
    lemma_cell(c0, "NAME"@, 20, c2 + c3 + c4 + last);
    assert(head == c0 + c1 + (c2 + c3 + c4 + last)) by {
        lemma_stacked();
    }
    lemma_cell(c0 + c1, "GROUP"@, 16, c3 + c4 + last);
    assert(head == (c0 + c1) + c2 + (c3 + c4 + last)) by {
        lemma_stacked();
    }
    lemma_cell(c0 + c1 + c2, "STATE"@, 10, c4 + last);
    assert(head == (c0 + c1 + c2) + c3 + (c4 + last)) by {
        lemma_stacked();
    }
    lemma_cell(c0 + c1 + c2 + c3, "POOLS"@, 12, last);
    assert(head == (c0 + c1 + c2 + c3) + c4 + last) by {
        lemma_stacked();
    }
    assert(head == c0 + c1 + c2 + c3 + c4 + last) by {
        lemma_stacked();
    }
    assert(head.skip((c0 + c1 + c2 + c3 + c4).len() as int) =~= last);
}

/// Each column of the table of plugins is headed by what it shows.
pub proof fn law_plugin_columns_are_headed()
    ensures
        ({
            let head = render::plugin_header();
            let at1 = room("NAME"@, 20);
            let at2 = at1 + room("TYPE"@, 7);
            let at3 = at2 + room("LOADER"@, 12);
            let at4 = at3 + room("ACTIVE"@, 8);
            let at5 = at4 + room("VERSION"@, 10);
            let at6 = at5 + room("TRUST"@, 10);
            &&& cell_shows(head, 0, "NAME"@, 20)
            &&& cell_shows(head, at1, "TYPE"@, 7)
            &&& cell_shows(head, at2, "LOADER"@, 12)
            &&& cell_shows(head, at3, "ACTIVE"@, 8)
            &&& cell_shows(head, at4, "VERSION"@, 10)
            &&& cell_shows(head, at5, "TRUST"@, 10)
            &&& head.skip(at6) == "FILE"@ + "\n"@
        }),
{
    let last = "FILE"@ + "\n"@;
    let head = render::plugin_header();
    let none = Seq::<char>::empty();
    let c0 = render::column("NAME"@, 20);
    let c1 = render::column("TYPE"@, 7);
    let c2 = render::column("LOADER"@, 12);
    let c3 = render::column("ACTIVE"@, 8);
    let c4 = render::column("VERSION"@, 10);
    let c5 = render::column("TRUST"@, 10);
    lemma_cell(none, "NAME"@, 20, c1 + c2 + c3 + c4 + c5 + last);
    assert(head == none + c0 + (c1 + c2 + c3 + c4 + c5 + last)) by {
        lemma_stacked();
    }
    lemma_cell(c0, "TYPE"@, 7, c2 + c3 + c4 + c5 + last);
    assert(head == c0 + c1 + (c2 + c3 + c4 + c5 + last)) by {
        lemma_stacked();
    }
    lemma_cell(c0 + c1, "LOADER"@, 12, c3 + c4 + c5 + last);
    assert(head == (c0 + c1) + c2 + (c3 + c4 + c5 + last)) by {
        lemma_stacked();
    }
    lemma_cell(c0 + c1 + c2, "ACTIVE"@, 8, c4 + c5 + last);
    assert(head == (c0 + c1 + c2) + c3 + (c4 + c5 + last)) by {
        lemma_stacked();
    }
    lemma_cell(c0 + c1 + c2 + c3, "VERSION"@, 10, c5 + last);
    assert(head == (c0 + c1 + c2 + c3) + c4 + (c5 + last)) by {
        lemma_stacked();
    }
    lemma_cell(c0 + c1 + c2 + c3 + c4, "TRUST"@, 10, last);
    assert(head == (c0 + c1 + c2 + c3 + c4) + c5 + last) by {
        lemma_stacked();
    }
    assert(head == c0 + c1 + c2 + c3 + c4 + c5 + last) by {
        lemma_stacked();
    }
    assert(head.skip((c0 + c1 + c2 + c3 + c4 + c5).len() as int) =~= last);
}

/// Each column of the table of hooks is headed by what it shows.
pub proof fn law_hook_columns_are_headed()
    ensures
        ({
            let head = render::hook_header();
            let at1 = room("NAME"@, 20);
            let at2 = at1 + room("KIND"@, 6);
            let at3 = at2 + room("TRANSPORT"@, 8);
            let at4 = at3 + room("PROMPT"@, 8);
            let at5 = at4 + room("GLOBAL"@, 7);
            &&& cell_shows(head, 0, "NAME"@, 20)
            &&& cell_shows(head, at1, "KIND"@, 6)
            &&& cell_shows(head, at2, "TRANSPORT"@, 8)
            &&& cell_shows(head, at3, "PROMPT"@, 8)
            &&& cell_shows(head, at4, "GLOBAL"@, 7)
            &&& head.skip(at5) == "TARGET"@ + "\n"@
        }),
{
    let last = "TARGET"@ + "\n"@;
    let head = render::hook_header();
    let none = Seq::<char>::empty();
    let c0 = render::column("NAME"@, 20);
    let c1 = render::column("KIND"@, 6);
    let c2 = render::column("TRANSPORT"@, 8);
    let c3 = render::column("PROMPT"@, 8);
    let c4 = render::column("GLOBAL"@, 7);
    lemma_cell(none, "NAME"@, 20, c1 + c2 + c3 + c4 + last);
    assert(head == none + c0 + (c1 + c2 + c3 + c4 + last)) by {
        lemma_stacked();
    }
    lemma_cell(c0, "KIND"@, 6, c2 + c3 + c4 + last);
    assert(head == c0 + c1 + (c2 + c3 + c4 + last)) by {
        lemma_stacked();
    }
    lemma_cell(c0 + c1, "TRANSPORT"@, 8, c3 + c4 + last);
    assert(head == (c0 + c1) + c2 + (c3 + c4 + last)) by {
        lemma_stacked();
    }
    lemma_cell(c0 + c1 + c2, "PROMPT"@, 8, c4 + last);
    assert(head == (c0 + c1 + c2) + c3 + (c4 + last)) by {
        lemma_stacked();
    }
    lemma_cell(c0 + c1 + c2 + c3, "GLOBAL"@, 7, last);
    assert(head == (c0 + c1 + c2 + c3) + c4 + last) by {
        lemma_stacked();
    }
    assert(head == c0 + c1 + c2 + c3 + c4 + last) by {
        lemma_stacked();
    }
    assert(head.skip((c0 + c1 + c2 + c3 + c4).len() as int) =~= last);
}

proof fn lemma_key_rows_stack(items: Seq<KeyView>)
    ensures
        render::key_rows(items) == stacked(items.map_values(|x: KeyView| render::key_row(x))),
    decreases items.len(),
{
    let all = items.map_values(|x: KeyView| render::key_row(x));
    if items.len() > 0 {
        lemma_key_rows_stack(items.drop_last());
        assert(all.drop_last() =~= items.drop_last().map_values(|x: KeyView| render::key_row(x)));
        assert(all.last() == render::key_row(items.last()));
    }
}

proof fn lemma_plugin_rows_stack(items: Seq<PluginView>)
    ensures
        render::plugin_rows(items) == stacked(
            items.map_values(|x: PluginView| render::plugin_row(x)),
        ),
    decreases items.len(),
{
    let all = items.map_values(|x: PluginView| render::plugin_row(x));
    if items.len() > 0 {
        lemma_plugin_rows_stack(items.drop_last());
        assert(all.drop_last() =~= items.drop_last().map_values(
            |x: PluginView| render::plugin_row(x),
        ));
        assert(all.last() == render::plugin_row(items.last()));
    }
}

proof fn lemma_hook_rows_stack(items: Seq<HookView>)
    ensures
        render::hook_rows(items) == stacked(items.map_values(|x: HookView| render::hook_row(x))),
    decreases items.len(),
{
    let all = items.map_values(|x: HookView| render::hook_row(x));
    if items.len() > 0 {
        lemma_hook_rows_stack(items.drop_last());
        assert(all.drop_last() =~= items.drop_last().map_values(|x: HookView| render::hook_row(x)));
        assert(all.last() == render::hook_row(items.last()));
    }
}

/// A page of keys is a table with one row for each key, in order, under its head, and tells where
/// there are more; a page without keys says so.
pub proof fn law_key_page_has_a_row_for_each_key(page: KeyPage)
    ensures
        ({
            let rows = page.items@.map_values(|k: KeyView| render::key_row(k));
            let more = "(more keys available — showing the first page)\n"@;
            &&& page.items@.len() == 0 ==> render::key_page_text(page) == "no virtual keys\n"@
            &&& page.items@.len() > 0 && page.next_cursor is None ==> render::key_page_text(page)
                == render::key_header() + stacked(rows)
            &&& page.items@.len() > 0 && page.next_cursor is Some ==> render::key_page_text(page)
                == render::key_header() + stacked(rows) + more
        }),
{
    lemma_stacked();
    lemma_key_rows_stack(page.items@);
    assert(page.items@.map_values(|k: KeyView| render::key_row(k)) =~= page.items@.map_values(
        |x: KeyView| render::key_row(x),
    ));
}

/// A page of hooks is a table with one row for each hook, in order, under its head, and tells where
/// there are more; a page without hooks says so.
pub proof fn law_hook_page_has_a_row_for_each_hook(page: HookPage)
    ensures
        ({
            let rows = page.items@.map_values(|h: HookView| render::hook_row(h));
            let more = "(more hooks available — showing the first page)\n"@;
            &&& page.items@.len() == 0 ==> render::hook_page_text(page) == "no hooks registered\n"@
            &&& page.items@.len() > 0 && page.next_cursor is None ==> render::hook_page_text(page)
                == render::hook_header() + stacked(rows)
            &&& page.items@.len() > 0 && page.next_cursor is Some ==> render::hook_page_text(page)
                == render::hook_header() + stacked(rows) + more
        }),
{
    lemma_hook_rows_stack(page.items@);
    assert(page.items@.map_values(|h: HookView| render::hook_row(h)) =~= page.items@.map_values(
        |x: HookView| render::hook_row(x),
    ));
}

/// A page of plugins is a table with one row for each plugin, in order, under its head, and tells
/// where there are more of the type; a page without plugins says so.
pub proof fn law_plugin_page_has_a_row_for_each_plugin(page: PluginPage, plugin_type: Seq<char>)
    ensures
        ({
            let rows = page.items@.map_values(|p: PluginView| render::plugin_row(p));
            let shown = render::plugin_page_text(page, plugin_type);
            &&& page.items@.len() == 0 ==> shown == "no "@ + plugin_type + " plugins\n"@
            &&& page.items@.len() > 0 && page.next_cursor is None ==> shown
                == render::plugin_header() + stacked(rows)
            &&& page.items@.len() > 0 && page.next_cursor is Some ==> shown
                == render::plugin_header() + stacked(rows) + "(more "@ + plugin_type
                + " plugins available — showing the first page)\n"@
        }),
{
    lemma_plugin_rows_stack(page.items@);
    assert(page.items@.map_values(|p: PluginView| render::plugin_row(p)) =~= page.items@.map_values(
        |x: PluginView| render::plugin_row(x),
    ));
}

/// The plugins directory is shown as a table with one row for each plugin, in order, and the note
/// below it where there is one.
pub proof fn law_reloaded_plugins_have_a_row_each(v: PluginReloadView)
    ensures
        ({
            let rows = v.plugins@.map_values(|p: PluginView| render::plugin_row(p));
            let table = if v.plugins@.len() == 0 {
                "no dynamic-library plugins in the plugins directory\n"@
            } else {
                render::plugin_header() + stacked(rows)
            };
            &&& v.note@.len() == 0 ==> render::reloaded_text(v) == table
            &&& v.note@.len() > 0 ==> render::reloaded_text(v) == table + ("note: "@ + v.note@
                + "\n"@)
        }),
{
    lemma_stacked();
    lemma_plugin_rows_stack(v.plugins@);
    assert(v.plugins@.map_values(|p: PluginView| render::plugin_row(p)) =~= v.plugins@.map_values(
        |x: PluginView| render::plugin_row(x),
    ));
}

/// The summary of a gateway is a line each for version, uptime, config version, persistence,
/// topology, authentication modules, hook plugins and the weighted floor.
pub proof fn law_info_is_summarized_line_by_line(info: InfoView)
    ensures
        made_of(
            render::info_text(info),
            Seq::empty().push("busbar "@ + info.version@ + "\n"@).push(
                "  uptime:           "@ + (match info.uptime_seconds {
                    Some(s) => text::duration_text(s as nat),
                    None => "(unknown)"@,
                }) + "\n"@,
            ).push(
                "  config version:   "@ + text::decimal(info.config_version as nat) + "\n"@,
            ).push(
                "  config persist:   "@ + (if info.config_persistence {
                    "on (durable)"@
                } else {
                    "off (live-only)"@
                }) + "\n"@,
            ).push(
                "  topology:         "@ + text::decimal(info.topology.pools as nat) + " pools, "@
                    + text::decimal(info.topology.models as nat) + " models, "@ + text::decimal(
                    info.topology.providers as nat,
                ) + " providers"@ + "\n"@,
            ).push(
                "  auth modules:     "@ + (if info.build.auth_modules@.len() == 0 {
                    "(none)"@
                } else {
                    text::joined(text::texts(info.build.auth_modules@), ", "@)
                }) + "\n"@,
            ).push(
                "  hook plugins:     "@ + (if info.build.hook_plugins@.len() == 0 {
                    "(none)"@
                } else {
                    text::joined(text::texts(info.build.hook_plugins@), ", "@)
                }) + "\n"@,
            ).push("  weighted floor:   "@ + flag(info.build.weighted_floor) + "\n"@),
        ),
{
    lemma_stacked();
}

/// The config version is shown with whether an applied config survives a restart; with `--json`
/// these two are the members of the document.
pub proof fn law_config_version_is_shown(info: InfoView)
    ensures
        made_of(
            render::config_version_text(info),
            Seq::empty().push(
                "config version: "@ + text::decimal(info.config_version as nat) + "\n"@,
            ).push(
                "persistence:    "@ + (if info.config_persistence {
                    "on (durable across restart)"@
                } else {
                    "off (live-only)"@
                }) + "\n"@,
            ),
        ),
        cli::config_version_doc(info) == Doc::Object(
            seq![
                ("config_persistence"@, Doc::Bool(info.config_persistence)),
                ("config_version"@, Doc::Unsigned(info.config_version as nat)),
            ],
        ),
{
    lemma_stacked();
    assert(cli::config_version_doc(info)->Object_0 =~= seq![
        ("config_persistence"@, Doc::Bool(info.config_persistence)),
        ("config_version"@, Doc::Unsigned(info.config_version as nat)),
    ]);
}

/// A key is shown with a line each for its state, whether it is enabled, its group, its pools, when
/// it was created, and its labels where it has any.
pub proof fn law_key_is_shown_line_by_line(k: KeyView)
    ensures
        made_of(
            render::key_text(k),
            Seq::empty().push("key "@ + k.id@ + " ("@ + k.name@ + ")"@ + "\n"@).push(
                "  state:      "@ + (if k.state@.len() == 0 {
                    "-"@
                } else {
                    k.state@
                }) + "\n"@,
            ).push("  enabled:    "@ + flag(k.enabled) + "\n"@).push(
                "  group:      "@ + given(k.group, "(none)"@) + "\n"@,
            ).push(
                "  pools:      "@ + (match k.allowed_pools {
                    None => "(all)"@,
                    Some(pools) => if pools@.len() == 0 {
                        "(none)"@
                    } else {
                        text::joined(text::texts(pools@), ", "@)
                    },
                }) + "\n"@,
            ).push("  created_at: "@ + text::decimal(k.created_at as nat) + "\n"@).push(
                if k.labels@.len() == 0 {
                    Seq::empty()
                } else {
                    "  labels:     "@ + text::joined(
                        k.labels@.map_values(|p: (Seq<char>, Seq<char>)| p.0 + "="@ + p.1),
                        ", "@,
                    ) + "\n"@
                },
            ),
        ),
{
    lemma_stacked();
    assert(render::label_words(k.labels@) =~= k.labels@.map_values(
        |p: (Seq<char>, Seq<char>)| p.0 + "="@ + p.1,
    ));
}

/// A key that was created is shown with its group, its expiry, its token and the AWS credential
/// that was issued along with it.
pub proof fn law_created_key_is_shown_line_by_line(k: CreatedKeyView)
    ensures
        made_of(
            render::created_text(k),
            Seq::empty().push("created key "@ + k.id@ + " ("@ + k.name@ + ")"@ + "\n"@).push(
                match k.group {
                    Some(group) => "  group: "@ + group@ + (if k.group_provisioned {
                        "  (auto-provisioned)\n"@
                    } else {
                        "\n"@
                    }),
                    None => Seq::empty(),
                },
            ).push(
                "  expires_at: "@ + text::decimal(k.expires_at as nat) + " (unix seconds)\n"@,
            ).push("\n"@).push(
                "  ┌─────────────────────────────────────────────────────────────┐\n"@,
            ).push(
                "  │  TOKEN (shown once — store it now, it cannot be retrieved)  │\n"@,
            ).push(
                "  └─────────────────────────────────────────────────────────────┘\n"@,
            ).push("  token: "@ + k.token@ + "\n"@).push(
                match k.aws_access_key_id {
                    Some(id) => "  aws_access_key_id:     "@ + id@ + "\n"@,
                    None => Seq::empty(),
                },
            ).push(
                match k.aws_secret_access_key {
                    Some(secret) => "  aws_secret_access_key: "@ + secret@ + "  (shown once)\n"@,
                    None => Seq::empty(),
                },
            ),
        ),
{
    lemma_stacked();
}

/// A key that was rotated is shown with its new credential: the token, and when it expires where
/// that is known, or the secret.
pub proof fn law_rotated_key_is_shown_line_by_line(k: RotatedKeyView)
    ensures
        made_of(
            render::rotated_text(k),
            Seq::empty().push("rotated key "@ + k.id@ + " ("@ + k.name@ + ")"@ + "\n"@).push(
                "\n"@,
            ).push(
                "  ┌─────────────────────────────────────────────────────────────────┐\n"@,
            ).push(
                "  │  NEW CREDENTIAL (shown once — the old one no longer resolves)  │\n"@,
            ).push(
                "  └─────────────────────────────────────────────────────────────────┘\n"@,
            ).push(
                match k.token {
                    Some(token) => "  token: "@ + token@ + "\n"@,
                    None => Seq::empty(),
                },
            ).push(
                if k.token is Some && k.expires_at is Some {
                    "  expires_at: "@ + text::decimal(k.expires_at->0 as nat)
                        + " (unix seconds)\n"@
                } else {
                    Seq::empty()
                },
            ).push(
                match k.secret {
                    Some(secret) => "  secret: "@ + secret@ + "\n"@,
                    None => Seq::empty(),
                },
            ),
        ),
{
    lemma_stacked();
}

/// A key that was revoked or deleted is named, and the two are told apart.
pub proof fn law_revoked_and_deleted_keys_are_named(v: RevokeView, id: Seq<char>)
    ensures
        render::revoked_text(v) == "revoked key "@ + v.revoked@
            + " (denylisted; the record remains for audit)\n"@,
        render::deleted_text(id) == "deleted key "@ + id + " (revoked and tombstoned)\n"@,
        cli::deleted_doc(id) == Doc::Object(seq![("deleted"@, Doc::Text(id))]),
{
}

/// A plugin that was installed is shown with its file, name, version and trust, and the note where
/// there is one.
pub proof fn law_installed_plugin_is_shown(v: PluginInstallView)
    ensures
        made_of(
            render::installed_text(v),
            Seq::empty().push(
                "installed "@ + v.file@ + " (plugin "@ + v.name@ + " v"@ + given(v.version, "?"@)
                    + ", trust: "@ + v.trust@ + ")\n"@,
            ).push(
                if v.note@.len() == 0 {
                    Seq::empty()
                } else {
                    "note: "@ + v.note@ + "\n"@
                },
            ),
        ),
{
    lemma_stacked();
}

/// A config that was applied is shown with its new version, and the note where there is one; one
/// that was not applied is told as such, with the note as the reason.
pub proof fn law_applied_config_is_shown(v: ConfigApplyView)
    ensures
        made_of(
            render::applied_text(v),
            Seq::empty().push(
                "config applied — now at version "@ + text::decimal(v.config_version as nat)
                    + "\n"@,
            ).push(
                if v.note@.len() == 0 {
                    Seq::empty()
                } else {
                    "note: "@ + v.note@ + "\n"@
                },
            ),
        ),
        render::not_applied_text(v.note@) == "gateway did NOT apply the config (applied=false)"@ + (
        if v.note@.len() == 0 {
            Seq::empty()
        } else {
            ": "@ + v.note@
        }),
{
    lemma_stacked();
}

/// Without `--json` a command shows the text of the value that is read from the reply.
pub proof fn law_text_is_that_of_the_value_read(command: Command, reply: Doc, r: Report)
    requires
        cli::command_report(command, reply, false, Ok(r)),
    ensures
        match command {
            Command::Info => forall|v: InfoView|
                InfoView::canon(reply) == Ok::<Doc, Fault>(#[trigger] v.doc()) && v.well_formed()
                    ==> r.text == render::info_text(v),
            Command::ConfigVersion => forall|v: InfoView|
                InfoView::canon(reply) == Ok::<Doc, Fault>(#[trigger] v.doc()) && v.well_formed()
                    ==> r.text == render::config_version_text(v),
            Command::KeysList => forall|v: KeyPage|
                KeyPage::canon(reply) == Ok::<Doc, Fault>(#[trigger] v.doc()) && v.well_formed()
                    ==> r.text == render::key_page_text(v),
            Command::KeysCreate(_) => forall|v: CreatedKeyView|
                CreatedKeyView::canon(reply) == Ok::<Doc, Fault>(#[trigger] v.doc()) && v.well_formed()
                    ==> r.text == render::created_text(v),
            Command::KeysGet { .. } => forall|v: KeyView|
                KeyView::canon(reply) == Ok::<Doc, Fault>(#[trigger] v.doc()) && v.well_formed()
                    ==> r.text == render::key_text(v),
            Command::KeysRotate { .. } => forall|v: RotatedKeyView|
                RotatedKeyView::canon(reply) == Ok::<Doc, Fault>(#[trigger] v.doc()) && v.well_formed()
                    ==> r.text == render::rotated_text(v),
            Command::KeysRevoke { .. } => forall|v: RevokeView|
                RevokeView::canon(reply) == Ok::<Doc, Fault>(#[trigger] v.doc()) && v.well_formed()
                    ==> r.text == render::revoked_text(v),
            Command::HooksList => forall|v: HookPage|
                HookPage::canon(reply) == Ok::<Doc, Fault>(#[trigger] v.doc()) && v.well_formed()
                    ==> r.text == render::hook_page_text(v),
            Command::PluginsList { plugin_type } => forall|v: PluginPage|
                PluginPage::canon(reply) == Ok::<Doc, Fault>(#[trigger] v.doc()) && v.well_formed()
                    ==> r.text == render::plugin_page_text(v, plugin_type@),
            Command::PluginsInstall { .. } => forall|v: PluginInstallView|
                PluginInstallView::canon(reply) == Ok::<Doc, Fault>(#[trigger] v.doc()) && v.well_formed()
                    ==> r.text == render::installed_text(v),
            Command::PluginsReload => forall|v: PluginReloadView|
                PluginReloadView::canon(reply) == Ok::<Doc, Fault>(#[trigger] v.doc()) && v.well_formed()
                    ==> r.text == render::reloaded_text(v),
            Command::ConfigApply { .. } => forall|v: ConfigApplyView|
                ConfigApplyView::canon(reply) == Ok::<Doc, Fault>(#[trigger] v.doc())
                    && v.well_formed() ==> r.text == (if v.applied {
                    render::applied_text(v)
                } else {
                    Seq::empty()
                }) && r.failure == (if v.applied {
                    None
                } else {
                    Some(render::not_applied_text(v.note@))
                }),
            Command::KeysDelete { id } => r.text == render::deleted_text(id@),
            Command::ConfigShow => r.document == Some(reply),
        },
{
    match command {
        Command::Info => {
            let w = choose|v: InfoView|
                InfoView::canon(reply) == Ok::<Doc, Fault>(#[trigger] v.doc()) && v.well_formed() && r
                    == cli::shows(false, reply, render::info_text(v));
            assert forall|v: InfoView|
                InfoView::canon(reply) == Ok::<Doc, Fault>(#[trigger] v.doc()) && v.well_formed()
                implies r.text == render::info_text(v) by {
                render::lemma_info_by_doc(v, w);
            }
        },
        Command::ConfigVersion => {
            let w = choose|v: InfoView|
                InfoView::canon(reply) == Ok::<Doc, Fault>(#[trigger] v.doc()) && v.well_formed() && r
                    == cli::shows(false, cli::config_version_doc(v), render::config_version_text(v));
            assert forall|v: InfoView|
                InfoView::canon(reply) == Ok::<Doc, Fault>(#[trigger] v.doc()) && v.well_formed()
                implies r.text == render::config_version_text(v) by {
                render::lemma_info_by_doc(v, w);
            }
        },
        Command::KeysList => {
            let w = choose|v: KeyPage|
                KeyPage::canon(reply) == Ok::<Doc, Fault>(#[trigger] v.doc()) && v.well_formed() && r
                    == cli::shows(false, reply, render::key_page_text(v));
            assert forall|v: KeyPage|
                KeyPage::canon(reply) == Ok::<Doc, Fault>(#[trigger] v.doc()) && v.well_formed()
                implies r.text == render::key_page_text(v) by {
                render::lemma_key_page_by_doc(v, w);
            }
        },
        Command::KeysCreate(_) => {
            let w = choose|v: CreatedKeyView|
                CreatedKeyView::canon(reply) == Ok::<Doc, Fault>(#[trigger] v.doc()) && v.well_formed() && r
                    == cli::shows(false, reply, render::created_text(v));
            assert forall|v: CreatedKeyView|
                CreatedKeyView::canon(reply) == Ok::<Doc, Fault>(#[trigger] v.doc()) && v.well_formed()
                implies r.text == render::created_text(v) by {
                render::lemma_created_by_doc(v, w);
            }
        },
        Command::KeysGet { .. } => {
            let w = choose|v: KeyView|
                KeyView::canon(reply) == Ok::<Doc, Fault>(#[trigger] v.doc()) && v.well_formed() && r
                    == cli::shows(false, reply, render::key_text(v));
            assert forall|v: KeyView|
                KeyView::canon(reply) == Ok::<Doc, Fault>(#[trigger] v.doc()) && v.well_formed()
                implies r.text == render::key_text(v) by {
                render::lemma_key_by_doc(v, w);
            }
        },
        Command::KeysRotate { .. } => {
            let w = choose|v: RotatedKeyView|
                RotatedKeyView::canon(reply) == Ok::<Doc, Fault>(#[trigger] v.doc()) && v.well_formed() && r
                    == cli::shows(false, reply, render::rotated_text(v));
            assert forall|v: RotatedKeyView|
                RotatedKeyView::canon(reply) == Ok::<Doc, Fault>(#[trigger] v.doc()) && v.well_formed()
                implies r.text == render::rotated_text(v) by {
                render::lemma_rotated_by_doc(v, w);
            }
        },
        Command::KeysRevoke { .. } => {
            let w = choose|v: RevokeView|
                RevokeView::canon(reply) == Ok::<Doc, Fault>(#[trigger] v.doc()) && v.well_formed() && r
                    == cli::shows(false, reply, render::revoked_text(v));
            assert forall|v: RevokeView|
                RevokeView::canon(reply) == Ok::<Doc, Fault>(#[trigger] v.doc()) && v.well_formed()
                implies r.text == render::revoked_text(v) by {
                render::lemma_revoked_by_doc(v, w);
            }
        },
        Command::HooksList => {
            let w = choose|v: HookPage|
                HookPage::canon(reply) == Ok::<Doc, Fault>(#[trigger] v.doc()) && v.well_formed() && r
                    == cli::shows(false, reply, render::hook_page_text(v));
            assert forall|v: HookPage|
                HookPage::canon(reply) == Ok::<Doc, Fault>(#[trigger] v.doc()) && v.well_formed()
                implies r.text == render::hook_page_text(v) by {
                render::lemma_hook_page_by_doc(v, w);
            }
        },
        Command::PluginsList { plugin_type } => {
            let w = choose|v: PluginPage|
                PluginPage::canon(reply) == Ok::<Doc, Fault>(#[trigger] v.doc()) && v.well_formed() && r
                    == cli::shows(false, reply, render::plugin_page_text(v, plugin_type@));
            assert forall|v: PluginPage|
                PluginPage::canon(reply) == Ok::<Doc, Fault>(#[trigger] v.doc()) && v.well_formed()
                implies r.text == render::plugin_page_text(v, plugin_type@) by {
                render::lemma_plugin_page_by_doc(v, w, plugin_type@);
            }
        },
        Command::PluginsInstall { .. } => {
            let w = choose|v: PluginInstallView|
                PluginInstallView::canon(reply) == Ok::<Doc, Fault>(#[trigger] v.doc()) && v.well_formed() && r
                    == cli::shows(false, reply, render::installed_text(v));
            assert forall|v: PluginInstallView|
                PluginInstallView::canon(reply) == Ok::<Doc, Fault>(#[trigger] v.doc()) && v.well_formed()
                implies r.text == render::installed_text(v) by {
                render::lemma_installed_by_doc(v, w);
            }
        },
        Command::PluginsReload => {
            let w = choose|v: PluginReloadView|
                PluginReloadView::canon(reply) == Ok::<Doc, Fault>(#[trigger] v.doc()) && v.well_formed() && r
                    == cli::shows(false, reply, render::reloaded_text(v));
            assert forall|v: PluginReloadView|
                PluginReloadView::canon(reply) == Ok::<Doc, Fault>(#[trigger] v.doc()) && v.well_formed()
                implies r.text == render::reloaded_text(v) by {
                render::lemma_reloaded_by_doc(v, w);
            }
        },
        Command::ConfigApply { .. } => {
            let w = choose|v: ConfigApplyView|
                ConfigApplyView::canon(reply) == Ok::<Doc, Fault>(#[trigger] v.doc())
                    && v.well_formed() && r == cli::config_apply_report(v, reply, false);
            assert forall|v: ConfigApplyView|
                ConfigApplyView::canon(reply) == Ok::<Doc, Fault>(#[trigger] v.doc())
                    && v.well_formed() implies r.text == (if v.applied {
                render::applied_text(v)
            } else {
                Seq::empty()
            }) && r.failure == (if v.applied {
                None
            } else {
                Some(render::not_applied_text(v.note@))
            }) by {
                render::lemma_applied_by_doc(v, w);
            }
        },
        Command::KeysDelete { .. } => {},
        Command::ConfigShow => {},
    }
}

/// A command fails to read its reply exactly where the reply stands for no value of its view, and
/// for that reason.
pub proof fn law_replies_are_refused_for_their_fault(
    command: Command,
    reply: Doc,
    json: bool,
    result: Result<Report, Fault>,
)
    requires
        cli::command_report(command, reply, json, result),
    ensures
        ({
            let read = match command {
                Command::Info => InfoView::canon(reply),
                Command::ConfigVersion => InfoView::canon(reply),
                Command::KeysList => KeyPage::canon(reply),
                Command::KeysCreate(_) => CreatedKeyView::canon(reply),
                Command::KeysGet { .. } => KeyView::canon(reply),
                Command::KeysRotate { .. } => RotatedKeyView::canon(reply),
                Command::KeysRevoke { .. } => RevokeView::canon(reply),
                Command::HooksList => HookPage::canon(reply),
                Command::PluginsList { .. } => PluginPage::canon(reply),
                Command::PluginsInstall { .. } => PluginInstallView::canon(reply),
                Command::PluginsReload => PluginReloadView::canon(reply),
                Command::ConfigApply { .. } => ConfigApplyView::canon(reply),
                Command::KeysDelete { .. } => Ok(reply),
                Command::ConfigShow => Ok(reply),
            };
            match read {
                Ok(_) => result is Ok,
                Err(fault) => result == Err::<Report, Fault>(fault),
            }
        }),
{
}

/// With `--json` a document is shown and nothing else, without it a text and nothing else.
pub proof fn law_either_document_or_text_is_shown(document: Doc, words: Seq<char>)
    ensures
        cli::shows(true, document, words).document == Some(document),
        cli::shows(true, document, words).text == Seq::<char>::empty(),
        cli::shows(true, document, words).failure is None,
        cli::shows(false, document, words).document is None,
        cli::shows(false, document, words).text == words,
        cli::shows(false, document, words).failure is None,
        cli::shows_document(document).document == Some(document),
        cli::shows_document(document).text == Seq::<char>::empty(),
        cli::shows_document(document).failure is None,
{
}

/// `config apply` shows the reply with `--json`, and otherwise what was applied; where nothing was
/// applied it fails with the reason, whatever it shows.
pub proof fn law_apply_shows_reply_or_version(v: ConfigApplyView, reply: Doc, json: bool)
    ensures
        ({
            let r = cli::config_apply_report(v, reply, json);
            &&& json ==> r.document == Some(reply) && r.text == Seq::<char>::empty()
            &&& !json ==> r.document is None
            &&& !json && v.applied ==> r.text == render::applied_text(v)
            &&& !v.applied ==> r.text == Seq::<char>::empty()
            &&& v.applied ==> r.failure is None
            &&& !v.applied ==> r.failure == Some(render::not_applied_text(v.note@))
        }),
{
}

/// With `--json` the commands whose reply is not shown as it is show the id that was deleted, and
/// the config version that was read; `config apply` fails unless the config was applied.
pub proof fn law_documents_of_its_own(command: Command, reply: Doc, r: Report)
    requires
        cli::command_report(command, reply, true, Ok(r)),
    ensures
        match command {
            Command::KeysDelete { id } => r.document == Some(cli::deleted_doc(id@)),
            Command::ConfigVersion => forall|v: InfoView|
                InfoView::canon(reply) == Ok::<Doc, Fault>(#[trigger] v.doc()) && v.well_formed()
                    ==> r.document == Some(cli::config_version_doc(v)),
            Command::ConfigApply { .. } => forall|v: ConfigApplyView|
                ConfigApplyView::canon(reply) == Ok::<Doc, Fault>(#[trigger] v.doc())
                    && v.well_formed() ==> (r.failure is None <==> v.applied),
            _ => r.document == Some(reply),
        },
{
    match command {
        Command::ConfigVersion => {
            let w = choose|v: InfoView|
                InfoView::canon(reply) == Ok::<Doc, Fault>(#[trigger] v.doc()) && v.well_formed()
                    && r == cli::shows(
                    true,
                    cli::config_version_doc(v),
                    render::config_version_text(v),
                );
            assert forall|v: InfoView|
                InfoView::canon(reply) == Ok::<Doc, Fault>(#[trigger] v.doc())
                    && v.well_formed() implies r.document == Some(cli::config_version_doc(v)) by {
                render::lemma_info_by_doc(v, w);
            }
        },
        Command::ConfigApply { .. } => {
            let w = choose|v: ConfigApplyView|
                ConfigApplyView::canon(reply) == Ok::<Doc, Fault>(#[trigger] v.doc())
                    && v.well_formed() && r == cli::config_apply_report(v, reply, true);
            assert forall|v: ConfigApplyView|
                ConfigApplyView::canon(reply) == Ok::<Doc, Fault>(#[trigger] v.doc())
                    && v.well_formed() implies (r.failure is None <==> v.applied) by {
                render::lemma_applied_by_doc(v, w);
            }
        },
        _ => {},
    }
}

/// The cause of a complaint about a reply is what is wrong, and the line and column of the byte
/// where it stands, where that is known.
pub proof fn law_causes_name_the_place(fault: Fault, d: Doc, mark: Mark, body: Seq<char>)
    requires
        encode_utf8(body).len() < usize::MAX,
    ensures
        ({
            let cause = cli::fault_cause(fault, d, mark, body);
            let bytes = encode_utf8(body);
            match place::fault_offset(fault, d, mark) {
                None => cause == wire::fault_text(fault),
                Some(at) => at <= bytes.len() ==> cause == wire::fault_text(fault) + " at line "@
                    + text::decimal(place::line_breaks(bytes.take(at as int)) + 1) + " column "@
                    + text::decimal(place::last_line(bytes.take(at as int))),
            }
        }),
{
    if let Some(at) = place::fault_offset(fault, d, mark) {
        if at <= encode_utf8(body).len() {
            words::law_places_are_told(wire::fault_text(fault), encode_utf8(body), at);
        }
    }
}

/// A body that is not JSON, or that stands for no value of the command's view, is told with the
/// whole body and the cause; any other body gives the command's report. `keys delete` needs no
/// body, and `config show` shows any document.
pub proof fn law_bodies_are_answered(
    command: Command,
    body: Seq<char>,
    document: Result<Reading, String>,
    json: bool,
    result: Result<Report, Seq<char>>,
)
    requires
        cli::command_answer(command, body, document, json, result),
    ensures
        ({
            let lead = "decoding the gateway response: "@ + body + ": "@;
            match command {
                Command::KeysDelete { id } => result is Ok && result->Ok_0.failure is None && (
                if json {
                    result->Ok_0.document == Some(cli::deleted_doc(id@)) && result->Ok_0.text
                        == Seq::<char>::empty()
                } else {
                    result->Ok_0.document is None && result->Ok_0.text == render::deleted_text(id@)
                }),
                Command::ConfigShow => match json::json_read(body) {
                    Ok(d) => result is Ok && result->Ok_0.document == Some(d) && result->Ok_0.text
                        == Seq::<char>::empty() && result->Ok_0.failure is None,
                    Err(cause) => result == Err::<Report, Seq<char>>(lead + cause),
                },
                _ => match document {
                    Err(cause) => result == Err::<Report, Seq<char>>(lead + cause@),
                    Ok(read) => {
                        &&& result is Ok ==> cli::command_report(
                            command,
                            read.json@,
                            json,
                            Ok(result->Ok_0),
                        )
                        &&& forall|fault: Fault|
                            cli::command_report(command, read.json@, json, Err(fault)) ==> result
                                == Err::<Report, Seq<char>>(
                                lead + #[trigger] cli::fault_cause(
                                    fault,
                                    read.json@,
                                    read.mark,
                                    body,
                                ),
                            )
                        &&& result is Err ==> exists|fault: Fault|
                            cli::command_report(command, read.json@, json, Err(fault)) && result
                                == Err::<Report, Seq<char>>(
                                lead + #[trigger] cli::fault_cause(
                                    fault,
                                    read.json@,
                                    read.mark,
                                    body,
                                ),
                            )
                    },
                },
            }
        }),
{
}

/// A reply that cannot be read is told with its body and the cause.
pub proof fn law_unreadable_replies_are_told(body: Seq<char>, cause: Seq<char>)
    ensures
        cli::unreadable_text(body, cause) == "decoding the gateway response: "@ + body + ": "@
            + cause,
{
}

} // verus!
