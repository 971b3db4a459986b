//! What the fields of a value are read from.

use vstd::prelude::*;

use crate::client::config::ConfigApplyView;
use crate::client::errors::ErrorDetail;
use crate::client::errors::ErrorEnvelope;
use crate::client::hooks::HookPage;
use crate::client::hooks::HookTransportView;
use crate::client::hooks::HookView;
use crate::client::info::BuildInfo;
use crate::client::info::InfoView;
use crate::client::info::TopologyInfo;
use crate::client::keys::CreatedKeyView;
use crate::client::keys::KeyPage;
use crate::client::keys::KeyView;
use crate::client::keys::RevokeView;
use crate::client::keys::RotatedKeyView;
use crate::client::plugins::InspectView;
use crate::client::plugins::PluginInstallView;
use crate::client::plugins::PluginPage;
use crate::client::plugins::PluginReloadView;
use crate::client::plugins::PluginView;
use crate::json::Doc;
use crate::json::Json;
use crate::json;
use crate::labels::Labels;
use crate::labels;
use crate::record::Slot;
use crate::record;
use crate::text;
use crate::wire::Fault;
use crate::wire::Wire;
use crate::wire;

verus! {

/// Whether a field is read from what stands for it: `read` tells of a member whether it stands for
/// the field's value, and `default` whether that value is the one of a field that is absent.
pub open spec fn stands(slot: Slot, read: spec_fn(Doc) -> bool, default: bool) -> bool {
    match slot {
        Slot::Present(x) => read(x),
        Slot::Absent => default,
        Slot::Repeated => false,
    }
}

/// Null for nothing, else the text.
pub open spec fn optional_text(x: Doc, s: Option<String>) -> bool {
    match s {
        Some(value) => x == Doc::Text(value@),
        None => x == Doc::Null,
    }
}

/// Null for nothing, else the number.
pub open spec fn optional_number(x: Doc, n: Option<u64>) -> bool {
    match n {
        Some(value) => x == Doc::Unsigned(value as nat),
        None => x == Doc::Null,
    }
}

/// Null for nothing, else the flag.
pub open spec fn optional_flag(x: Doc, b: Option<bool>) -> bool {
    match b {
        Some(value) => x == Doc::Bool(value),
        None => x == Doc::Null,
    }
}

/// Null for nothing, else the document itself.
pub open spec fn optional_document(x: Doc, j: Option<Json>) -> bool {
    match j {
        Some(value) => x == value@,
        None => x == Doc::Null,
    }
}

/// An array with the texts, in order.
pub open spec fn text_list(x: Doc, list: Seq<String>) -> bool {
    &&& x is Array
    &&& x->Array_0.len() == list.len()
    &&& forall|i: int| 0 <= i < list.len() ==> #[trigger] x->Array_0[i] == Doc::Text(list[i]@)
}

/// Null for nothing, else an array with the texts, in order.
pub open spec fn optional_texts(x: Doc, list: Option<Vec<String>>) -> bool {
    match list {
        Some(texts) => text_list(x, texts@),
        None => x == Doc::Null,
    }
}

/// An object of texts that maps as the labels do.
pub open spec fn label_object(x: Doc, labels: Labels) -> bool {
    &&& x is Object
    &&& forall|i: int| 0 <= i < x->Object_0.len() ==> (#[trigger] x->Object_0[i]).1 is Text
    &&& labels::pairs_map(labels@) == labels::pairs_map(wire::text_pairs(x->Object_0))
    &&& labels::ascending(labels@)
}

/// An array whose items are read as the items of the list, in order.
pub open spec fn listed<T: Wire>(x: Doc, list: Seq<T>) -> bool {
    &&& x is Array
    &&& x->Array_0.len() == list.len()
    &&& forall|i: int|
        0 <= i < list.len() ==> T::canon(#[trigger] x->Array_0[i]) == Ok::<Doc, Fault>(
            list[i].doc(),
        )
}

/// An array of texts.
pub open spec fn all_texts(x: Doc) -> bool {
    x is Array && forall|i: int| 0 <= i < x->Array_0.len() ==> #[trigger] x->Array_0[i] is Text
}

/// An object of texts.
pub open spec fn all_labels(x: Doc) -> bool {
    x is Object && forall|i: int|
        0 <= i < x->Object_0.len() ==> (#[trigger] x->Object_0[i]).1 is Text
}

/// An array of which every item is read as a `T`.
pub open spec fn all_read<T: Wire>(x: Doc) -> bool {
    x is Array && forall|i: int|
        0 <= i < x->Array_0.len() ==> T::canon(#[trigger] x->Array_0[i]) is Ok
}

proof fn lemma_all_read<T: Wire>(x: Doc)
    ensures
        Vec::<T>::canon(x) is Ok <==> all_read::<T>(x),
{
    if x is Array {
        lemma_no_fault::<T>(x->Array_0, 0);
    }
}

proof fn lemma_no_fault<T: Wire>(list: Seq<Doc>, from: int)
    requires
        0 <= from <= list.len(),
    ensures
        wire::list_fault::<T>(list, from) is None <==> forall|i: int|
            from <= i < list.len() ==> T::canon(#[trigger] list[i]) is Ok,
    decreases list.len() - from,
{
    if from < list.len() {
        lemma_no_fault::<T>(list, from + 1);
    }
}

proof fn lemma_all_texts(x: Doc)
    ensures
        Vec::<String>::canon(x) is Ok <==> all_texts(x),
{
    lemma_all_read::<String>(x);
    if x is Array {
        assert(forall|i: int|
            0 <= i < x->Array_0.len() ==> (String::canon(#[trigger] x->Array_0[i]) is Ok
                <==> x->Array_0[i] is Text));
    }
}

proof fn lemma_all_labels(x: Doc)
    ensures
        Labels::canon(x) is Ok <==> all_labels(x),
{
    if x is Object {
        lemma_member_labels(x->Object_0);
    }
}

proof fn lemma_member_labels(members: Seq<(Seq<char>, Doc)>)
    ensures
        wire::member_labels(members) is Ok <==> forall|i: int|
            0 <= i < members.len() ==> (#[trigger] members[i]).1 is Text,
    decreases members.len(),
{
    if members.len() > 0 {
        let rest = members.drop_last();
        lemma_member_labels(rest);
        assert(forall|i: int| 0 <= i < rest.len() ==> #[trigger] rest[i] == members[i]);
        assert(members[members.len() - 1] == members.last());
        if forall|i: int| 0 <= i < members.len() ==> (#[trigger] members[i]).1 is Text {
            assert forall|i: int| 0 <= i < rest.len() implies (#[trigger] rest[i]).1 is Text by {
                assert(members[i].1 is Text);
            }
        }
        if wire::member_labels(members) is Ok {
            assert forall|i: int| 0 <= i < members.len() implies (
            #[trigger] members[i]).1 is Text by {
                if i < rest.len() {
                    assert(rest[i].1 is Text);
                }
            }
        }
    }
}

proof fn lemma_texts(x: Doc, list: Vec<String>)
    ensures
        Vec::<String>::canon(x) == Ok::<Doc, Fault>(list.doc()) ==> text_list(x, list@),
        list.doc() == Doc::Array(Seq::empty()) ==> list@.len() == 0,
{
    wire::law_list_is_read_item_by_item::<String>(x, list, 0);
    assert(wire::list_docs(list@).len() == list@.len());
    if Vec::<String>::canon(x) == Ok::<Doc, Fault>(list.doc()) {
        assert forall|i: int| 0 <= i < list@.len() implies #[trigger] x->Array_0[i] == Doc::Text(
            list@[i]@,
        ) by {
            assert(String::canon(x->Array_0[i]) == Ok::<Doc, Fault>(list@[i].doc()));
        }
    }
}

proof fn lemma_optional_texts(x: Doc, list: Option<Vec<String>>)
    ensures
        Option::<Vec<String>>::canon(x) == Ok::<Doc, Fault>(list.doc()) ==> optional_texts(x, list),
{
    if let Some(texts) = list {
        lemma_texts(x, texts);
    }
}

proof fn lemma_labels(x: Doc, labels: Labels)
    ensures
        Labels::canon(x) == Ok::<Doc, Fault>(labels.doc()) ==> label_object(x, labels),
        labels.doc() == Doc::Object(Seq::empty()) ==> labels@.len() == 0,
{
    if Labels::canon(x) == Ok::<Doc, Fault>(labels.doc()) {
        wire::law_labels_are_read(x, labels);
    }
    assert(wire::label_members(labels@).len() == labels@.len());
}

proof fn lemma_listed<T: Wire>(x: Doc, list: Vec<T>)
    ensures
        Vec::<T>::canon(x) == Ok::<Doc, Fault>(list.doc()) ==> listed(x, list@),
        list.doc() == Doc::Array(Seq::empty()) ==> list@.len() == 0,
{
    wire::law_list_is_read_item_by_item::<T>(x, list, 0);
    assert(wire::list_docs(list@).len() == list@.len());
}

/// What a gateway tells of itself is read field by field, each from the member of its own name.
pub proof fn law_info_is_read_field_by_field(d: Doc, v: InfoView)
    requires
        InfoView::canon(d) == Ok::<Doc, Fault>(v.doc()),
    ensures
        stands(record::slot(d, 0, "version"@), |x: Doc| x == Doc::Text(v.version@), false),
        stands(
            record::slot(d, 1, "build"@),
            |x: Doc| BuildInfo::canon(x) == Ok::<Doc, Fault>(v.build.doc()),
            false,
        ),
        stands(
            record::slot(d, 2, "uptime_seconds"@),
            |x: Doc| optional_number(x, v.uptime_seconds),
            v.uptime_seconds is None,
        ),
        stands(
            record::slot(d, 3, "started_at"@),
            |x: Doc| optional_number(x, v.started_at),
            v.started_at is None,
        ),
        stands(
            record::slot(d, 4, "topology"@),
            |x: Doc| TopologyInfo::canon(x) == Ok::<Doc, Fault>(v.topology.doc()),
            false,
        ),
        stands(
            record::slot(d, 5, "config_persistence"@),
            |x: Doc| x == Doc::Bool(v.config_persistence),
            !v.config_persistence,
        ),
        stands(
            record::slot(d, 6, "config_version"@),
            |x: Doc| x == Doc::Unsigned(v.config_version as nat),
            v.config_version == 0,
        ),
{
    record::law_fields_are_read("InfoView"@, InfoView::fields(), d);
    let m = InfoView::canon(d)->Ok_0->Object_0;
    assert(m[0] == ("version"@, v.version.doc()));
    assert(m[1] == ("build"@, v.build.doc()));
    assert(m[2] == ("uptime_seconds"@, v.uptime_seconds.doc()));
    assert(m[3] == ("started_at"@, v.started_at.doc()));
    assert(m[4] == ("topology"@, v.topology.doc()));
    assert(m[5] == ("config_persistence"@, v.config_persistence.doc()));
    assert(m[6] == ("config_version"@, v.config_version.doc()));
}

/// What is compiled into a gateway is read field by field, each from the member of its own name.
pub proof fn law_build_is_read_field_by_field(d: Doc, v: BuildInfo)
    requires
        BuildInfo::canon(d) == Ok::<Doc, Fault>(v.doc()),
    ensures
        stands(
            record::slot(d, 0, "auth_modules"@),
            |x: Doc| text_list(x, v.auth_modules@),
            v.auth_modules@.len() == 0,
        ),
        stands(
            record::slot(d, 1, "hook_plugins"@),
            |x: Doc| text_list(x, v.hook_plugins@),
            v.hook_plugins@.len() == 0,
        ),
        stands(
            record::slot(d, 2, "weighted_floor"@),
            |x: Doc| x == Doc::Bool(v.weighted_floor),
            !v.weighted_floor,
        ),
{
    record::law_fields_are_read("BuildInfo"@, BuildInfo::fields(), d);
    let m = BuildInfo::canon(d)->Ok_0->Object_0;
    assert(m[0] == ("auth_modules"@, v.auth_modules.doc()));
    lemma_texts(record::slot(d, 0, "auth_modules"@)->Present_0, v.auth_modules);
    assert(m[1] == ("hook_plugins"@, v.hook_plugins.doc()));
    lemma_texts(record::slot(d, 1, "hook_plugins"@)->Present_0, v.hook_plugins);
    assert(m[2] == ("weighted_floor"@, v.weighted_floor.doc()));
}

/// A topology is read field by field, each from the member of its own name.
pub proof fn law_topology_is_read_field_by_field(d: Doc, v: TopologyInfo)
    requires
        TopologyInfo::canon(d) == Ok::<Doc, Fault>(v.doc()),
    ensures
        stands(record::slot(d, 0, "pools"@), |x: Doc| x == Doc::Unsigned(v.pools as nat), false),
        stands(record::slot(d, 1, "models"@), |x: Doc| x == Doc::Unsigned(v.models as nat), false),
        stands(
            record::slot(d, 2, "providers"@),
            |x: Doc| x == Doc::Unsigned(v.providers as nat),
            false,
        ),
{
    record::law_fields_are_read("TopologyInfo"@, TopologyInfo::fields(), d);
    let m = TopologyInfo::canon(d)->Ok_0->Object_0;
    assert(m[0] == ("pools"@, v.pools.doc()));
    assert(m[1] == ("models"@, v.models.doc()));
    assert(m[2] == ("providers"@, v.providers.doc()));
}

/// A key is read field by field, each from the member of its own name.
pub proof fn law_key_is_read_field_by_field(d: Doc, v: KeyView)
    requires
        KeyView::canon(d) == Ok::<Doc, Fault>(v.doc()),
    ensures
        stands(record::slot(d, 0, "id"@), |x: Doc| x == Doc::Text(v.id@), false),
        stands(record::slot(d, 1, "name"@), |x: Doc| x == Doc::Text(v.name@), false),
        stands(
            record::slot(d, 2, "allowed_pools"@),
            |x: Doc| optional_texts(x, v.allowed_pools),
            v.allowed_pools is None,
        ),
        stands(record::slot(d, 3, "group"@), |x: Doc| optional_text(x, v.group), v.group is None),
        stands(
            record::slot(d, 4, "labels"@),
            |x: Doc| label_object(x, v.labels),
            v.labels@.len() == 0,
        ),
        stands(
            record::slot(d, 5, "state"@),
            |x: Doc| x == Doc::Text(v.state@),
            v.state@.len() == 0,
        ),
        stands(record::slot(d, 6, "enabled"@), |x: Doc| x == Doc::Bool(v.enabled), !v.enabled),
        stands(
            record::slot(d, 7, "created_at"@),
            |x: Doc| x == Doc::Unsigned(v.created_at as nat),
            v.created_at == 0,
        ),
{
    record::law_fields_are_read("KeyView"@, KeyView::fields(), d);
    let m = KeyView::canon(d)->Ok_0->Object_0;
    assert(m[0] == ("id"@, v.id.doc()));
    assert(m[1] == ("name"@, v.name.doc()));
    assert(m[2] == ("allowed_pools"@, v.allowed_pools.doc()));
    lemma_optional_texts(record::slot(d, 2, "allowed_pools"@)->Present_0, v.allowed_pools);
    assert(m[3] == ("group"@, v.group.doc()));
    assert(m[4] == ("labels"@, v.labels.doc()));
    lemma_labels(record::slot(d, 4, "labels"@)->Present_0, v.labels);
    assert(m[5] == ("state"@, v.state.doc()));
    assert(m[6] == ("enabled"@, v.enabled.doc()));
    assert(m[7] == ("created_at"@, v.created_at.doc()));
}

/// A page of keys is read field by field, each from the member of its own name.
pub proof fn law_key_page_is_read_field_by_field(d: Doc, v: KeyPage)
    requires
        KeyPage::canon(d) == Ok::<Doc, Fault>(v.doc()),
    ensures
        stands(record::slot(d, 0, "items"@), |x: Doc| listed(x, v.items@), v.items@.len() == 0),
        stands(
            record::slot(d, 1, "next_cursor"@),
            |x: Doc| optional_text(x, v.next_cursor),
            v.next_cursor is None,
        ),
{
    record::law_fields_are_read("KeyPage"@, KeyPage::fields(), d);
    let m = KeyPage::canon(d)->Ok_0->Object_0;
    assert(m[0] == ("items"@, v.items.doc()));
    lemma_listed(record::slot(d, 0, "items"@)->Present_0, v.items);
    assert(m[1] == ("next_cursor"@, v.next_cursor.doc()));
}

/// A key that was created is read field by field, each from the member of its own name.
pub proof fn law_created_key_is_read_field_by_field(d: Doc, v: CreatedKeyView)
    requires
        CreatedKeyView::canon(d) == Ok::<Doc, Fault>(v.doc()),
    ensures
        stands(record::slot(d, 0, "id"@), |x: Doc| x == Doc::Text(v.id@), false),
        stands(record::slot(d, 1, "name"@), |x: Doc| x == Doc::Text(v.name@), false),
        stands(
            record::slot(d, 2, "allowed_pools"@),
            |x: Doc| optional_texts(x, v.allowed_pools),
            v.allowed_pools is None,
        ),
        stands(record::slot(d, 3, "group"@), |x: Doc| optional_text(x, v.group), v.group is None),
        stands(
            record::slot(d, 4, "labels"@),
            |x: Doc| label_object(x, v.labels),
            v.labels@.len() == 0,
        ),
        stands(
            record::slot(d, 5, "state"@),
            |x: Doc| x == Doc::Text(v.state@),
            v.state@.len() == 0,
        ),
        stands(record::slot(d, 6, "enabled"@), |x: Doc| x == Doc::Bool(v.enabled), !v.enabled),
        stands(
            record::slot(d, 7, "created_at"@),
            |x: Doc| x == Doc::Unsigned(v.created_at as nat),
            v.created_at == 0,
        ),
        stands(record::slot(d, 8, "token"@), |x: Doc| x == Doc::Text(v.token@), false),
        stands(
            record::slot(d, 9, "expires_at"@),
            |x: Doc| x == Doc::Unsigned(v.expires_at as nat),
            v.expires_at == 0,
        ),
        stands(
            record::slot(d, 10, "group_provisioned"@),
            |x: Doc| x == Doc::Bool(v.group_provisioned),
            !v.group_provisioned,
        ),
        stands(
            record::slot(d, 11, "aws_access_key_id"@),
            |x: Doc| optional_text(x, v.aws_access_key_id),
            v.aws_access_key_id is None,
        ),
        stands(
            record::slot(d, 12, "aws_secret_access_key"@),
            |x: Doc| optional_text(x, v.aws_secret_access_key),
            v.aws_secret_access_key is None,
        ),
{
    record::law_fields_are_read("CreatedKeyView"@, CreatedKeyView::fields(), d);
    let m = CreatedKeyView::canon(d)->Ok_0->Object_0;
    assert(m[0] == ("id"@, v.id.doc()));
    assert(m[1] == ("name"@, v.name.doc()));
    assert(m[2] == ("allowed_pools"@, v.allowed_pools.doc()));
    lemma_optional_texts(record::slot(d, 2, "allowed_pools"@)->Present_0, v.allowed_pools);
    assert(m[3] == ("group"@, v.group.doc()));
    assert(m[4] == ("labels"@, v.labels.doc()));
    lemma_labels(record::slot(d, 4, "labels"@)->Present_0, v.labels);
    assert(m[5] == ("state"@, v.state.doc()));
    assert(m[6] == ("enabled"@, v.enabled.doc()));
    assert(m[7] == ("created_at"@, v.created_at.doc()));
    assert(m[8] == ("token"@, v.token.doc()));
    assert(m[9] == ("expires_at"@, v.expires_at.doc()));
    assert(m[10] == ("group_provisioned"@, v.group_provisioned.doc()));
    assert(m[11] == ("aws_access_key_id"@, v.aws_access_key_id.doc()));
    assert(m[12] == ("aws_secret_access_key"@, v.aws_secret_access_key.doc()));
}

/// A key that was rotated is read field by field, each from the member of its own name.
pub proof fn law_rotated_key_is_read_field_by_field(d: Doc, v: RotatedKeyView)
    requires
        RotatedKeyView::canon(d) == Ok::<Doc, Fault>(v.doc()),
    ensures
        stands(record::slot(d, 0, "id"@), |x: Doc| x == Doc::Text(v.id@), false),
        stands(record::slot(d, 1, "name"@), |x: Doc| x == Doc::Text(v.name@), false),
        stands(
            record::slot(d, 2, "allowed_pools"@),
            |x: Doc| optional_texts(x, v.allowed_pools),
            v.allowed_pools is None,
        ),
        stands(record::slot(d, 3, "group"@), |x: Doc| optional_text(x, v.group), v.group is None),
        stands(
            record::slot(d, 4, "labels"@),
            |x: Doc| label_object(x, v.labels),
            v.labels@.len() == 0,
        ),
        stands(
            record::slot(d, 5, "state"@),
            |x: Doc| x == Doc::Text(v.state@),
            v.state@.len() == 0,
        ),
        stands(record::slot(d, 6, "enabled"@), |x: Doc| x == Doc::Bool(v.enabled), !v.enabled),
        stands(
            record::slot(d, 7, "created_at"@),
            |x: Doc| x == Doc::Unsigned(v.created_at as nat),
            v.created_at == 0,
        ),
        stands(record::slot(d, 8, "token"@), |x: Doc| optional_text(x, v.token), v.token is None),
        stands(
            record::slot(d, 9, "expires_at"@),
            |x: Doc| optional_number(x, v.expires_at),
            v.expires_at is None,
        ),
        stands(
            record::slot(d, 10, "secret"@),
            |x: Doc| optional_text(x, v.secret),
            v.secret is None,
        ),
{
    record::law_fields_are_read("RotatedKeyView"@, RotatedKeyView::fields(), d);
    let m = RotatedKeyView::canon(d)->Ok_0->Object_0;
    assert(m[0] == ("id"@, v.id.doc()));
    assert(m[1] == ("name"@, v.name.doc()));
    assert(m[2] == ("allowed_pools"@, v.allowed_pools.doc()));
    lemma_optional_texts(record::slot(d, 2, "allowed_pools"@)->Present_0, v.allowed_pools);
    assert(m[3] == ("group"@, v.group.doc()));
    assert(m[4] == ("labels"@, v.labels.doc()));
    lemma_labels(record::slot(d, 4, "labels"@)->Present_0, v.labels);
    assert(m[5] == ("state"@, v.state.doc()));
    assert(m[6] == ("enabled"@, v.enabled.doc()));
    assert(m[7] == ("created_at"@, v.created_at.doc()));
    assert(m[8] == ("token"@, v.token.doc()));
    assert(m[9] == ("expires_at"@, v.expires_at.doc()));
    assert(m[10] == ("secret"@, v.secret.doc()));
}

/// A revocation is read field by field, each from the member of its own name.
pub proof fn law_revocation_is_read_field_by_field(d: Doc, v: RevokeView)
    requires
        RevokeView::canon(d) == Ok::<Doc, Fault>(v.doc()),
    ensures
        stands(record::slot(d, 0, "revoked"@), |x: Doc| x == Doc::Text(v.revoked@), false),
{
    record::law_fields_are_read("RevokeView"@, RevokeView::fields(), d);
    let m = RevokeView::canon(d)->Ok_0->Object_0;
    assert(m[0] == ("revoked"@, v.revoked.doc()));
}

/// A plugin is read field by field, each from the member of its own name.
pub proof fn law_plugin_is_read_field_by_field(d: Doc, v: PluginView)
    requires
        PluginView::canon(d) == Ok::<Doc, Fault>(v.doc()),
    ensures
        stands(record::slot(d, 0, "name"@), |x: Doc| x == Doc::Text(v.name@), false),
        stands(record::slot(d, 1, "type"@), |x: Doc| x == Doc::Text(v.plugin_type@), false),
        stands(record::slot(d, 2, "loader"@), |x: Doc| x == Doc::Text(v.loader@), false),
        stands(
            record::slot(d, 3, "active"@),
            |x: Doc| optional_flag(x, v.active),
            v.active is None,
        ),
        stands(record::slot(d, 4, "file"@), |x: Doc| optional_text(x, v.file), v.file is None),
        stands(
            record::slot(d, 5, "version"@),
            |x: Doc| optional_text(x, v.version),
            v.version is None,
        ),
        stands(
            record::slot(d, 6, "publisher"@),
            |x: Doc| optional_text(x, v.publisher),
            v.publisher is None,
        ),
        stands(record::slot(d, 7, "trust"@), |x: Doc| optional_text(x, v.trust), v.trust is None),
        stands(record::slot(d, 8, "valid"@), |x: Doc| optional_flag(x, v.valid), v.valid is None),
        stands(record::slot(d, 9, "error"@), |x: Doc| optional_text(x, v.error), v.error is None),
        stands(
            record::slot(d, 10, "has_schema"@),
            |x: Doc| x == Doc::Bool(v.has_schema),
            !v.has_schema,
        ),
{
    record::law_fields_are_read("PluginView"@, PluginView::fields(), d);
    let m = PluginView::canon(d)->Ok_0->Object_0;
    assert(m[0] == ("name"@, v.name.doc()));
    assert(m[1] == ("type"@, v.plugin_type.doc()));
    assert(m[2] == ("loader"@, v.loader.doc()));
    assert(m[3] == ("active"@, v.active.doc()));
    assert(m[4] == ("file"@, v.file.doc()));
    assert(m[5] == ("version"@, v.version.doc()));
    assert(m[6] == ("publisher"@, v.publisher.doc()));
    assert(m[7] == ("trust"@, v.trust.doc()));
    assert(m[8] == ("valid"@, v.valid.doc()));
    assert(m[9] == ("error"@, v.error.doc()));
    assert(m[10] == ("has_schema"@, v.has_schema.doc()));
}

/// A page of plugins is read field by field, each from the member of its own name.
pub proof fn law_plugin_page_is_read_field_by_field(d: Doc, v: PluginPage)
    requires
        PluginPage::canon(d) == Ok::<Doc, Fault>(v.doc()),
    ensures
        stands(record::slot(d, 0, "items"@), |x: Doc| listed(x, v.items@), v.items@.len() == 0),
        stands(
            record::slot(d, 1, "next_cursor"@),
            |x: Doc| optional_text(x, v.next_cursor),
            v.next_cursor is None,
        ),
{
    record::law_fields_are_read("PluginPage"@, PluginPage::fields(), d);
    let m = PluginPage::canon(d)->Ok_0->Object_0;
    assert(m[0] == ("items"@, v.items.doc()));
    lemma_listed(record::slot(d, 0, "items"@)->Present_0, v.items);
    assert(m[1] == ("next_cursor"@, v.next_cursor.doc()));
}

/// A plugin that was installed is read field by field, each from the member of its own name.
pub proof fn law_installed_plugin_is_read_field_by_field(d: Doc, v: PluginInstallView)
    requires
        PluginInstallView::canon(d) == Ok::<Doc, Fault>(v.doc()),
    ensures
        stands(record::slot(d, 0, "file"@), |x: Doc| x == Doc::Text(v.file@), false),
        stands(record::slot(d, 1, "name"@), |x: Doc| x == Doc::Text(v.name@), false),
        stands(
            record::slot(d, 2, "version"@),
            |x: Doc| optional_text(x, v.version),
            v.version is None,
        ),
        stands(
            record::slot(d, 3, "publisher"@),
            |x: Doc| optional_text(x, v.publisher),
            v.publisher is None,
        ),
        stands(
            record::slot(d, 4, "trust"@),
            |x: Doc| x == Doc::Text(v.trust@),
            v.trust@.len() == 0,
        ),
        stands(record::slot(d, 5, "note"@), |x: Doc| x == Doc::Text(v.note@), v.note@.len() == 0),
{
    record::law_fields_are_read("PluginInstallView"@, PluginInstallView::fields(), d);
    let m = PluginInstallView::canon(d)->Ok_0->Object_0;
    assert(m[0] == ("file"@, v.file.doc()));
    assert(m[1] == ("name"@, v.name.doc()));
    assert(m[2] == ("version"@, v.version.doc()));
    assert(m[3] == ("publisher"@, v.publisher.doc()));
    assert(m[4] == ("trust"@, v.trust.doc()));
    assert(m[5] == ("note"@, v.note.doc()));
}

/// What is found in the plugins directory is read field by field, each from the member of its own
/// name.
pub proof fn law_reloaded_plugins_are_read_field_by_field(d: Doc, v: PluginReloadView)
    requires
        PluginReloadView::canon(d) == Ok::<Doc, Fault>(v.doc()),
    ensures
        stands(
            record::slot(d, 0, "plugins"@),
            |x: Doc| listed(x, v.plugins@),
            v.plugins@.len() == 0,
        ),
        stands(record::slot(d, 1, "note"@), |x: Doc| x == Doc::Text(v.note@), v.note@.len() == 0),
{
    record::law_fields_are_read("PluginReloadView"@, PluginReloadView::fields(), d);
    let m = PluginReloadView::canon(d)->Ok_0->Object_0;
    assert(m[0] == ("plugins"@, v.plugins.doc()));
    lemma_listed(record::slot(d, 0, "plugins"@)->Present_0, v.plugins);
    assert(m[1] == ("note"@, v.note.doc()));
}

/// What a manifest says is read field by field, each from the member of its own name.
pub proof fn law_inspection_is_read_field_by_field(d: Doc, v: InspectView)
    requires
        InspectView::canon(d) == Ok::<Doc, Fault>(v.doc()),
        v.well_formed(),
    ensures
        stands(record::slot(d, 0, "name"@), |x: Doc| x == Doc::Text(v.name@), false),
        stands(
            record::slot(d, 1, "version"@),
            |x: Doc| optional_text(x, v.version),
            v.version is None,
        ),
        stands(record::slot(d, 2, "kind"@), |x: Doc| optional_text(x, v.kind), v.kind is None),
        stands(
            record::slot(d, 3, "trust"@),
            |x: Doc| x == Doc::Text(v.trust@),
            v.trust@.len() == 0,
        ),
        stands(
            record::slot(d, 4, "source"@),
            |x: Doc| x == Doc::Text(v.source@),
            v.source@.len() == 0,
        ),
        stands(
            record::slot(d, 5, "restart_required_default"@),
            |x: Doc| optional_flag(x, v.restart_required_default),
            v.restart_required_default is None,
        ),
        stands(
            record::slot(d, 6, "schema"@),
            |x: Doc| optional_document(x, v.schema),
            v.schema is None,
        ),
        stands(
            record::slot(d, 7, "schema_error"@),
            |x: Doc| optional_text(x, v.schema_error),
            v.schema_error is None,
        ),
{
    record::law_fields_are_read("InspectView"@, InspectView::fields(), d);
    let m = InspectView::canon(d)->Ok_0->Object_0;
    assert(m[0] == ("name"@, v.name.doc()));
    assert(m[1] == ("version"@, v.version.doc()));
    assert(m[2] == ("kind"@, v.kind.doc()));
    assert(m[3] == ("trust"@, v.trust.doc()));
    assert(m[4] == ("source"@, v.source.doc()));
    assert(m[5] == ("restart_required_default"@, v.restart_required_default.doc()));
    assert(m[6] == ("schema"@, v.schema.doc()));
    assert(m[7] == ("schema_error"@, v.schema_error.doc()));
}

/// A hook is read field by field, each from the member of its own name.
pub proof fn law_hook_is_read_field_by_field(d: Doc, v: HookView)
    requires
        HookView::canon(d) == Ok::<Doc, Fault>(v.doc()),
    ensures
        stands(record::slot(d, 0, "name"@), |x: Doc| x == Doc::Text(v.name@), false),
        stands(record::slot(d, 1, "kind"@), |x: Doc| x == Doc::Text(v.kind@), false),
        stands(
            record::slot(d, 2, "transport"@),
            |x: Doc| HookTransportView::canon(x) == Ok::<Doc, Fault>(v.transport.doc()),
            false,
        ),
        stands(
            record::slot(d, 3, "prompt"@),
            |x: Doc| x == Doc::Text(v.prompt@),
            v.prompt@.len() == 0,
        ),
        stands(record::slot(d, 4, "user"@), |x: Doc| x == Doc::Text(v.user@), v.user@.len() == 0),
        stands(
            record::slot(d, 5, "priority"@),
            |x: Doc| x == Doc::Unsigned(v.priority as nat),
            v.priority == 0,
        ),
        stands(record::slot(d, 6, "at"@), |x: Doc| optional_text(x, v.at), v.at is None),
        stands(
            record::slot(d, 7, "on_error"@),
            |x: Doc| x == Doc::Text(v.on_error@),
            v.on_error@.len() == 0,
        ),
        stands(
            record::slot(d, 8, "timeout_ms"@),
            |x: Doc| x == Doc::Unsigned(v.timeout_ms as nat),
            v.timeout_ms == 0,
        ),
        stands(record::slot(d, 9, "global"@), |x: Doc| x == Doc::Bool(v.global), !v.global),
{
    record::law_fields_are_read("HookView"@, HookView::fields(), d);
    let m = HookView::canon(d)->Ok_0->Object_0;
    assert(m[0] == ("name"@, v.name.doc()));
    assert(m[1] == ("kind"@, v.kind.doc()));
    assert(m[2] == ("transport"@, v.transport.doc()));
    assert(m[3] == ("prompt"@, v.prompt.doc()));
    assert(m[4] == ("user"@, v.user.doc()));
    assert(m[5] == ("priority"@, v.priority.doc()));
    assert(m[6] == ("at"@, v.at.doc()));
    assert(m[7] == ("on_error"@, v.on_error.doc()));
    assert(m[8] == ("timeout_ms"@, v.timeout_ms.doc()));
    assert(m[9] == ("global"@, v.global.doc()));
}

/// The way to a hook is read field by field, each from the member of its own name.
pub proof fn law_hook_transport_is_read_field_by_field(d: Doc, v: HookTransportView)
    requires
        HookTransportView::canon(d) == Ok::<Doc, Fault>(v.doc()),
    ensures
        stands(record::slot(d, 0, "kind"@), |x: Doc| x == Doc::Text(v.kind@), false),
        stands(
            record::slot(d, 1, "target"@),
            |x: Doc| optional_text(x, v.target),
            v.target is None,
        ),
{
    record::law_fields_are_read("HookTransportView"@, HookTransportView::fields(), d);
    let m = HookTransportView::canon(d)->Ok_0->Object_0;
    assert(m[0] == ("kind"@, v.kind.doc()));
    assert(m[1] == ("target"@, v.target.doc()));
}

/// A page of hooks is read field by field, each from the member of its own name.
pub proof fn law_hook_page_is_read_field_by_field(d: Doc, v: HookPage)
    requires
        HookPage::canon(d) == Ok::<Doc, Fault>(v.doc()),
    ensures
        stands(record::slot(d, 0, "items"@), |x: Doc| listed(x, v.items@), v.items@.len() == 0),
        stands(
            record::slot(d, 1, "next_cursor"@),
            |x: Doc| optional_text(x, v.next_cursor),
            v.next_cursor is None,
        ),
{
    record::law_fields_are_read("HookPage"@, HookPage::fields(), d);
    let m = HookPage::canon(d)->Ok_0->Object_0;
    assert(m[0] == ("items"@, v.items.doc()));
    lemma_listed(record::slot(d, 0, "items"@)->Present_0, v.items);
    assert(m[1] == ("next_cursor"@, v.next_cursor.doc()));
}

/// What became of a config is read field by field, each from the member of its own name.
pub proof fn law_applied_config_is_read_field_by_field(d: Doc, v: ConfigApplyView)
    requires
        ConfigApplyView::canon(d) == Ok::<Doc, Fault>(v.doc()),
    ensures
        stands(record::slot(d, 0, "applied"@), |x: Doc| x == Doc::Bool(v.applied), false),
        stands(
            record::slot(d, 1, "config_version"@),
            |x: Doc| x == Doc::Unsigned(v.config_version as nat),
            v.config_version == 0,
        ),
        stands(record::slot(d, 2, "note"@), |x: Doc| x == Doc::Text(v.note@), v.note@.len() == 0),
{
    record::law_fields_are_read("ConfigApplyView"@, ConfigApplyView::fields(), d);
    let m = ConfigApplyView::canon(d)->Ok_0->Object_0;
    assert(m[0] == ("applied"@, v.applied.doc()));
    assert(m[1] == ("config_version"@, v.config_version.doc()));
    assert(m[2] == ("note"@, v.note.doc()));
}

/// The body of a refusal is read field by field, each from the member of its own name.
pub proof fn law_error_envelope_is_read_field_by_field(d: Doc, v: ErrorEnvelope)
    requires
        ErrorEnvelope::canon(d) == Ok::<Doc, Fault>(v.doc()),
    ensures
        stands(
            record::slot(d, 0, "error"@),
            |x: Doc| ErrorDetail::canon(x) == Ok::<Doc, Fault>(v.error.doc()),
            false,
        ),
{
    record::law_fields_are_read("ErrorEnvelope"@, ErrorEnvelope::fields(), d);
    let m = ErrorEnvelope::canon(d)->Ok_0->Object_0;
    assert(m[0] == ("error"@, v.error.doc()));
}

/// The reason of a refusal is read field by field, each from the member of its own name.
pub proof fn law_error_detail_is_read_field_by_field(d: Doc, v: ErrorDetail)
    requires
        ErrorDetail::canon(d) == Ok::<Doc, Fault>(v.doc()),
    ensures
        stands(record::slot(d, 0, "code"@), |x: Doc| x == Doc::Text(v.code@), false),
        stands(record::slot(d, 1, "message"@), |x: Doc| x == Doc::Text(v.message@), false),
{
    record::law_fields_are_read("ErrorDetail"@, ErrorDetail::fields(), d);
    let m = ErrorDetail::canon(d)->Ok_0->Object_0;
    assert(m[0] == ("code"@, v.code.doc()));
    assert(m[1] == ("message"@, v.message.doc()));
}

/// What a gateway tells of itself is read exactly where its required fields are there, and every
/// field that is there has a value that fits.
pub proof fn law_info_is_read_where_fields_fit(d: Doc)
    ensures
        InfoView::canon(d) is Ok <==> {
            &&& d is Object || (d is Array && d->Array_0.len() <= 7)
            &&& stands(record::slot(d, 0, "version"@), |x: Doc| x is Text, false)
            &&& stands(record::slot(d, 1, "build"@), |x: Doc| BuildInfo::canon(x) is Ok, false)
            &&& stands(
                record::slot(d, 2, "uptime_seconds"@),
                |x: Doc| x is Null || (x is Unsigned && x->Unsigned_0 <= u64::MAX),
                true,
            )
            &&& stands(
                record::slot(d, 3, "started_at"@),
                |x: Doc| x is Null || (x is Unsigned && x->Unsigned_0 <= u64::MAX),
                true,
            )
            &&& stands(
                record::slot(d, 4, "topology"@),
                |x: Doc| TopologyInfo::canon(x) is Ok,
                false,
            )
            &&& stands(record::slot(d, 5, "config_persistence"@), |x: Doc| x is Bool, true)
            &&& stands(
                record::slot(d, 6, "config_version"@),
                |x: Doc| x is Unsigned && x->Unsigned_0 <= u64::MAX,
                true,
            )
        },
{
    let f = InfoView::fields();
    record::law_record_is_read_where_every_field_is("InfoView"@, f, d);
    assert(f[0].name == "version"@);
    assert(f[1].name == "build"@);
    assert(f[2].name == "uptime_seconds"@);
    assert(f[3].name == "started_at"@);
    assert(f[4].name == "topology"@);
    assert(f[5].name == "config_persistence"@);
    assert(f[6].name == "config_version"@);
    if InfoView::canon(d) is Ok {
        assert(forall|i: int| 0 <= i < f.len() ==> record::has_value(#[trigger] f[i], d, i));
    }
}

/// What is compiled into a gateway is read exactly where its required fields are there, and every
/// field that is there has a value that fits.
pub proof fn law_build_is_read_where_fields_fit(d: Doc)
    ensures
        BuildInfo::canon(d) is Ok <==> {
            &&& d is Object || (d is Array && d->Array_0.len() <= 3)
            &&& stands(record::slot(d, 0, "auth_modules"@), |x: Doc| all_texts(x), true)
            &&& stands(record::slot(d, 1, "hook_plugins"@), |x: Doc| all_texts(x), true)
            &&& stands(record::slot(d, 2, "weighted_floor"@), |x: Doc| x is Bool, true)
        },
{
    let f = BuildInfo::fields();
    record::law_record_is_read_where_every_field_is("BuildInfo"@, f, d);
    assert(f[0].name == "auth_modules"@);
    lemma_all_texts(record::slot(d, 0, "auth_modules"@)->Present_0);
    assert(f[1].name == "hook_plugins"@);
    lemma_all_texts(record::slot(d, 1, "hook_plugins"@)->Present_0);
    assert(f[2].name == "weighted_floor"@);
    if BuildInfo::canon(d) is Ok {
        assert(forall|i: int| 0 <= i < f.len() ==> record::has_value(#[trigger] f[i], d, i));
    }
}

/// A topology is read exactly where its required fields are there, and every field that is there
/// has a value that fits.
pub proof fn law_topology_is_read_where_fields_fit(d: Doc)
    ensures
        TopologyInfo::canon(d) is Ok <==> {
            &&& d is Object || (d is Array && d->Array_0.len() <= 3)
            &&& stands(
                record::slot(d, 0, "pools"@),
                |x: Doc| x is Unsigned && x->Unsigned_0 <= usize::MAX,
                false,
            )
            &&& stands(
                record::slot(d, 1, "models"@),
                |x: Doc| x is Unsigned && x->Unsigned_0 <= usize::MAX,
                false,
            )
            &&& stands(
                record::slot(d, 2, "providers"@),
                |x: Doc| x is Unsigned && x->Unsigned_0 <= usize::MAX,
                false,
            )
        },
{
    let f = TopologyInfo::fields();
    record::law_record_is_read_where_every_field_is("TopologyInfo"@, f, d);
    assert(f[0].name == "pools"@);
    assert(f[1].name == "models"@);
    assert(f[2].name == "providers"@);
    if TopologyInfo::canon(d) is Ok {
        assert(forall|i: int| 0 <= i < f.len() ==> record::has_value(#[trigger] f[i], d, i));
    }
}

/// A key is read exactly where its required fields are there, and every field that is there has a
/// value that fits.
pub proof fn law_key_is_read_where_fields_fit(d: Doc)
    ensures
        KeyView::canon(d) is Ok <==> {
            &&& d is Object || (d is Array && d->Array_0.len() <= 8)
            &&& stands(record::slot(d, 0, "id"@), |x: Doc| x is Text, false)
            &&& stands(record::slot(d, 1, "name"@), |x: Doc| x is Text, false)
            &&& stands(
                record::slot(d, 2, "allowed_pools"@),
                |x: Doc| x is Null || all_texts(x),
                true,
            )
            &&& stands(record::slot(d, 3, "group"@), |x: Doc| x is Null || x is Text, true)
            &&& stands(record::slot(d, 4, "labels"@), |x: Doc| all_labels(x), true)
            &&& stands(record::slot(d, 5, "state"@), |x: Doc| x is Text, true)
            &&& stands(record::slot(d, 6, "enabled"@), |x: Doc| x is Bool, true)
            &&& stands(
                record::slot(d, 7, "created_at"@),
                |x: Doc| x is Unsigned && x->Unsigned_0 <= u64::MAX,
                true,
            )
        },
{
    let f = KeyView::fields();
    record::law_record_is_read_where_every_field_is("KeyView"@, f, d);
    assert(f[0].name == "id"@);
    assert(f[1].name == "name"@);
    assert(f[2].name == "allowed_pools"@);
    lemma_all_texts(record::slot(d, 2, "allowed_pools"@)->Present_0);
    assert(f[3].name == "group"@);
    assert(f[4].name == "labels"@);
    lemma_all_labels(record::slot(d, 4, "labels"@)->Present_0);
    assert(f[5].name == "state"@);
    assert(f[6].name == "enabled"@);
    assert(f[7].name == "created_at"@);
    if KeyView::canon(d) is Ok {
        assert(forall|i: int| 0 <= i < f.len() ==> record::has_value(#[trigger] f[i], d, i));
    }
}

/// A page of keys is read exactly where its required fields are there, and every field that is
/// there has a value that fits.
pub proof fn law_key_page_is_read_where_fields_fit(d: Doc)
    ensures
        KeyPage::canon(d) is Ok <==> {
            &&& d is Object || (d is Array && d->Array_0.len() <= 2)
            &&& stands(record::slot(d, 0, "items"@), |x: Doc| all_read::<KeyView>(x), true)
            &&& stands(record::slot(d, 1, "next_cursor"@), |x: Doc| x is Null || x is Text, true)
        },
{
    let f = KeyPage::fields();
    record::law_record_is_read_where_every_field_is("KeyPage"@, f, d);
    assert(f[0].name == "items"@);
    lemma_all_read::<KeyView>(record::slot(d, 0, "items"@)->Present_0);
    assert(f[1].name == "next_cursor"@);
    if KeyPage::canon(d) is Ok {
        assert(forall|i: int| 0 <= i < f.len() ==> record::has_value(#[trigger] f[i], d, i));
    }
}

/// A key that was created is read exactly where its required fields are there, and every field that
/// is there has a value that fits.
pub proof fn law_created_key_is_read_where_fields_fit(d: Doc)
    ensures
        CreatedKeyView::canon(d) is Ok <==> {
            &&& d is Object || (d is Array && d->Array_0.len() <= 13)
            &&& stands(record::slot(d, 0, "id"@), |x: Doc| x is Text, false)
            &&& stands(record::slot(d, 1, "name"@), |x: Doc| x is Text, false)
            &&& stands(
                record::slot(d, 2, "allowed_pools"@),
                |x: Doc| x is Null || all_texts(x),
                true,
            )
            &&& stands(record::slot(d, 3, "group"@), |x: Doc| x is Null || x is Text, true)
            &&& stands(record::slot(d, 4, "labels"@), |x: Doc| all_labels(x), true)
            &&& stands(record::slot(d, 5, "state"@), |x: Doc| x is Text, true)
            &&& stands(record::slot(d, 6, "enabled"@), |x: Doc| x is Bool, true)
            &&& stands(
                record::slot(d, 7, "created_at"@),
                |x: Doc| x is Unsigned && x->Unsigned_0 <= u64::MAX,
                true,
            )
            &&& stands(record::slot(d, 8, "token"@), |x: Doc| x is Text, false)
            &&& stands(
                record::slot(d, 9, "expires_at"@),
                |x: Doc| x is Unsigned && x->Unsigned_0 <= u64::MAX,
                true,
            )
            &&& stands(record::slot(d, 10, "group_provisioned"@), |x: Doc| x is Bool, true)
            &&& stands(
                record::slot(d, 11, "aws_access_key_id"@),
                |x: Doc| x is Null || x is Text,
                true,
            )
            &&& stands(
                record::slot(d, 12, "aws_secret_access_key"@),
                |x: Doc| x is Null || x is Text,
                true,
            )
        },
{
    let f = CreatedKeyView::fields();
    record::law_record_is_read_where_every_field_is("CreatedKeyView"@, f, d);
    assert(f[0].name == "id"@);
    assert(f[1].name == "name"@);
    assert(f[2].name == "allowed_pools"@);
    lemma_all_texts(record::slot(d, 2, "allowed_pools"@)->Present_0);
    assert(f[3].name == "group"@);
    assert(f[4].name == "labels"@);
    lemma_all_labels(record::slot(d, 4, "labels"@)->Present_0);
    assert(f[5].name == "state"@);
    assert(f[6].name == "enabled"@);
    assert(f[7].name == "created_at"@);
    assert(f[8].name == "token"@);
    assert(f[9].name == "expires_at"@);
    assert(f[10].name == "group_provisioned"@);
    assert(f[11].name == "aws_access_key_id"@);
    assert(f[12].name == "aws_secret_access_key"@);
    if CreatedKeyView::canon(d) is Ok {
        assert(forall|i: int| 0 <= i < f.len() ==> record::has_value(#[trigger] f[i], d, i));
    }
}

/// A key that was rotated is read exactly where its required fields are there, and every field that
/// is there has a value that fits.
pub proof fn law_rotated_key_is_read_where_fields_fit(d: Doc)
    ensures
        RotatedKeyView::canon(d) is Ok <==> {
            &&& d is Object || (d is Array && d->Array_0.len() <= 11)
            &&& stands(record::slot(d, 0, "id"@), |x: Doc| x is Text, false)
            &&& stands(record::slot(d, 1, "name"@), |x: Doc| x is Text, false)
            &&& stands(
                record::slot(d, 2, "allowed_pools"@),
                |x: Doc| x is Null || all_texts(x),
                true,
            )
            &&& stands(record::slot(d, 3, "group"@), |x: Doc| x is Null || x is Text, true)
            &&& stands(record::slot(d, 4, "labels"@), |x: Doc| all_labels(x), true)
            &&& stands(record::slot(d, 5, "state"@), |x: Doc| x is Text, true)
            &&& stands(record::slot(d, 6, "enabled"@), |x: Doc| x is Bool, true)
            &&& stands(
                record::slot(d, 7, "created_at"@),
                |x: Doc| x is Unsigned && x->Unsigned_0 <= u64::MAX,
                true,
            )
            &&& stands(record::slot(d, 8, "token"@), |x: Doc| x is Null || x is Text, true)
            &&& stands(
                record::slot(d, 9, "expires_at"@),
                |x: Doc| x is Null || (x is Unsigned && x->Unsigned_0 <= u64::MAX),
                true,
            )
            &&& stands(record::slot(d, 10, "secret"@), |x: Doc| x is Null || x is Text, true)
        },
{
    let f = RotatedKeyView::fields();
    record::law_record_is_read_where_every_field_is("RotatedKeyView"@, f, d);
    assert(f[0].name == "id"@);
    assert(f[1].name == "name"@);
    assert(f[2].name == "allowed_pools"@);
    lemma_all_texts(record::slot(d, 2, "allowed_pools"@)->Present_0);
    assert(f[3].name == "group"@);
    assert(f[4].name == "labels"@);
    lemma_all_labels(record::slot(d, 4, "labels"@)->Present_0);
    assert(f[5].name == "state"@);
    assert(f[6].name == "enabled"@);
    assert(f[7].name == "created_at"@);
    assert(f[8].name == "token"@);
    assert(f[9].name == "expires_at"@);
    assert(f[10].name == "secret"@);
    if RotatedKeyView::canon(d) is Ok {
        assert(forall|i: int| 0 <= i < f.len() ==> record::has_value(#[trigger] f[i], d, i));
    }
}

/// A revocation is read exactly where its required fields are there, and every field that is there
/// has a value that fits.
pub proof fn law_revocation_is_read_where_fields_fit(d: Doc)
    ensures
        RevokeView::canon(d) is Ok <==> {
            &&& d is Object || (d is Array && d->Array_0.len() <= 1)
            &&& stands(record::slot(d, 0, "revoked"@), |x: Doc| x is Text, false)
        },
{
    let f = RevokeView::fields();
    record::law_record_is_read_where_every_field_is("RevokeView"@, f, d);
    assert(f[0].name == "revoked"@);
    if RevokeView::canon(d) is Ok {
        assert(forall|i: int| 0 <= i < f.len() ==> record::has_value(#[trigger] f[i], d, i));
    }
}

/// A plugin is read exactly where its required fields are there, and every field that is there has
/// a value that fits.
pub proof fn law_plugin_is_read_where_fields_fit(d: Doc)
    ensures
        PluginView::canon(d) is Ok <==> {
            &&& d is Object || (d is Array && d->Array_0.len() <= 11)
            &&& stands(record::slot(d, 0, "name"@), |x: Doc| x is Text, false)
            &&& stands(record::slot(d, 1, "type"@), |x: Doc| x is Text, false)
            &&& stands(record::slot(d, 2, "loader"@), |x: Doc| x is Text, false)
            &&& stands(record::slot(d, 3, "active"@), |x: Doc| x is Null || x is Bool, true)
            &&& stands(record::slot(d, 4, "file"@), |x: Doc| x is Null || x is Text, true)
            &&& stands(record::slot(d, 5, "version"@), |x: Doc| x is Null || x is Text, true)
            &&& stands(record::slot(d, 6, "publisher"@), |x: Doc| x is Null || x is Text, true)
            &&& stands(record::slot(d, 7, "trust"@), |x: Doc| x is Null || x is Text, true)
            &&& stands(record::slot(d, 8, "valid"@), |x: Doc| x is Null || x is Bool, true)
            &&& stands(record::slot(d, 9, "error"@), |x: Doc| x is Null || x is Text, true)
            &&& stands(record::slot(d, 10, "has_schema"@), |x: Doc| x is Bool, true)
        },
{
    let f = PluginView::fields();
    record::law_record_is_read_where_every_field_is("PluginView"@, f, d);
    assert(f[0].name == "name"@);
    assert(f[1].name == "type"@);
    assert(f[2].name == "loader"@);
    assert(f[3].name == "active"@);
    assert(f[4].name == "file"@);
    assert(f[5].name == "version"@);
    assert(f[6].name == "publisher"@);
    assert(f[7].name == "trust"@);
    assert(f[8].name == "valid"@);
    assert(f[9].name == "error"@);
    assert(f[10].name == "has_schema"@);
    if PluginView::canon(d) is Ok {
        assert(forall|i: int| 0 <= i < f.len() ==> record::has_value(#[trigger] f[i], d, i));
    }
}

/// A page of plugins is read exactly where its required fields are there, and every field that is
/// there has a value that fits.
pub proof fn law_plugin_page_is_read_where_fields_fit(d: Doc)
    ensures
        PluginPage::canon(d) is Ok <==> {
            &&& d is Object || (d is Array && d->Array_0.len() <= 2)
            &&& stands(record::slot(d, 0, "items"@), |x: Doc| all_read::<PluginView>(x), true)
            &&& stands(record::slot(d, 1, "next_cursor"@), |x: Doc| x is Null || x is Text, true)
        },
{
    let f = PluginPage::fields();
    record::law_record_is_read_where_every_field_is("PluginPage"@, f, d);
    assert(f[0].name == "items"@);
    lemma_all_read::<PluginView>(record::slot(d, 0, "items"@)->Present_0);
    assert(f[1].name == "next_cursor"@);
    if PluginPage::canon(d) is Ok {
        assert(forall|i: int| 0 <= i < f.len() ==> record::has_value(#[trigger] f[i], d, i));
    }
}

/// A plugin that was installed is read exactly where its required fields are there, and every field
/// that is there has a value that fits.
pub proof fn law_installed_plugin_is_read_where_fields_fit(d: Doc)
    ensures
        PluginInstallView::canon(d) is Ok <==> {
            &&& d is Object || (d is Array && d->Array_0.len() <= 6)
            &&& stands(record::slot(d, 0, "file"@), |x: Doc| x is Text, false)
            &&& stands(record::slot(d, 1, "name"@), |x: Doc| x is Text, false)
            &&& stands(record::slot(d, 2, "version"@), |x: Doc| x is Null || x is Text, true)
            &&& stands(record::slot(d, 3, "publisher"@), |x: Doc| x is Null || x is Text, true)
            &&& stands(record::slot(d, 4, "trust"@), |x: Doc| x is Text, true)
            &&& stands(record::slot(d, 5, "note"@), |x: Doc| x is Text, true)
        },
{
    let f = PluginInstallView::fields();
    record::law_record_is_read_where_every_field_is("PluginInstallView"@, f, d);
    assert(f[0].name == "file"@);
    assert(f[1].name == "name"@);
    assert(f[2].name == "version"@);
    assert(f[3].name == "publisher"@);
    assert(f[4].name == "trust"@);
    assert(f[5].name == "note"@);
    if PluginInstallView::canon(d) is Ok {
        assert(forall|i: int| 0 <= i < f.len() ==> record::has_value(#[trigger] f[i], d, i));
    }
}

/// What is found in the plugins directory is read exactly where its required fields are there, and
/// every field that is there has a value that fits.
pub proof fn law_reloaded_plugins_are_read_where_fields_fit(d: Doc)
    ensures
        PluginReloadView::canon(d) is Ok <==> {
            &&& d is Object || (d is Array && d->Array_0.len() <= 2)
            &&& stands(record::slot(d, 0, "plugins"@), |x: Doc| all_read::<PluginView>(x), true)
            &&& stands(record::slot(d, 1, "note"@), |x: Doc| x is Text, true)
        },
{
    let f = PluginReloadView::fields();
    record::law_record_is_read_where_every_field_is("PluginReloadView"@, f, d);
    assert(f[0].name == "plugins"@);
    lemma_all_read::<PluginView>(record::slot(d, 0, "plugins"@)->Present_0);
    assert(f[1].name == "note"@);
    if PluginReloadView::canon(d) is Ok {
        assert(forall|i: int| 0 <= i < f.len() ==> record::has_value(#[trigger] f[i], d, i));
    }
}

/// What a manifest says is read exactly where its required fields are there, and every field that
/// is there has a value that fits.
pub proof fn law_inspection_is_read_where_fields_fit(d: Doc)
    ensures
        InspectView::canon(d) is Ok <==> {
            &&& d is Object || (d is Array && d->Array_0.len() <= 8)
            &&& stands(record::slot(d, 0, "name"@), |x: Doc| x is Text, false)
            &&& stands(record::slot(d, 1, "version"@), |x: Doc| x is Null || x is Text, true)
            &&& stands(record::slot(d, 2, "kind"@), |x: Doc| x is Null || x is Text, true)
            &&& stands(record::slot(d, 3, "trust"@), |x: Doc| x is Text, true)
            &&& stands(record::slot(d, 4, "source"@), |x: Doc| x is Text, true)
            &&& stands(
                record::slot(d, 5, "restart_required_default"@),
                |x: Doc| x is Null || x is Bool,
                true,
            )
            &&& stands(record::slot(d, 6, "schema"@), |x: Doc| json::unread_part(x) is None, true)
            &&& stands(record::slot(d, 7, "schema_error"@), |x: Doc| x is Null || x is Text, true)
        },
{
    let f = InspectView::fields();
    record::law_record_is_read_where_every_field_is("InspectView"@, f, d);
    assert(f[0].name == "name"@);
    assert(f[1].name == "version"@);
    assert(f[2].name == "kind"@);
    assert(f[3].name == "trust"@);
    assert(f[4].name == "source"@);
    assert(f[5].name == "restart_required_default"@);
    assert(f[6].name == "schema"@);
    reveal_with_fuel(json::unread_part, 2);
    assert(f[7].name == "schema_error"@);
    if InspectView::canon(d) is Ok {
        assert(forall|i: int| 0 <= i < f.len() ==> record::has_value(#[trigger] f[i], d, i));
    }
}

/// A hook is read exactly where its required fields are there, and every field that is there has a
/// value that fits.
pub proof fn law_hook_is_read_where_fields_fit(d: Doc)
    ensures
        HookView::canon(d) is Ok <==> {
            &&& d is Object || (d is Array && d->Array_0.len() <= 10)
            &&& stands(record::slot(d, 0, "name"@), |x: Doc| x is Text, false)
            &&& stands(record::slot(d, 1, "kind"@), |x: Doc| x is Text, false)
            &&& stands(
                record::slot(d, 2, "transport"@),
                |x: Doc| HookTransportView::canon(x) is Ok,
                false,
            )
            &&& stands(record::slot(d, 3, "prompt"@), |x: Doc| x is Text, true)
            &&& stands(record::slot(d, 4, "user"@), |x: Doc| x is Text, true)
            &&& stands(
                record::slot(d, 5, "priority"@),
                |x: Doc| x is Unsigned && x->Unsigned_0 <= u16::MAX,
                true,
            )
            &&& stands(record::slot(d, 6, "at"@), |x: Doc| x is Null || x is Text, true)
            &&& stands(record::slot(d, 7, "on_error"@), |x: Doc| x is Text, true)
            &&& stands(
                record::slot(d, 8, "timeout_ms"@),
                |x: Doc| x is Unsigned && x->Unsigned_0 <= u64::MAX,
                true,
            )
            &&& stands(record::slot(d, 9, "global"@), |x: Doc| x is Bool, true)
        },
{
    let f = HookView::fields();
    record::law_record_is_read_where_every_field_is("HookView"@, f, d);
    assert(f[0].name == "name"@);
    assert(f[1].name == "kind"@);
    assert(f[2].name == "transport"@);
    assert(f[3].name == "prompt"@);
    assert(f[4].name == "user"@);
    assert(f[5].name == "priority"@);
    assert(f[6].name == "at"@);
    assert(f[7].name == "on_error"@);
    assert(f[8].name == "timeout_ms"@);
    assert(f[9].name == "global"@);
    if HookView::canon(d) is Ok {
        assert(forall|i: int| 0 <= i < f.len() ==> record::has_value(#[trigger] f[i], d, i));
    }
}

/// The way to a hook is read exactly where its required fields are there, and every field that is
/// there has a value that fits.
pub proof fn law_hook_transport_is_read_where_fields_fit(d: Doc)
    ensures
        HookTransportView::canon(d) is Ok <==> {
            &&& d is Object || (d is Array && d->Array_0.len() <= 2)
            &&& stands(record::slot(d, 0, "kind"@), |x: Doc| x is Text, false)
            &&& stands(record::slot(d, 1, "target"@), |x: Doc| x is Null || x is Text, true)
        },
{
    let f = HookTransportView::fields();
    record::law_record_is_read_where_every_field_is("HookTransportView"@, f, d);
    assert(f[0].name == "kind"@);
    assert(f[1].name == "target"@);
    if HookTransportView::canon(d) is Ok {
        assert(forall|i: int| 0 <= i < f.len() ==> record::has_value(#[trigger] f[i], d, i));
    }
}

/// A page of hooks is read exactly where its required fields are there, and every field that is
/// there has a value that fits.
pub proof fn law_hook_page_is_read_where_fields_fit(d: Doc)
    ensures
        HookPage::canon(d) is Ok <==> {
            &&& d is Object || (d is Array && d->Array_0.len() <= 2)
            &&& stands(record::slot(d, 0, "items"@), |x: Doc| all_read::<HookView>(x), true)
            &&& stands(record::slot(d, 1, "next_cursor"@), |x: Doc| x is Null || x is Text, true)
        },
{
    let f = HookPage::fields();
    record::law_record_is_read_where_every_field_is("HookPage"@, f, d);
    assert(f[0].name == "items"@);
    lemma_all_read::<HookView>(record::slot(d, 0, "items"@)->Present_0);
    assert(f[1].name == "next_cursor"@);
    if HookPage::canon(d) is Ok {
        assert(forall|i: int| 0 <= i < f.len() ==> record::has_value(#[trigger] f[i], d, i));
    }
}

/// What became of a config is read exactly where its required fields are there, and every field
/// that is there has a value that fits.
pub proof fn law_applied_config_is_read_where_fields_fit(d: Doc)
    ensures
        ConfigApplyView::canon(d) is Ok <==> {
            &&& d is Object || (d is Array && d->Array_0.len() <= 3)
            &&& stands(record::slot(d, 0, "applied"@), |x: Doc| x is Bool, false)
            &&& stands(
                record::slot(d, 1, "config_version"@),
                |x: Doc| x is Unsigned && x->Unsigned_0 <= u64::MAX,
                true,
            )
            &&& stands(record::slot(d, 2, "note"@), |x: Doc| x is Text, true)
        },
{
    let f = ConfigApplyView::fields();
    record::law_record_is_read_where_every_field_is("ConfigApplyView"@, f, d);
    assert(f[0].name == "applied"@);
    assert(f[1].name == "config_version"@);
    assert(f[2].name == "note"@);
    if ConfigApplyView::canon(d) is Ok {
        assert(forall|i: int| 0 <= i < f.len() ==> record::has_value(#[trigger] f[i], d, i));
    }
}

/// The body of a refusal is read exactly where its required fields are there, and every field that
/// is there has a value that fits.
pub proof fn law_error_envelope_is_read_where_fields_fit(d: Doc)
    ensures
        ErrorEnvelope::canon(d) is Ok <==> {
            &&& d is Object || (d is Array && d->Array_0.len() <= 1)
            &&& stands(record::slot(d, 0, "error"@), |x: Doc| ErrorDetail::canon(x) is Ok, false)
        },
{
    let f = ErrorEnvelope::fields();
    record::law_record_is_read_where_every_field_is("ErrorEnvelope"@, f, d);
    assert(f[0].name == "error"@);
    if ErrorEnvelope::canon(d) is Ok {
        assert(forall|i: int| 0 <= i < f.len() ==> record::has_value(#[trigger] f[i], d, i));
    }
}

/// The reason of a refusal is read exactly where its required fields are there, and every field
/// that is there has a value that fits.
pub proof fn law_error_detail_is_read_where_fields_fit(d: Doc)
    ensures
        ErrorDetail::canon(d) is Ok <==> {
            &&& d is Object || (d is Array && d->Array_0.len() <= 2)
            &&& stands(record::slot(d, 0, "code"@), |x: Doc| x is Text, false)
            &&& stands(record::slot(d, 1, "message"@), |x: Doc| x is Text, false)
        },
{
    let f = ErrorDetail::fields();
    record::law_record_is_read_where_every_field_is("ErrorDetail"@, f, d);
    assert(f[0].name == "code"@);
    assert(f[1].name == "message"@);
    if ErrorDetail::canon(d) is Ok {
        assert(forall|i: int| 0 <= i < f.len() ==> record::has_value(#[trigger] f[i], d, i));
    }
}

} // verus!
