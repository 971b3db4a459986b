//! Governance virtual keys.

use vstd::prelude::*;

use crate::json::Doc;
use crate::json::Json;
use crate::labels::Labels;
use crate::record;
use crate::record::Field;
use crate::record::Scan;
use crate::record::Slot;
use crate::record::Writer;
use crate::text;
use crate::wire;
use crate::wire::DecodeError;
use crate::wire::Fault;
use crate::wire::Wire;

verus! {

/// One key's metadata, which never holds its credential.
#[derive(Debug)]
pub struct KeyView {
    pub id: String,
    pub name: String,
    /// `None` is every pool, an empty list is no pool.
    pub allowed_pools: Option<Vec<String>>,
    /// The group whose budgets and limits the key draws on.
    pub group: Option<String>,
    pub labels: Labels,
    /// `active`, `disabled`, `revoked` or `tombstoned`.
    pub state: String,
    pub enabled: bool,
    pub created_at: u64,
}

impl KeyView {
    /// The fields, in the order in which they are written.
    pub open spec fn fields() -> Seq<Field> {
        seq![
            record::required::<String>("id"@),
            record::required::<String>("name"@),
            record::defaulted::<Option<Vec<String>>>("allowed_pools"@),
            record::defaulted::<Option<String>>("group"@),
            record::defaulted::<Labels>("labels"@),
            record::defaulted::<String>("state"@),
            record::defaulted::<bool>("enabled"@),
            record::defaulted::<u64>("created_at"@),
        ]
    }

    /// No two fields share a name.
    pub proof fn lemma_names()
        ensures
            record::distinct_names(KeyView::fields()),
    {
        reveal_strlit("id");
        reveal_strlit("name");
        reveal_strlit("allowed_pools");
        reveal_strlit("group");
        reveal_strlit("labels");
        reveal_strlit("state");
        reveal_strlit("enabled");
        reveal_strlit("created_at");
        assert("id"@.len() == 2);
        assert("name"@.len() == 4);
        assert("allowed_pools"@.len() == 13);
        assert("group"@.len() == 5);
        assert("labels"@.len() == 6);
        assert("state"@.len() == 5);
        assert("enabled"@.len() == 7);
        assert("created_at"@.len() == 10);
        assert("group"@[0] != "state"@[0]);
    }
}

impl Wire for KeyView {
    open spec fn canon(d: Doc) -> Result<Doc, Fault> {
        record::record("KeyView"@, KeyView::fields(), d)
    }

    open spec fn doc(&self) -> Doc {
        Doc::Object(
            seq![
                ("id"@, self.id.doc()),
                ("name"@, self.name.doc()),
                ("allowed_pools"@, self.allowed_pools.doc()),
                ("group"@, self.group.doc()),
                ("labels"@, self.labels.doc()),
                ("state"@, self.state.doc()),
                ("enabled"@, self.enabled.doc()),
                ("created_at"@, self.created_at.doc()),
            ],
        )
    }

    open spec fn well_formed(&self) -> bool {
        self.labels.well_formed()
    }

    fn from_json(json: &Json) -> (value: Result<Self, DecodeError>) {
        let ghost f = KeyView::fields();
        let mut scan: Scan = Scan::new(json, "KeyView", 8, Ghost(f))?;
        let id: Option<String> = scan.required(0, "id", Ghost(f));
        let name: Option<String> = scan.required(1, "name", Ghost(f));
        let allowed_pools: Option<Option<Vec<String>>> = scan.defaulted(
            2,
            "allowed_pools",
            Ghost(f),
        );
        let group: Option<Option<String>> = scan.defaulted(3, "group", Ghost(f));
        let labels: Option<Labels> = scan.defaulted(4, "labels", Ghost(f));
        let state: Option<String> = scan.defaulted(5, "state", Ghost(f));
        let enabled: Option<bool> = scan.defaulted(6, "enabled", Ghost(f));
        let created_at: Option<u64> = scan.defaulted(7, "created_at", Ghost(f));
        scan.finish(Ghost(f))?;
        proof {
            record::lemma_no_fault("KeyView"@, f, json@, f.len() as int);
        }
        let value = KeyView {
            id: id.unwrap(),
            name: name.unwrap(),
            allowed_pools: allowed_pools.unwrap(),
            group: group.unwrap(),
            labels: labels.unwrap(),
            state: state.unwrap(),
            enabled: enabled.unwrap(),
            created_at: created_at.unwrap(),
        };
        proof {
            record::lemma_record_read("KeyView"@, f, json@, value.doc()->Object_0);
        }
        Ok(value)
    }

    fn to_json(&self) -> (json: Json) {
        let mut w: Writer = Writer::new();
        w.put("id", &self.id);
        w.put("name", &self.name);
        w.put("allowed_pools", &self.allowed_pools);
        w.put("group", &self.group);
        w.put("labels", &self.labels);
        w.put("state", &self.state);
        w.put("enabled", &self.enabled);
        w.put("created_at", &self.created_at);
        proof {
            assert(w@ =~= self.doc()->Object_0);
        }
        w.finish()
    }

    proof fn law_reads_back(&self) {
        KeyView::lemma_names();
        self.id.law_reads_back();
        self.name.law_reads_back();
        self.allowed_pools.law_reads_back();
        self.group.law_reads_back();
        self.labels.law_reads_back();
        self.state.law_reads_back();
        self.enabled.law_reads_back();
        self.created_at.law_reads_back();
        record::lemma_record_reads_back("KeyView"@, KeyView::fields(), self.doc()->Object_0);
    }

    proof fn law_only_null_is_null(d: Doc) {
    }
}

/// `GET /keys`: one page of keys.
#[derive(Debug)]
pub struct KeyPage {
    pub items: Vec<KeyView>,
    /// Where the next page starts, if there is one.
    pub next_cursor: Option<String>,
}

impl KeyPage {
    /// The fields, in the order in which they are written.
    pub open spec fn fields() -> Seq<Field> {
        seq![
            record::defaulted::<Vec<KeyView>>("items"@),
            record::defaulted::<Option<String>>("next_cursor"@),
        ]
    }

    /// No two fields share a name.
    pub proof fn lemma_names()
        ensures
            record::distinct_names(KeyPage::fields()),
    {
        reveal_strlit("items");
        reveal_strlit("next_cursor");
        assert("items"@.len() == 5);
        assert("next_cursor"@.len() == 11);
    }
}

impl Wire for KeyPage {
    open spec fn canon(d: Doc) -> Result<Doc, Fault> {
        record::record("KeyPage"@, KeyPage::fields(), d)
    }

    open spec fn doc(&self) -> Doc {
        Doc::Object(
            seq![
                ("items"@, self.items.doc()),
                ("next_cursor"@, self.next_cursor.doc()),
            ],
        )
    }

    open spec fn well_formed(&self) -> bool {
        self.items.well_formed()
    }

    fn from_json(json: &Json) -> (value: Result<Self, DecodeError>) {
        let ghost f = KeyPage::fields();
        let mut scan: Scan = Scan::new(json, "KeyPage", 2, Ghost(f))?;
        let items: Option<Vec<KeyView>> = scan.defaulted(0, "items", Ghost(f));
        let next_cursor: Option<Option<String>> = scan.defaulted(1, "next_cursor", Ghost(f));
        scan.finish(Ghost(f))?;
        proof {
            record::lemma_no_fault("KeyPage"@, f, json@, f.len() as int);
        }
        let value = KeyPage {
            items: items.unwrap(),
            next_cursor: next_cursor.unwrap(),
        };
        proof {
            record::lemma_record_read("KeyPage"@, f, json@, value.doc()->Object_0);
        }
        Ok(value)
    }

    fn to_json(&self) -> (json: Json) {
        let mut w: Writer = Writer::new();
        w.put("items", &self.items);
        w.put("next_cursor", &self.next_cursor);
        proof {
            assert(w@ =~= self.doc()->Object_0);
        }
        w.finish()
    }

    proof fn law_reads_back(&self) {
        KeyPage::lemma_names();
        self.items.law_reads_back();
        self.next_cursor.law_reads_back();
        record::lemma_record_reads_back("KeyPage"@, KeyPage::fields(), self.doc()->Object_0);
    }

    proof fn law_only_null_is_null(d: Doc) {
    }
}

/// `POST /keys`: a new key, with the signed token that is shown once.
#[derive(Debug)]
pub struct CreatedKeyView {
    pub id: String,
    pub name: String,
    /// `None` is every pool, an empty list is no pool.
    pub allowed_pools: Option<Vec<String>>,
    /// The group whose budgets and limits the key draws on.
    pub group: Option<String>,
    pub labels: Labels,
    /// `active`, `disabled`, `revoked` or `tombstoned`.
    pub state: String,
    pub enabled: bool,
    pub created_at: u64,
    /// The signed token, shown exactly once.
    pub token: String,
    /// When the token expires, in Unix seconds.
    pub expires_at: u64,
    /// Whether the group was created along with the key.
    pub group_provisioned: bool,
    pub aws_access_key_id: Option<String>,
    pub aws_secret_access_key: Option<String>,
}

impl CreatedKeyView {
    /// The fields, in the order in which they are written.
    pub open spec fn fields() -> Seq<Field> {
        seq![
            record::required::<String>("id"@),
            record::required::<String>("name"@),
            record::defaulted::<Option<Vec<String>>>("allowed_pools"@),
            record::defaulted::<Option<String>>("group"@),
            record::defaulted::<Labels>("labels"@),
            record::defaulted::<String>("state"@),
            record::defaulted::<bool>("enabled"@),
            record::defaulted::<u64>("created_at"@),
            record::required::<String>("token"@),
            record::defaulted::<u64>("expires_at"@),
            record::defaulted::<bool>("group_provisioned"@),
            record::defaulted::<Option<String>>("aws_access_key_id"@),
            record::defaulted::<Option<String>>("aws_secret_access_key"@),
        ]
    }

    /// No two fields share a name.
    pub proof fn lemma_names()
        ensures
            record::distinct_names(CreatedKeyView::fields()),
    {
        reveal_strlit("id");
        reveal_strlit("name");
        reveal_strlit("allowed_pools");
        reveal_strlit("group");
        reveal_strlit("labels");
        reveal_strlit("state");
        reveal_strlit("enabled");
        reveal_strlit("created_at");
        reveal_strlit("token");
        reveal_strlit("expires_at");
        reveal_strlit("group_provisioned");
        reveal_strlit("aws_access_key_id");
        reveal_strlit("aws_secret_access_key");
        assert("id"@.len() == 2);
        assert("name"@.len() == 4);
        assert("allowed_pools"@.len() == 13);
        assert("group"@.len() == 5);
        assert("labels"@.len() == 6);
        assert("state"@.len() == 5);
        assert("enabled"@.len() == 7);
        assert("created_at"@.len() == 10);
        assert("token"@.len() == 5);
        assert("expires_at"@.len() == 10);
        assert("group_provisioned"@.len() == 17);
        assert("aws_access_key_id"@.len() == 17);
        assert("aws_secret_access_key"@.len() == 21);
        assert("group"@[0] != "state"@[0]);
        assert("group"@[0] != "token"@[0]);
        assert("state"@[0] != "token"@[0]);
        assert("created_at"@[0] != "expires_at"@[0]);
        assert("group_provisioned"@[0] != "aws_access_key_id"@[0]);
    }
}

impl Wire for CreatedKeyView {
    open spec fn canon(d: Doc) -> Result<Doc, Fault> {
        record::record("CreatedKeyView"@, CreatedKeyView::fields(), d)
    }

    open spec fn doc(&self) -> Doc {
        Doc::Object(
            seq![
                ("id"@, self.id.doc()),
                ("name"@, self.name.doc()),
                ("allowed_pools"@, self.allowed_pools.doc()),
                ("group"@, self.group.doc()),
                ("labels"@, self.labels.doc()),
                ("state"@, self.state.doc()),
                ("enabled"@, self.enabled.doc()),
                ("created_at"@, self.created_at.doc()),
                ("token"@, self.token.doc()),
                ("expires_at"@, self.expires_at.doc()),
                ("group_provisioned"@, self.group_provisioned.doc()),
                ("aws_access_key_id"@, self.aws_access_key_id.doc()),
                ("aws_secret_access_key"@, self.aws_secret_access_key.doc()),
            ],
        )
    }

    open spec fn well_formed(&self) -> bool {
        self.labels.well_formed()
    }

    fn from_json(json: &Json) -> (value: Result<Self, DecodeError>) {
        let ghost f = CreatedKeyView::fields();
        let mut scan: Scan = Scan::new(json, "CreatedKeyView", 13, Ghost(f))?;
        let id: Option<String> = scan.required(0, "id", Ghost(f));
        let name: Option<String> = scan.required(1, "name", Ghost(f));
        let allowed_pools: Option<Option<Vec<String>>> = scan.defaulted(
            2,
            "allowed_pools",
            Ghost(f),
        );
        let group: Option<Option<String>> = scan.defaulted(3, "group", Ghost(f));
        let labels: Option<Labels> = scan.defaulted(4, "labels", Ghost(f));
        let state: Option<String> = scan.defaulted(5, "state", Ghost(f));
        let enabled: Option<bool> = scan.defaulted(6, "enabled", Ghost(f));
        let created_at: Option<u64> = scan.defaulted(7, "created_at", Ghost(f));
        let token: Option<String> = scan.required(8, "token", Ghost(f));
        let expires_at: Option<u64> = scan.defaulted(9, "expires_at", Ghost(f));
        let group_provisioned: Option<bool> = scan.defaulted(10, "group_provisioned", Ghost(f));
        let aws_access_key_id: Option<Option<String>> = scan.defaulted(
            11,
            "aws_access_key_id",
            Ghost(f),
        );
        let aws_secret_access_key: Option<Option<String>> = scan.defaulted(
            12,
            "aws_secret_access_key",
            Ghost(f),
        );
        scan.finish(Ghost(f))?;
        proof {
            record::lemma_no_fault("CreatedKeyView"@, f, json@, f.len() as int);
        }
        let value = CreatedKeyView {
            id: id.unwrap(),
            name: name.unwrap(),
            allowed_pools: allowed_pools.unwrap(),
            group: group.unwrap(),
            labels: labels.unwrap(),
            state: state.unwrap(),
            enabled: enabled.unwrap(),
            created_at: created_at.unwrap(),
            token: token.unwrap(),
            expires_at: expires_at.unwrap(),
            group_provisioned: group_provisioned.unwrap(),
            aws_access_key_id: aws_access_key_id.unwrap(),
            aws_secret_access_key: aws_secret_access_key.unwrap(),
        };
        proof {
            record::lemma_record_read("CreatedKeyView"@, f, json@, value.doc()->Object_0);
        }
        Ok(value)
    }

    fn to_json(&self) -> (json: Json) {
        let mut w: Writer = Writer::new();
        w.put("id", &self.id);
        w.put("name", &self.name);
        w.put("allowed_pools", &self.allowed_pools);
        w.put("group", &self.group);
        w.put("labels", &self.labels);
        w.put("state", &self.state);
        w.put("enabled", &self.enabled);
        w.put("created_at", &self.created_at);
        w.put("token", &self.token);
        w.put("expires_at", &self.expires_at);
        w.put("group_provisioned", &self.group_provisioned);
        w.put("aws_access_key_id", &self.aws_access_key_id);
        w.put("aws_secret_access_key", &self.aws_secret_access_key);
        proof {
            assert(w@ =~= self.doc()->Object_0);
        }
        w.finish()
    }

    proof fn law_reads_back(&self) {
        CreatedKeyView::lemma_names();
        self.id.law_reads_back();
        self.name.law_reads_back();
        self.allowed_pools.law_reads_back();
        self.group.law_reads_back();
        self.labels.law_reads_back();
        self.state.law_reads_back();
        self.enabled.law_reads_back();
        self.created_at.law_reads_back();
        self.token.law_reads_back();
        self.expires_at.law_reads_back();
        self.group_provisioned.law_reads_back();
        self.aws_access_key_id.law_reads_back();
        self.aws_secret_access_key.law_reads_back();
        record::lemma_record_reads_back(
            "CreatedKeyView"@,
            CreatedKeyView::fields(),
            self.doc()->Object_0,
        );
    }

    proof fn law_only_null_is_null(d: Doc) {
    }
}

/// `POST /keys/{id}/rotate`: a key with its fresh credential, either a token or, for an older kind of
/// key, a secret.
#[derive(Debug)]
pub struct RotatedKeyView {
    pub id: String,
    pub name: String,
    /// `None` is every pool, an empty list is no pool.
    pub allowed_pools: Option<Vec<String>>,
    /// The group whose budgets and limits the key draws on.
    pub group: Option<String>,
    pub labels: Labels,
    /// `active`, `disabled`, `revoked` or `tombstoned`.
    pub state: String,
    pub enabled: bool,
    pub created_at: u64,
    pub token: Option<String>,
    pub expires_at: Option<u64>,
    pub secret: Option<String>,
}

impl RotatedKeyView {
    /// The fields, in the order in which they are written.
    pub open spec fn fields() -> Seq<Field> {
        seq![
            record::required::<String>("id"@),
            record::required::<String>("name"@),
            record::defaulted::<Option<Vec<String>>>("allowed_pools"@),
            record::defaulted::<Option<String>>("group"@),
            record::defaulted::<Labels>("labels"@),
            record::defaulted::<String>("state"@),
            record::defaulted::<bool>("enabled"@),
            record::defaulted::<u64>("created_at"@),
            record::defaulted::<Option<String>>("token"@),
            record::defaulted::<Option<u64>>("expires_at"@),
            record::defaulted::<Option<String>>("secret"@),
        ]
    }

    /// No two fields share a name.
    pub proof fn lemma_names()
        ensures
            record::distinct_names(RotatedKeyView::fields()),
    {
        reveal_strlit("id");
        reveal_strlit("name");
        reveal_strlit("allowed_pools");
        reveal_strlit("group");
        reveal_strlit("labels");
        reveal_strlit("state");
        reveal_strlit("enabled");
        reveal_strlit("created_at");
        reveal_strlit("token");
        reveal_strlit("expires_at");
        reveal_strlit("secret");
        assert("id"@.len() == 2);
        assert("name"@.len() == 4);
        assert("allowed_pools"@.len() == 13);
        assert("group"@.len() == 5);
        assert("labels"@.len() == 6);
        assert("state"@.len() == 5);
        assert("enabled"@.len() == 7);
        assert("created_at"@.len() == 10);
        assert("token"@.len() == 5);
        assert("expires_at"@.len() == 10);
        assert("secret"@.len() == 6);
        assert("group"@[0] != "state"@[0]);
        assert("group"@[0] != "token"@[0]);
        assert("state"@[0] != "token"@[0]);
        assert("labels"@[0] != "secret"@[0]);
        assert("created_at"@[0] != "expires_at"@[0]);
    }
}

impl Wire for RotatedKeyView {
    open spec fn canon(d: Doc) -> Result<Doc, Fault> {
        record::record("RotatedKeyView"@, RotatedKeyView::fields(), d)
    }

    open spec fn doc(&self) -> Doc {
        Doc::Object(
            seq![
                ("id"@, self.id.doc()),
                ("name"@, self.name.doc()),
                ("allowed_pools"@, self.allowed_pools.doc()),
                ("group"@, self.group.doc()),
                ("labels"@, self.labels.doc()),
                ("state"@, self.state.doc()),
                ("enabled"@, self.enabled.doc()),
                ("created_at"@, self.created_at.doc()),
                ("token"@, self.token.doc()),
                ("expires_at"@, self.expires_at.doc()),
                ("secret"@, self.secret.doc()),
            ],
        )
    }

    open spec fn well_formed(&self) -> bool {
        self.labels.well_formed()
    }

    fn from_json(json: &Json) -> (value: Result<Self, DecodeError>) {
        let ghost f = RotatedKeyView::fields();
        let mut scan: Scan = Scan::new(json, "RotatedKeyView", 11, Ghost(f))?;
        let id: Option<String> = scan.required(0, "id", Ghost(f));
        let name: Option<String> = scan.required(1, "name", Ghost(f));
        let allowed_pools: Option<Option<Vec<String>>> = scan.defaulted(
            2,
            "allowed_pools",
            Ghost(f),
        );
        let group: Option<Option<String>> = scan.defaulted(3, "group", Ghost(f));
        let labels: Option<Labels> = scan.defaulted(4, "labels", Ghost(f));
        let state: Option<String> = scan.defaulted(5, "state", Ghost(f));
        let enabled: Option<bool> = scan.defaulted(6, "enabled", Ghost(f));
        let created_at: Option<u64> = scan.defaulted(7, "created_at", Ghost(f));
        let token: Option<Option<String>> = scan.defaulted(8, "token", Ghost(f));
        let expires_at: Option<Option<u64>> = scan.defaulted(9, "expires_at", Ghost(f));
        let secret: Option<Option<String>> = scan.defaulted(10, "secret", Ghost(f));
        scan.finish(Ghost(f))?;
        proof {
            record::lemma_no_fault("RotatedKeyView"@, f, json@, f.len() as int);
        }
        let value = RotatedKeyView {
            id: id.unwrap(),
            name: name.unwrap(),
            allowed_pools: allowed_pools.unwrap(),
            group: group.unwrap(),
            labels: labels.unwrap(),
            state: state.unwrap(),
            enabled: enabled.unwrap(),
            created_at: created_at.unwrap(),
            token: token.unwrap(),
            expires_at: expires_at.unwrap(),
            secret: secret.unwrap(),
        };
        proof {
            record::lemma_record_read("RotatedKeyView"@, f, json@, value.doc()->Object_0);
        }
        Ok(value)
    }

    fn to_json(&self) -> (json: Json) {
        let mut w: Writer = Writer::new();
        w.put("id", &self.id);
        w.put("name", &self.name);
        w.put("allowed_pools", &self.allowed_pools);
        w.put("group", &self.group);
        w.put("labels", &self.labels);
        w.put("state", &self.state);
        w.put("enabled", &self.enabled);
        w.put("created_at", &self.created_at);
        w.put("token", &self.token);
        w.put("expires_at", &self.expires_at);
        w.put("secret", &self.secret);
        proof {
            assert(w@ =~= self.doc()->Object_0);
        }
        w.finish()
    }

    proof fn law_reads_back(&self) {
        RotatedKeyView::lemma_names();
        self.id.law_reads_back();
        self.name.law_reads_back();
        self.allowed_pools.law_reads_back();
        self.group.law_reads_back();
        self.labels.law_reads_back();
        self.state.law_reads_back();
        self.enabled.law_reads_back();
        self.created_at.law_reads_back();
        self.token.law_reads_back();
        self.expires_at.law_reads_back();
        self.secret.law_reads_back();
        record::lemma_record_reads_back(
            "RotatedKeyView"@,
            RotatedKeyView::fields(),
            self.doc()->Object_0,
        );
    }

    proof fn law_only_null_is_null(d: Doc) {
    }
}

/// `POST /keys/{id}/revoke`: the key that is now denylisted.
#[derive(Debug)]
pub struct RevokeView {
    pub revoked: String,
}

impl RevokeView {
    /// The fields, in the order in which they are written.
    pub open spec fn fields() -> Seq<Field> {
        seq![
            record::required::<String>("revoked"@),
        ]
    }

    /// No two fields share a name.
    pub proof fn lemma_names()
        ensures
            record::distinct_names(RevokeView::fields()),
    {
        reveal_strlit("revoked");
        assert("revoked"@.len() == 7);
    }
}

impl Wire for RevokeView {
    open spec fn canon(d: Doc) -> Result<Doc, Fault> {
        record::record("RevokeView"@, RevokeView::fields(), d)
    }

    open spec fn doc(&self) -> Doc {
        Doc::Object(
            seq![
                ("revoked"@, self.revoked.doc()),
            ],
        )
    }

    open spec fn well_formed(&self) -> bool {
        true
    }

    fn from_json(json: &Json) -> (value: Result<Self, DecodeError>) {
        let ghost f = RevokeView::fields();
        let mut scan: Scan = Scan::new(json, "RevokeView", 1, Ghost(f))?;
        let revoked: Option<String> = scan.required(0, "revoked", Ghost(f));
        scan.finish(Ghost(f))?;
        proof {
            record::lemma_no_fault("RevokeView"@, f, json@, f.len() as int);
        }
        let value = RevokeView {
            revoked: revoked.unwrap(),
        };
        proof {
            record::lemma_record_read("RevokeView"@, f, json@, value.doc()->Object_0);
        }
        Ok(value)
    }

    fn to_json(&self) -> (json: Json) {
        let mut w: Writer = Writer::new();
        w.put("revoked", &self.revoked);
        proof {
            assert(w@ =~= self.doc()->Object_0);
        }
        w.finish()
    }

    proof fn law_reads_back(&self) {
        RevokeView::lemma_names();
        self.revoked.law_reads_back();
        record::lemma_record_reads_back("RevokeView"@, RevokeView::fields(), self.doc()->Object_0);
    }

    proof fn law_only_null_is_null(d: Doc) {
    }
}

/// The pools of a key keep their three states: absent or `null` is every pool, `[]` is no pool,
/// and a list is exactly those pools.
pub proof fn law_key_pools_are_exact(d: Doc, key: KeyView)
    requires
        KeyView::canon(d) == Ok::<Doc, Fault>(key.doc()),
    ensures
        match record::slot(d, 2, "allowed_pools"@) {
            Slot::Absent => key.allowed_pools is None,
            Slot::Present(Doc::Null) => key.allowed_pools is None,
            Slot::Present(pools) => {
                &&& key.allowed_pools is Some
                &&& pools == Doc::Array(
                    text::texts(key.allowed_pools->0@).map_values(|s: Seq<char>| Doc::Text(s)),
                )
            },
            Slot::Repeated => false,
        },
{
    record::law_fields_are_read("KeyView"@, KeyView::fields(), d);
    let member = KeyView::canon(d)->Ok_0->Object_0[2];
    assert(member == ("allowed_pools"@, key.allowed_pools.doc()));
    assert(KeyView::fields()[2] == record::defaulted::<Option<Vec<String>>>("allowed_pools"@));
    match record::slot(d, 2, "allowed_pools"@) {
        Slot::Present(pools) => {
            assert(Option::<Vec<String>>::canon(pools) == Ok::<Doc, Fault>(
                key.allowed_pools.doc(),
            ));
            wire::law_optional_texts_are_exact(pools, key.allowed_pools);
        },
        _ => {
            assert(key.allowed_pools.doc() == Doc::Null);
        },
    }
}

/// What is read of a key's metadata holds no credential, whatever the gateway sent.
pub proof fn law_key_metadata_holds_no_credential(key: KeyView, i: int)
    requires
        0 <= i < key.doc()->Object_0.len(),
    ensures
        key.doc()->Object_0[i].0 != "token"@,
        key.doc()->Object_0[i].0 != "secret"@,
        key.doc()->Object_0[i].0 != "aws_access_key_id"@,
        key.doc()->Object_0[i].0 != "aws_secret_access_key"@,
{
    reveal_strlit("id");
    reveal_strlit("name");
    reveal_strlit("allowed_pools");
    reveal_strlit("group");
    reveal_strlit("labels");
    reveal_strlit("state");
    reveal_strlit("enabled");
    reveal_strlit("created_at");
    reveal_strlit("token");
    reveal_strlit("secret");
    reveal_strlit("aws_access_key_id");
    reveal_strlit("aws_secret_access_key");
    assert("id"@.len() == 2);
    assert("name"@.len() == 4);
    assert("allowed_pools"@.len() == 13);
    assert("group"@.len() == 5);
    assert("labels"@.len() == 6);
    assert("state"@.len() == 5);
    assert("enabled"@.len() == 7);
    assert("created_at"@.len() == 10);
    assert("token"@.len() == 5);
    assert("secret"@.len() == 6);
    assert("aws_access_key_id"@.len() == 17);
    assert("aws_secret_access_key"@.len() == 21);
    assert("token"@[0] != "group"@[0]);
    assert("token"@[0] != "state"@[0]);
    assert("secret"@[0] != "labels"@[0]);
}

} // verus!
