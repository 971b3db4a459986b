//! The hook registry.

use vstd::prelude::*;

use crate::json::Doc;
use crate::json::Json;
use crate::record;
use crate::record::Field;
use crate::record::Scan;
use crate::record::Writer;
use crate::wire::DecodeError;
use crate::wire::Fault;
use crate::wire::Wire;

verus! {

/// One registered hook.
#[derive(Debug)]
pub struct HookView {
    pub name: String,
    pub kind: String,
    pub transport: HookTransportView,
    pub prompt: String,
    pub user: String,
    pub priority: u16,
    pub at: Option<String>,
    pub on_error: String,
    pub timeout_ms: u64,
    pub global: bool,
}

impl HookView {
    /// The fields, in the order in which they are written.
    pub open spec fn fields() -> Seq<Field> {
        seq![
            record::required::<String>("name"@),
            record::required::<String>("kind"@),
            record::required::<HookTransportView>("transport"@),
            record::defaulted::<String>("prompt"@),
            record::defaulted::<String>("user"@),
            record::defaulted::<u16>("priority"@),
            record::defaulted::<Option<String>>("at"@),
            record::defaulted::<String>("on_error"@),
            record::defaulted::<u64>("timeout_ms"@),
            record::defaulted::<bool>("global"@),
        ]
    }

    /// No two fields share a name.
    pub proof fn lemma_names()
        ensures
            record::distinct_names(HookView::fields()),
    {
        reveal_strlit("name");
        reveal_strlit("kind");
        reveal_strlit("transport");
        reveal_strlit("prompt");
        reveal_strlit("user");
        reveal_strlit("priority");
        reveal_strlit("at");
        reveal_strlit("on_error");
        reveal_strlit("timeout_ms");
        reveal_strlit("global");
        assert("name"@.len() == 4);
        assert("kind"@.len() == 4);
        assert("transport"@.len() == 9);
        assert("prompt"@.len() == 6);
        assert("user"@.len() == 4);
        assert("priority"@.len() == 8);
        assert("at"@.len() == 2);
        assert("on_error"@.len() == 8);
        assert("timeout_ms"@.len() == 10);
        assert("global"@.len() == 6);
        assert("name"@[0] != "kind"@[0]);
        assert("name"@[0] != "user"@[0]);
        assert("kind"@[0] != "user"@[0]);
        assert("prompt"@[0] != "global"@[0]);
        assert("priority"@[0] != "on_error"@[0]);
    }
}

impl Wire for HookView {
    open spec fn canon(d: Doc) -> Result<Doc, Fault> {
        record::record("HookView"@, HookView::fields(), d)
    }

    open spec fn doc(&self) -> Doc {
        Doc::Object(
            seq![
                ("name"@, self.name.doc()),
                ("kind"@, self.kind.doc()),
                ("transport"@, self.transport.doc()),
                ("prompt"@, self.prompt.doc()),
                ("user"@, self.user.doc()),
                ("priority"@, self.priority.doc()),
                ("at"@, self.at.doc()),
                ("on_error"@, self.on_error.doc()),
                ("timeout_ms"@, self.timeout_ms.doc()),
                ("global"@, self.global.doc()),
            ],
        )
    }

    open spec fn well_formed(&self) -> bool {
        true
    }

    fn from_json(json: &Json) -> (value: Result<Self, DecodeError>) {
        let ghost f = HookView::fields();
        let mut scan: Scan = Scan::new(json, "HookView", 10, Ghost(f))?;
        let name: Option<String> = scan.required(0, "name", Ghost(f));
        let kind: Option<String> = scan.required(1, "kind", Ghost(f));
        let transport: Option<HookTransportView> = scan.required(2, "transport", Ghost(f));
        let prompt: Option<String> = scan.defaulted(3, "prompt", Ghost(f));
        let user: Option<String> = scan.defaulted(4, "user", Ghost(f));
        let priority: Option<u16> = scan.defaulted(5, "priority", Ghost(f));
        let at: Option<Option<String>> = scan.defaulted(6, "at", Ghost(f));
        let on_error: Option<String> = scan.defaulted(7, "on_error", Ghost(f));
        let timeout_ms: Option<u64> = scan.defaulted(8, "timeout_ms", Ghost(f));
        let global: Option<bool> = scan.defaulted(9, "global", Ghost(f));
        scan.finish(Ghost(f))?;
        proof {
            record::lemma_no_fault("HookView"@, f, json@, f.len() as int);
        }
        let value = HookView {
            name: name.unwrap(),
            kind: kind.unwrap(),
            transport: transport.unwrap(),
            prompt: prompt.unwrap(),
            user: user.unwrap(),
            priority: priority.unwrap(),
            at: at.unwrap(),
            on_error: on_error.unwrap(),
            timeout_ms: timeout_ms.unwrap(),
            global: global.unwrap(),
        };
        proof {
            record::lemma_record_read("HookView"@, f, json@, value.doc()->Object_0);
        }
        Ok(value)
    }

    fn to_json(&self) -> (json: Json) {
        let mut w: Writer = Writer::new();
        w.put("name", &self.name);
        w.put("kind", &self.kind);
        w.put("transport", &self.transport);
        w.put("prompt", &self.prompt);
        w.put("user", &self.user);
        w.put("priority", &self.priority);
        w.put("at", &self.at);
        w.put("on_error", &self.on_error);
        w.put("timeout_ms", &self.timeout_ms);
        w.put("global", &self.global);
        proof {
            assert(w@ =~= self.doc()->Object_0);
        }
        w.finish()
    }

    proof fn law_reads_back(&self) {
        HookView::lemma_names();
        self.name.law_reads_back();
        self.kind.law_reads_back();
        self.transport.law_reads_back();
        self.prompt.law_reads_back();
        self.user.law_reads_back();
        self.priority.law_reads_back();
        self.at.law_reads_back();
        self.on_error.law_reads_back();
        self.timeout_ms.law_reads_back();
        self.global.law_reads_back();
        record::lemma_record_reads_back("HookView"@, HookView::fields(), self.doc()->Object_0);
    }

    proof fn law_only_null_is_null(d: Doc) {
    }
}

/// How a hook is reached.
#[derive(Debug)]
pub struct HookTransportView {
    pub kind: String,
    pub target: Option<String>,
}

impl HookTransportView {
    /// The fields, in the order in which they are written.
    pub open spec fn fields() -> Seq<Field> {
        seq![
            record::required::<String>("kind"@),
            record::defaulted::<Option<String>>("target"@),
        ]
    }

    /// No two fields share a name.
    pub proof fn lemma_names()
        ensures
            record::distinct_names(HookTransportView::fields()),
    {
        reveal_strlit("kind");
        reveal_strlit("target");
        assert("kind"@.len() == 4);
        assert("target"@.len() == 6);
    }
}

impl Wire for HookTransportView {
    open spec fn canon(d: Doc) -> Result<Doc, Fault> {
        record::record("HookTransportView"@, HookTransportView::fields(), d)
    }

    open spec fn doc(&self) -> Doc {
        Doc::Object(
            seq![
                ("kind"@, self.kind.doc()),
                ("target"@, self.target.doc()),
            ],
        )
    }

    open spec fn well_formed(&self) -> bool {
        true
    }

    fn from_json(json: &Json) -> (value: Result<Self, DecodeError>) {
        let ghost f = HookTransportView::fields();
        let mut scan: Scan = Scan::new(json, "HookTransportView", 2, Ghost(f))?;
        let kind: Option<String> = scan.required(0, "kind", Ghost(f));
        let target: Option<Option<String>> = scan.defaulted(1, "target", Ghost(f));
        scan.finish(Ghost(f))?;
        proof {
            record::lemma_no_fault("HookTransportView"@, f, json@, f.len() as int);
        }
        let value = HookTransportView {
            kind: kind.unwrap(),
            target: target.unwrap(),
        };
        proof {
            record::lemma_record_read("HookTransportView"@, f, json@, value.doc()->Object_0);
        }
        Ok(value)
    }

    fn to_json(&self) -> (json: Json) {
        let mut w: Writer = Writer::new();
        w.put("kind", &self.kind);
        w.put("target", &self.target);
        proof {
            assert(w@ =~= self.doc()->Object_0);
        }
        w.finish()
    }

    proof fn law_reads_back(&self) {
        HookTransportView::lemma_names();
        self.kind.law_reads_back();
        self.target.law_reads_back();
        record::lemma_record_reads_back(
            "HookTransportView"@,
            HookTransportView::fields(),
            self.doc()->Object_0,
        );
    }

    proof fn law_only_null_is_null(d: Doc) {
    }
}

/// `GET /hooks`: one page of the hook registry.
#[derive(Debug)]
pub struct HookPage {
    pub items: Vec<HookView>,
    /// Where the next page starts, if there is one.
    pub next_cursor: Option<String>,
}

impl HookPage {
    /// The fields, in the order in which they are written.
    pub open spec fn fields() -> Seq<Field> {
        seq![
            record::defaulted::<Vec<HookView>>("items"@),
            record::defaulted::<Option<String>>("next_cursor"@),
        ]
    }

    /// No two fields share a name.
    pub proof fn lemma_names()
        ensures
            record::distinct_names(HookPage::fields()),
    {
        reveal_strlit("items");
        reveal_strlit("next_cursor");
        assert("items"@.len() == 5);
        assert("next_cursor"@.len() == 11);
    }
}

impl Wire for HookPage {
    open spec fn canon(d: Doc) -> Result<Doc, Fault> {
        record::record("HookPage"@, HookPage::fields(), d)
    }

    open spec fn doc(&self) -> Doc {
        Doc::Object(
            seq![
                ("items"@, self.items.doc()),
                ("next_cursor"@, self.next_cursor.doc()),
            ],
        )
    }

    open spec fn well_formed(&self) -> bool {
        true
    }

    fn from_json(json: &Json) -> (value: Result<Self, DecodeError>) {
        let ghost f = HookPage::fields();
        let mut scan: Scan = Scan::new(json, "HookPage", 2, Ghost(f))?;
        let items: Option<Vec<HookView>> = scan.defaulted(0, "items", Ghost(f));
        let next_cursor: Option<Option<String>> = scan.defaulted(1, "next_cursor", Ghost(f));
        scan.finish(Ghost(f))?;
        proof {
            record::lemma_no_fault("HookPage"@, f, json@, f.len() as int);
        }
        let value = HookPage {
            items: items.unwrap(),
            next_cursor: next_cursor.unwrap(),
        };
        proof {
            record::lemma_record_read("HookPage"@, f, json@, value.doc()->Object_0);
        }
        Ok(value)
    }

    fn to_json(&self) -> (json: Json) {
        let mut w: Writer = Writer::new();
        w.put("items", &self.items);
        w.put("next_cursor", &self.next_cursor);
        proof {
            assert(w@ =~= self.doc()->Object_0);
        }
        w.finish()
    }

    proof fn law_reads_back(&self) {
        HookPage::lemma_names();
        self.items.law_reads_back();
        self.next_cursor.law_reads_back();
        record::lemma_record_reads_back("HookPage"@, HookPage::fields(), self.doc()->Object_0);
    }

    proof fn law_only_null_is_null(d: Doc) {
    }
}

} // verus!
