//! The running config.

use vstd::prelude::*;

use crate::json::Doc;
use crate::json::Json;
use crate::record;
use crate::record::Field;
use crate::record::Scan;
use crate::record::Writer;
use crate::wire::DecodeError;
use crate::wire::Fault;
use crate::wire::Wire;

verus! {

/// `POST /config/apply`: whether the config was applied, and at which version it now is.
#[derive(Debug)]
pub struct ConfigApplyView {
    /// `false` where the config was accepted but not applied.
    pub applied: bool,
    pub config_version: u64,
    pub note: String,
}

impl ConfigApplyView {
    /// The fields, in the order in which they are written.
    pub open spec fn fields() -> Seq<Field> {
        seq![
            record::required::<bool>("applied"@),
            record::defaulted::<u64>("config_version"@),
            record::defaulted::<String>("note"@),
        ]
    }

    /// No two fields share a name.
    pub proof fn lemma_names()
        ensures
            record::distinct_names(ConfigApplyView::fields()),
    {
        reveal_strlit("applied");
        reveal_strlit("config_version");
        reveal_strlit("note");
        assert("applied"@.len() == 7);
        assert("config_version"@.len() == 14);
        assert("note"@.len() == 4);
    }
}

impl Wire for ConfigApplyView {
    open spec fn canon(d: Doc) -> Result<Doc, Fault> {
        record::record("ConfigApplyView"@, ConfigApplyView::fields(), d)
    }

    open spec fn doc(&self) -> Doc {
        Doc::Object(
            seq![
                ("applied"@, self.applied.doc()),
                ("config_version"@, self.config_version.doc()),
                ("note"@, self.note.doc()),
            ],
        )
    }

    open spec fn well_formed(&self) -> bool {
        true
    }

    fn from_json(json: &Json) -> (value: Result<Self, DecodeError>) {
        let ghost f = ConfigApplyView::fields();
        let mut scan: Scan = Scan::new(json, "ConfigApplyView", 3, Ghost(f))?;
        let applied: Option<bool> = scan.required(0, "applied", Ghost(f));
        let config_version: Option<u64> = scan.defaulted(1, "config_version", Ghost(f));
        let note: Option<String> = scan.defaulted(2, "note", Ghost(f));
        scan.finish(Ghost(f))?;
        proof {
            record::lemma_no_fault("ConfigApplyView"@, f, json@, f.len() as int);
        }
        let value = ConfigApplyView {
            applied: applied.unwrap(),
            config_version: config_version.unwrap(),
            note: note.unwrap(),
        };
        proof {
            record::lemma_record_read("ConfigApplyView"@, f, json@, value.doc()->Object_0);
        }
        Ok(value)
    }

    fn to_json(&self) -> (json: Json) {
        let mut w: Writer = Writer::new();
        w.put("applied", &self.applied);
        w.put("config_version", &self.config_version);
        w.put("note", &self.note);
        proof {
            assert(w@ =~= self.doc()->Object_0);
        }
        w.finish()
    }

    proof fn law_reads_back(&self) {
        ConfigApplyView::lemma_names();
        self.applied.law_reads_back();
        self.config_version.law_reads_back();
        self.note.law_reads_back();
        record::lemma_record_reads_back(
            "ConfigApplyView"@,
            ConfigApplyView::fields(),
            self.doc()->Object_0,
        );
    }

    proof fn law_only_null_is_null(d: Doc) {
    }
}

} // verus!
