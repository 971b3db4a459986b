//! What a gateway answers a refused request with.

use vstd::prelude::*;

use crate::json::Doc;
use crate::json::Json;
use crate::record;
use crate::record::Field;
use crate::record::Scan;
use crate::record::Writer;
use crate::wire::DecodeError;
use crate::wire::Fault;
use crate::wire::Wire;

verus! {

/// The body of a refused request.
#[derive(Debug)]
pub struct ErrorEnvelope {
    pub error: ErrorDetail,
}

impl ErrorEnvelope {
    /// The fields, in the order in which they are written.
    pub open spec fn fields() -> Seq<Field> {
        seq![
            record::required::<ErrorDetail>("error"@),
        ]
    }

    /// No two fields share a name.
    pub proof fn lemma_names()
        ensures
            record::distinct_names(ErrorEnvelope::fields()),
    {
        reveal_strlit("error");
        assert("error"@.len() == 5);
    }
}

impl Wire for ErrorEnvelope {
    open spec fn canon(d: Doc) -> Result<Doc, Fault> {
        record::record("ErrorEnvelope"@, ErrorEnvelope::fields(), d)
    }

    open spec fn doc(&self) -> Doc {
        Doc::Object(
            seq![
                ("error"@, self.error.doc()),
            ],
        )
    }

    open spec fn well_formed(&self) -> bool {
        true
    }

    fn from_json(json: &Json) -> (value: Result<Self, DecodeError>) {
        let ghost f = ErrorEnvelope::fields();
        let mut scan: Scan = Scan::new(json, "ErrorEnvelope", 1, Ghost(f))?;
        let error: Option<ErrorDetail> = scan.required(0, "error", Ghost(f));
        scan.finish(Ghost(f))?;
        proof {
            record::lemma_no_fault("ErrorEnvelope"@, f, json@, f.len() as int);
        }
        let value = ErrorEnvelope {
            error: error.unwrap(),
        };
        proof {
            record::lemma_record_read("ErrorEnvelope"@, f, json@, value.doc()->Object_0);
        }
        Ok(value)
    }

    fn to_json(&self) -> (json: Json) {
        let mut w: Writer = Writer::new();
        w.put("error", &self.error);
        proof {
            assert(w@ =~= self.doc()->Object_0);
        }
        w.finish()
    }

    proof fn law_reads_back(&self) {
        ErrorEnvelope::lemma_names();
        self.error.law_reads_back();
        record::lemma_record_reads_back(
            "ErrorEnvelope"@,
            ErrorEnvelope::fields(),
            self.doc()->Object_0,
        );
    }

    proof fn law_only_null_is_null(d: Doc) {
    }
}

/// Why a request is refused.
#[derive(Debug)]
pub struct ErrorDetail {
    pub code: String,
    pub message: String,
}

impl ErrorDetail {
    /// The fields, in the order in which they are written.
    pub open spec fn fields() -> Seq<Field> {
        seq![
            record::required::<String>("code"@),
            record::required::<String>("message"@),
        ]
    }

    /// No two fields share a name.
    pub proof fn lemma_names()
        ensures
            record::distinct_names(ErrorDetail::fields()),
    {
        reveal_strlit("code");
        reveal_strlit("message");
        assert("code"@.len() == 4);
        assert("message"@.len() == 7);
    }
}

impl Wire for ErrorDetail {
    open spec fn canon(d: Doc) -> Result<Doc, Fault> {
        record::record("ErrorDetail"@, ErrorDetail::fields(), d)
    }

    open spec fn doc(&self) -> Doc {
        Doc::Object(
            seq![
                ("code"@, self.code.doc()),
                ("message"@, self.message.doc()),
            ],
        )
    }

    open spec fn well_formed(&self) -> bool {
        true
    }

    fn from_json(json: &Json) -> (value: Result<Self, DecodeError>) {
        let ghost f = ErrorDetail::fields();
        let mut scan: Scan = Scan::new(json, "ErrorDetail", 2, Ghost(f))?;
        let code: Option<String> = scan.required(0, "code", Ghost(f));
        let message: Option<String> = scan.required(1, "message", Ghost(f));
        scan.finish(Ghost(f))?;
        proof {
            record::lemma_no_fault("ErrorDetail"@, f, json@, f.len() as int);
        }
        let value = ErrorDetail {
            code: code.unwrap(),
            message: message.unwrap(),
        };
        proof {
            record::lemma_record_read("ErrorDetail"@, f, json@, value.doc()->Object_0);
        }
        Ok(value)
    }

    fn to_json(&self) -> (json: Json) {
        let mut w: Writer = Writer::new();
        w.put("code", &self.code);
        w.put("message", &self.message);
        proof {
            assert(w@ =~= self.doc()->Object_0);
        }
        w.finish()
    }

    proof fn law_reads_back(&self) {
        ErrorDetail::lemma_names();
        self.code.law_reads_back();
        self.message.law_reads_back();
        record::lemma_record_reads_back(
            "ErrorDetail"@,
            ErrorDetail::fields(),
            self.doc()->Object_0,
        );
    }

    proof fn law_only_null_is_null(d: Doc) {
    }
}

} // verus!
