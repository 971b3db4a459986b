//! Plugins: catalog, installation and inspection.

use vstd::prelude::*;

use crate::json::Doc;
use crate::json::Json;
use crate::record;
use crate::record::Field;
use crate::record::Scan;
use crate::record::Writer;
use crate::wire::DecodeError;
use crate::wire::Fault;
use crate::wire::Wire;

verus! {

/// One row of the plugin catalog.
#[derive(Debug)]
pub struct PluginView {
    pub name: String,
    /// `auth`, `hooks` or `store`; written as `type`.
    pub plugin_type: String,
    /// `compiled-in`, or `plugin` for a dynamic library.
    pub loader: String,
    pub active: Option<bool>,
    pub file: Option<String>,
    pub version: Option<String>,
    pub publisher: Option<String>,
    /// `trusted`, `unverified` or `rejected`, for a dynamic library.
    pub trust: Option<String>,
    pub valid: Option<bool>,
    pub error: Option<String>,
    pub has_schema: bool,
}

impl PluginView {
    /// The fields, in the order in which they are written.
    pub open spec fn fields() -> Seq<Field> {
        seq![
            record::required::<String>("name"@),
            record::required::<String>("type"@),
            record::required::<String>("loader"@),
            record::defaulted::<Option<bool>>("active"@),
            record::defaulted::<Option<String>>("file"@),
            record::defaulted::<Option<String>>("version"@),
            record::defaulted::<Option<String>>("publisher"@),
            record::defaulted::<Option<String>>("trust"@),
            record::defaulted::<Option<bool>>("valid"@),
            record::defaulted::<Option<String>>("error"@),
            record::defaulted::<bool>("has_schema"@),
        ]
    }

    /// No two fields share a name.
    pub proof fn lemma_names()
        ensures
            record::distinct_names(PluginView::fields()),
    {
        reveal_strlit("name");
        reveal_strlit("type");
        reveal_strlit("loader");
        reveal_strlit("active");
        reveal_strlit("file");
        reveal_strlit("version");
        reveal_strlit("publisher");
        reveal_strlit("trust");
        reveal_strlit("valid");
        reveal_strlit("error");
        reveal_strlit("has_schema");
        assert("name"@.len() == 4);
        assert("type"@.len() == 4);
        assert("loader"@.len() == 6);
        assert("active"@.len() == 6);
        assert("file"@.len() == 4);
        assert("version"@.len() == 7);
        assert("publisher"@.len() == 9);
        assert("trust"@.len() == 5);
        assert("valid"@.len() == 5);
        assert("error"@.len() == 5);
        assert("has_schema"@.len() == 10);
        assert("name"@[0] != "type"@[0]);
        assert("name"@[0] != "file"@[0]);
        assert("type"@[0] != "file"@[0]);
        assert("trust"@[0] != "valid"@[0]);
        assert("trust"@[0] != "error"@[0]);
        assert("valid"@[0] != "error"@[0]);
        assert("loader"@[0] != "active"@[0]);
    }
}

impl Wire for PluginView {
    open spec fn canon(d: Doc) -> Result<Doc, Fault> {
        record::record("PluginView"@, PluginView::fields(), d)
    }

    open spec fn doc(&self) -> Doc {
        Doc::Object(
            seq![
                ("name"@, self.name.doc()),
                ("type"@, self.plugin_type.doc()),
                ("loader"@, self.loader.doc()),
                ("active"@, self.active.doc()),
                ("file"@, self.file.doc()),
                ("version"@, self.version.doc()),
                ("publisher"@, self.publisher.doc()),
                ("trust"@, self.trust.doc()),
                ("valid"@, self.valid.doc()),
                ("error"@, self.error.doc()),
                ("has_schema"@, self.has_schema.doc()),
            ],
        )
    }

    open spec fn well_formed(&self) -> bool {
        true
    }

    fn from_json(json: &Json) -> (value: Result<Self, DecodeError>) {
        let ghost f = PluginView::fields();
        let mut scan: Scan = Scan::new(json, "PluginView", 11, Ghost(f))?;
        let name: Option<String> = scan.required(0, "name", Ghost(f));
        let plugin_type: Option<String> = scan.required(1, "type", Ghost(f));
        let loader: Option<String> = scan.required(2, "loader", Ghost(f));
        let active: Option<Option<bool>> = scan.defaulted(3, "active", Ghost(f));
        let file: Option<Option<String>> = scan.defaulted(4, "file", Ghost(f));
        let version: Option<Option<String>> = scan.defaulted(5, "version", Ghost(f));
        let publisher: Option<Option<String>> = scan.defaulted(6, "publisher", Ghost(f));
        let trust: Option<Option<String>> = scan.defaulted(7, "trust", Ghost(f));
        let valid: Option<Option<bool>> = scan.defaulted(8, "valid", Ghost(f));
        let error: Option<Option<String>> = scan.defaulted(9, "error", Ghost(f));
        let has_schema: Option<bool> = scan.defaulted(10, "has_schema", Ghost(f));
        scan.finish(Ghost(f))?;
        proof {
            record::lemma_no_fault("PluginView"@, f, json@, f.len() as int);
        }
        let value = PluginView {
            name: name.unwrap(),
            plugin_type: plugin_type.unwrap(),
            loader: loader.unwrap(),
            active: active.unwrap(),
            file: file.unwrap(),
            version: version.unwrap(),
            publisher: publisher.unwrap(),
            trust: trust.unwrap(),
            valid: valid.unwrap(),
            error: error.unwrap(),
            has_schema: has_schema.unwrap(),
        };
        proof {
            record::lemma_record_read("PluginView"@, f, json@, value.doc()->Object_0);
        }
        Ok(value)
    }

    fn to_json(&self) -> (json: Json) {
        let mut w: Writer = Writer::new();
        w.put("name", &self.name);
        w.put("type", &self.plugin_type);
        w.put("loader", &self.loader);
        w.put("active", &self.active);
        w.put("file", &self.file);
        w.put("version", &self.version);
        w.put("publisher", &self.publisher);
        w.put("trust", &self.trust);
        w.put("valid", &self.valid);
        w.put("error", &self.error);
        w.put("has_schema", &self.has_schema);
        proof {
            assert(w@ =~= self.doc()->Object_0);
        }
        w.finish()
    }

    proof fn law_reads_back(&self) {
        PluginView::lemma_names();
        self.name.law_reads_back();
        self.plugin_type.law_reads_back();
        self.loader.law_reads_back();
        self.active.law_reads_back();
        self.file.law_reads_back();
        self.version.law_reads_back();
        self.publisher.law_reads_back();
        self.trust.law_reads_back();
        self.valid.law_reads_back();
        self.error.law_reads_back();
        self.has_schema.law_reads_back();
        record::lemma_record_reads_back("PluginView"@, PluginView::fields(), self.doc()->Object_0);
    }

    proof fn law_only_null_is_null(d: Doc) {
    }
}

/// `GET /plugins`: one page of the plugin catalog.
#[derive(Debug)]
pub struct PluginPage {
    pub items: Vec<PluginView>,
    /// Where the next page starts, if there is one.
    pub next_cursor: Option<String>,
}

impl PluginPage {
    /// The fields, in the order in which they are written.
    pub open spec fn fields() -> Seq<Field> {
        seq![
            record::defaulted::<Vec<PluginView>>("items"@),
            record::defaulted::<Option<String>>("next_cursor"@),
        ]
    }

    /// No two fields share a name.
    pub proof fn lemma_names()
        ensures
            record::distinct_names(PluginPage::fields()),
    {
        reveal_strlit("items");
        reveal_strlit("next_cursor");
        assert("items"@.len() == 5);
        assert("next_cursor"@.len() == 11);
    }
}

impl Wire for PluginPage {
    open spec fn canon(d: Doc) -> Result<Doc, Fault> {
        record::record("PluginPage"@, PluginPage::fields(), d)
    }

    open spec fn doc(&self) -> Doc {
        Doc::Object(
            seq![
                ("items"@, self.items.doc()),
                ("next_cursor"@, self.next_cursor.doc()),
            ],
        )
    }

    open spec fn well_formed(&self) -> bool {
        true
    }

    fn from_json(json: &Json) -> (value: Result<Self, DecodeError>) {
        let ghost f = PluginPage::fields();
        let mut scan: Scan = Scan::new(json, "PluginPage", 2, Ghost(f))?;
        let items: Option<Vec<PluginView>> = scan.defaulted(0, "items", Ghost(f));
        let next_cursor: Option<Option<String>> = scan.defaulted(1, "next_cursor", Ghost(f));
        scan.finish(Ghost(f))?;
        proof {
            record::lemma_no_fault("PluginPage"@, f, json@, f.len() as int);
        }
        let value = PluginPage {
            items: items.unwrap(),
            next_cursor: next_cursor.unwrap(),
        };
        proof {
            record::lemma_record_read("PluginPage"@, f, json@, value.doc()->Object_0);
        }
        Ok(value)
    }

    fn to_json(&self) -> (json: Json) {
        let mut w: Writer = Writer::new();
        w.put("items", &self.items);
        w.put("next_cursor", &self.next_cursor);
        proof {
            assert(w@ =~= self.doc()->Object_0);
        }
        w.finish()
    }

    proof fn law_reads_back(&self) {
        PluginPage::lemma_names();
        self.items.law_reads_back();
        self.next_cursor.law_reads_back();
        record::lemma_record_reads_back("PluginPage"@, PluginPage::fields(), self.doc()->Object_0);
    }

    proof fn law_only_null_is_null(d: Doc) {
    }
}

/// `POST /plugins`: the plugin that was installed.
#[derive(Debug)]
pub struct PluginInstallView {
    pub file: String,
    pub name: String,
    pub version: Option<String>,
    pub publisher: Option<String>,
    pub trust: String,
    pub note: String,
}

impl PluginInstallView {
    /// The fields, in the order in which they are written.
    pub open spec fn fields() -> Seq<Field> {
        seq![
            record::required::<String>("file"@),
            record::required::<String>("name"@),
            record::defaulted::<Option<String>>("version"@),
            record::defaulted::<Option<String>>("publisher"@),
            record::defaulted::<String>("trust"@),
            record::defaulted::<String>("note"@),
        ]
    }

    /// No two fields share a name.
    pub proof fn lemma_names()
        ensures
            record::distinct_names(PluginInstallView::fields()),
    {
        reveal_strlit("file");
        reveal_strlit("name");
        reveal_strlit("version");
        reveal_strlit("publisher");
        reveal_strlit("trust");
        reveal_strlit("note");
        assert("file"@.len() == 4);
        assert("name"@.len() == 4);
        assert("version"@.len() == 7);
        assert("publisher"@.len() == 9);
        assert("trust"@.len() == 5);
        assert("note"@.len() == 4);
        assert("file"@[0] != "name"@[0]);
        assert("file"@[0] != "note"@[0]);
        assert("name"@[1] != "note"@[1]);
    }
}

impl Wire for PluginInstallView {
    open spec fn canon(d: Doc) -> Result<Doc, Fault> {
        record::record("PluginInstallView"@, PluginInstallView::fields(), d)
    }

    open spec fn doc(&self) -> Doc {
        Doc::Object(
            seq![
                ("file"@, self.file.doc()),
                ("name"@, self.name.doc()),
                ("version"@, self.version.doc()),
                ("publisher"@, self.publisher.doc()),
                ("trust"@, self.trust.doc()),
                ("note"@, self.note.doc()),
            ],
        )
    }

    open spec fn well_formed(&self) -> bool {
        true
    }

    fn from_json(json: &Json) -> (value: Result<Self, DecodeError>) {
        let ghost f = PluginInstallView::fields();
        let mut scan: Scan = Scan::new(json, "PluginInstallView", 6, Ghost(f))?;
        let file: Option<String> = scan.required(0, "file", Ghost(f));
        let name: Option<String> = scan.required(1, "name", Ghost(f));
        let version: Option<Option<String>> = scan.defaulted(2, "version", Ghost(f));
        let publisher: Option<Option<String>> = scan.defaulted(3, "publisher", Ghost(f));
        let trust: Option<String> = scan.defaulted(4, "trust", Ghost(f));
        let note: Option<String> = scan.defaulted(5, "note", Ghost(f));
        scan.finish(Ghost(f))?;
        proof {
            record::lemma_no_fault("PluginInstallView"@, f, json@, f.len() as int);
        }
        let value = PluginInstallView {
            file: file.unwrap(),
            name: name.unwrap(),
            version: version.unwrap(),
            publisher: publisher.unwrap(),
            trust: trust.unwrap(),
            note: note.unwrap(),
        };
        proof {
            record::lemma_record_read("PluginInstallView"@, f, json@, value.doc()->Object_0);
        }
        Ok(value)
    }

    fn to_json(&self) -> (json: Json) {
        let mut w: Writer = Writer::new();
        w.put("file", &self.file);
        w.put("name", &self.name);
        w.put("version", &self.version);
        w.put("publisher", &self.publisher);
        w.put("trust", &self.trust);
        w.put("note", &self.note);
        proof {
            assert(w@ =~= self.doc()->Object_0);
        }
        w.finish()
    }

    proof fn law_reads_back(&self) {
        PluginInstallView::lemma_names();
        self.file.law_reads_back();
        self.name.law_reads_back();
        self.version.law_reads_back();
        self.publisher.law_reads_back();
        self.trust.law_reads_back();
        self.note.law_reads_back();
        record::lemma_record_reads_back(
            "PluginInstallView"@,
            PluginInstallView::fields(),
            self.doc()->Object_0,
        );
    }

    proof fn law_only_null_is_null(d: Doc) {
    }
}

/// `POST /plugins/reload`: the dynamic libraries found in the plugins directory.
#[derive(Debug)]
pub struct PluginReloadView {
    pub plugins: Vec<PluginView>,
    pub note: String,
}

impl PluginReloadView {
    /// The fields, in the order in which they are written.
    pub open spec fn fields() -> Seq<Field> {
        seq![
            record::defaulted::<Vec<PluginView>>("plugins"@),
            record::defaulted::<String>("note"@),
        ]
    }

    /// No two fields share a name.
    pub proof fn lemma_names()
        ensures
            record::distinct_names(PluginReloadView::fields()),
    {
        reveal_strlit("plugins");
        reveal_strlit("note");
        assert("plugins"@.len() == 7);
        assert("note"@.len() == 4);
    }
}

impl Wire for PluginReloadView {
    open spec fn canon(d: Doc) -> Result<Doc, Fault> {
        record::record("PluginReloadView"@, PluginReloadView::fields(), d)
    }

    open spec fn doc(&self) -> Doc {
        Doc::Object(
            seq![
                ("plugins"@, self.plugins.doc()),
                ("note"@, self.note.doc()),
            ],
        )
    }

    open spec fn well_formed(&self) -> bool {
        true
    }

    fn from_json(json: &Json) -> (value: Result<Self, DecodeError>) {
        let ghost f = PluginReloadView::fields();
        let mut scan: Scan = Scan::new(json, "PluginReloadView", 2, Ghost(f))?;
        let plugins: Option<Vec<PluginView>> = scan.defaulted(0, "plugins", Ghost(f));
        let note: Option<String> = scan.defaulted(1, "note", Ghost(f));
        scan.finish(Ghost(f))?;
        proof {
            record::lemma_no_fault("PluginReloadView"@, f, json@, f.len() as int);
        }
        let value = PluginReloadView {
            plugins: plugins.unwrap(),
            note: note.unwrap(),
        };
        proof {
            record::lemma_record_read("PluginReloadView"@, f, json@, value.doc()->Object_0);
        }
        Ok(value)
    }

    fn to_json(&self) -> (json: Json) {
        let mut w: Writer = Writer::new();
        w.put("plugins", &self.plugins);
        w.put("note", &self.note);
        proof {
            assert(w@ =~= self.doc()->Object_0);
        }
        w.finish()
    }

    proof fn law_reads_back(&self) {
        PluginReloadView::lemma_names();
        self.plugins.law_reads_back();
        self.note.law_reads_back();
        record::lemma_record_reads_back(
            "PluginReloadView"@,
            PluginReloadView::fields(),
            self.doc()->Object_0,
        );
    }

    proof fn law_only_null_is_null(d: Doc) {
    }
}

/// `POST /plugins/inspect`: what the manifest of a candidate plugin says.
#[derive(Debug)]
pub struct InspectView {
    pub name: String,
    pub version: Option<String>,
    pub kind: Option<String>,
    pub trust: String,
    pub source: String,
    pub restart_required_default: Option<bool>,
    /// The schema of its settings.
    pub schema: Option<Json>,
    /// Why the schema cannot be used.
    pub schema_error: Option<String>,
}

impl InspectView {
    /// The fields, in the order in which they are written.
    pub open spec fn fields() -> Seq<Field> {
        seq![
            record::required::<String>("name"@),
            record::defaulted::<Option<String>>("version"@),
            record::defaulted::<Option<String>>("kind"@),
            record::defaulted::<String>("trust"@),
            record::defaulted::<String>("source"@),
            record::defaulted::<Option<bool>>("restart_required_default"@),
            record::defaulted::<Option<Json>>("schema"@),
            record::defaulted::<Option<String>>("schema_error"@),
        ]
    }

    /// No two fields share a name.
    pub proof fn lemma_names()
        ensures
            record::distinct_names(InspectView::fields()),
    {
        reveal_strlit("name");
        reveal_strlit("version");
        reveal_strlit("kind");
        reveal_strlit("trust");
        reveal_strlit("source");
        reveal_strlit("restart_required_default");
        reveal_strlit("schema");
        reveal_strlit("schema_error");
        assert("name"@.len() == 4);
        assert("version"@.len() == 7);
        assert("kind"@.len() == 4);
        assert("trust"@.len() == 5);
        assert("source"@.len() == 6);
        assert("restart_required_default"@.len() == 24);
        assert("schema"@.len() == 6);
        assert("schema_error"@.len() == 12);
        assert("name"@[0] != "kind"@[0]);
        assert("source"@[1] != "schema"@[1]);
    }
}

impl Wire for InspectView {
    open spec fn canon(d: Doc) -> Result<Doc, Fault> {
        record::record("InspectView"@, InspectView::fields(), d)
    }

    open spec fn doc(&self) -> Doc {
        Doc::Object(
            seq![
                ("name"@, self.name.doc()),
                ("version"@, self.version.doc()),
                ("kind"@, self.kind.doc()),
                ("trust"@, self.trust.doc()),
                ("source"@, self.source.doc()),
                ("restart_required_default"@, self.restart_required_default.doc()),
                ("schema"@, self.schema.doc()),
                ("schema_error"@, self.schema_error.doc()),
            ],
        )
    }

    open spec fn well_formed(&self) -> bool {
        self.schema.well_formed()
    }

    fn from_json(json: &Json) -> (value: Result<Self, DecodeError>) {
        let ghost f = InspectView::fields();
        let mut scan: Scan = Scan::new(json, "InspectView", 8, Ghost(f))?;
        let name: Option<String> = scan.required(0, "name", Ghost(f));
        let version: Option<Option<String>> = scan.defaulted(1, "version", Ghost(f));
        let kind: Option<Option<String>> = scan.defaulted(2, "kind", Ghost(f));
        let trust: Option<String> = scan.defaulted(3, "trust", Ghost(f));
        let source: Option<String> = scan.defaulted(4, "source", Ghost(f));
        let restart_required_default: Option<Option<bool>> = scan.defaulted(
            5,
            "restart_required_default",
            Ghost(f),
        );
        let schema: Option<Option<Json>> = scan.defaulted(6, "schema", Ghost(f));
        let schema_error: Option<Option<String>> = scan.defaulted(7, "schema_error", Ghost(f));
        scan.finish(Ghost(f))?;
        proof {
            record::lemma_no_fault("InspectView"@, f, json@, f.len() as int);
        }
        let value = InspectView {
            name: name.unwrap(),
            version: version.unwrap(),
            kind: kind.unwrap(),
            trust: trust.unwrap(),
            source: source.unwrap(),
            restart_required_default: restart_required_default.unwrap(),
            schema: schema.unwrap(),
            schema_error: schema_error.unwrap(),
        };
        proof {
            record::lemma_record_read("InspectView"@, f, json@, value.doc()->Object_0);
        }
        Ok(value)
    }

    fn to_json(&self) -> (json: Json) {
        let mut w: Writer = Writer::new();
        w.put("name", &self.name);
        w.put("version", &self.version);
        w.put("kind", &self.kind);
        w.put("trust", &self.trust);
        w.put("source", &self.source);
        w.put("restart_required_default", &self.restart_required_default);
        w.put("schema", &self.schema);
        w.put("schema_error", &self.schema_error);
        proof {
            assert(w@ =~= self.doc()->Object_0);
        }
        w.finish()
    }

    proof fn law_reads_back(&self) {
        InspectView::lemma_names();
        self.name.law_reads_back();
        self.version.law_reads_back();
        self.kind.law_reads_back();
        self.trust.law_reads_back();
        self.source.law_reads_back();
        self.restart_required_default.law_reads_back();
        self.schema.law_reads_back();
        self.schema_error.law_reads_back();
        record::lemma_record_reads_back(
            "InspectView"@,
            InspectView::fields(),
            self.doc()->Object_0,
        );
    }

    proof fn law_only_null_is_null(d: Doc) {
    }
}

} // verus!
