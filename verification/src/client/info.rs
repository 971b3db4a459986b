//! What a gateway tells of itself.

use vstd::prelude::*;

use crate::json::Doc;
use crate::json::Json;
use crate::record;
use crate::record::Field;
use crate::record::Scan;
use crate::record::Writer;
use crate::wire::DecodeError;
use crate::wire::Fault;
use crate::wire::Wire;

verus! {

/// `GET /info`: version, uptime, build and topology of the gateway.
#[derive(Debug)]
pub struct InfoView {
    pub version: String,
    pub build: BuildInfo,
    pub uptime_seconds: Option<u64>,
    pub started_at: Option<u64>,
    pub topology: TopologyInfo,
    /// Whether an applied config survives a restart.
    pub config_persistence: bool,
    pub config_version: u64,
}

impl InfoView {
    /// The fields, in the order in which they are written.
    pub open spec fn fields() -> Seq<Field> {
        seq![
            record::required::<String>("version"@),
            record::required::<BuildInfo>("build"@),
            record::defaulted::<Option<u64>>("uptime_seconds"@),
            record::defaulted::<Option<u64>>("started_at"@),
            record::required::<TopologyInfo>("topology"@),
            record::defaulted::<bool>("config_persistence"@),
            record::defaulted::<u64>("config_version"@),
        ]
    }

    /// No two fields share a name.
    pub proof fn lemma_names()
        ensures
            record::distinct_names(InfoView::fields()),
    {
        reveal_strlit("version");
        reveal_strlit("build");
        reveal_strlit("uptime_seconds");
        reveal_strlit("started_at");
        reveal_strlit("topology");
        reveal_strlit("config_persistence");
        reveal_strlit("config_version");
        assert("version"@.len() == 7);
        assert("build"@.len() == 5);
        assert("uptime_seconds"@.len() == 14);
        assert("started_at"@.len() == 10);
        assert("topology"@.len() == 8);
        assert("config_persistence"@.len() == 18);
        assert("config_version"@.len() == 14);
        assert("uptime_seconds"@[0] != "config_version"@[0]);
    }
}

impl Wire for InfoView {
    open spec fn canon(d: Doc) -> Result<Doc, Fault> {
        record::record("InfoView"@, InfoView::fields(), d)
    }

    open spec fn doc(&self) -> Doc {
        Doc::Object(
            seq![
                ("version"@, self.version.doc()),
                ("build"@, self.build.doc()),
                ("uptime_seconds"@, self.uptime_seconds.doc()),
                ("started_at"@, self.started_at.doc()),
                ("topology"@, self.topology.doc()),
                ("config_persistence"@, self.config_persistence.doc()),
                ("config_version"@, self.config_version.doc()),
            ],
        )
    }

    open spec fn well_formed(&self) -> bool {
        true
    }

    fn from_json(json: &Json) -> (value: Result<Self, DecodeError>) {
        let ghost f = InfoView::fields();
        let mut scan: Scan = Scan::new(json, "InfoView", 7, Ghost(f))?;
        let version: Option<String> = scan.required(0, "version", Ghost(f));
        let build: Option<BuildInfo> = scan.required(1, "build", Ghost(f));
        let uptime_seconds: Option<Option<u64>> = scan.defaulted(2, "uptime_seconds", Ghost(f));
        let started_at: Option<Option<u64>> = scan.defaulted(3, "started_at", Ghost(f));
        let topology: Option<TopologyInfo> = scan.required(4, "topology", Ghost(f));
        let config_persistence: Option<bool> = scan.defaulted(5, "config_persistence", Ghost(f));
        let config_version: Option<u64> = scan.defaulted(6, "config_version", Ghost(f));
        scan.finish(Ghost(f))?;
        proof {
            record::lemma_no_fault("InfoView"@, f, json@, f.len() as int);
        }
        let value = InfoView {
            version: version.unwrap(),
            build: build.unwrap(),
            uptime_seconds: uptime_seconds.unwrap(),
            started_at: started_at.unwrap(),
            topology: topology.unwrap(),
            config_persistence: config_persistence.unwrap(),
            config_version: config_version.unwrap(),
        };
        proof {
            record::lemma_record_read("InfoView"@, f, json@, value.doc()->Object_0);
        }
        Ok(value)
    }

    fn to_json(&self) -> (json: Json) {
        let mut w: Writer = Writer::new();
        w.put("version", &self.version);
        w.put("build", &self.build);
        w.put("uptime_seconds", &self.uptime_seconds);
        w.put("started_at", &self.started_at);
        w.put("topology", &self.topology);
        w.put("config_persistence", &self.config_persistence);
        w.put("config_version", &self.config_version);
        proof {
            assert(w@ =~= self.doc()->Object_0);
        }
        w.finish()
    }

    proof fn law_reads_back(&self) {
        InfoView::lemma_names();
        self.version.law_reads_back();
        self.build.law_reads_back();
        self.uptime_seconds.law_reads_back();
        self.started_at.law_reads_back();
        self.topology.law_reads_back();
        self.config_persistence.law_reads_back();
        self.config_version.law_reads_back();
        record::lemma_record_reads_back("InfoView"@, InfoView::fields(), self.doc()->Object_0);
    }

    proof fn law_only_null_is_null(d: Doc) {
    }
}

/// What is compiled into the gateway.
#[derive(Debug)]
pub struct BuildInfo {
    pub auth_modules: Vec<String>,
    pub hook_plugins: Vec<String>,
    pub weighted_floor: bool,
}

impl BuildInfo {
    /// The fields, in the order in which they are written.
    pub open spec fn fields() -> Seq<Field> {
        seq![
            record::defaulted::<Vec<String>>("auth_modules"@),
            record::defaulted::<Vec<String>>("hook_plugins"@),
            record::defaulted::<bool>("weighted_floor"@),
        ]
    }

    /// No two fields share a name.
    pub proof fn lemma_names()
        ensures
            record::distinct_names(BuildInfo::fields()),
    {
        reveal_strlit("auth_modules");
        reveal_strlit("hook_plugins");
        reveal_strlit("weighted_floor");
        assert("auth_modules"@.len() == 12);
        assert("hook_plugins"@.len() == 12);
        assert("weighted_floor"@.len() == 14);
        assert("auth_modules"@[0] != "hook_plugins"@[0]);
    }
}

impl Wire for BuildInfo {
    open spec fn canon(d: Doc) -> Result<Doc, Fault> {
        record::record("BuildInfo"@, BuildInfo::fields(), d)
    }

    open spec fn doc(&self) -> Doc {
        Doc::Object(
            seq![
                ("auth_modules"@, self.auth_modules.doc()),
                ("hook_plugins"@, self.hook_plugins.doc()),
                ("weighted_floor"@, self.weighted_floor.doc()),
            ],
        )
    }

    open spec fn well_formed(&self) -> bool {
        true
    }

    fn from_json(json: &Json) -> (value: Result<Self, DecodeError>) {
        let ghost f = BuildInfo::fields();
        let mut scan: Scan = Scan::new(json, "BuildInfo", 3, Ghost(f))?;
        let auth_modules: Option<Vec<String>> = scan.defaulted(0, "auth_modules", Ghost(f));
        let hook_plugins: Option<Vec<String>> = scan.defaulted(1, "hook_plugins", Ghost(f));
        let weighted_floor: Option<bool> = scan.defaulted(2, "weighted_floor", Ghost(f));
        scan.finish(Ghost(f))?;
        proof {
            record::lemma_no_fault("BuildInfo"@, f, json@, f.len() as int);
        }
        let value = BuildInfo {
            auth_modules: auth_modules.unwrap(),
            hook_plugins: hook_plugins.unwrap(),
            weighted_floor: weighted_floor.unwrap(),
        };
        proof {
            record::lemma_record_read("BuildInfo"@, f, json@, value.doc()->Object_0);
        }
        Ok(value)
    }

    fn to_json(&self) -> (json: Json) {
        let mut w: Writer = Writer::new();
        w.put("auth_modules", &self.auth_modules);
        w.put("hook_plugins", &self.hook_plugins);
        w.put("weighted_floor", &self.weighted_floor);
        proof {
            assert(w@ =~= self.doc()->Object_0);
        }
        w.finish()
    }

    proof fn law_reads_back(&self) {
        BuildInfo::lemma_names();
        self.auth_modules.law_reads_back();
        self.hook_plugins.law_reads_back();
        self.weighted_floor.law_reads_back();
        record::lemma_record_reads_back("BuildInfo"@, BuildInfo::fields(), self.doc()->Object_0);
    }

    proof fn law_only_null_is_null(d: Doc) {
    }
}

/// How many pools, models and providers are configured.
#[derive(Debug)]
pub struct TopologyInfo {
    pub pools: usize,
    pub models: usize,
    pub providers: usize,
}

impl TopologyInfo {
    /// The fields, in the order in which they are written.
    pub open spec fn fields() -> Seq<Field> {
        seq![
            record::required::<usize>("pools"@),
            record::required::<usize>("models"@),
            record::required::<usize>("providers"@),
        ]
    }

    /// No two fields share a name.
    pub proof fn lemma_names()
        ensures
            record::distinct_names(TopologyInfo::fields()),
    {
        reveal_strlit("pools");
        reveal_strlit("models");
        reveal_strlit("providers");
        assert("pools"@.len() == 5);
        assert("models"@.len() == 6);
        assert("providers"@.len() == 9);
    }
}

impl Wire for TopologyInfo {
    open spec fn canon(d: Doc) -> Result<Doc, Fault> {
        record::record("TopologyInfo"@, TopologyInfo::fields(), d)
    }

    open spec fn doc(&self) -> Doc {
        Doc::Object(
            seq![
                ("pools"@, self.pools.doc()),
                ("models"@, self.models.doc()),
                ("providers"@, self.providers.doc()),
            ],
        )
    }

    open spec fn well_formed(&self) -> bool {
        true
    }

    fn from_json(json: &Json) -> (value: Result<Self, DecodeError>) {
        let ghost f = TopologyInfo::fields();
        let mut scan: Scan = Scan::new(json, "TopologyInfo", 3, Ghost(f))?;
        let pools: Option<usize> = scan.required(0, "pools", Ghost(f));
        let models: Option<usize> = scan.required(1, "models", Ghost(f));
        let providers: Option<usize> = scan.required(2, "providers", Ghost(f));
        scan.finish(Ghost(f))?;
        proof {
            record::lemma_no_fault("TopologyInfo"@, f, json@, f.len() as int);
        }
        let value = TopologyInfo {
            pools: pools.unwrap(),
            models: models.unwrap(),
            providers: providers.unwrap(),
        };
        proof {
            record::lemma_record_read("TopologyInfo"@, f, json@, value.doc()->Object_0);
        }
        Ok(value)
    }

    fn to_json(&self) -> (json: Json) {
        let mut w: Writer = Writer::new();
        w.put("pools", &self.pools);
        w.put("models", &self.models);
        w.put("providers", &self.providers);
        proof {
            assert(w@ =~= self.doc()->Object_0);
        }
        w.finish()
    }

    proof fn law_reads_back(&self) {
        TopologyInfo::lemma_names();
        self.pools.law_reads_back();
        self.models.law_reads_back();
        self.providers.law_reads_back();
        record::lemma_record_reads_back(
            "TopologyInfo"@,
            TopologyInfo::fields(),
            self.doc()->Object_0,
        );
    }

    proof fn law_only_null_is_null(d: Doc) {
    }
}

} // verus!
