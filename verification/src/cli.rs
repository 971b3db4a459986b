//! The commands: which request each one makes, and what it makes of the answer.

use vstd::prelude::*;
use vstd::utf8::*;

use crate::argmap;
use crate::argmap::LabelError;
use crate::client::config::ConfigApplyView;
use crate::client::gateway;
use crate::client::gateway::Call;
use crate::client::gateway::Client;
use crate::client::gateway::Line;
use crate::client::gateway::Method;
use crate::client::gateway::Reply;
use crate::client::gateway::Request;
use crate::client::gateway::Target;
use crate::client::hooks::HookPage;
use crate::client::info::InfoView;
use crate::client::keys::CreatedKeyView;
use crate::client::keys::KeyPage;
use crate::client::keys::KeyView;
use crate::client::keys::RevokeView;
use crate::client::keys::RotatedKeyView;
use crate::client::mint;
use crate::client::mint::CreateKeyReq;
use crate::client::mint::Mint;
use crate::client::plugins::PluginInstallView;
use crate::client::plugins::PluginPage;
use crate::client::plugins::PluginReloadView;
use crate::client::upload;
use crate::client::upload::InstallPluginReq;
use crate::json;
use crate::json::Doc;
use crate::json::Json;
use crate::labels::Labels;
use crate::place;
use crate::place::Mark;
use crate::place::Place;
use crate::place::Reading;
use crate::record;
use crate::record::Writer;
use crate::render;
use crate::text;
use crate::wire;
use crate::wire::DecodeError;
use crate::wire::Fault;
use crate::wire::Wire;

verus! {

/// Which global setting is missing.
#[derive(Debug, Clone, Copy, PartialEq, Eq, Structural)]
pub enum MissingSetting {
    Endpoint,
    Token,
}

impl MissingSetting {
    /// The message for the user.
    pub open spec fn text(self) -> Seq<char> {
        match self {
            MissingSetting::Endpoint =>
                "no endpoint: pass --endpoint or set BUSBAR_ENDPOINT (e.g. http://localhost:8081)"@,
            MissingSetting::Token =>
                "no admin token: pass --token or set BUSBAR_ADMIN_TOKEN"@,
        }
    }

    /// The message for the user.
    pub fn message(self) -> (text: &'static str)
        ensures
            text@ == self.text(),
    {
        match self {
            MissingSetting::Endpoint =>
                "no endpoint: pass --endpoint or set BUSBAR_ENDPOINT (e.g. http://localhost:8081)",
            MissingSetting::Token => "no admin token: pass --token or set BUSBAR_ADMIN_TOKEN",
        }
    }
}

/// A setting that is given by a flag or by an environment variable.
pub struct Setting {
    pub flag: Option<String>,
    pub variable: Option<String>,
}

impl Setting {
    /// The value that counts: that of the flag where it is given, else that of the variable.
    pub open spec fn value(&self) -> Option<String> {
        match self.flag {
            Some(value) => Some(value),
            None => self.variable,
        }
    }

    /// The value that counts.
    pub fn choose_value(self) -> (value: Option<String>)
        ensures
            value == self.value(),
    {
        match self.flag {
            Some(value) => Some(value),
            None => self.variable,
        }
    }
}

/// The endpoint and the token, both of which every command needs. A missing endpoint is told
/// first.
pub fn require_settings(endpoint: Setting, token: Setting) -> (settings: Result<
    (String, String),
    MissingSetting,
>)
    ensures
        match settings {
            Ok((e, t)) => endpoint.value() == Some(e) && token.value() == Some(t),
            Err(MissingSetting::Endpoint) => endpoint.value() is None,
            Err(MissingSetting::Token) => endpoint.value() is Some && token.value() is None,
        },
{
    match (endpoint.choose_value(), token.choose_value()) {
        (Some(e), Some(t)) => Ok((e, t)),
        (None, _) => Err(MissingSetting::Endpoint),
        (Some(_), None) => Err(MissingSetting::Token),
    }
}

/// The arguments of `keys create`.
#[derive(Debug)]
pub struct KeyCreateArgs {
    pub name: String,
    pub group: Option<String>,
    pub parent: Option<String>,
    pub expires_in: Option<String>,
    pub expires_at: Option<u64>,
    /// `KEY=VALUE` each.
    pub labels: Vec<String>,
    pub allowed_pools: Vec<String>,
    pub no_pools: bool,
    pub issue_aws_credential: bool,
}

impl KeyCreateArgs {
    /// What the arguments ask for, with the labels that they spell out.
    pub open spec fn asks(&self, labels: Seq<(Seq<char>, Seq<char>)>) -> Mint {
        Mint {
            name: self.name@,
            allowed_pools: argmap::pools_asked(self.no_pools, text::texts(self.allowed_pools@)),
            group: text::opt_text(self.group),
            parent: text::opt_text(self.parent),
            expires_in: text::opt_text(self.expires_in),
            expires_at: match self.expires_at {
                Some(n) => Some(n as nat),
                None => None,
            },
            labels,
            issue_aws_credential: self.issue_aws_credential,
        }
    }

    /// The request that the arguments ask for.
    pub fn request(&self) -> (req: Result<CreateKeyReq, LabelError>)
        ensures
            match req {
                Ok(r) => argmap::labels_of(text::texts(self.labels@)) is Ok && r@ == self.asks(
                    argmap::labels_of(text::texts(self.labels@))->Ok_0,
                ),
                Err(e) => argmap::labels_of(text::texts(self.labels@)) == Err::<
                    Seq<(Seq<char>, Seq<char>)>,
                    _,
                >(e.pair@),
            },
    {
        let allowed_pools: Option<Vec<String>> = argmap::resolve_allowed_pools(
            self.no_pools,
            self.allowed_pools.as_slice(),
        );
        let labels: Labels = argmap::parse_labels(self.labels.as_slice())?;
        Ok(
            CreateKeyReq {
                name: self.name.clone(),
                allowed_pools,
                group: self.group.clone(),
                parent: self.parent.clone(),
                expires_in: self.expires_in.clone(),
                expires_at: self.expires_at,
                labels,
                issue_aws_credential: self.issue_aws_credential,
            },
        )
    }
}

/// A command.
#[derive(Debug)]
pub enum Command {
    Info,
    KeysList,
    KeysCreate(KeyCreateArgs),
    KeysGet { id: String },
    KeysRotate { id: String },
    KeysRevoke { id: String },
    KeysDelete { id: String },
    HooksList,
    ConfigVersion,
    ConfigShow,
    /// `text` is what the file at `path` holds.
    ConfigApply { path: String, text: String },
    PluginsList { plugin_type: String },
    /// `file` is the name asked for, `basename` that of the tarball's path.
    PluginsInstall { file: Option<String>, basename: Option<String>, tarball: Vec<u8> },
    PluginsReload,
}

/// Why a command makes no request.
#[derive(Debug)]
pub enum CommandError {
    /// A label is not `KEY=VALUE`.
    Label(LabelError),
    /// There is no name to store a tarball under.
    NoFilename,
    /// A config file is not JSON.
    Config { path: String, complaint: String },
}

/// Why a command makes no request.
pub enum Hitch {
    Label(Seq<char>),
    NoFilename,
    Config { path: Seq<char>, complaint: Seq<char> },
}

impl View for CommandError {
    type V = Hitch;

    open spec fn view(&self) -> Hitch {
        match self {
            CommandError::Label(e) => Hitch::Label(e.pair@),
            CommandError::NoFilename => Hitch::NoFilename,
            CommandError::Config { path, complaint } => Hitch::Config {
                path: path@,
                complaint: complaint@,
            },
        }
    }
}

/// The message of a hitch.
pub open spec fn hitch_text(hitch: Hitch) -> Seq<char> {
    match hitch {
        Hitch::Label(pair) => "--label must be KEY=VALUE, got "@ + text::quoted(pair),
        Hitch::NoFilename => "tarball path has no usable filename; pass --file"@,
        Hitch::Config { path, complaint } => "parsing "@ + path + " as JSON: "@ + complaint,
    }
}

impl CommandError {
    /// The message for the user.
    pub fn message(&self) -> (text: String)
        ensures
            text@ == hitch_text(self@),
    {
        match self {
            CommandError::Label(e) => e.message(),
            CommandError::NoFilename =>
                "tarball path has no usable filename; pass --file".to_owned(),
            CommandError::Config { path, complaint } => {
                let mut text: String = "parsing ".to_owned();
                text.append(path.as_str());
                text.append(" as JSON: ");
                text.append(complaint.as_str());
                text
            },
        }
    }
}

/// The name to store a tarball under: the one asked for, else that of its path.
pub open spec fn stored_name(file: Option<String>, basename: Option<String>) -> Option<Seq<char>> {
    match (file, basename) {
        (Some(f), _) => Some(f@),
        (None, Some(b)) => Some(b@),
        (None, None) => None,
    }
}

/// The call that a command makes to its target, or what hinders it.
pub open spec fn command_call(command: Command, target: Target) -> Result<Call, Hitch> {
    match command {
        Command::Info => Ok(gateway::get_call(target, "/info"@)),
        Command::KeysList => Ok(gateway::get_call(target, "/keys"@)),
        Command::KeysCreate(args) => match argmap::labels_of(text::texts(args.labels@)) {
            Ok(labels) => Ok(
                gateway::post_call(
                    target,
                    "/keys"@,
                    Some(Doc::Object(args.asks(labels).members())),
                ),
            ),
            Err(pair) => Err(Hitch::Label(pair)),
        },
        Command::KeysGet { id } => Ok(gateway::get_call(target, "/keys/"@ + id@)),
        Command::KeysRotate { id } => Ok(
            gateway::post_call(target, "/keys/"@ + id@ + "/rotate"@, None),
        ),
        Command::KeysRevoke { id } => Ok(
            gateway::post_call(target, "/keys/"@ + id@ + "/revoke"@, None),
        ),
        Command::KeysDelete { id } => Ok(
            Call {
                reply: Reply::Nothing,
                ..gateway::call(Method::Delete, target, "/keys/"@ + id@, None)
            },
        ),
        Command::HooksList => Ok(gateway::get_call(target, "/hooks"@)),
        Command::ConfigVersion => Ok(gateway::get_call(target, "/info"@)),
        Command::ConfigShow => Ok(
            Call { reply: Reply::Raw, ..gateway::get_call(target, "/config"@) },
        ),
        Command::ConfigApply { path, text } => match json::json_read(text@) {
            Ok(body) => Ok(gateway::post_call(target, "/config/apply"@, Some(body))),
            Err(complaint) => Err(Hitch::Config { path: path@, complaint }),
        },
        Command::PluginsList { plugin_type } => Ok(
            gateway::get_call(target, "/plugins?type="@ + plugin_type@),
        ),
        Command::PluginsInstall { file, basename, tarball } => match stored_name(file, basename) {
            Some(name) => Ok(
                gateway::post_call(
                    target,
                    "/plugins"@,
                    Some(Doc::Object(upload::upload_members(name, upload::base64_text(tarball@)))),
                ),
            ),
            None => Err(Hitch::NoFilename),
        },
        Command::PluginsReload => Ok(gateway::post_call(target, "/plugins/reload"@, None)),
    }
}

/// What a command has to show: a document, a text, and the complaint that it ends with if it
/// fails.
#[derive(Debug, PartialEq, Eq)]
pub struct Outcome {
    pub document: Option<Json>,
    pub text: String,
    pub failure: Option<String>,
}

/// What an outcome says.
pub struct Report {
    pub document: Option<Doc>,
    pub text: Seq<char>,
    pub failure: Option<Seq<char>>,
}

impl View for Outcome {
    type V = Report;

    open spec fn view(&self) -> Report {
        Report {
            document: match self.document {
                Some(j) => Some(j@),
                None => None,
            },
            text: self.text@,
            failure: text::opt_text(self.failure),
        }
    }
}

/// A document, shown as it is.
pub open spec fn shows_document(document: Doc) -> Report {
    Report { document: Some(document), text: Seq::empty(), failure: None }
}

/// A text.
pub open spec fn shows_text(text: Seq<char>) -> Report {
    Report { document: None, text, failure: None }
}

/// With `--json` the document, otherwise the text.
pub open spec fn shows(json: bool, document: Doc, text: Seq<char>) -> Report {
    if json {
        shows_document(document)
    } else {
        shows_text(text)
    }
}

fn document(json: Json) -> (outcome: Outcome)
    ensures
        outcome@ == shows_document(json@),
{
    Outcome { document: Some(json), text: String::new(), failure: None }
}

fn plain(text: String) -> (outcome: Outcome)
    ensures
        outcome@ == shows_text(text@),
{
    Outcome { document: None, text, failure: None }
}

/// `info`. Here and below, `reply` is the document that the view was read from.
pub fn cmd_info(info: &InfoView, reply: &Json, json: bool) -> (outcome: Outcome)
    ensures
        outcome@ == shows(json, reply@, render::info_text(*info)),
{
    if json {
        document(reply.copy())
    } else {
        plain(render::render_info(info))
    }
}

/// `keys list`.
pub fn cmd_keys_list(page: &KeyPage, reply: &Json, json: bool) -> (outcome: Outcome)
    ensures
        outcome@ == shows(json, reply@, render::key_page_text(*page)),
{
    if json {
        document(reply.copy())
    } else {
        plain(render::render_key_page(page))
    }
}

/// `keys create`.
pub fn cmd_keys_create(created: &CreatedKeyView, reply: &Json, json: bool) -> (outcome: Outcome)
    ensures
        outcome@ == shows(json, reply@, render::created_text(*created)),
{
    if json {
        document(reply.copy())
    } else {
        plain(render::render_created(created))
    }
}

/// `keys get`.
pub fn cmd_keys_get(key: &KeyView, reply: &Json, json: bool) -> (outcome: Outcome)
    ensures
        outcome@ == shows(json, reply@, render::key_text(*key)),
{
    if json {
        document(reply.copy())
    } else {
        plain(render::render_key(key))
    }
}

/// `keys rotate`.
pub fn cmd_keys_rotate(rotated: &RotatedKeyView, reply: &Json, json: bool) -> (outcome: Outcome)
    ensures
        outcome@ == shows(json, reply@, render::rotated_text(*rotated)),
{
    if json {
        document(reply.copy())
    } else {
        plain(render::render_rotated(rotated))
    }
}

/// `keys revoke`.
pub fn cmd_keys_revoke(revoked: &RevokeView, reply: &Json, json: bool) -> (outcome: Outcome)
    ensures
        outcome@ == shows(json, reply@, render::revoked_text(*revoked)),
{
    if json {
        document(reply.copy())
    } else {
        plain(render::render_revoked(revoked))
    }
}

/// The document that tells which key was deleted.
pub open spec fn deleted_doc(id: Seq<char>) -> Doc {
    Doc::Object(seq![("deleted"@, Doc::Text(id))])
}

/// `keys delete`.
pub fn cmd_keys_delete(id: &String, json: bool) -> (outcome: Outcome)
    ensures
        outcome@ == shows(json, deleted_doc(id@), render::deleted_text(id@)),
{
    if json {
        let mut w: Writer = Writer::new();
        w.put("deleted", id);
        proof {
            assert(w@ =~= deleted_doc(id@)->Object_0);
        }
        document(w.finish())
    } else {
        plain(render::render_deleted(id.as_str()))
    }
}

/// `plugins list`.
pub fn cmd_plugins_list(
    page: &PluginPage,
    plugin_type: &str,
    reply: &Json,
    json: bool,
) -> (outcome: Outcome)
    ensures
        outcome@ == shows(json, reply@, render::plugin_page_text(*page, plugin_type@)),
{
    if json {
        document(reply.copy())
    } else {
        plain(render::render_plugin_page(page, plugin_type))
    }
}

/// `plugins install`.
pub fn cmd_plugins_install(installed: &PluginInstallView, reply: &Json, json: bool) -> (outcome: Outcome)
    ensures
        outcome@ == shows(json, reply@, render::installed_text(*installed)),
{
    if json {
        document(reply.copy())
    } else {
        plain(render::render_installed(installed))
    }
}

/// `plugins reload`.
pub fn cmd_plugins_reload(reloaded: &PluginReloadView, reply: &Json, json: bool) -> (outcome: Outcome)
    ensures
        outcome@ == shows(json, reply@, render::reloaded_text(*reloaded)),
{
    if json {
        document(reply.copy())
    } else {
        plain(render::render_reloaded(reloaded))
    }
}

/// `hooks list`.
pub fn cmd_hooks_list(page: &HookPage, reply: &Json, json: bool) -> (outcome: Outcome)
    ensures
        outcome@ == shows(json, reply@, render::hook_page_text(*page)),
{
    if json {
        document(reply.copy())
    } else {
        plain(render::render_hook_page(page))
    }
}

/// The document that tells the version of the running config.
pub open spec fn config_version_doc(info: InfoView) -> Doc {
    Doc::Object(
        seq![
            ("config_persistence"@, info.config_persistence.doc()),
            ("config_version"@, info.config_version.doc()),
        ],
    )
}

/// `config version`.
pub fn cmd_config_version(info: &InfoView, json: bool) -> (outcome: Outcome)
    ensures
        outcome@ == shows(json, config_version_doc(*info), render::config_version_text(*info)),
{
    if json {
        let mut w: Writer = Writer::new();
        w.put("config_persistence", &info.config_persistence);
        w.put("config_version", &info.config_version);
        proof {
            assert(w@ =~= config_version_doc(*info)->Object_0);
        }
        document(w.finish())
    } else {
        plain(render::render_config_version(info))
    }
}

/// `config show`: the document as it is, with `--json` or without.
pub fn cmd_config_show(config: &Json) -> (outcome: Outcome)
    ensures
        outcome@ == shows_document(config@),
{
    document(config.copy())
}

/// What `config apply` shows: with `--json` the reply in any case, otherwise the text if the
/// config was applied. It fails if the config was not.
pub open spec fn config_apply_report(view: ConfigApplyView, reply: Doc, json: bool) -> Report {
    Report {
        document: if json {
            Some(reply)
        } else {
            None
        },
        text: if !json && view.applied {
            render::applied_text(view)
        } else {
            Seq::empty()
        },
        failure: if view.applied {
            None
        } else {
            Some(render::not_applied_text(view.note@))
        },
    }
}

/// `config apply`. The gateway says `applied: false` on success where it took a config but did not
/// apply it, which is a failure of the command.
pub fn cmd_config_apply(view: &ConfigApplyView, reply: &Json, json: bool) -> (outcome: Outcome)
    ensures
        outcome@ == config_apply_report(*view, reply@, json),
{
    let shown: Option<Json> = if json {
        Some(reply.copy())
    } else {
        None
    };
    if !view.applied {
        Outcome {
            document: shown,
            text: String::new(),
            failure: Some(render::render_not_applied(view)),
        }
    } else if json {
        Outcome { document: shown, text: String::new(), failure: None }
    } else {
        Outcome { document: shown, text: render::render_applied(view), failure: None }
    }
}

/// Whether `result` is what a command makes of a reply that is read as a `T`: the report of the
/// value read, or why there is none.
pub open spec fn read_as<T: Wire>(
    reply: Doc,
    result: Result<Report, Fault>,
    report: spec_fn(T) -> Report,
) -> bool {
    match result {
        Ok(r) => exists|v: T|
            T::canon(reply) == Ok::<Doc, Fault>(#[trigger] v.doc()) && v.well_formed() && r
                == report(v),
        Err(fault) => T::canon(reply) == Err::<Doc, Fault>(fault),
    }
}

/// Whether `result` is what a command makes of a reply.
pub open spec fn command_report(
    command: Command,
    reply: Doc,
    json: bool,
    result: Result<Report, Fault>,
) -> bool {
    match command {
        Command::Info => read_as(
            reply,
            result,
            |v: InfoView| shows(json, reply, render::info_text(v)),
        ),
        Command::KeysList => read_as(
            reply,
            result,
            |v: KeyPage| shows(json, reply, render::key_page_text(v)),
        ),
        Command::KeysCreate(_) => read_as(
            reply,
            result,
            |v: CreatedKeyView| shows(json, reply, render::created_text(v)),
        ),
        Command::KeysGet { .. } => read_as(
            reply,
            result,
            |v: KeyView| shows(json, reply, render::key_text(v)),
        ),
        Command::KeysRotate { .. } => read_as(
            reply,
            result,
            |v: RotatedKeyView| shows(json, reply, render::rotated_text(v)),
        ),
        Command::KeysRevoke { .. } => read_as(
            reply,
            result,
            |v: RevokeView| shows(json, reply, render::revoked_text(v)),
        ),
        Command::KeysDelete { id } => result == Ok::<Report, Fault>(
            shows(json, deleted_doc(id@), render::deleted_text(id@)),
        ),
        Command::HooksList => read_as(
            reply,
            result,
            |v: HookPage| shows(json, reply, render::hook_page_text(v)),
        ),
        Command::ConfigVersion => read_as(
            reply,
            result,
            |v: InfoView| shows(json, config_version_doc(v), render::config_version_text(v)),
        ),
        Command::ConfigShow => result == Ok::<Report, Fault>(shows_document(reply)),
        Command::ConfigApply { .. } => read_as(
            reply,
            result,
            |v: ConfigApplyView| config_apply_report(v, reply, json),
        ),
        Command::PluginsList { plugin_type } => read_as(
            reply,
            result,
            |v: PluginPage| shows(json, reply, render::plugin_page_text(v, plugin_type@)),
        ),
        Command::PluginsInstall { .. } => read_as(
            reply,
            result,
            |v: PluginInstallView| shows(json, reply, render::installed_text(v)),
        ),
        Command::PluginsReload => read_as(
            reply,
            result,
            |v: PluginReloadView| shows(json, reply, render::reloaded_text(v)),
        ),
    }
}

/// What a result says.
pub open spec fn result_view(result: Result<Outcome, DecodeError>) -> Result<Report, Fault> {
    match result {
        Ok(o) => Ok(o@),
        Err(e) => Err(e@),
    }
}

/// What is said of a reply that cannot be read.
pub open spec fn unreadable_text(body: Seq<char>, cause: Seq<char>) -> Seq<char> {
    "decoding the gateway response: "@ + body + ": "@ + cause
}

/// What to say of a reply that cannot be read: the reply, and why.
pub fn unreadable(body: &str, cause: &str) -> (text: String)
    ensures
        text@ == unreadable_text(body@, cause@),
{
    let mut text: String = "decoding the gateway response: ".to_owned();
    text.append(body);
    text.append(": ");
    text.append(cause);
    text
}

/// What a fault of a document is told as: what is wrong, and where in the text.
pub open spec fn fault_cause(fault: Fault, d: Doc, mark: Mark, body: Seq<char>) -> Seq<char> {
    place::placed_text(
        wire::fault_text(fault),
        match place::fault_offset(fault, d, mark) {
            Some(offset) => place::place(encode_utf8(body), offset),
            None => None,
        },
    )
}

/// Whether `result` is what a command makes of the body of a successful answer; `document` is what
/// the body is read as, member by member, or the complaint about it. `config show` reads the body
/// on its own, and `keys delete` does not read it.
pub open spec fn command_answer(
    command: Command,
    body: Seq<char>,
    document: Result<Reading, String>,
    json: bool,
    result: Result<Report, Seq<char>>,
) -> bool {
    match command {
        Command::ConfigShow => match json::json_read(body) {
            Ok(d) => result == Ok::<Report, Seq<char>>(shows_document(d)),
            Err(cause) => result == Err::<Report, Seq<char>>(unreadable_text(body, cause)),
        },
        Command::KeysDelete { id } => result == Ok::<Report, Seq<char>>(
            shows(json, deleted_doc(id@), render::deleted_text(id@)),
        ),
        _ => match (document, result) {
            (Ok(read), Ok(report)) => command_report(command, read.json@, json, Ok(report)),
            (Ok(read), Err(complaint)) => exists|fault: Fault|
                command_report(command, read.json@, json, Err(fault)) && complaint
                    == unreadable_text(
                    body,
                    #[trigger] fault_cause(fault, read.json@, read.mark, body),
                ),
            (Err(cause), Err(complaint)) => complaint == unreadable_text(body, cause@),
            (Err(_), Ok(_)) => false,
        },
    }
}

impl Command {
    /// Whether the tarball to install, if any, is short enough for its base64 to be allocated.
    pub open spec fn encodable(&self) -> bool {
        match self {
            Command::PluginsInstall { tarball, .. } => upload::base64_text(tarball@).len()
                <= isize::MAX,
            _ => true,
        }
    }

    /// Whether the tarball to install, if any, is short enough for its base64 to be allocated.
    pub fn is_encodable(&self) -> (ok: bool)
        ensures
            ok == self.encodable(),
    {
        match self {
            Command::PluginsInstall { tarball, .. } => upload::is_encodable(tarball.as_slice()),
            _ => true,
        }
    }

    /// The request that the command makes, or what hinders it.
    pub fn request(&self, client: &Client) -> (request: Result<Request, CommandError>)
        requires
            self.encodable(),
        ensures
            match request {
                Ok(r) => command_call(*self, client@) == Ok::<Call, Hitch>(r@),
                Err(e) => command_call(*self, client@) == Err::<Call, Hitch>(e@),
            },
    {
        match self {
            Command::Info => Ok(client.info()),
            Command::KeysList => Ok(client.list_keys()),
            Command::KeysCreate(args) => match args.request() {
                Ok(req) => Ok(client.create_key(&req)),
                Err(e) => Err(CommandError::Label(e)),
            },
            Command::KeysGet { id } => Ok(client.get_key(id.as_str())),
            Command::KeysRotate { id } => Ok(client.rotate_key(id.as_str())),
            Command::KeysRevoke { id } => Ok(client.revoke_key(id.as_str())),
            Command::KeysDelete { id } => Ok(client.delete_key(id.as_str())),
            Command::HooksList => Ok(client.list_hooks()),
            Command::ConfigVersion => Ok(client.info()),
            Command::ConfigShow => Ok(client.config()),
            Command::ConfigApply { path, text } => match json::parse_json(text.as_str()) {
                Ok(body) => Ok(client.config_apply(body)),
                Err(complaint) => Err(CommandError::Config { path: path.clone(), complaint }),
            },
            Command::PluginsList { plugin_type } => Ok(client.list_plugins(plugin_type.as_str())),
            Command::PluginsInstall { file, basename, tarball } => {
                let name: String = match (file, basename) {
                    (Some(f), _) => f.clone(),
                    (None, Some(b)) => b.clone(),
                    (None, None) => {
                        return Err(CommandError::NoFilename);
                    },
                };
                let req: InstallPluginReq = InstallPluginReq::new(name, tarball.as_slice());
                Ok(client.install_plugin(&req))
            },
            Command::PluginsReload => Ok(client.reload_plugins()),
        }
    }

    /// What the command makes of the body of a successful answer; `document` is what the body is
    /// read as, member by member, or the complaint about it.
    pub fn answer(&self, body: &str, document: Result<Reading, String>, json: bool) -> (result:
        Result<Outcome, String>)
        ensures
            command_answer(
                *self,
                body@,
                document,
                json,
                match result {
                    Ok(o) => Ok(o@),
                    Err(complaint) => Err(complaint@),
                },
            ),
    {
        match self {
            Command::ConfigShow => match json::parse_json(body) {
                Ok(config) => Ok(cmd_config_show(&config)),
                Err(cause) => Err(unreadable(body, cause.as_str())),
            },
            Command::KeysDelete { id } => Ok(cmd_keys_delete(id, json)),
            _ => match document {
                Err(cause) => Err(unreadable(body, cause.as_str())),
                Ok(read) => match self.respond(&read.json, json) {
                    Ok(outcome) => Ok(outcome),
                    Err(e) => {
                        let place: Option<Place> = match place::offset_of(
                            &e,
                            &read.json,
                            &read.mark,
                        ) {
                            Some(offset) => place::place_at(body.as_bytes(), offset),
                            None => None,
                        };
                        let cause: String = place::placed(e.message().as_str(), place);
                        proof {
                            assert(cause@ == fault_cause(e@, read.json@, read.mark, body@));
                        }
                        Err(unreadable(body, cause.as_str()))
                    },
                },
            },
        }
    }

    /// What the command makes of the document that its request is answered with. `keys delete` is
    /// answered with nothing, and does not look at it.
    pub fn respond(&self, reply: &Json, json: bool) -> (result: Result<Outcome, DecodeError>)
        ensures
            command_report(*self, reply@, json, result_view(result)),
    {
        match self {
            Command::Info => {
                let view: InfoView = InfoView::from_json(reply)?;
                Ok(cmd_info(&view, reply, json))
            },
            Command::KeysList => {
                let view: KeyPage = KeyPage::from_json(reply)?;
                Ok(cmd_keys_list(&view, reply, json))
            },
            Command::KeysCreate(_) => {
                let view: CreatedKeyView = CreatedKeyView::from_json(reply)?;
                Ok(cmd_keys_create(&view, reply, json))
            },
            Command::KeysGet { .. } => {
                let view: KeyView = KeyView::from_json(reply)?;
                Ok(cmd_keys_get(&view, reply, json))
            },
            Command::KeysRotate { .. } => {
                let view: RotatedKeyView = RotatedKeyView::from_json(reply)?;
                Ok(cmd_keys_rotate(&view, reply, json))
            },
            Command::KeysRevoke { .. } => {
                let view: RevokeView = RevokeView::from_json(reply)?;
                Ok(cmd_keys_revoke(&view, reply, json))
            },
            Command::KeysDelete { id } => Ok(cmd_keys_delete(id, json)),
            Command::HooksList => {
                let view: HookPage = HookPage::from_json(reply)?;
                Ok(cmd_hooks_list(&view, reply, json))
            },
            Command::ConfigVersion => {
                let view: InfoView = InfoView::from_json(reply)?;
                Ok(cmd_config_version(&view, json))
            },
            Command::ConfigShow => Ok(cmd_config_show(reply)),
            Command::ConfigApply { .. } => {
                let view: ConfigApplyView = ConfigApplyView::from_json(reply)?;
                Ok(cmd_config_apply(&view, reply, json))
            },
            Command::PluginsList { plugin_type } => {
                let view: PluginPage = PluginPage::from_json(reply)?;
                Ok(cmd_plugins_list(&view, plugin_type.as_str(), reply, json))
            },
            Command::PluginsInstall { .. } => {
                let view: PluginInstallView = PluginInstallView::from_json(reply)?;
                Ok(cmd_plugins_install(&view, reply, json))
            },
            Command::PluginsReload => {
                let view: PluginReloadView = PluginReloadView::from_json(reply)?;
                Ok(cmd_plugins_reload(&view, reply, json))
            },
        }
    }
}

/// Every request goes to the admin API of the gateway that the client was set up with.
pub proof fn law_requests_stay_under_the_admin_api(command: Command, target: Target)
    requires
        command_call(command, target) is Ok,
    ensures
        (target.endpoint + gateway::ADMIN_PREFIX@).is_prefix_of(
            command_call(command, target)->Ok_0.url,
        ),
{
    let base = target.endpoint + gateway::ADMIN_PREFIX@;
    assert forall|rel: Seq<char>| base.is_prefix_of(
        #[trigger] gateway::admin_url(target.endpoint, rel),
    ) by {
        assert(gateway::admin_url(target.endpoint, rel).take(base.len() as int) =~= base);
    }
}

/// Every request carries the admin token twice, as `x-admin-token` and as a bearer token, both
/// marked sensitive, and no other header.
pub proof fn law_requests_carry_the_token(command: Command, target: Target)
    requires
        command_call(command, target) is Ok,
    ensures
        command_call(command, target)->Ok_0.headers == seq![
            Line { name: "x-admin-token"@, value: target.token, sensitive: true },
            Line { name: "authorization"@, value: "Bearer "@ + target.token, sensitive: true },
        ],
{
}

/// What requests are aimed at with these settings: the endpoint without slashes at its end, and
/// the token.
pub open spec fn aimed_at(endpoint: Setting, token: Setting) -> Target {
    Target {
        endpoint: gateway::without_slashes(endpoint.value()->0@),
        token: token.value()->0@,
    }
}

/// A flag beats its environment variable, whose value then has no effect; without the flag the
/// variable counts. So every request goes under the admin API of the chosen endpoint, with the
/// chosen token.
pub proof fn law_flags_beat_variables(command: Command, endpoint: Setting, token: Setting)
    requires
        endpoint.value() is Some,
        token.value() is Some,
        command_call(command, aimed_at(endpoint, token)) is Ok,
    ensures
        endpoint.flag is Some ==> endpoint.value() == endpoint.flag,
        endpoint.flag is None ==> endpoint.value() == endpoint.variable,
        token.flag is Some ==> token.value() == token.flag,
        token.flag is None ==> token.value() == token.variable,
        ({
            let call = command_call(command, aimed_at(endpoint, token))->Ok_0;
            let address = if endpoint.flag is Some {
                endpoint.flag->0@
            } else {
                endpoint.variable->0@
            };
            let secret = if token.flag is Some {
                token.flag->0@
            } else {
                token.variable->0@
            };
            &&& (gateway::without_slashes(address) + gateway::ADMIN_PREFIX@).is_prefix_of(call.url)
            &&& call.headers == gateway::token_headers(secret)
        }),
{
    law_requests_stay_under_the_admin_api(command, aimed_at(endpoint, token));
}

/// Whether the command only looks at the gateway.
pub open spec fn looks_only(command: Command) -> bool {
    match command {
        Command::Info => true,
        Command::KeysList => true,
        Command::KeysGet { .. } => true,
        Command::HooksList => true,
        Command::ConfigVersion => true,
        Command::ConfigShow => true,
        Command::PluginsList { .. } => true,
        _ => false,
    }
}

/// A command that only looks makes a `GET` request without a body, and no other command does; only
/// `keys delete` makes a `DELETE` request.
pub proof fn law_methods_fit_commands(command: Command, target: Target)
    requires
        command_call(command, target) is Ok,
    ensures
        looks_only(command) <==> command_call(command, target)->Ok_0.method == Method::Get,
        looks_only(command) ==> command_call(command, target)->Ok_0.body is None,
        command is KeysDelete <==> command_call(command, target)->Ok_0.method == Method::Delete,
{
}

/// The pool flags of `keys create` reach the gateway in their three states: without a flag the
/// body holds no `allowed_pools`, with `--no-pools` it holds the empty list, and with named pools
/// it holds exactly those.
pub proof fn law_pool_flags_reach_the_gateway(args: KeyCreateArgs, target: Target)
    requires
        command_call(Command::KeysCreate(args), target) is Ok,
    ensures
        ({
            let body = command_call(Command::KeysCreate(args), target)->Ok_0.body;
            let sent = record::hits(body->0->Object_0, "allowed_pools"@);
            &&& body is Some
            &&& body->0 is Object
            &&& args.no_pools ==> sent == seq![Doc::Array(Seq::empty())]
            &&& !args.no_pools && args.allowed_pools@.len() == 0 ==> sent == Seq::<Doc>::empty()
            &&& !args.no_pools && args.allowed_pools@.len() > 0 ==> sent == seq![
                Doc::Array(
                    text::texts(args.allowed_pools@).map_values(|s: Seq<char>| Doc::Text(s)),
                ),
            ]
        }),
{
    let labels = argmap::labels_of(text::texts(args.labels@))->Ok_0;
    let mint = args.asks(labels);
    mint::law_mint_body_pools(mint);
    assert(Seq::<Seq<char>>::empty().map_values(|s: Seq<char>| Doc::Text(s)) =~= Seq::<
        Doc,
    >::empty());
}

/// With `--json` a command shows a document and nothing else, and without it a text and nothing
/// else; only `config show` shows its document either way, and only `config apply` can fail.
pub proof fn law_json_decides_what_is_shown(command: Command, reply: Doc, json: bool, r: Report)
    requires
        command_report(command, reply, json, Ok(r)),
    ensures
        json || command is ConfigShow <==> r.document is Some,
        r.document is Some ==> r.text == Seq::<char>::empty(),
        !(command is ConfigApply) ==> r.failure is None,
{
}

/// With `--json` a command shows what the gateway answered, members that it does not know
/// included. Only `keys delete`, which is answered with nothing, and `config version`, which tells
/// two members of the answer, show a document of their own.
pub proof fn law_json_shows_the_reply(command: Command, reply: Doc, r: Report)
    requires
        command_report(command, reply, true, Ok(r)),
        !(command is KeysDelete),
        !(command is ConfigVersion),
    ensures
        r.document == Some(reply),
{
}

/// One reply gives one report: what is read of it settles what is shown.
pub proof fn law_one_reply_gives_one_report(
    command: Command,
    reply: Doc,
    json: bool,
    a: Report,
    b: Report,
)
    requires
        command_report(command, reply, json, Ok(a)),
        command_report(command, reply, json, Ok(b)),
    ensures
        a == b,
{
    match command {
        Command::Info => {
            let v = choose|v: InfoView|
                InfoView::canon(reply) == Ok::<Doc, Fault>(#[trigger] v.doc()) && v.well_formed() && a
                    == shows(json, reply, render::info_text(v));
            let u = choose|v: InfoView|
                InfoView::canon(reply) == Ok::<Doc, Fault>(#[trigger] v.doc()) && v.well_formed() && b
                    == shows(json, reply, render::info_text(v));
            render::lemma_info_by_doc(v, u);
        },
        Command::ConfigVersion => {
            let v = choose|v: InfoView|
                InfoView::canon(reply) == Ok::<Doc, Fault>(#[trigger] v.doc()) && v.well_formed() && a
                    == shows(json, config_version_doc(v), render::config_version_text(v));
            let u = choose|v: InfoView|
                InfoView::canon(reply) == Ok::<Doc, Fault>(#[trigger] v.doc()) && v.well_formed() && b
                    == shows(json, config_version_doc(v), render::config_version_text(v));
            render::lemma_info_by_doc(v, u);
        },
        Command::KeysList => {
            let v = choose|v: KeyPage|
                KeyPage::canon(reply) == Ok::<Doc, Fault>(#[trigger] v.doc()) && v.well_formed() && a
                    == shows(json, reply, render::key_page_text(v));
            let u = choose|v: KeyPage|
                KeyPage::canon(reply) == Ok::<Doc, Fault>(#[trigger] v.doc()) && v.well_formed() && b
                    == shows(json, reply, render::key_page_text(v));
            render::lemma_key_page_by_doc(v, u);
        },
        Command::KeysCreate(_) => {
            let v = choose|v: CreatedKeyView|
                CreatedKeyView::canon(reply) == Ok::<Doc, Fault>(#[trigger] v.doc()) && v.well_formed() && a
                    == shows(json, reply, render::created_text(v));
            let u = choose|v: CreatedKeyView|
                CreatedKeyView::canon(reply) == Ok::<Doc, Fault>(#[trigger] v.doc()) && v.well_formed() && b
                    == shows(json, reply, render::created_text(v));
            render::lemma_created_by_doc(v, u);
        },
        Command::KeysGet { .. } => {
            let v = choose|v: KeyView|
                KeyView::canon(reply) == Ok::<Doc, Fault>(#[trigger] v.doc()) && v.well_formed() && a
                    == shows(json, reply, render::key_text(v));
            let u = choose|v: KeyView|
                KeyView::canon(reply) == Ok::<Doc, Fault>(#[trigger] v.doc()) && v.well_formed() && b
                    == shows(json, reply, render::key_text(v));
            render::lemma_key_by_doc(v, u);
        },
        Command::KeysRotate { .. } => {
            let v = choose|v: RotatedKeyView|
                RotatedKeyView::canon(reply) == Ok::<Doc, Fault>(#[trigger] v.doc()) && v.well_formed() && a
                    == shows(json, reply, render::rotated_text(v));
            let u = choose|v: RotatedKeyView|
                RotatedKeyView::canon(reply) == Ok::<Doc, Fault>(#[trigger] v.doc()) && v.well_formed() && b
                    == shows(json, reply, render::rotated_text(v));
            render::lemma_rotated_by_doc(v, u);
        },
        Command::KeysRevoke { .. } => {
            let v = choose|v: RevokeView|
                RevokeView::canon(reply) == Ok::<Doc, Fault>(#[trigger] v.doc()) && v.well_formed() && a
                    == shows(json, reply, render::revoked_text(v));
            let u = choose|v: RevokeView|
                RevokeView::canon(reply) == Ok::<Doc, Fault>(#[trigger] v.doc()) && v.well_formed() && b
                    == shows(json, reply, render::revoked_text(v));
            render::lemma_revoked_by_doc(v, u);
        },
        Command::HooksList => {
            let v = choose|v: HookPage|
                HookPage::canon(reply) == Ok::<Doc, Fault>(#[trigger] v.doc()) && v.well_formed() && a
                    == shows(json, reply, render::hook_page_text(v));
            let u = choose|v: HookPage|
                HookPage::canon(reply) == Ok::<Doc, Fault>(#[trigger] v.doc()) && v.well_formed() && b
                    == shows(json, reply, render::hook_page_text(v));
            render::lemma_hook_page_by_doc(v, u);
        },
        Command::ConfigApply { .. } => {
            let v = choose|v: ConfigApplyView|
                ConfigApplyView::canon(reply) == Ok::<Doc, Fault>(#[trigger] v.doc()) && v.well_formed() && a
                    == config_apply_report(v, reply, json);
            let u = choose|v: ConfigApplyView|
                ConfigApplyView::canon(reply) == Ok::<Doc, Fault>(#[trigger] v.doc()) && v.well_formed() && b
                    == config_apply_report(v, reply, json);
            render::lemma_applied_by_doc(v, u);
        },
        Command::PluginsList { plugin_type } => {
            let v = choose|v: PluginPage|
                PluginPage::canon(reply) == Ok::<Doc, Fault>(#[trigger] v.doc()) && v.well_formed() && a
                    == shows(json, reply, render::plugin_page_text(v, plugin_type@));
            let u = choose|v: PluginPage|
                PluginPage::canon(reply) == Ok::<Doc, Fault>(#[trigger] v.doc()) && v.well_formed() && b
                    == shows(json, reply, render::plugin_page_text(v, plugin_type@));
            render::lemma_plugin_page_by_doc(v, u, plugin_type@);
        },
        Command::PluginsInstall { .. } => {
            let v = choose|v: PluginInstallView|
                PluginInstallView::canon(reply) == Ok::<Doc, Fault>(#[trigger] v.doc()) && v.well_formed() && a
                    == shows(json, reply, render::installed_text(v));
            let u = choose|v: PluginInstallView|
                PluginInstallView::canon(reply) == Ok::<Doc, Fault>(#[trigger] v.doc()) && v.well_formed() && b
                    == shows(json, reply, render::installed_text(v));
            render::lemma_installed_by_doc(v, u);
        },
        Command::PluginsReload => {
            let v = choose|v: PluginReloadView|
                PluginReloadView::canon(reply) == Ok::<Doc, Fault>(#[trigger] v.doc()) && v.well_formed() && a
                    == shows(json, reply, render::reloaded_text(v));
            let u = choose|v: PluginReloadView|
                PluginReloadView::canon(reply) == Ok::<Doc, Fault>(#[trigger] v.doc()) && v.well_formed() && b
                    == shows(json, reply, render::reloaded_text(v));
            render::lemma_reloaded_by_doc(v, u);
        },
        Command::KeysDelete { .. } => {},
        Command::ConfigShow => {},
    }
}

/// `config apply` fails exactly where the gateway says that it did not apply the config, and then
/// claims no success.
pub proof fn law_apply_fails_unless_applied(view: ConfigApplyView, reply: Doc, json: bool)
    ensures
        config_apply_report(view, reply, json).failure is Some <==> !view.applied,
        !view.applied ==> config_apply_report(view, reply, json).text == Seq::<char>::empty(),
        !view.applied ==> config_apply_report(view, reply, json).failure == Some(
            render::not_applied_text(view.note@),
        ),
        json ==> config_apply_report(view, reply, json).document == Some(reply),
{
}

} // verus!
