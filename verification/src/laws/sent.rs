//! What each command sends, and what hinders it.

use vstd::prelude::*;

use crate::argmap;
use crate::cli;
use crate::cli::Command;
use crate::cli::Hitch;
use crate::cli::KeyCreateArgs;
use crate::client::errors::ErrorEnvelope;
use crate::client::gateway;
use crate::client::gateway::Call;
use crate::client::gateway::Method;
use crate::client::gateway::Reply;
use crate::client::gateway::Target;
use crate::client::mint;
use crate::client::upload;
use crate::json;
use crate::json::Doc;
use crate::record;
use crate::text;
use crate::wire::Fault;
use crate::wire::Wire;

verus! {

proof fn lemma_prefix(endpoint: Seq<char>, rel: Seq<char>, full: Seq<char>)
    requires
        "/api/v1/admin"@ + rel == full,
    ensures
        gateway::admin_url(endpoint, rel) == endpoint + full,
{
    assert(gateway::ADMIN_PREFIX@ == "/api/v1/admin"@);
    assert(endpoint + "/api/v1/admin"@ + rel =~= endpoint + ("/api/v1/admin"@ + rel));
}

/// Each command goes to its own address under the endpoint, with the key or the plugin type that
/// it names, by its own method, and expects its own kind of reply.
pub proof fn law_each_command_goes_to_its_address(command: Command, target: Target)
    requires
        cli::command_call(command, target) is Ok,
    ensures
        ({
            let call = cli::command_call(command, target)->Ok_0;
            let at = target.endpoint;
            match command {
                Command::Info => call.method == Method::Get && call.url == at
                    + "/api/v1/admin/info"@,
                Command::KeysList => call.method == Method::Get && call.url == at
                    + "/api/v1/admin/keys"@,
                Command::KeysCreate(_) => call.method == Method::Post && call.url == at
                    + "/api/v1/admin/keys"@,
                Command::KeysGet { id } => call.method == Method::Get && call.url == at
                    + "/api/v1/admin/keys/"@ + id@,
                Command::KeysRotate { id } => call.method == Method::Post && call.url == at
                    + "/api/v1/admin/keys/"@ + id@ + "/rotate"@,
                Command::KeysRevoke { id } => call.method == Method::Post && call.url == at
                    + "/api/v1/admin/keys/"@ + id@ + "/revoke"@,
                Command::KeysDelete { id } => call.method == Method::Delete && call.url == at
                    + "/api/v1/admin/keys/"@ + id@,
                Command::HooksList => call.method == Method::Get && call.url == at
                    + "/api/v1/admin/hooks"@,
                Command::ConfigVersion => call.method == Method::Get && call.url == at
                    + "/api/v1/admin/info"@,
                Command::ConfigShow => call.method == Method::Get && call.url == at
                    + "/api/v1/admin/config"@,
                Command::ConfigApply { .. } => call.method == Method::Post && call.url == at
                    + "/api/v1/admin/config/apply"@,
                Command::PluginsList { plugin_type } => call.method == Method::Get && call.url == at
                    + "/api/v1/admin/plugins?type="@ + plugin_type@,
                Command::PluginsInstall { .. } => call.method == Method::Post && call.url == at
                    + "/api/v1/admin/plugins"@,
                Command::PluginsReload => call.method == Method::Post && call.url == at
                    + "/api/v1/admin/plugins/reload"@,
            }
        }),
        ({
            let call = cli::command_call(command, target)->Ok_0;
            &&& call.reply == Reply::Nothing <==> command is KeysDelete
            &&& call.reply == Reply::Raw <==> command is ConfigShow
            &&& call.body is Some <==> (command is KeysCreate || command is ConfigApply
                || command is PluginsInstall)
        }),
{
    let at = target.endpoint;
    let call = cli::command_call(command, target)->Ok_0;
    reveal_strlit("/api/v1/admin");
    match command {
        Command::Info => {
            lemma_fixed_info(at);
        },
        Command::ConfigVersion => {
            lemma_fixed_info(at);
        },
        Command::KeysList => {
            lemma_fixed_keys(at);
        },
        Command::KeysCreate(_) => {
            lemma_fixed_keys(at);
        },
        Command::KeysGet { id } => {
            lemma_key_address(at, id@);
        },
        Command::KeysDelete { id } => {
            lemma_key_address(at, id@);
        },
        Command::KeysRotate { id } => {
            lemma_key_address(at, id@);
            assert(call.url =~= at + "/api/v1/admin/keys/"@ + id@ + "/rotate"@);
        },
        Command::KeysRevoke { id } => {
            lemma_key_address(at, id@);
            assert(call.url =~= at + "/api/v1/admin/keys/"@ + id@ + "/revoke"@);
        },
        Command::HooksList => {
            reveal_strlit("/hooks");
            reveal_strlit("/api/v1/admin/hooks");
            assert("/api/v1/admin"@ + "/hooks"@ =~= "/api/v1/admin/hooks"@);
            lemma_prefix(at, "/hooks"@, "/api/v1/admin/hooks"@);
        },
        Command::ConfigShow => {
            reveal_strlit("/config");
            reveal_strlit("/api/v1/admin/config");
            assert("/api/v1/admin"@ + "/config"@ =~= "/api/v1/admin/config"@);
            lemma_prefix(at, "/config"@, "/api/v1/admin/config"@);
        },
        Command::ConfigApply { .. } => {
            reveal_strlit("/config/apply");
            reveal_strlit("/api/v1/admin/config/apply");
            assert("/api/v1/admin"@ + "/config/apply"@ =~= "/api/v1/admin/config/apply"@);
            lemma_prefix(at, "/config/apply"@, "/api/v1/admin/config/apply"@);
        },
        Command::PluginsList { plugin_type } => {
            reveal_strlit("/plugins?type=");
            reveal_strlit("/api/v1/admin/plugins?type=");
            assert("/api/v1/admin"@ + "/plugins?type="@ =~= "/api/v1/admin/plugins?type="@);
            lemma_prefix(at, "/plugins?type="@, "/api/v1/admin/plugins?type="@);
            assert(call.url =~= at + "/api/v1/admin/plugins?type="@ + plugin_type@);
        },
        Command::PluginsInstall { .. } => {
            reveal_strlit("/plugins");
            reveal_strlit("/api/v1/admin/plugins");
            assert("/api/v1/admin"@ + "/plugins"@ =~= "/api/v1/admin/plugins"@);
            lemma_prefix(at, "/plugins"@, "/api/v1/admin/plugins"@);
        },
        Command::PluginsReload => {
            reveal_strlit("/plugins/reload");
            reveal_strlit("/api/v1/admin/plugins/reload");
            assert("/api/v1/admin"@ + "/plugins/reload"@ =~= "/api/v1/admin/plugins/reload"@);
            lemma_prefix(at, "/plugins/reload"@, "/api/v1/admin/plugins/reload"@);
        },
    }
}

proof fn lemma_fixed_info(at: Seq<char>)
    ensures
        gateway::admin_url(at, "/info"@) == at + "/api/v1/admin/info"@,
{
    reveal_strlit("/api/v1/admin");
    reveal_strlit("/info");
    reveal_strlit("/api/v1/admin/info");
    assert("/api/v1/admin"@ + "/info"@ =~= "/api/v1/admin/info"@);
    lemma_prefix(at, "/info"@, "/api/v1/admin/info"@);
}

proof fn lemma_fixed_keys(at: Seq<char>)
    ensures
        gateway::admin_url(at, "/keys"@) == at + "/api/v1/admin/keys"@,
{
    reveal_strlit("/api/v1/admin");
    reveal_strlit("/keys");
    reveal_strlit("/api/v1/admin/keys");
    assert("/api/v1/admin"@ + "/keys"@ =~= "/api/v1/admin/keys"@);
    lemma_prefix(at, "/keys"@, "/api/v1/admin/keys"@);
}

proof fn lemma_key_address(at: Seq<char>, id: Seq<char>)
    ensures
        "/api/v1/admin"@ + "/keys/"@ == "/api/v1/admin/keys/"@,
        gateway::admin_url(at, "/keys/"@ + id) == at + "/api/v1/admin/keys/"@ + id,
{
    reveal_strlit("/api/v1/admin");
    reveal_strlit("/keys/");
    reveal_strlit("/api/v1/admin/keys/");
    assert("/api/v1/admin"@ + "/keys/"@ =~= "/api/v1/admin/keys/"@);
    lemma_prefix(at, "/keys/"@, "/api/v1/admin/keys/"@);
    assert(gateway::admin_url(at, "/keys/"@ + id) =~= gateway::admin_url(at, "/keys/"@) + id);
}

/// The arguments of `keys create` reach the gateway one by one: each that is given is a member of
/// the body with exactly its value, whatever the others are, each that is not given is left out,
/// and the body holds nothing else.
pub proof fn law_mint_arguments_reach_the_gateway(args: KeyCreateArgs, target: Target)
    requires
        cli::command_call(Command::KeysCreate(args), target) is Ok,
    ensures
        ({
            let body = cli::command_call(Command::KeysCreate(args), target)->Ok_0.body;
            let sent = body->0->Object_0;
            let labels = argmap::labels_of(text::texts(args.labels@));
            &&& body is Some
            &&& body->0 is Object
            &&& record::hits(sent, "name"@) == seq![Doc::Text(args.name@)]
            &&& record::hits(sent, "group"@) == (match args.group {
                Some(s) => seq![Doc::Text(s@)],
                None => Seq::<Doc>::empty(),
            })
            &&& record::hits(sent, "parent"@) == (match args.parent {
                Some(s) => seq![Doc::Text(s@)],
                None => Seq::<Doc>::empty(),
            })
            &&& record::hits(sent, "expires_in"@) == (match args.expires_in {
                Some(s) => seq![Doc::Text(s@)],
                None => Seq::<Doc>::empty(),
            })
            &&& record::hits(sent, "expires_at"@) == (match args.expires_at {
                Some(n) => seq![Doc::Unsigned(n as nat)],
                None => Seq::<Doc>::empty(),
            })
            &&& record::hits(sent, "issue_aws_credential"@) == (if args.issue_aws_credential {
                seq![Doc::Bool(true)]
            } else {
                Seq::<Doc>::empty()
            })
            &&& labels is Ok
            &&& record::hits(sent, "labels"@) == (if labels->Ok_0.len() > 0 {
                seq![
                    Doc::Object(
                        labels->Ok_0.map_values(
                            |p: (Seq<char>, Seq<char>)| (p.0, Doc::Text(p.1)),
                        ),
                    ),
                ]
            } else {
                Seq::<Doc>::empty()
            })
            &&& forall|i: int| 0 <= i < sent.len() ==> mint::mint_name((#[trigger] sent[i]).0)
        }),
{
    let labels = argmap::labels_of(text::texts(args.labels@))->Ok_0;
    mint::law_mint_body_holds_what_is_asked(args.asks(labels));
    mint::law_mint_body_names(args.asks(labels));
}

/// Labels are sent where any are given, and only then.
pub proof fn law_labels_are_sent_where_given(args: KeyCreateArgs)
    requires
        argmap::labels_of(text::texts(args.labels@)) is Ok,
    ensures
        argmap::labels_of(text::texts(args.labels@))->Ok_0.len() > 0 <==> args.labels@.len() > 0,
{
    let all = text::texts(args.labels@);
    assert(all.len() == args.labels@.len());
    lemma_labels_len(all);
}

proof fn lemma_labels_len(pairs: Seq<Seq<char>>)
    requires
        argmap::labels_of(pairs) is Ok,
    ensures
        argmap::labels_of(pairs)->Ok_0.len() > 0 <==> pairs.len() > 0,
{
    if pairs.len() > 0 {
        let rest = argmap::labels_of(pairs.drop_last())->Ok_0;
        let (key, value) = argmap::split_label(pairs.last())->0;
        lemma_inserted_len(rest, key, value);
    }
}

proof fn lemma_inserted_len(
    pairs: Seq<(Seq<char>, Seq<char>)>,
    key: Seq<char>,
    value: Seq<char>,
)
    ensures
        crate::labels::inserted(pairs, key, value).len() > 0,
{
}

/// `config apply` sends the very document that its file holds, whatever that is, and nothing where
/// the file is no JSON.
pub proof fn law_config_files_are_sent_as_they_are(path: String, text: String, target: Target)
    ensures
        match json::json_read(text@) {
            Ok(document) => {
                let call = cli::command_call(Command::ConfigApply { path, text }, target);
                call is Ok && call->Ok_0.body == Some(document)
            },
            Err(complaint) => cli::command_call(Command::ConfigApply { path, text }, target)
                == Err::<Call, Hitch>(Hitch::Config { path: path@, complaint }),
        },
{
}

/// `plugins install` sends the bytes of the tarball in base64, under the name that is asked for,
/// else that of the file; it sends nothing only where there is no name. The body holds nothing
/// else.
pub proof fn law_tarballs_are_sent_under_their_name(
    file: Option<String>,
    basename: Option<String>,
    tarball: Vec<u8>,
    target: Target,
)
    ensures
        ({
            let call = cli::command_call(
                Command::PluginsInstall { file, basename, tarball },
                target,
            );
            let sent = call->Ok_0.body->0->Object_0;
            &&& call is Err <==> file is None && basename is None
            &&& call is Err ==> call == Err::<Call, Hitch>(Hitch::NoFilename)
            &&& call is Ok ==> {
                &&& call->Ok_0.body is Some
                &&& call->Ok_0.body->0 is Object
                &&& sent.len() == 2
                &&& record::hits(sent, "tarball_b64"@) == seq![
                    Doc::Text(upload::base64_text(tarball@)),
                ]
                &&& file is Some ==> record::hits(sent, "file"@) == seq![Doc::Text(file->0@)]
                &&& file is None && basename is Some ==> record::hits(sent, "file"@) == seq![
                    Doc::Text(basename->0@),
                ]
            }
        }),
{
    let call = cli::command_call(Command::PluginsInstall { file, basename, tarball }, target);
    if call is Ok {
        let name = if file is Some {
            file->0@
        } else {
            basename->0@
        };
        lemma_upload(name, upload::base64_text(tarball@));
    }
}

proof fn lemma_upload(file: Seq<char>, tarball: Seq<char>)
    ensures
        upload::upload_members(file, tarball).len() == 2,
        record::hits(upload::upload_members(file, tarball), "file"@) == seq![Doc::Text(file)],
        record::hits(upload::upload_members(file, tarball), "tarball_b64"@) == seq![
            Doc::Text(tarball),
        ],
{
    reveal_strlit("file");
    reveal_strlit("tarball_b64");
    assert("file"@.len() == 4);
    assert("tarball_b64"@.len() == 11);
    let all = upload::upload_members(file, tarball);
    let one = seq![("file"@, Doc::Text(file))];
    assert(all =~= one.push(("tarball_b64"@, Doc::Text(tarball))));
    assert(one =~= Seq::empty().push(("file"@, Doc::Text(file))));
    record::law_hits_are_the_values_of_a_name(one, ("tarball_b64"@, Doc::Text(tarball)), "file"@);
    record::law_hits_are_the_values_of_a_name(
        Seq::empty(),
        ("file"@, Doc::Text(file)),
        "tarball_b64"@,
    );
    assert(record::hits(all, "file"@) =~= seq![Doc::Text(file)]);
    assert(record::hits(all, "tarball_b64"@) =~= seq![Doc::Text(tarball)]);
}

/// The upload of a plugin, to install or to inspect it, holds its name and its bytes and nothing
/// else.
pub proof fn law_uploads_hold_name_and_bytes(file: Seq<char>, tarball: Seq<char>)
    ensures
        upload::upload_members(file, tarball).len() == 2,
        record::hits(upload::upload_members(file, tarball), "file"@) == seq![Doc::Text(file)],
        record::hits(upload::upload_members(file, tarball), "tarball_b64"@) == seq![
            Doc::Text(tarball),
        ],
{
    lemma_upload(file, tarball);
}

/// Nothing but a label without `=`, a tarball without a name and a file that is no JSON hinders a
/// command.
pub proof fn law_commands_are_hindered_by_their_arguments(command: Command, target: Target)
    ensures
        cli::command_call(command, target) is Err <==> match command {
            Command::KeysCreate(args) => exists|i: int|
                0 <= i < args.labels@.len() && !(#[trigger] args.labels@[i])@.contains('='),
            Command::ConfigApply { text, .. } => json::json_read(text@) is Err,
            Command::PluginsInstall { file, basename, .. } => file is None && basename is None,
            _ => false,
        },
        command matches Command::KeysCreate(args) ==> match argmap::labels_of(
            text::texts(args.labels@),
        ) {
            Err(bad) => cli::command_call(command, target) == Err::<Call, Hitch>(Hitch::Label(bad)),
            Ok(_) => true,
        },
{
    if let Command::KeysCreate(args) = command {
        let all = text::texts(args.labels@);
        argmap::law_labels_of(all);
        assert(all.len() == args.labels@.len());
        assert(forall|i: int| 0 <= i < all.len() ==> #[trigger] all[i] == args.labels@[i]@);
        if argmap::labels_of(all) is Err {
            let i = choose|i: int| 0 <= i < all.len() && !(#[trigger] all[i]).contains('=');
            assert(!args.labels@[i]@.contains('='));
        } else {
            assert forall|i: int| 0 <= i < args.labels@.len() implies (
            #[trigger] args.labels@[i])@.contains('=') by {
                assert(all[i].contains('='));
            }
        }
    }
}

/// What hinders a command is told with the argument at fault.
pub proof fn law_hitches_name_what_is_at_fault(
    pair: Seq<char>,
    path: Seq<char>,
    complaint: Seq<char>,
)
    ensures
        cli::hitch_text(Hitch::Label(pair)) == "--label must be KEY=VALUE, got "@ + text::quoted(
            pair,
        ),
        cli::hitch_text(Hitch::Config { path, complaint }) == "parsing "@ + path + " as JSON: "@
            + complaint,
{
}

/// Only slashes are taken off the end of an address, and all of them.
pub proof fn law_only_slashes_are_taken_off(address: Seq<char>, slashes: nat)
    ensures
        forall|i: int|
            gateway::without_slashes(address).len() <= i < address.len() ==> #[trigger] address[i]
                == '/',
        gateway::without_slashes(address).is_prefix_of(address),
        address.len() == 0 || address.last() != '/' ==> gateway::without_slashes(
            address + Seq::new(slashes, |i: int| '/'),
        ) == address,
    decreases address.len() + slashes,
{
    gateway::law_slashes_make_no_difference(address);
    if address.len() > 0 && address.last() == '/' {
        let rest = address.drop_last();
        law_only_slashes_are_taken_off(rest, 0);
        assert forall|i: int|
            gateway::without_slashes(address).len() <= i < address.len() implies #[trigger] address[i]
            == '/' by {
            if i < rest.len() {
                assert(address[i] == rest[i]);
            }
        }
    }
    let whole = address + Seq::new(slashes, |i: int| '/');
    if slashes > 0 {
        law_only_slashes_are_taken_off(address, (slashes - 1) as nat);
        assert(whole.drop_last() =~= address + Seq::new((slashes - 1) as nat, |i: int| '/'));
        assert(whole.last() == '/');
    } else {
        assert(whole =~= address);
    }
}

/// A refusal without an error envelope is told by its status, and with the body where there is one
/// and the status has no words of its own; with an envelope, by its code and message in place of
/// the body.
pub proof fn law_refusals_are_told_in_full(
    status: u16,
    body: Seq<char>,
    document: Option<Doc>,
    envelope: ErrorEnvelope,
)
    ensures
        ({
            let told = gateway::refusal_text(status, body, document);
            let words = text::decimal(status as nat) + " "@ + gateway::reason_phrase(status);
            let read = document matches Some(d) && ErrorEnvelope::canon(d) == Ok::<Doc, Fault>(
                envelope.doc(),
            );
            let unread = match document {
                Some(d) => ErrorEnvelope::canon(d) is Err,
                None => true,
            };
            let says = envelope.error.code@ + ": "@ + envelope.error.message@;
            &&& status == 401 && unread ==> told == "admin token rejected ("@ + words + ")"@
            &&& status == 403 && unread ==> told == "admin token lacks the required scope ("@
                + words + ")"@
            &&& status != 401 && status != 403 && unread && body.len() == 0 ==> told
                == "gateway returned "@ + words
            &&& status != 401 && status != 403 && unread && body.len() > 0 ==> told
                == "gateway returned "@ + words + ": "@ + body
            &&& status == 401 && read ==> told == "admin token rejected ("@ + words + ")"@
                + " — "@ + says
            &&& status == 403 && read ==> told == "admin token lacks the required scope ("@ + words
                + ")"@ + " — "@ + says
            &&& status != 401 && status != 403 && read ==> told == "gateway returned "@ + words
                + ": "@ + says
        }),
{
    let told = gateway::refusal_text(status, body, document);
    let words = text::decimal(status as nat) + " "@ + gateway::reason_phrase(status);
    let says = envelope.error.code@ + ": "@ + envelope.error.message@;
    assert(envelope.doc()->Object_0[0].1 == envelope.error.doc());
    assert(envelope.error.doc()->Object_0[0].1 == envelope.error.code.doc());
    assert(envelope.error.doc()->Object_0[1].1 == envelope.error.message.doc());
    assert("admin token rejected ("@ + words + ")"@ + Seq::<char>::empty()
        =~= "admin token rejected ("@ + words + ")"@);
    assert("admin token lacks the required scope ("@ + words + ")"@ + Seq::<char>::empty()
        =~= "admin token lacks the required scope ("@ + words + ")"@);
    assert("admin token rejected ("@ + words + ")"@ + (" — "@ + says)
        =~= "admin token rejected ("@ + words + ")"@ + " — "@ + says);
    assert("admin token lacks the required scope ("@ + words + ")"@ + (" — "@ + says)
        =~= "admin token lacks the required scope ("@ + words + ")"@ + " — "@ + says);
}

/// A request without an answer is told with the endpoint: as unreachable where no connection was
/// made, as timed out where it took too long, else with what the transport says.
pub proof fn law_unanswered_requests_name_the_endpoint(
    endpoint: Seq<char>,
    timeout: bool,
    detail: Seq<char>,
)
    ensures
        gateway::unanswered_text(endpoint, true, timeout, detail) == "no gateway reachable at "@
            + endpoint + " (connection failed): "@ + detail,
        gateway::unanswered_text(endpoint, false, true, detail) == "request to "@ + endpoint
            + " timed out"@,
        gateway::unanswered_text(endpoint, false, false, detail) == "request to "@ + endpoint
            + " failed: "@ + detail,
{
}

} // verus!
