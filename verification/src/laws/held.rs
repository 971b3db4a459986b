//! What values say of what they hold.

use vstd::prelude::*;

use crate::argmap::LabelError;
use crate::cli::CommandError;
use crate::cli::Hitch;
use crate::cli::MissingSetting;
use crate::cli::Outcome;
use crate::cli::Setting;
use crate::client::gateway;
use crate::client::gateway::ClientError;
use crate::client::gateway::Header;
use crate::client::gateway::Method;
use crate::client::gateway::Reply;
use crate::client::gateway::Request;
use crate::client::gateway::Target;
use crate::client::gateway::Tls;
use crate::client::mint::CreateKeyReq;
use crate::json;
use crate::json::Doc;
use crate::json::Json;
use crate::labels;
use crate::labels::Labels;
use crate::record;
use crate::record::Field;
use crate::text;
use crate::wire::DecodeError;
use crate::wire::Fault;
use crate::wire::Wire;

verus! {

/// A setting is taken as it is given: from its flag, else from its variable, an empty value
/// included. It is missing only where neither is given.
pub proof fn law_settings_are_taken_as_given(setting: Setting)
    ensures
        setting.flag is Some ==> setting.value() == setting.flag,
        setting.flag is None ==> setting.value() == setting.variable,
        setting.value() is None <==> setting.flag is None && setting.variable is None,
{
}

/// A flag is told in words, an optional text is the text where there is one, and a list of texts
/// has the text of each of its items, in order.
pub proof fn law_texts_are_those_of_the_strings(
    s: String,
    list: Vec<String>,
    pairs: Seq<(String, String)>,
)
    ensures
        text::bool_word(true) == "true"@,
        text::bool_word(false) == "false"@,
        text::opt_text(Some(s)) == Some(s@),
        text::opt_text(None) is None,
        text::texts(list@).len() == list@.len(),
        forall|i: int| 0 <= i < list@.len() ==> #[trigger] text::texts(list@)[i] == list@[i]@,
        text::opt_texts(Some(list)) == Some(text::texts(list@)),
        text::opt_texts(None) is None,
        labels::pair_texts(pairs).len() == pairs.len(),
        forall|i: int|
            0 <= i < pairs.len() ==> #[trigger] labels::pair_texts(pairs)[i] == (
                pairs[i].0@,
                pairs[i].1@,
            ),
{
}

/// A document says what it holds, part by part.
pub proof fn law_documents_say_what_they_hold(
    b: bool,
    n: u64,
    m: i64,
    s: String,
    complaint: String,
    list: Vec<Json>,
    members: Vec<(String, Json)>,
)
    ensures
        Json::Null@ == Doc::Null,
        Json::Bool(b)@ == Doc::Bool(b),
        Json::Unsigned(n)@ == Doc::Unsigned(n as nat),
        Json::Negative(m)@ == Doc::Negative(m as int),
        Json::Float(s)@ == Doc::Float(s@),
        Json::Text(s)@ == Doc::Text(s@),
        (Json::Unread { text: s, complaint })@ == (Doc::Unread {
            text: s@,
            complaint: complaint@,
        }),
        Json::Array(list)@ is Array,
        Json::Array(list)@->Array_0.len() == list@.len(),
        forall|i: int|
            0 <= i < list@.len() ==> #[trigger] Json::Array(list)@->Array_0[i] == list@[i]@,
        Json::Object(members)@ is Object,
        Json::Object(members)@->Object_0.len() == members@.len(),
        forall|i: int|
            0 <= i < members@.len() ==> #[trigger] Json::Object(members)@->Object_0[i] == (
                members@[i].0@,
                members@[i].1@,
            ),
{
    json::lemma_views();
}

/// The part that is complained of is the first one that was passed over, at any depth: nothing
/// but such a part is complained of, and what stands before it is read.
pub proof fn law_first_unread_part_is_told(
    list: Seq<Doc>,
    members: Seq<(Seq<char>, Doc)>,
    k: int,
    s: Seq<char>,
    complaint: Seq<char>,
)
    ensures
        json::unread_part(Doc::Unread { text: s, complaint }) == Some(complaint),
        json::unread_part(Doc::Text(s)) is None,
        json::unread_part(Doc::Float(s)) is None,
        (forall|i: int| 0 <= i < list.len() ==> json::unread_part(#[trigger] list[i]) is None)
            ==> json::unread_part(Doc::Array(list)) is None,
        0 <= k < list.len() && json::unread_part(list[k]) is Some && (forall|i: int|
            0 <= i < k ==> json::unread_part(#[trigger] list[i]) is None) ==> json::unread_part(
            Doc::Array(list),
        ) == json::unread_part(list[k]),
        (forall|i: int|
            0 <= i < members.len() ==> json::unread_part((#[trigger] members[i]).1) is None)
            ==> json::unread_part(Doc::Object(members)) is None,
        0 <= k < members.len() && json::unread_part(members[k].1) is Some && (forall|i: int|
            0 <= i < k ==> json::unread_part((#[trigger] members[i]).1) is None)
            ==> json::unread_part(Doc::Object(members)) == json::unread_part(members[k].1),
{
    reveal_with_fuel(json::unread_part, 2);
    lemma_unread_items(list, 0, list.len() as int);
    lemma_unread_members(members, 0, members.len() as int);
    if 0 <= k < list.len() {
        lemma_unread_items(list, 0, k);
    }
    if 0 <= k < members.len() {
        lemma_unread_members(members, 0, k);
    }
}

proof fn lemma_unread_items(list: Seq<Doc>, from: int, k: int)
    requires
        0 <= from <= k <= list.len(),
    ensures
        (forall|i: int| from <= i < k ==> json::unread_part(#[trigger] list[i]) is None)
            ==> json::unread_item(list, from) == json::unread_item(list, k),
    decreases k - from,
{
    reveal_with_fuel(json::unread_item, 2);
    if from < k {
        lemma_unread_items(list, from + 1, k);
    }
}

proof fn lemma_unread_members(members: Seq<(Seq<char>, Doc)>, from: int, k: int)
    requires
        0 <= from <= k <= members.len(),
    ensures
        (forall|i: int| from <= i < k ==> json::unread_part((#[trigger] members[i]).1) is None)
            ==> json::unread_member(members, from) == json::unread_member(members, k),
    decreases k - from,
{
    reveal_with_fuel(json::unread_member, 2);
    if from < k {
        lemma_unread_members(members, from + 1, k);
    }
}

/// A part that was passed over is refused with its own complaint, whatever it is read as.
pub proof fn law_unread_parts_are_refused<T: Wire>(
    s: Seq<char>,
    complaint: Seq<char>,
    name: Seq<char>,
    fields: Seq<Field>,
)
    ensures
        ({
            let d = Doc::Unread { text: s, complaint };
            let refused = Err::<Doc, Fault>(Fault::Unread(complaint));
            &&& String::canon(d) == refused
            &&& bool::canon(d) == refused
            &&& u64::canon(d) == refused
            &&& u16::canon(d) == refused
            &&& usize::canon(d) == refused
            &&& Vec::<T>::canon(d) == refused
            &&& Labels::canon(d) == refused
            &&& Json::canon(d) == refused
            &&& record::record(name, fields, d) == refused
        }),
{
    reveal_with_fuel(json::unread_part, 2);
}

/// A request says its method, its address, its headers, its body and its kind of reply.
pub proof fn law_requests_say_what_they_hold(r: Request, h: Header)
    ensures
        r@.method == r.method,
        r@.url == r.url@,
        r@.reply == r.reply,
        r.body is None ==> r@.body is None,
        r.body is Some ==> r@.body == Some(r.body->0@),
        r@.headers.len() == r.headers@.len(),
        forall|i: int| 0 <= i < r.headers@.len() ==> #[trigger] r@.headers[i] == r.headers@[i]@,
        h@.name == h.name@,
        h@.value == h.value@,
        h@.sensitive == h.sensitive,
{
}

/// A request is made up of what it is asked to be: its method, an address that is the endpoint,
/// the admin API and the path behind each other, the token, and the body as it is given.
pub proof fn law_requests_are_made_up_as_asked(
    method: Method,
    target: Target,
    rel: Seq<char>,
    body: Option<Doc>,
)
    ensures
        ({
            let call = gateway::call(method, target, rel, body);
            &&& call.method == method
            &&& call.url == target.endpoint + "/api/v1/admin"@ + rel
            &&& call.body == body
            &&& call.reply == Reply::View
            &&& call.headers.len() == 2
            &&& call.headers[0].name == "x-admin-token"@
            &&& call.headers[0].value == target.token
            &&& call.headers[0].sensitive
            &&& call.headers[1].name == "authorization"@
            &&& call.headers[1].value == "Bearer "@ + target.token
            &&& call.headers[1].sensitive
        }),
        gateway::get_call(target, rel) == gateway::call(Method::Get, target, rel, None),
        gateway::post_call(target, rel, body) == gateway::call(Method::Post, target, rel, body),
{
    assert(gateway::ADMIN_PREFIX@ == "/api/v1/admin"@);
}

/// What can be sent in a header is settled character by character: a tab can, and whatever is no
/// control character.
pub proof fn law_header_values_are_checked_by_character(a: Seq<char>, b: Seq<char>, c: char)
    ensures
        gateway::header_safe(Seq::empty()),
        gateway::header_safe(a + b) <==> gateway::header_safe(a) && gateway::header_safe(b),
        gateway::header_safe(seq![c]) <==> c == '\t' || (' ' <= c && c != '\x7f'),
{
    let whole = a + b;
    if gateway::header_safe(whole) {
        assert forall|i: int| 0 <= i < a.len() implies ({
            let x = #[trigger] a[i] as int;
            x == 9 || (x >= 32 && x != 127)
        }) by {
            assert(a[i] == whole[i]);
        }
        assert forall|i: int| 0 <= i < b.len() implies ({
            let x = #[trigger] b[i] as int;
            x == 9 || (x >= 32 && x != 127)
        }) by {
            assert(b[i] == whole[a.len() + i]);
        }
    }
    assert(seq![c][0] == c);
}

/// Client certificate and client key go together, whatever else secures the connection.
pub proof fn law_certificate_and_key_go_together(tls: Tls)
    ensures
        tls.paired() <==> ((tls.client_cert is Some && tls.client_key is Some) || (
        tls.client_cert is None && tls.client_key is None)),
{
}

/// The messages of errors tell what is at fault.
pub proof fn law_errors_tell_what_is_at_fault(complaint: String, label: LabelError)
    ensures
        (ClientError::Token { complaint }).text()
            == "admin token contains characters invalid for an HTTP header: "@ + complaint@,
        ClientError::Identity.text()
            == "--client-cert and --client-key must be provided together (mTLS)"@,
        label.text() == "--label must be KEY=VALUE, got "@ + text::quoted(label.pair@),
        MissingSetting::Endpoint.text()
            == "no endpoint: pass --endpoint or set BUSBAR_ENDPOINT (e.g. http://localhost:8081)"@,
        MissingSetting::Token.text()
            == "no admin token: pass --token or set BUSBAR_ADMIN_TOKEN"@,
{
}

/// What hinders a command says the label, or the file and the complaint about it.
pub proof fn law_hitches_say_what_they_hold(label: LabelError, path: String, complaint: String)
    ensures
        CommandError::Label(label)@ == Hitch::Label(label.pair@),
        CommandError::NoFilename@ == Hitch::NoFilename,
        (CommandError::Config { path, complaint })@ == (Hitch::Config {
            path: path@,
            complaint: complaint@,
        }),
{
}

/// An outcome says its document, its text and its complaint.
pub proof fn law_outcomes_say_what_they_hold(o: Outcome)
    ensures
        o.document is None ==> o@.document is None,
        o.document is Some ==> o@.document == Some(o.document->0@),
        o@.text == o.text@,
        o.failure is None ==> o@.failure is None,
        o.failure is Some ==> o@.failure == Some(o.failure->0@),
{
}

/// A fault says the field, what was found and what was expected, and where.
pub proof fn law_faults_say_what_they_hold(s: String, t: String, n: usize, error: Box<DecodeError>)
    ensures
        (DecodeError::Missing { field: s })@ == Fault::Missing(s@),
        (DecodeError::Repeated { field: s, part: n })@ == (Fault::Repeated {
            field: s@,
            part: n as int,
        }),
        (DecodeError::Mistyped { found: s, expected: t })@ == (Fault::Mistyped {
            found: s@,
            expected: t@,
        }),
        (DecodeError::OutOfRange { found: s, expected: t })@ == (Fault::OutOfRange {
            found: s@,
            expected: t@,
        }),
        (DecodeError::Short { length: n, expected: t })@ == (Fault::Short {
            length: n as nat,
            expected: t@,
        }),
        (DecodeError::Trailing { part: n })@ == (Fault::Trailing { part: n as int }),
        (DecodeError::Unread { complaint: s })@ == Fault::Unread(s@),
        (DecodeError::Inside { part: n, error })@ == (Fault::Inside {
            part: n as int,
            fault: Box::new(error@),
        }),
{
    reveal_with_fuel(<DecodeError as View>::view, 2);
}

/// A request for a key says each of its fields.
pub proof fn law_mint_requests_say_what_they_hold(req: CreateKeyReq)
    ensures
        req@.name == req.name@,
        req.allowed_pools is None ==> req@.allowed_pools is None,
        req.allowed_pools is Some ==> req@.allowed_pools == Some(
            text::texts(req.allowed_pools->0@),
        ),
        req.group is None ==> req@.group is None,
        req.group is Some ==> req@.group == Some(req.group->0@),
        req.parent is None ==> req@.parent is None,
        req.parent is Some ==> req@.parent == Some(req.parent->0@),
        req.expires_in is None ==> req@.expires_in is None,
        req.expires_in is Some ==> req@.expires_in == Some(req.expires_in->0@),
        req.expires_at is None ==> req@.expires_at is None,
        req.expires_at is Some ==> req@.expires_at == Some(req.expires_at->0 as nat),
        req@.labels == req.labels@,
        req@.issue_aws_credential == req.issue_aws_credential,
{
}

} // verus!
