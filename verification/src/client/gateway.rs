//! The connection to a gateway: where it is, how requests to it are made up, and what is made of
//! the statuses that it answers with.

use vstd::prelude::*;

use crate::client::errors::ErrorEnvelope;
use crate::client::mint::CreateKeyReq;
use crate::client::upload;
use crate::client::upload::InspectPluginReq;
use crate::client::upload::InstallPluginReq;
use crate::json::Doc;
use crate::json::Json;
use crate::text;
use crate::wire::Fault;
use crate::wire::Wire;

verus! {

/// `std::path::PathBuf`, carried through unread.
#[verifier::external_type_specification]
#[verifier::external_body]
pub struct ExPathBuf(std::path::PathBuf);

/// Whether a text can be the value of an HTTP header: it holds no control character but the tab.
pub open spec fn header_safe(value: Seq<char>) -> bool {
    forall|i: int|
        0 <= i < value.len() ==> {
            let c = #[trigger] value[i] as int;
            c == 9 || (c >= 32 && c != 127)
        }
}

/// `reqwest::header::HeaderValue::from_str`, its error as text.
///
/// Trusted: that it takes exactly the texts without a control character other than the tab, and
/// what it says of any other.
#[verifier::external_body]
fn check_header(value: &str) -> (checked: Result<(), String>)
    ensures
        match checked {
            Ok(_) => header_safe(value@),
            Err(complaint) => !header_safe(value@) && complaint@ == "failed to parse header value"@,
        },
{
    match reqwest::header::HeaderValue::from_str(value) {
        Ok(_) => Ok(()),
        Err(e) => Err(e.to_string()),
    }
}

/// The reason phrase of an HTTP status code, or a placeholder where it has none.
pub uninterp spec fn reason_phrase(code: u16) -> Seq<char>;

/// An HTTP status: its code and its reason phrase.
pub open spec fn status_words(code: u16) -> Seq<char> {
    text::decimal(code as nat) + " "@ + reason_phrase(code)
}

/// The text of `reqwest::StatusCode::from_u16`, by its `Display`.
///
/// Trusted: that it is the code, a space and a phrase that depends on the code alone. Which
/// phrase a code has is left unsaid.
#[verifier::external_body]
fn status_text(code: u16) -> (text: String)
    requires
        100 <= code <= 999,
    ensures
        text@ == text::decimal(code as nat) + " "@ + reason_phrase(code),
{
    reqwest::StatusCode::from_u16(code).unwrap().to_string()
}

/// Where the admin API lives under the address of a gateway.
pub const ADMIN_PREFIX: &'static str = "/api/v1/admin";

/// How long a request may take, in seconds.
pub const TIMEOUT_SECS: u64 = 30;

/// What the client calls itself.
pub const USER_AGENT: &'static str = "busbar-admin/0.1.0";

/// How the connection is secured. The certificates are paths of PEM files.
pub struct Tls {
    /// Take any certificate of the gateway.
    pub insecure: bool,
    /// A private authority to trust.
    pub ca_cert: Option<std::path::PathBuf>,
    pub client_cert: Option<std::path::PathBuf>,
    pub client_key: Option<std::path::PathBuf>,
}

impl Default for Tls {
    fn default() -> (tls: Tls)
        ensures
            !tls.insecure,
            tls.ca_cert is None,
            tls.client_cert is None,
            tls.client_key is None,
    {
        Tls { insecure: false, ca_cert: None, client_cert: None, client_key: None }
    }
}

/// Why no client can be set up.
#[derive(Debug)]
pub enum ClientError {
    /// The admin token cannot be sent.
    Token { complaint: String },
    /// One of client certificate and client key is given without the other.
    Identity,
}

impl ClientError {
    /// The message for the user.
    pub open spec fn text(&self) -> Seq<char> {
        match self {
            ClientError::Token { complaint } =>
                "admin token contains characters invalid for an HTTP header: "@ + complaint@,
            ClientError::Identity =>
                "--client-cert and --client-key must be provided together (mTLS)"@,
        }
    }

    /// The message for the user.
    pub fn message(&self) -> (text: String)
        ensures
            text@ == self.text(),
    {
        match self {
            ClientError::Token { complaint } => {
                let mut text: String =
                    "admin token contains characters invalid for an HTTP header: ".to_owned();
                text.append(complaint.as_str());
                text
            },
            ClientError::Identity =>
                "--client-cert and --client-key must be provided together (mTLS)".to_owned(),
        }
    }
}

impl Tls {
    /// Whether client certificate and client key are given together, or neither is.
    pub open spec fn paired(&self) -> bool {
        (self.client_cert is Some) == (self.client_key is Some)
    }

    /// The client certificate and key to show the gateway, if any: both are given or neither.
    pub fn identity(&self) -> (identity: Result<
        Option<(&std::path::PathBuf, &std::path::PathBuf)>,
        ClientError,
    >)
        ensures
            match identity {
                Ok(Some((cert, key))) => self.client_cert == Some(*cert) && self.client_key == Some(
                    *key,
                ),
                Ok(None) => self.client_cert is None && self.client_key is None,
                Err(e) => e is Identity && !self.paired(),
            },
    {
        match (&self.client_cert, &self.client_key) {
            (Some(cert), Some(key)) => Ok(Some((cert, key))),
            (None, None) => Ok(None),
            _ => Err(ClientError::Identity),
        }
    }
}

/// `reqwest::Certificate`, carried through unread.
#[verifier::external_type_specification]
#[verifier::external_body]
pub struct ExCertificate(reqwest::Certificate);

/// `reqwest::Identity`, carried through unread.
#[verifier::external_type_specification]
#[verifier::external_body]
pub struct ExIdentity(reqwest::Identity);

/// The certificate that `reqwest` reads in PEM text, or its complaint.
pub uninterp spec fn certificate_read(pem: Seq<u8>) -> Result<reqwest::Certificate, Seq<char>>;

/// The identity that `reqwest` reads in PEM text, or its complaint.
pub uninterp spec fn identity_read(pem: Seq<u8>) -> Result<reqwest::Identity, Seq<char>>;

/// `reqwest::Certificate::from_pem`, its error as text with what caused it.
///
/// Trusted: that what is read, or the complaint, depends on the bytes alone. Which bytes hold a
/// certificate is left unsaid: `rustls` looks at them only when a client is built.
#[verifier::external_body]
fn parse_certificate(pem: &[u8]) -> (certificate: Result<reqwest::Certificate, String>)
    ensures
        match certificate {
            Ok(c) => certificate_read(pem@) == Ok::<_, Seq<char>>(c),
            Err(complaint) => certificate_read(pem@) == Err::<reqwest::Certificate, _>(complaint@),
        },
{
    reqwest::Certificate::from_pem(pem).map_err(|e| format!("{:#}", anyhow::Error::new(e)))
}

/// `reqwest::Identity::from_pem`, its error as text with what caused it.
///
/// Trusted: that what is read, or the complaint, depends on the bytes alone. Which bytes hold an
/// identity is left unsaid.
#[verifier::external_body]
fn parse_identity(pem: &[u8]) -> (identity: Result<reqwest::Identity, String>)
    ensures
        match identity {
            Ok(i) => identity_read(pem@) == Ok::<_, Seq<char>>(i),
            Err(complaint) => identity_read(pem@) == Err::<reqwest::Identity, _>(complaint@),
        },
{
    reqwest::Identity::from_pem(pem).map_err(|e| format!("{:#}", anyhow::Error::new(e)))
}

/// Reads the private authority to trust; `path` is where `pem` was read from.
pub fn read_authority(path: &str, pem: &[u8]) -> (authority: Result<reqwest::Certificate, String>)
    ensures
        match authority {
            Ok(c) => certificate_read(pem@) == Ok::<_, Seq<char>>(c),
            Err(text) => certificate_read(pem@) is Err && text@ == "parsing --ca-cert "@ + path@
                + " as PEM: "@ + certificate_read(pem@)->Err_0,
        },
{
    match parse_certificate(pem) {
        Ok(certificate) => Ok(certificate),
        Err(complaint) => {
            let mut text: String = "parsing --ca-cert ".to_owned();
            text.append(path);
            text.append(" as PEM: ");
            text.append(complaint.as_str());
            Err(text)
        },
    }
}

/// Reads the identity to show the gateway: the certificate, a line break and the key, as one PEM
/// text.
pub fn read_identity(cert: Vec<u8>, key: Vec<u8>) -> (identity: Result<reqwest::Identity, String>)
    ensures
        ({
            let read = identity_read(cert@ + seq![10u8] + key@);
            match identity {
                Ok(i) => read == Ok::<_, Seq<char>>(i),
                Err(text) => read is Err && text@
                    == "parsing --client-cert / --client-key as a PEM identity: "@ + read->Err_0,
            }
        }),
{
    match parse_identity(identity_pem(cert, key).as_slice()) {
        Ok(identity) => Ok(identity),
        Err(complaint) => {
            let mut text: String =
                "parsing --client-cert / --client-key as a PEM identity: ".to_owned();
            text.append(complaint.as_str());
            Err(text)
        },
    }
}

/// The PEM text of a client identity: the certificate, a line break and the key.
pub fn identity_pem(cert: Vec<u8>, key: Vec<u8>) -> (pem: Vec<u8>)
    ensures
        pem@ == cert@ + seq![10u8] + key@,
{
    let mut pem: Vec<u8> = cert;
    let mut rest: Vec<u8> = key;
    pem.push(10);
    pem.append(&mut rest);
    proof {
        assert(pem@ =~= cert@ + seq![10u8] + key@);
    }
    pem
}

/// `s` without the slashes at its end.
pub open spec fn without_slashes(s: Seq<char>) -> Seq<char>
    decreases s.len(),
{
    if s.len() > 0 && s.last() == '/' {
        without_slashes(s.drop_last())
    } else {
        s
    }
}

fn trim_slashes(s: &str) -> (trimmed: String)
    ensures
        trimmed@ == without_slashes(s@),
{
    let mut n: usize = s.unicode_len();
    proof {
        assert(s@.take(n as int) =~= s@);
    }
    while n > 0 && s.get_char(n - 1) == '/'
        invariant
            n <= s@.len(),
            without_slashes(s@) == without_slashes(s@.take(n as int)),
        decreases n,
    {
        proof {
            assert(s@.take(n as int).drop_last() =~= s@.take(n - 1));
        }
        n = n - 1;
    }
    proof {
        assert(s@.subrange(0, n as int) =~= s@.take(n as int));
    }
    s.substring_char(0, n).to_owned()
}

/// The HTTP methods of the admin API.
#[derive(Debug, Clone, Copy, PartialEq, Eq, Structural)]
pub enum Method {
    Get,
    Post,
    Delete,
}

/// What a successful request is answered with.
#[derive(Debug, Clone, Copy, PartialEq, Eq, Structural)]
pub enum Reply {
    /// A document that is read into a view.
    View,
    /// A document that is passed on as it is.
    Raw,
    /// Nothing.
    Nothing,
}

/// A header of a request.
#[derive(PartialEq, Eq)]
pub struct Header {
    pub name: &'static str,
    pub value: String,
    /// Whether the value is kept out of what is printed of the request.
    pub sensitive: bool,
}

/// What a header says.
pub struct Line {
    pub name: Seq<char>,
    pub value: Seq<char>,
    pub sensitive: bool,
}

impl View for Header {
    type V = Line;

    open spec fn view(&self) -> Line {
        Line { name: self.name@, value: self.value@, sensitive: self.sensitive }
    }
}

/// The headers that authenticate a request: the token in both forms that a gateway takes it in,
/// sensitive both.
pub open spec fn token_headers(token: Seq<char>) -> Seq<Line> {
    seq![
        Line { name: "x-admin-token"@, value: token, sensitive: true },
        Line { name: "authorization"@, value: "Bearer "@ + token, sensitive: true },
    ]
}

/// A request to make.
#[derive(PartialEq, Eq)]
pub struct Request {
    pub method: Method,
    pub url: String,
    pub headers: Vec<Header>,
    pub body: Option<Json>,
    pub reply: Reply,
}

/// What a request says.
pub struct Call {
    pub method: Method,
    pub url: Seq<char>,
    pub headers: Seq<Line>,
    pub body: Option<Doc>,
    pub reply: Reply,
}

impl View for Request {
    type V = Call;

    open spec fn view(&self) -> Call {
        Call {
            method: self.method,
            url: self.url@,
            headers: self.headers@.map_values(|h: Header| h@),
            body: match self.body {
                Some(j) => Some(j@),
                None => None,
            },
            reply: self.reply,
        }
    }
}

/// The address of `rel` under the admin API of the gateway at `endpoint`.
pub open spec fn admin_url(endpoint: Seq<char>, rel: Seq<char>) -> Seq<char> {
    endpoint + ADMIN_PREFIX@ + rel
}

/// Where requests go and what authenticates them.
pub struct Target {
    /// The address of the gateway, without slashes at its end.
    pub endpoint: Seq<char>,
    /// The admin token.
    pub token: Seq<char>,
}

/// A request for a view.
pub open spec fn call(method: Method, target: Target, rel: Seq<char>, body: Option<Doc>) -> Call {
    Call {
        method,
        url: admin_url(target.endpoint, rel),
        headers: token_headers(target.token),
        body,
        reply: Reply::View,
    }
}

/// A request for a view, without a body.
pub open spec fn get_call(target: Target, rel: Seq<char>) -> Call {
    call(Method::Get, target, rel, None)
}

/// A posted request for a view.
pub open spec fn post_call(target: Target, rel: Seq<char>, body: Option<Doc>) -> Call {
    call(Method::Post, target, rel, body)
}

/// What an error body says, as `code: message`, where it is an error envelope.
pub open spec fn envelope_detail(document: Option<Doc>) -> Option<Seq<char>> {
    match document {
        Some(d) => match ErrorEnvelope::canon(d) {
            Ok(envelope) => {
                let detail = envelope->Object_0[0].1;
                Some(detail->Object_0[0].1->Text_0 + ": "@ + detail->Object_0[1].1->Text_0)
            },
            Err(_) => None,
        },
        None => None,
    }
}

/// The detail of an error, set off by a dash.
pub open spec fn dashed(detail: Option<Seq<char>>) -> Seq<char> {
    match detail {
        Some(d) => " — "@ + d,
        None => Seq::empty(),
    }
}

/// What is said of a request that the gateway refused with this status and body; `document` is
/// what the body is read as, where it is JSON.
pub open spec fn refusal_text(status: u16, body: Seq<char>, document: Option<Doc>) -> Seq<char> {
    let detail = envelope_detail(document);
    if status == 401 {
        "admin token rejected ("@ + status_words(status) + ")"@ + dashed(detail)
    } else if status == 403 {
        "admin token lacks the required scope ("@ + status_words(status) + ")"@ + dashed(detail)
    } else {
        match detail {
            Some(d) => "gateway returned "@ + status_words(status) + ": "@ + d,
            None => if body.len() == 0 {
                "gateway returned "@ + status_words(status)
            } else {
                "gateway returned "@ + status_words(status) + ": "@ + body
            },
        }
    }
}

/// What is said of a request that got no answer.
pub open spec fn unanswered_text(
    endpoint: Seq<char>,
    is_connect: bool,
    is_timeout: bool,
    detail: Seq<char>,
) -> Seq<char> {
    if is_connect {
        "no gateway reachable at "@ + endpoint + " (connection failed): "@ + detail
    } else if is_timeout {
        "request to "@ + endpoint + " timed out"@
    } else {
        "request to "@ + endpoint + " failed: "@ + detail
    }
}

/// The admin client: the address of a gateway, the admin token and how to secure the connection.
pub struct Client {
    base: String,
    endpoint: String,
    token: String,
    tls: Tls,
}

impl View for Client {
    type V = Target;

    closed spec fn view(&self) -> Target {
        Target { endpoint: self.endpoint@, token: self.token@ }
    }
}

impl Client {
    /// How the connection is secured.
    pub closed spec fn security(&self) -> Tls {
        self.tls
    }

    #[verifier::type_invariant]
    spec fn inv(&self) -> bool {
        &&& self.base@ == self.endpoint@ + ADMIN_PREFIX@
        &&& header_safe(self.token@)
        &&& self.tls.paired()
    }

    /// Sets up a client. `endpoint` is the address of the gateway, such as
    /// `http://localhost:8081`. A token that cannot be sent is told before an incomplete identity.
    pub fn new(endpoint: &str, token: &str, tls: Tls) -> (client: Result<Client, ClientError>)
        ensures
            match client {
                Ok(c) => {
                    &&& header_safe(token@)
                    &&& tls.paired()
                    &&& c@ == Target { endpoint: without_slashes(endpoint@), token: token@ }
                    &&& c.security() == tls
                },
                Err(ClientError::Token { complaint }) => !header_safe(token@) && complaint@
                    == "failed to parse header value"@,
                Err(ClientError::Identity) => header_safe(token@) && !tls.paired(),
            },
    {
        if let Err(complaint) = check_header(token) {
            return Err(ClientError::Token { complaint });
        }
        tls.identity()?;
        let endpoint: String = trim_slashes(endpoint);
        let mut base: String = endpoint.clone();
        base.append(ADMIN_PREFIX);
        Ok(Client { base, endpoint, token: token.to_owned(), tls })
    }

    /// How to secure the connection.
    pub fn tls(&self) -> (tls: &Tls)
        ensures
            *tls == self.security(),
            tls.paired(),
    {
        proof {
            use_type_invariant(self);
        }
        &self.tls
    }

    /// The headers of every request. Their values can be sent.
    pub fn headers(&self) -> (headers: Vec<Header>)
        ensures
            headers@.map_values(|h: Header| h@) == token_headers(self@.token),
            forall|i: int| 0 <= i < headers@.len() ==> header_safe((#[trigger] headers@[i]).value@),
    {
        proof {
            use_type_invariant(self);
            lemma_bearer_is_safe(self@.token);
        }
        let mut bearer: String = "Bearer ".to_owned();
        bearer.append(self.token.as_str());
        let mut headers: Vec<Header> = Vec::new();
        headers.push(
            Header { name: "x-admin-token", value: self.token.clone(), sensitive: true },
        );
        headers.push(Header { name: "authorization", value: bearer, sensitive: true });
        proof {
            assert(headers@.map_values(|h: Header| h@) =~= token_headers(self@.token));
        }
        headers
    }

    /// The address of `rel`.
    fn url(&self, rel: &str) -> (url: String)
        ensures
            url@ == admin_url(self@.endpoint, rel@),
    {
        proof {
            use_type_invariant(self);
        }
        let mut url: String = self.base.clone();
        url.append(rel);
        url
    }

    fn request(&self, method: Method, rel: &str, body: Option<Json>, reply: Reply) -> (request:
        Request)
        ensures
            request@ == (Call {
                reply,
                ..call(
                    method,
                    self@,
                    rel@,
                    match body {
                        Some(j) => Some(j@),
                        None => None,
                    },
                )
            }),
    {
        Request { method, url: self.url(rel), headers: self.headers(), body, reply }
    }

    /// What to tell of a request that got no answer; `detail` is what the transport says.
    pub fn transport_error(&self, is_connect: bool, is_timeout: bool, detail: &str) -> (text:
        String)
        ensures
            text@ == unanswered_text(self@.endpoint, is_connect, is_timeout, detail@),
    {
        if is_connect {
            let mut text: String = "no gateway reachable at ".to_owned();
            text.append(self.endpoint.as_str());
            text.append(" (connection failed): ");
            text.append(detail);
            text
        } else if is_timeout {
            let mut text: String = "request to ".to_owned();
            text.append(self.endpoint.as_str());
            text.append(" timed out");
            text
        } else {
            let mut text: String = "request to ".to_owned();
            text.append(self.endpoint.as_str());
            text.append(" failed: ");
            text.append(detail);
            text
        }
    }

    /// Takes a successful status, and turns any other into a message with what the body says.
    /// `document` is what the body is read as, where it is JSON.
    pub fn check_status(&self, status: u16, body: &str, document: Option<&Json>) -> (checked:
        Result<(), String>)
        requires
            100 <= status <= 999,
        ensures
            match checked {
                Ok(_) => 200 <= status < 300,
                Err(text) => !(200 <= status < 300) && text@ == refusal_text(
                    status,
                    body@,
                    match document {
                        Some(j) => Some(j@),
                        None => None,
                    },
                ),
            },
    {
        if status >= 200 && status < 300 {
            return Ok(());
        }
        let detail: Option<String> = match document {
            Some(json) => match ErrorEnvelope::from_json(json) {
                Ok(envelope) => {
                    proof {
                        assert(envelope.doc()->Object_0[0].1 == envelope.error.doc());
                        assert(envelope.error.doc()->Object_0[0].1 == envelope.error.code.doc());
                        assert(envelope.error.doc()->Object_0[1].1 == envelope.error.message.doc());
                    }
                    let mut detail: String = envelope.error.code.clone();
                    detail.append(": ");
                    detail.append(envelope.error.message.as_str());
                    Some(detail)
                },
                Err(_) => None,
            },
            None => None,
        };
        let mut text: String = if status == 401 {
            "admin token rejected (".to_owned()
        } else if status == 403 {
            "admin token lacks the required scope (".to_owned()
        } else {
            "gateway returned ".to_owned()
        };
        text.append(status_text(status).as_str());
        if status == 401 || status == 403 {
            text.append(")");
            let mut note: String = String::new();
            if let Some(d) = detail {
                note = " — ".to_owned();
                note.append(d.as_str());
            }
            text.append(note.as_str());
        } else if let Some(d) = detail {
            text.append(": ");
            text.append(d.as_str());
        } else if !body.is_empty() {
            text.append(": ");
            text.append(body);
        }
        Err(text)
    }

    /// A request for a view.
    pub fn get(&self, rel: &str) -> (request: Request)
        ensures
            request@ == get_call(self@, rel@),
    {
        self.request(Method::Get, rel, None, Reply::View)
    }

    /// A request for a document as it is.
    pub fn get_raw(&self, rel: &str) -> (request: Request)
        ensures
            request@ == (Call { reply: Reply::Raw, ..get_call(self@, rel@) }),
    {
        self.request(Method::Get, rel, None, Reply::Raw)
    }

    /// A request with a body, or none, for a view.
    pub fn send(&self, method: Method, rel: &str, body: Option<Json>) -> (request: Request)
        ensures
            request@ == call(
                method,
                self@,
                rel@,
                match body {
                    Some(j) => Some(j@),
                    None => None,
                },
            ),
    {
        self.request(method, rel, body, Reply::View)
    }

    /// A request that is answered with nothing.
    pub fn send_no_content(&self, method: Method, rel: &str) -> (request: Request)
        ensures
            request@ == (Call { reply: Reply::Nothing, ..call(method, self@, rel@, None) }),
    {
        self.request(method, rel, None, Reply::Nothing)
    }

    /// `GET /info`: version, uptime, build and topology.
    pub fn info(&self) -> (request: Request)
        ensures
            request@ == get_call(self@, "/info"@),
    {
        self.get("/info")
    }

    /// `GET /keys`: the first page of keys.
    pub fn list_keys(&self) -> (request: Request)
        ensures
            request@ == get_call(self@, "/keys"@),
    {
        self.get("/keys")
    }

    /// `POST /keys`: mints a key.
    pub fn create_key(&self, req: &CreateKeyReq) -> (request: Request)
        ensures
            request@ == post_call(self@, "/keys"@, Some(Doc::Object(req@.members()))),
    {
        self.send(Method::Post, "/keys", Some(req.to_json()))
    }

    /// `GET /keys/{id}`: one key's metadata.
    pub fn get_key(&self, id: &str) -> (request: Request)
        ensures
            request@ == get_call(self@, "/keys/"@ + id@),
    {
        let mut rel: String = "/keys/".to_owned();
        rel.append(id);
        self.get(rel.as_str())
    }

    /// `POST /keys/{id}/revoke`: denylists a key and keeps its record.
    pub fn revoke_key(&self, id: &str) -> (request: Request)
        ensures
            request@ == post_call(self@, "/keys/"@ + id@ + "/revoke"@, None),
    {
        let mut rel: String = "/keys/".to_owned();
        rel.append(id);
        rel.append("/revoke");
        self.send(Method::Post, rel.as_str(), None)
    }

    /// `POST /keys/{id}/rotate`: mints a fresh credential for a key.
    pub fn rotate_key(&self, id: &str) -> (request: Request)
        ensures
            request@ == post_call(self@, "/keys/"@ + id@ + "/rotate"@, None),
    {
        let mut rel: String = "/keys/".to_owned();
        rel.append(id);
        rel.append("/rotate");
        self.send(Method::Post, rel.as_str(), None)
    }

    /// `DELETE /keys/{id}`: revokes and forgets a key.
    pub fn delete_key(&self, id: &str) -> (request: Request)
        ensures
            request@ == (Call {
                reply: Reply::Nothing,
                ..call(Method::Delete, self@, "/keys/"@ + id@, None)
            }),
    {
        let mut rel: String = "/keys/".to_owned();
        rel.append(id);
        self.send_no_content(Method::Delete, rel.as_str())
    }

    /// `GET /plugins?type=`: the catalog of one type of plugin.
    pub fn list_plugins(&self, plugin_type: &str) -> (request: Request)
        ensures
            request@ == get_call(self@, "/plugins?type="@ + plugin_type@),
    {
        let mut rel: String = "/plugins?type=".to_owned();
        rel.append(plugin_type);
        self.get(rel.as_str())
    }

    /// `POST /plugins`: installs a plugin.
    pub fn install_plugin(&self, req: &InstallPluginReq) -> (request: Request)
        ensures
            request@ == post_call(
                self@,
                "/plugins"@,
                Some(Doc::Object(upload::upload_members(req.file@, req.tarball_b64@))),
            ),
    {
        self.send(Method::Post, "/plugins", Some(req.to_json()))
    }

    /// `POST /plugins/inspect`: looks into a plugin without installing it.
    pub fn inspect_plugin(&self, req: &InspectPluginReq) -> (request: Request)
        ensures
            request@ == post_call(
                self@,
                "/plugins/inspect"@,
                Some(Doc::Object(upload::upload_members(req.file@, req.tarball_b64@))),
            ),
    {
        self.send(Method::Post, "/plugins/inspect", Some(req.to_json()))
    }

    /// `POST /plugins/reload`: scans the plugins directory again.
    pub fn reload_plugins(&self) -> (request: Request)
        ensures
            request@ == post_call(self@, "/plugins/reload"@, None),
    {
        self.send(Method::Post, "/plugins/reload", None)
    }

    /// `GET /hooks`: the first page of the hook registry.
    pub fn list_hooks(&self) -> (request: Request)
        ensures
            request@ == get_call(self@, "/hooks"@),
    {
        self.get("/hooks")
    }

    /// `GET /config`: the effective running config.
    pub fn config(&self) -> (request: Request)
        ensures
            request@ == (Call { reply: Reply::Raw, ..get_call(self@, "/config"@) }),
    {
        self.get_raw("/config")
    }

    /// `POST /config/apply`: applies a whole config.
    pub fn config_apply(&self, body: Json) -> (request: Request)
        ensures
            request@ == post_call(self@, "/config/apply"@, Some(body@)),
    {
        self.send(Method::Post, "/config/apply", Some(body))
    }
}

/// A token that can be a header value can be one behind `Bearer` too.
proof fn lemma_bearer_is_safe(token: Seq<char>)
    requires
        header_safe(token),
    ensures
        header_safe("Bearer "@ + token),
{
    reveal_strlit("Bearer ");
    let value = "Bearer "@ + token;
    assert("Bearer "@.len() == 7);
    assert forall|i: int| 0 <= i < value.len() implies {
        let c = #[trigger] value[i] as int;
        c == 9 || (c >= 32 && c != 127)
    } by {
        if i >= 7 {
            assert(value[i] == token[i - 7]);
        }
    }
}

/// Slashes at the end of an address make no difference.
pub proof fn law_slashes_make_no_difference(endpoint: Seq<char>)
    ensures
        without_slashes(endpoint.push('/')) == without_slashes(endpoint),
        without_slashes(without_slashes(endpoint)) == without_slashes(endpoint),
        without_slashes(endpoint).is_prefix_of(endpoint),
        without_slashes(endpoint).len() > 0 ==> without_slashes(endpoint).last() != '/',
    decreases endpoint.len(),
{
    assert(endpoint.push('/').drop_last() =~= endpoint);
    if endpoint.len() > 0 && endpoint.last() == '/' {
        law_slashes_make_no_difference(endpoint.drop_last());
    }
}

/// A refusal that carries an error envelope is told with its code and message, verbatim and at the
/// end, whatever else the body holds.
pub proof fn law_refusals_carry_the_envelope(
    status: u16,
    body: Seq<char>,
    document: Doc,
    envelope: ErrorEnvelope,
)
    requires
        ErrorEnvelope::canon(document) == Ok::<Doc, Fault>(envelope.doc()),
    ensures
        (envelope.error.code@ + ": "@ + envelope.error.message@).is_suffix_of(
            refusal_text(status, body, Some(document)),
        ),
{
    let detail = envelope.error.code@ + ": "@ + envelope.error.message@;
    assert(envelope.doc()->Object_0[0].1 == envelope.error.doc());
    assert(envelope.error.doc()->Object_0[0].1 == envelope.error.code.doc());
    assert(envelope.error.doc()->Object_0[1].1 == envelope.error.message.doc());
    assert(envelope_detail(Some(document)) == Some(detail));
    let told = refusal_text(status, body, Some(document));
    let lead = if status == 401 {
        "admin token rejected ("@ + status_words(status) + ")"@ + " — "@
    } else if status == 403 {
        "admin token lacks the required scope ("@ + status_words(status) + ")"@ + " — "@
    } else {
        "gateway returned "@ + status_words(status) + ": "@
    };
    assert(told =~= lead + detail);
    assert(told.skip(told.len() - detail.len()) =~= detail);
}

/// A rejected token and a missing scope are told by words of their own, whatever the body holds;
/// any other refusal is told by its status.
pub proof fn law_refusals_are_told_apart(status: u16, body: Seq<char>, document: Option<Doc>)
    ensures
        ({
            let told = refusal_text(status, body, document);
            if status == 401 {
                "admin token rejected ("@.is_prefix_of(told)
            } else if status == 403 {
                "admin token lacks the required scope ("@.is_prefix_of(told)
            } else {
                ("gateway returned "@ + status_words(status)).is_prefix_of(told)
            }
        }),
{
    let told = refusal_text(status, body, document);
    let head = if status == 401 {
        "admin token rejected ("@
    } else if status == 403 {
        "admin token lacks the required scope ("@
    } else {
        "gateway returned "@ + status_words(status)
    };
    assert(told.take(head.len() as int) =~= head);
}

} // verus!
