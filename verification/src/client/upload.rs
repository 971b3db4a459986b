//! The requests that upload a plugin tarball.

use vstd::prelude::*;

use crate::json::Doc;
use crate::json::Json;
use crate::record::Writer;
use crate::wire::Wire;

verus! {

/// The `j`-th byte of `data`, zero past the end.
pub open spec fn byte_at(data: Seq<u8>, j: int) -> nat {
    if 0 <= j < data.len() {
        data[j] as nat
    } else {
        0
    }
}

/// The `i`-th group of six bits of `data`, most significant bits first.
pub open spec fn sextet(data: Seq<u8>, i: int) -> nat {
    let k = i / 4 * 3;
    if i % 4 == 0 {
        byte_at(data, k) / 4
    } else if i % 4 == 1 {
        byte_at(data, k) % 4 * 16 + byte_at(data, k + 1) / 16
    } else if i % 4 == 2 {
        byte_at(data, k + 1) % 16 * 4 + byte_at(data, k + 2) / 64
    } else {
        byte_at(data, k + 2) % 64
    }
}

/// The standard base64 alphabet.
pub open spec fn alphabet() -> Seq<char> {
    "ABCDEFGHIJKLMNOPQRSTUVWXYZabcdefghijklmnopqrstuvwxyz0123456789+/"@
}

/// Standard base64 with padding: one character for each six bits, and `=` up to a multiple of four
/// characters.
pub open spec fn base64_text(data: Seq<u8>) -> Seq<char> {
    Seq::new(
        ((data.len() + 2) / 3 * 4) as nat,
        |i: int|
            if 6 * i < 8 * data.len() {
                alphabet()[sextet(data, i) as int]
            } else {
                '='
            },
    )
}

/// `base64::Engine::encode` of `base64::engine::general_purpose::STANDARD`.
///
/// Trusted: that it writes standard base64 with padding. The bound is what can be allocated at
/// once; past it the call panics.
#[verifier::external_body]
fn encode(data: &[u8]) -> (text: String)
    requires
        base64_text(data@).len() <= isize::MAX,
    ensures
        text@ == base64_text(data@),
{
    base64::Engine::encode(&base64::engine::general_purpose::STANDARD, data)
}

/// Whether the base64 of `data` can be allocated.
pub fn is_encodable(data: &[u8]) -> (ok: bool)
    ensures
        ok == (base64_text(data@).len() <= isize::MAX),
{
    let most: usize = isize::MAX as usize;
    data.len() <= most && (data.len() + 2) / 3 <= most / 4
}

/// `POST /plugins`: the signed plugin tarball to install.
#[derive(Debug)]
pub struct InstallPluginReq {
    /// The bare file name to store the tarball under.
    pub file: String,
    /// The bytes of the tarball in base64.
    pub tarball_b64: String,
}

/// `POST /plugins/inspect`: the plugin tarball to inspect.
#[derive(Debug)]
pub struct InspectPluginReq {
    /// The bare file name of the tarball.
    pub file: String,
    /// The bytes of the tarball in base64.
    pub tarball_b64: String,
}

/// The members of an upload.
pub open spec fn upload_members(file: Seq<char>, tarball_b64: Seq<char>) -> Seq<
    (Seq<char>, Doc),
> {
    seq![("file"@, Doc::Text(file)), ("tarball_b64"@, Doc::Text(tarball_b64))]
}

fn upload(file: &String, tarball_b64: &String) -> (json: Json)
    ensures
        json@ == Doc::Object(upload_members(file@, tarball_b64@)),
{
    let mut w: Writer = Writer::new();
    w.put("file", file);
    w.put("tarball_b64", tarball_b64);
    proof {
        assert(w@ =~= upload_members(file@, tarball_b64@));
    }
    w.finish()
}

impl InstallPluginReq {
    /// The request that installs a tarball.
    pub fn new(file: String, tarball: &[u8]) -> (req: InstallPluginReq)
        requires
            base64_text(tarball@).len() <= isize::MAX,
        ensures
            req.file@ == file@,
            req.tarball_b64@ == base64_text(tarball@),
    {
        InstallPluginReq { file, tarball_b64: encode(tarball) }
    }

    /// The body of the request.
    pub fn to_json(&self) -> (json: Json)
        ensures
            json@ == Doc::Object(upload_members(self.file@, self.tarball_b64@)),
    {
        upload(&self.file, &self.tarball_b64)
    }
}

impl InspectPluginReq {
    /// The request that inspects a tarball.
    pub fn new(file: String, tarball: &[u8]) -> (req: InspectPluginReq)
        requires
            base64_text(tarball@).len() <= isize::MAX,
        ensures
            req.file@ == file@,
            req.tarball_b64@ == base64_text(tarball@),
    {
        InspectPluginReq { file, tarball_b64: encode(tarball) }
    }

    /// The body of the request.
    pub fn to_json(&self) -> (json: Json)
        ensures
            json@ == Doc::Object(upload_members(self.file@, self.tarball_b64@)),
    {
        upload(&self.file, &self.tarball_b64)
    }
}

/// The code of the `n`-th character of the alphabet.
spec fn symbol_code(n: int) -> int {
    if n < 26 {
        n + 65
    } else if n < 52 {
        n + 71
    } else if n < 62 {
        n - 4
    } else if n == 62 {
        43
    } else {
        47
    }
}

proof fn lemma_alphabet(n: int)
    requires
        0 <= n < 64,
    ensures
        alphabet()[n] as int == symbol_code(n),
{
    reveal_strlit("ABCDEFGHIJKLMNOPQRSTUVWXYZabcdefghijklmnopqrstuvwxyz0123456789+/");
}

/// Two groups of six bits that are written alike are the same, and none is written as padding.
proof fn lemma_symbols_differ(m: int, n: int)
    requires
        0 <= m < 64,
        0 <= n < 64,
    ensures
        alphabet()[m] == alphabet()[n] ==> m == n,
        alphabet()[n] != '=',
{
    lemma_alphabet(m);
    lemma_alphabet(n);
}

proof fn lemma_sextet(data: Seq<u8>, i: int)
    requires
        0 <= i,
    ensures
        sextet(data, i) < 64,
{
}

/// A byte by the two groups of six bits that hold its bits.
proof fn lemma_byte(data: Seq<u8>, j: int)
    requires
        0 <= j < data.len(),
    ensures
        ({
            let i = j / 3 * 4 + j % 3;
            let high = sextet(data, i);
            let low = sextet(data, i + 1);
            data[j] as nat == if j % 3 == 0 {
                high * 4 + low / 16
            } else if j % 3 == 1 {
                high % 16 * 16 + low / 4
            } else {
                high % 4 * 64 + low
            }
        }),
{
    let q = j / 3;
    let i = q * 4 + j % 3;
    assert(i / 4 == q && i % 4 == j % 3);
    assert((i + 1) / 4 == q && (i + 1) % 4 == j % 3 + 1);
}

/// Nothing is lost in base64: different bytes are written as different texts.
pub proof fn law_base64_is_lossless(a: Seq<u8>, b: Seq<u8>)
    requires
        base64_text(a) == base64_text(b),
    ensures
        a == b,
{
    lemma_same_length(a, b);
    lemma_same_length(b, a);
    assert forall|j: int| 0 <= j < a.len() implies a[j] == b[j] by {
        let i = j / 3 * 4 + j % 3;
        lemma_byte(a, j);
        lemma_byte(b, j);
        lemma_same_sextet(a, b, i);
        lemma_same_sextet(a, b, i + 1);
    }
    assert(a =~= b);
}

proof fn lemma_same_length(a: Seq<u8>, b: Seq<u8>)
    requires
        base64_text(a) == base64_text(b),
    ensures
        a.len() >= b.len(),
{
    assert(base64_text(a).len() == (a.len() + 2) / 3 * 4);
    assert(base64_text(b).len() == (b.len() + 2) / 3 * 4);
    let k: int = ((b.len() + 2) / 3) as int;
    assert((a.len() + 2) / 3 == k);
    if a.len() < b.len() {
        assert(3 * k - 2 <= a.len() < b.len() <= 3 * k);
        let i: int = if a.len() == 3 * k - 2 {
            4 * k - 2
        } else {
            4 * k - 1
        };
        assert(0 <= i < base64_text(b).len());
        assert(base64_text(a)[i] == '=');
        lemma_sextet(b, i);
        assert(base64_text(b)[i] == alphabet()[sextet(b, i) as int]);
        lemma_symbols_differ(0, sextet(b, i) as int);
    }
}

proof fn lemma_same_sextet(a: Seq<u8>, b: Seq<u8>, i: int)
    requires
        base64_text(a) == base64_text(b),
        a.len() == b.len(),
        0 <= i,
        6 * i < 8 * a.len(),
    ensures
        sextet(a, i) == sextet(b, i),
{
    assert(i < base64_text(a).len());
    assert(base64_text(a)[i] == alphabet()[sextet(a, i) as int]);
    assert(base64_text(b)[i] == alphabet()[sextet(b, i) as int]);
    lemma_sextet(a, i);
    lemma_sextet(b, i);
    lemma_symbols_differ(sextet(a, i) as int, sextet(b, i) as int);
}

} // verus!
