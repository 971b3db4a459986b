//! JSON documents as plain values.

use vstd::prelude::*;

verus! {

/// A JSON document.
///
/// The members of an object stand in document order, and a name may occur more than once.
#[derive(Debug, PartialEq, Eq)]
pub enum Json {
    Null,
    Bool(bool),
    /// A whole number from zero up.
    Unsigned(u64),
    /// A whole number below zero.
    Negative(i64),
    /// Any other number, by its digits.
    Float(String),
    Text(String),
    Array(Vec<Json>),
    Object(Vec<(String, Json)>),
    /// A part that was passed over: its text, and what is wrong with it, and where, if it is read
    /// after all; a number out of range, for example.
    Unread { text: String, complaint: String },
}

/// What a JSON document says.
pub enum Doc {
    Null,
    Bool(bool),
    Unsigned(nat),
    Negative(int),
    Float(Seq<char>),
    Text(Seq<char>),
    Array(Seq<Doc>),
    Object(Seq<(Seq<char>, Doc)>),
    Unread { text: Seq<char>, complaint: Seq<char> },
}

/// What the documents of a list say.
pub open spec fn docs(list: Seq<Json>) -> Seq<Doc> {
    list.map_values(|j: Json| j@)
}

/// What the members of an object say.
pub open spec fn member_docs(members: Seq<(String, Json)>) -> Seq<(Seq<char>, Doc)> {
    members.map_values(|m: (String, Json)| (m.0@, m.1@))
}

impl View for Json {
    type V = Doc;

    open spec fn view(&self) -> Doc
        decreases self,
    {
        match self {
            Json::Null => Doc::Null,
            Json::Bool(b) => Doc::Bool(*b),
            Json::Unsigned(n) => Doc::Unsigned(*n as nat),
            Json::Negative(n) => Doc::Negative(*n as int),
            Json::Float(s) => Doc::Float(s@),
            Json::Text(s) => Doc::Text(s@),
            Json::Unread { text, complaint } => Doc::Unread {
                text: text@,
                complaint: complaint@,
            },
            Json::Array(v) => Doc::Array(
                Seq::new(
                    v@.len(),
                    |i: int|
                        if 0 <= i < v@.len() {
                            v@[i].view()
                        } else {
                            Doc::Null
                        },
                ),
            ),
            Json::Object(v) => Doc::Object(
                Seq::new(
                    v@.len(),
                    |i: int|
                        if 0 <= i < v@.len() {
                            (v@[i].0@, v@[i].1.view())
                        } else {
                            (Seq::empty(), Doc::Null)
                        },
                ),
            ),
        }
    }
}

/// What an array and an object say, by what their parts say.
pub proof fn lemma_views()
    ensures
        forall|v: Vec<Json>| #[trigger] Json::Array(v)@ == Doc::Array(docs(v@)),
        forall|v: Vec<(String, Json)>| #[trigger]
            Json::Object(v)@ == Doc::Object(member_docs(v@)),
{
    assert forall|v: Vec<Json>| #[trigger] Json::Array(v)@ == Doc::Array(docs(v@)) by {
        reveal_with_fuel(<Json as View>::view, 2);
        assert(Json::Array(v)@->Array_0 =~= docs(v@));
    }
    assert forall|v: Vec<(String, Json)>| #[trigger]
        Json::Object(v)@ == Doc::Object(member_docs(v@)) by {
        reveal_with_fuel(<Json as View>::view, 2);
        assert(Json::Object(v)@->Object_0 =~= member_docs(v@));
    }
}

impl Json {
    /// A copy of the document.
    pub fn copy(&self) -> (copy: Json)
        ensures
            copy@ == self@,
        decreases self@,
    {
        proof {
            lemma_views();
        }
        match self {
            Json::Null => Json::Null,
            Json::Bool(b) => Json::Bool(*b),
            Json::Unsigned(n) => Json::Unsigned(*n),
            Json::Negative(n) => Json::Negative(*n),
            Json::Float(s) => Json::Float(s.clone()),
            Json::Text(s) => Json::Text(s.clone()),
            Json::Unread { text, complaint } => Json::Unread {
                text: text.clone(),
                complaint: complaint.clone(),
            },
            Json::Array(list) => {
                let mut out: Vec<Json> = Vec::new();
                let mut i: usize = 0;
                while i < list.len()
                    invariant
                        self@ == Doc::Array(docs(list@)),
                        i <= list@.len(),
                        docs(out@) =~= docs(list@).take(i as int),
                    decreases list@.len() - i,
                {
                    let ghost before = out@;
                    proof {
                        assert(decreases_to!(self@ => self@->Array_0[i as int]));
                        assert(self@->Array_0[i as int] == list@[i as int]@);
                    }
                    let next: Json = list[i].copy();
                    out.push(next);
                    proof {
                        assert(docs(out@) =~= docs(before).push(next@));
                        assert(docs(list@).take(i + 1) =~= docs(list@).take(i as int).push(
                            docs(list@)[i as int],
                        ));
                    }
                    i = i + 1;
                }
                proof {
                    assert(docs(out@) =~= docs(list@));
                }
                Json::Array(out)
            },
            Json::Object(members) => {
                let mut out: Vec<(String, Json)> = Vec::new();
                let mut i: usize = 0;
                while i < members.len()
                    invariant
                        self@ == Doc::Object(member_docs(members@)),
                        i <= members@.len(),
                        member_docs(out@) =~= member_docs(members@).take(i as int),
                    decreases members@.len() - i,
                {
                    let ghost before = out@;
                    let name: String = members[i].0.clone();
                    proof {
                        assert(decreases_to!(self@ => self@->Object_0[i as int]));
                        assert(decreases_to!(self@->Object_0[i as int]
                            => self@->Object_0[i as int].1));
                        assert(self@->Object_0[i as int].1 == members@[i as int].1@);
                    }
                    let next: Json = members[i].1.copy();
                    let ghost member = (name@, next@);
                    out.push((name, next));
                    proof {
                        assert(member_docs(out@) =~= member_docs(before).push(member));
                        assert(member_docs(members@).take(i + 1) =~= member_docs(members@).take(
                            i as int,
                        ).push(member_docs(members@)[i as int]));
                    }
                    i = i + 1;
                }
                proof {
                    assert(member_docs(out@) =~= member_docs(members@));
                }
                Json::Object(out)
            },
        }
    }
}

/// The complaint about the first part of `d` that was passed over, if there is such a part.
pub open spec fn unread_part(d: Doc) -> Option<Seq<char>>
    decreases d, 0int,
{
    match d {
        Doc::Unread { complaint, .. } => Some(complaint),
        Doc::Array(list) => unread_item(list, 0),
        Doc::Object(members) => unread_member(members, 0),
        _ => None,
    }
}

/// The complaint about the first part that was passed over, from the `i`-th item on.
pub open spec fn unread_item(list: Seq<Doc>, i: int) -> Option<Seq<char>>
    decreases list, list.len() - i,
{
    if i < 0 || i >= list.len() {
        None
    } else {
        match unread_part(list[i]) {
            Some(complaint) => Some(complaint),
            None => unread_item(list, i + 1),
        }
    }
}

/// The complaint about the first part that was passed over, from the `i`-th member on.
pub open spec fn unread_member(members: Seq<(Seq<char>, Doc)>, i: int) -> Option<Seq<char>>
    decreases members, members.len() - i,
{
    if i < 0 || i >= members.len() {
        None
    } else {
        proof {
            assert(decreases_to!(members => members[i]));
            assert(decreases_to!(members[i] => members[i].1));
        }
        match unread_part(members[i].1) {
            Some(complaint) => Some(complaint),
            None => unread_member(members, i + 1),
        }
    }
}

impl Json {
    /// The complaint about the first part that was passed over, if there is such a part.
    pub fn find_unread(&self) -> (complaint: Option<String>)
        ensures
            match complaint {
                Some(c) => unread_part(self@) == Some(c@),
                None => unread_part(self@) is None,
            },
        decreases self@,
    {
        proof {
            lemma_views();
        }
        match self {
            Json::Unread { complaint, .. } => Some(complaint.clone()),
            Json::Array(list) => {
                let mut i: usize = 0;
                while i < list.len()
                    invariant
                        self@ == Doc::Array(docs(list@)),
                        i <= list@.len(),
                        unread_item(docs(list@), 0) == unread_item(docs(list@), i as int),
                    decreases list@.len() - i,
                {
                    proof {
                        assert(decreases_to!(self@ => self@->Array_0[i as int]));
                        assert(self@->Array_0[i as int] == list@[i as int]@);
                    }
                    let found: Option<String> = list[i].find_unread();
                    if found.is_some() {
                        return found;
                    }
                    i = i + 1;
                }
                None
            },
            Json::Object(members) => {
                let mut i: usize = 0;
                while i < members.len()
                    invariant
                        self@ == Doc::Object(member_docs(members@)),
                        i <= members@.len(),
                        unread_member(member_docs(members@), 0) == unread_member(
                            member_docs(members@),
                            i as int,
                        ),
                    decreases members@.len() - i,
                {
                    proof {
                        assert(decreases_to!(self@ => self@->Object_0[i as int]));
                        assert(decreases_to!(self@->Object_0[i as int]
                            => self@->Object_0[i as int].1));
                        assert(self@->Object_0[i as int].1 == members@[i as int].1@);
                    }
                    let found: Option<String> = members[i].1.find_unread();
                    if found.is_some() {
                        return found;
                    }
                    i = i + 1;
                }
                None
            },
            _ => None,
        }
    }
}

/// `serde_json::Value`, carried through unread.
#[verifier::external_type_specification]
#[verifier::external_body]
pub struct ExValue(serde_json::Value);

/// What a `serde_json::Value` holds.
pub uninterp spec fn value_doc(value: serde_json::Value) -> Doc;

/// What `serde_json` reads in a text: the document, or its complaint.
pub uninterp spec fn json_read(text: Seq<char>) -> Result<Doc, Seq<char>>;

/// One layer of a `serde_json::Value`.
enum Layer {
    Null,
    Bool(bool),
    Unsigned(u64),
    Negative(i64),
    Float(String),
    Text(String),
    Array(Vec<serde_json::Value>),
    Object(Vec<(String, serde_json::Value)>),
}

impl Layer {
    /// What the layer says, by what the values under it hold.
    spec fn doc(self) -> Doc {
        match self {
            Layer::Null => Doc::Null,
            Layer::Bool(b) => Doc::Bool(b),
            Layer::Unsigned(n) => Doc::Unsigned(n as nat),
            Layer::Negative(n) => Doc::Negative(n as int),
            Layer::Float(s) => Doc::Float(s@),
            Layer::Text(s) => Doc::Text(s@),
            Layer::Array(list) => Doc::Array(
                list@.map_values(|v: serde_json::Value| value_doc(v)),
            ),
            Layer::Object(members) => Doc::Object(
                members@.map_values(|m: (String, serde_json::Value)| (m.0@, value_doc(m.1))),
            ),
        }
    }
}

/// `serde_json::from_str` into a `serde_json::Value`, its error as text.
///
/// Trusted: that what is read, or the complaint, depends on the text alone. Which documents a text
/// stands for is left unsaid.
#[verifier::external_body]
fn read_value(text: &str) -> (value: Result<serde_json::Value, String>)
    ensures
        match value {
            Ok(v) => json_read(text@) == Ok::<_, Seq<char>>(value_doc(v)),
            Err(complaint) => json_read(text@) == Err::<Doc, _>(complaint@),
        },
{
    serde_json::from_str::<serde_json::Value>(text).map_err(|e| e.to_string())
}

/// The variants of `serde_json::Value`, one layer deep; of a number, `as_u64` and `as_i64` tell
/// the whole ones, and any other is kept by its digits.
///
/// Trusted: that the layer holds what the value holds.
#[verifier::external_body]
fn peel(value: serde_json::Value) -> (layer: Layer)
    ensures
        layer.doc() == value_doc(value),
{
    match value {
        serde_json::Value::Null => Layer::Null,
        serde_json::Value::Bool(b) => Layer::Bool(b),
        serde_json::Value::Number(n) => match (n.as_u64(), n.as_i64()) {
            (Some(u), _) => Layer::Unsigned(u),
            (None, Some(i)) => Layer::Negative(i),
            (None, None) => Layer::Float(n.to_string()),
        },
        serde_json::Value::String(s) => Layer::Text(s),
        serde_json::Value::Array(list) => Layer::Array(list),
        serde_json::Value::Object(members) => Layer::Object(members.into_iter().collect()),
    }
}

/// The document that a `serde_json::Value` holds.
fn unfold(value: serde_json::Value) -> (json: Json)
    ensures
        json@ == value_doc(value),
    decreases value_doc(value),
{
    let ghost whole = value_doc(value);
    match peel(value) {
        Layer::Null => Json::Null,
        Layer::Bool(b) => Json::Bool(b),
        Layer::Unsigned(n) => Json::Unsigned(n),
        Layer::Negative(n) => Json::Negative(n),
        Layer::Float(s) => Json::Float(s),
        Layer::Text(s) => Json::Text(s),
        Layer::Array(list) => {
            let mut out: Vec<Json> = Vec::new();
            for v in iter: list
                invariant
                    whole == value_doc(value),
                    whole == Layer::Array(list).doc(),
                    iter.seq() == list@,
                    docs(out@) =~= whole->Array_0.take(iter.index() as int),
            {
                proof {
                    assert(whole->Array_0[iter.index() as int] == value_doc(v));
                }
                let ghost before = out@;
                let next: Json = unfold(v);
                out.push(next);
                proof {
                    assert(docs(out@) =~= docs(before).push(next@));
                    assert(whole->Array_0.take(iter.index() + 1) =~= whole->Array_0.take(
                        iter.index() as int,
                    ).push(whole->Array_0[iter.index() as int]));
                }
            }
            proof {
                lemma_views();
                assert(docs(out@) =~= whole->Array_0);
            }
            Json::Array(out)
        },
        Layer::Object(members) => {
            let mut out: Vec<(String, Json)> = Vec::new();
            for m in iter: members
                invariant
                    whole == value_doc(value),
                    whole == Layer::Object(members).doc(),
                    iter.seq() == members@,
                    member_docs(out@) =~= whole->Object_0.take(iter.index() as int),
            {
                proof {
                    assert(whole->Object_0[iter.index() as int] == (m.0@, value_doc(m.1)));
                    assert(decreases_to!(whole => whole->Object_0[iter.index() as int]));
                    assert(decreases_to!(whole->Object_0[iter.index() as int]
                        => whole->Object_0[iter.index() as int].1));
                }
                let ghost before = out@;
                let next: Json = unfold(m.1);
                let ghost pair = (m.0, next);
                out.push((m.0, next));
                proof {
                    assert(member_docs(out@) =~= member_docs(before).push((pair.0@, pair.1@)));
                    assert(whole->Object_0.take(iter.index() + 1) =~= whole->Object_0.take(
                        iter.index() as int,
                    ).push(whole->Object_0[iter.index() as int]));
                }
            }
            proof {
                lemma_views();
                assert(member_docs(out@) =~= whole->Object_0);
            }
            Json::Object(out)
        },
    }
}

/// Reads a text as a JSON document, or tells why it is none.
pub fn parse_json(text: &str) -> (json: Result<Json, String>)
    ensures
        match json {
            Ok(j) => json_read(text@) == Ok::<_, Seq<char>>(j@),
            Err(complaint) => json_read(text@) == Err::<Doc, _>(complaint@),
        },
{
    match read_value(text) {
        Ok(value) => Ok(unfold(value)),
        Err(complaint) => Err(complaint),
    }
}

} // verus!
