//! How values are written as JSON documents, and which documents stand for a value.
//!
//! A record is written as an object with its fields in a fixed order. It is read from an object
//! whose members may come in any order and may include unknown ones, or from an array that lists
//! the fields in order. Of several faults the one that comes first in the document is told. What is read is stated by the document that the value would be written as:
//! [`Wire::canon`] maps every document to that canonical one, or to the reason why it stands for
//! no value.

use vstd::prelude::*;

use crate::json;
use crate::json::Doc;
use crate::json::Json;
use crate::labels;
use crate::labels::Labels;
use crate::text;

verus! {

/// Why a document stands for no value of some type.
pub enum Fault {
    /// A field without a default is absent.
    Missing(Seq<char>),
    /// A field occurs more than once, for the second time as the `part`-th member.
    Repeated { field: Seq<char>, part: int },
    /// Something else stands where a value of this kind is expected.
    Mistyped { found: Seq<char>, expected: Seq<char> },
    /// A number stands there that this kind does not hold.
    OutOfRange { found: Seq<char>, expected: Seq<char> },
    /// A list stands for a record and ends before a field without a default.
    Short { length: nat, expected: Seq<char> },
    /// A list stands for a record and goes on behind its last field, with the `part`-th item.
    Trailing { part: int },
    /// A part was passed over that has to be read: what is wrong with it.
    Unread(Seq<char>),
    /// The `part`-th item or member has a fault.
    Inside { part: int, fault: Box<Fault> },
}

/// Why a document stands for no value of some type.
#[derive(Debug, PartialEq, Eq)]
pub enum DecodeError {
    /// A field without a default is absent.
    Missing { field: String },
    /// A field occurs more than once, for the second time as the `part`-th member.
    Repeated { field: String, part: usize },
    /// Something else stands where a value of this kind is expected.
    Mistyped { found: String, expected: String },
    /// A number stands there that this kind does not hold.
    OutOfRange { found: String, expected: String },
    /// A list stands for a record and ends before a field without a default.
    Short { length: usize, expected: String },
    /// A list stands for a record and goes on behind its last field, with the `part`-th item.
    Trailing { part: usize },
    /// A part was passed over that has to be read: what is wrong with it.
    Unread { complaint: String },
    /// The `part`-th item or member has a fault.
    Inside { part: usize, error: Box<DecodeError> },
}

impl View for DecodeError {
    type V = Fault;

    open spec fn view(&self) -> Fault
        decreases self,
    {
        match self {
            DecodeError::Missing { field } => Fault::Missing(field@),
            DecodeError::Repeated { field, part } => Fault::Repeated {
                field: field@,
                part: *part as int,
            },
            DecodeError::Mistyped { found, expected } => Fault::Mistyped {
                found: found@,
                expected: expected@,
            },
            DecodeError::OutOfRange { found, expected } => Fault::OutOfRange {
                found: found@,
                expected: expected@,
            },
            DecodeError::Short { length, expected } => Fault::Short {
                length: *length as nat,
                expected: expected@,
            },
            DecodeError::Trailing { part } => Fault::Trailing { part: *part as int },
            DecodeError::Unread { complaint } => Fault::Unread(complaint@),
            DecodeError::Inside { part, error } => Fault::Inside {
                part: *part as int,
                fault: Box::new((**error).view()),
            },
        }
    }
}

/// The message of a fault.
pub open spec fn fault_text(fault: Fault) -> Seq<char>
    decreases fault,
{
    match fault {
        Fault::Missing(field) => "missing field `"@ + field + "`"@,
        Fault::Repeated { field, .. } => "duplicate field `"@ + field + "`"@,
        Fault::Mistyped { found, expected } => "invalid type: "@ + found + ", expected "@
            + expected,
        Fault::OutOfRange { found, expected } => "invalid value: "@ + found + ", expected "@
            + expected,
        Fault::Short { length, expected } => "invalid length "@ + text::decimal(length)
            + ", expected "@ + expected,
        Fault::Trailing { .. } => "trailing characters"@,
        Fault::Unread(complaint) => complaint,
        Fault::Inside { fault, .. } => fault_text(*fault),
    }
}

impl DecodeError {
    /// The message for the user.
    pub fn message(&self) -> (text: String)
        ensures
            text@ == fault_text(self@),
        decreases self,
    {
        match self {
            DecodeError::Missing { field } => {
                let mut text: String = "missing field `".to_owned();
                text.append(field.as_str());
                text.append("`");
                text
            },
            DecodeError::Repeated { field, .. } => {
                let mut text: String = "duplicate field `".to_owned();
                text.append(field.as_str());
                text.append("`");
                text
            },
            DecodeError::Mistyped { found, expected } => {
                let mut text: String = "invalid type: ".to_owned();
                text.append(found.as_str());
                text.append(", expected ");
                text.append(expected.as_str());
                text
            },
            DecodeError::OutOfRange { found, expected } => {
                let mut text: String = "invalid value: ".to_owned();
                text.append(found.as_str());
                text.append(", expected ");
                text.append(expected.as_str());
                text
            },
            DecodeError::Short { length, expected } => {
                let mut text: String = "invalid length ".to_owned();
                text.append(text::decimal_text(*length as u64).as_str());
                text.append(", expected ");
                text.append(expected.as_str());
                text
            },
            DecodeError::Trailing { .. } => "trailing characters".to_owned(),
            DecodeError::Unread { complaint } => complaint.clone(),
            DecodeError::Inside { error, .. } => error.message(),
        }
    }
}

/// The fault of the `part`-th item or member.
pub open spec fn inside(part: int, fault: Fault) -> Fault {
    Fault::Inside { part, fault: Box::new(fault) }
}

/// The error of the `part`-th item or member.
pub(crate) fn inner_error(part: usize, error: DecodeError) -> (outer: DecodeError)
    ensures
        outer@ == inside(part as int, error@),
{
    DecodeError::Inside { part, error: Box::new(error) }
}

/// A number that is not whole, the way `serde_json` shows it; any other text as it is.
pub uninterp spec fn float_shown(digits: Seq<char>) -> Seq<char>;

/// The text of the `serde_json::Number` that `serde_json::from_str` reads in some digits, by its
/// `Display`, or the digits themselves where it reads none.
///
/// Trusted: that the text depends on the digits alone. How a number is rounded and shown is left
/// unsaid.
#[verifier::external_body]
fn show_float(digits: &str) -> (text: String)
    ensures
        text@ == float_shown(digits@),
{
    match serde_json::from_str::<serde_json::Number>(digits) {
        Ok(number) => number.to_string(),
        Err(_) => digits.to_owned(),
    }
}

/// A whole number in decimal.
pub open spec fn signed_decimal(n: int) -> Seq<char> {
    if n < 0 {
        "-"@ + text::decimal((-n) as nat)
    } else {
        text::decimal(n as nat)
    }
}

/// A document in words: its kind, and what it says where that is short.
pub open spec fn kind_words(d: Doc) -> Seq<char> {
    match d {
        Doc::Null => "null"@,
        Doc::Bool(b) => "boolean `"@ + text::bool_word(b) + "`"@,
        Doc::Unsigned(n) => "integer `"@ + text::decimal(n) + "`"@,
        Doc::Negative(n) => "integer `"@ + signed_decimal(n) + "`"@,
        Doc::Float(digits) => "floating point `"@ + float_shown(digits) + "`"@,
        Doc::Text(s) => "string "@ + text::quoted(s),
        Doc::Array(_) => "sequence"@,
        Doc::Object(_) => "map"@,
        Doc::Unread { text, .. } => text,
    }
}

/// A document in words.
fn describe(json: &Json) -> (words: String)
    ensures
        words@ == kind_words(json@),
{
    match json {
        Json::Null => "null".to_owned(),
        Json::Bool(b) => ticked("boolean `", text::bool_text(*b)),
        Json::Unsigned(n) => ticked("integer `", text::decimal_text(*n).as_str()),
        Json::Negative(n) => ticked("integer `", signed_text(*n).as_str()),
        Json::Float(digits) => ticked("floating point `", show_float(digits.as_str()).as_str()),
        Json::Text(s) => {
            let mut words: String = "string ".to_owned();
            words.append(text::quote(s.as_str()).as_str());
            words
        },
        Json::Array(_) => "sequence".to_owned(),
        Json::Object(_) => "map".to_owned(),
        Json::Unread { text, .. } => text.clone(),
    }
}

fn ticked(before: &str, s: &str) -> (text: String)
    ensures
        text@ == before@ + s@ + "`"@,
{
    let mut text: String = before.to_owned();
    text.append(s);
    text.append("`");
    text
}

fn signed_text(n: i64) -> (text: String)
    ensures
        text@ == signed_decimal(n as int),
{
    if n < 0 {
        let mut text: String = "-".to_owned();
        let size: u64 = (-(n + 1)) as u64 + 1;
        text.append(text::decimal_text(size).as_str());
        text
    } else {
        text::decimal_text(n as u64)
    }
}

/// What a document of the wrong kind is refused with. A part that was passed over is refused for
/// what is wrong with it.
pub open spec fn mistyped(d: Doc, expected: Seq<char>) -> Fault {
    match d {
        Doc::Unread { complaint, .. } => Fault::Unread(complaint),
        _ => Fault::Mistyped { found: kind_words(d), expected },
    }
}

/// What a number that does not fit is refused with.
pub open spec fn out_of_range(d: Doc, expected: Seq<char>) -> Fault {
    Fault::OutOfRange { found: kind_words(d), expected }
}

/// The error for a document of the wrong kind.
pub(crate) fn wrong_kind(json: &Json, expected: &str) -> (error: DecodeError)
    ensures
        error@ == mistyped(json@, expected@),
{
    match json {
        Json::Unread { complaint, .. } => DecodeError::Unread { complaint: complaint.clone() },
        _ => DecodeError::Mistyped { found: describe(json), expected: expected.to_owned() },
    }
}

/// The error for a document that is no number of the kind expected: a whole number does not fit,
/// anything else is of the wrong kind.
fn no_number(json: &Json, expected: &str) -> (error: DecodeError)
    ensures
        error@ == (match json@ {
            Doc::Unsigned(_) => out_of_range(json@, expected@),
            Doc::Negative(_) => out_of_range(json@, expected@),
            _ => mistyped(json@, expected@),
        }),
{
    proof {
        json::lemma_views();
    }
    match json {
        Json::Unsigned(_) => DecodeError::OutOfRange {
            found: describe(json),
            expected: expected.to_owned(),
        },
        Json::Negative(_) => DecodeError::OutOfRange {
            found: describe(json),
            expected: expected.to_owned(),
        },
        _ => wrong_kind(json, expected),
    }
}

/// A type with a JSON form.
pub trait Wire: Sized {
    /// The document that the value which `d` stands for is written as, or why it stands for none.
    spec fn canon(d: Doc) -> Result<Doc, Fault>;

    /// The document that the value is written as.
    spec fn doc(&self) -> Doc;

    /// What holds of every value that is read.
    spec fn well_formed(&self) -> bool;

    /// Reads a value.
    fn from_json(json: &Json) -> (value: Result<Self, DecodeError>)
        ensures
            match value {
                Ok(v) => Self::canon(json@) == Ok::<Doc, Fault>(v.doc()) && v.well_formed(),
                Err(e) => Self::canon(json@) == Err::<Doc, Fault>(e@),
            },
    ;

    /// Writes the value.
    fn to_json(&self) -> (json: Json)
        ensures
            json@ == self.doc(),
    ;

    /// What is written is read back as it was.
    proof fn law_reads_back(&self)
        requires
            self.well_formed(),
        ensures
            Self::canon(self.doc()) == Ok::<Doc, Fault>(self.doc()),
    ;

    /// Only `null` is read as what is written as `null`.
    proof fn law_only_null_is_null(d: Doc)
        ensures
            Self::canon(d) == Ok::<Doc, Fault>(Doc::Null) ==> d == Doc::Null,
    ;
}

/// A type that a record may leave out, with the value that it then has.
pub trait WireDefault: Wire {
    /// The document of the value that stands for an absent one.
    spec fn default_doc() -> Doc;

    /// The value that stands for an absent one.
    fn default_value() -> (value: Self)
        ensures
            value.doc() == Self::default_doc(),
            value.well_formed(),
    ;

    /// The value that stands for an absent one is read back as it was.
    proof fn law_default_reads_back()
        ensures
            Self::canon(Self::default_doc()) == Ok::<Doc, Fault>(Self::default_doc()),
    ;
}

impl Wire for String {
    open spec fn canon(d: Doc) -> Result<Doc, Fault> {
        match d {
            Doc::Text(_) => Ok(d),
            _ => Err(mistyped(d, "a string"@)),
        }
    }

    open spec fn doc(&self) -> Doc {
        Doc::Text(self@)
    }

    open spec fn well_formed(&self) -> bool {
        true
    }

    fn from_json(json: &Json) -> (value: Result<Self, DecodeError>) {
        match json {
            Json::Text(s) => Ok(s.clone()),
            _ => Err(wrong_kind(json, "a string")),
        }
    }

    fn to_json(&self) -> (json: Json) {
        Json::Text(self.clone())
    }

    proof fn law_reads_back(&self) {
    }

    proof fn law_only_null_is_null(d: Doc) {
    }
}

impl WireDefault for String {
    open spec fn default_doc() -> Doc {
        Doc::Text(Seq::empty())
    }

    fn default_value() -> (value: Self) {
        String::new()
    }

    proof fn law_default_reads_back() {
    }
}

impl Wire for bool {
    open spec fn canon(d: Doc) -> Result<Doc, Fault> {
        match d {
            Doc::Bool(_) => Ok(d),
            _ => Err(mistyped(d, "a boolean"@)),
        }
    }

    open spec fn doc(&self) -> Doc {
        Doc::Bool(*self)
    }

    open spec fn well_formed(&self) -> bool {
        true
    }

    fn from_json(json: &Json) -> (value: Result<Self, DecodeError>) {
        match json {
            Json::Bool(b) => Ok(*b),
            _ => Err(wrong_kind(json, "a boolean")),
        }
    }

    fn to_json(&self) -> (json: Json) {
        Json::Bool(*self)
    }

    proof fn law_reads_back(&self) {
    }

    proof fn law_only_null_is_null(d: Doc) {
    }
}

impl WireDefault for bool {
    open spec fn default_doc() -> Doc {
        Doc::Bool(false)
    }

    fn default_value() -> (value: Self) {
        false
    }

    proof fn law_default_reads_back() {
    }
}

/// A whole number from zero to `max`.
pub open spec fn canon_unsigned(d: Doc, max: nat, expected: Seq<char>) -> Result<Doc, Fault> {
    match d {
        Doc::Unsigned(n) => if n <= max {
            Ok(d)
        } else {
            Err(out_of_range(d, expected))
        },
        Doc::Negative(_) => Err(out_of_range(d, expected)),
        _ => Err(mistyped(d, expected)),
    }
}

impl Wire for u64 {
    open spec fn canon(d: Doc) -> Result<Doc, Fault> {
        canon_unsigned(d, u64::MAX as nat, "u64"@)
    }

    open spec fn doc(&self) -> Doc {
        Doc::Unsigned(*self as nat)
    }

    open spec fn well_formed(&self) -> bool {
        true
    }

    fn from_json(json: &Json) -> (value: Result<Self, DecodeError>) {
        match json {
            Json::Unsigned(n) => Ok(*n),
            _ => Err(no_number(json, "u64")),
        }
    }

    fn to_json(&self) -> (json: Json) {
        Json::Unsigned(*self)
    }

    proof fn law_reads_back(&self) {
    }

    proof fn law_only_null_is_null(d: Doc) {
    }
}

impl WireDefault for u64 {
    open spec fn default_doc() -> Doc {
        Doc::Unsigned(0)
    }

    fn default_value() -> (value: Self) {
        0
    }

    proof fn law_default_reads_back() {
    }
}

impl Wire for u16 {
    open spec fn canon(d: Doc) -> Result<Doc, Fault> {
        canon_unsigned(d, u16::MAX as nat, "u16"@)
    }

    open spec fn doc(&self) -> Doc {
        Doc::Unsigned(*self as nat)
    }

    open spec fn well_formed(&self) -> bool {
        true
    }

    fn from_json(json: &Json) -> (value: Result<Self, DecodeError>) {
        match json {
            Json::Unsigned(n) => if *n <= u16::MAX as u64 {
                Ok(*n as u16)
            } else {
                Err(no_number(json, "u16"))
            },
            _ => Err(no_number(json, "u16")),
        }
    }

    fn to_json(&self) -> (json: Json) {
        Json::Unsigned(*self as u64)
    }

    proof fn law_reads_back(&self) {
    }

    proof fn law_only_null_is_null(d: Doc) {
    }
}

impl WireDefault for u16 {
    open spec fn default_doc() -> Doc {
        Doc::Unsigned(0)
    }

    fn default_value() -> (value: Self) {
        0
    }

    proof fn law_default_reads_back() {
    }
}

impl Wire for usize {
    open spec fn canon(d: Doc) -> Result<Doc, Fault> {
        canon_unsigned(d, usize::MAX as nat, "usize"@)
    }

    open spec fn doc(&self) -> Doc {
        Doc::Unsigned(*self as nat)
    }

    open spec fn well_formed(&self) -> bool {
        true
    }

    fn from_json(json: &Json) -> (value: Result<Self, DecodeError>) {
        match json {
            Json::Unsigned(n) => if *n <= usize::MAX as u64 {
                Ok(*n as usize)
            } else {
                Err(no_number(json, "usize"))
            },
            _ => Err(no_number(json, "usize")),
        }
    }

    fn to_json(&self) -> (json: Json) {
        Json::Unsigned(*self as u64)
    }

    proof fn law_reads_back(&self) {
    }

    proof fn law_only_null_is_null(d: Doc) {
    }
}

impl<T: Wire> Wire for Option<T> {
    /// `null` is `None`, anything else is read as a `T`.
    open spec fn canon(d: Doc) -> Result<Doc, Fault> {
        match d {
            Doc::Null => Ok(Doc::Null),
            _ => T::canon(d),
        }
    }

    open spec fn doc(&self) -> Doc {
        match self {
            Some(v) => v.doc(),
            None => Doc::Null,
        }
    }

    /// A value that is written as `null` is `None`.
    open spec fn well_formed(&self) -> bool {
        match self {
            Some(v) => v.well_formed() && v.doc() != Doc::Null,
            None => true,
        }
    }

    fn from_json(json: &Json) -> (value: Result<Self, DecodeError>) {
        match json {
            Json::Null => Ok(None),
            _ => {
                let v: T = T::from_json(json)?;
                proof {
                    if v.doc() == Doc::Null {
                        T::law_only_null_is_null(json@);
                    }
                }
                Ok(Some(v))
            },
        }
    }

    fn to_json(&self) -> (json: Json) {
        match self {
            Some(v) => v.to_json(),
            None => Json::Null,
        }
    }

    proof fn law_reads_back(&self) {
        if let Some(v) = self {
            v.law_reads_back();
        }
    }

    proof fn law_only_null_is_null(d: Doc) {
        if d != Doc::Null {
            T::law_only_null_is_null(d);
        }
    }
}

impl<T: Wire> WireDefault for Option<T> {
    open spec fn default_doc() -> Doc {
        Doc::Null
    }

    fn default_value() -> (value: Self) {
        None
    }

    proof fn law_default_reads_back() {
    }
}

/// The first fault among the documents of a list, from the `i`-th on.
pub open spec fn list_fault<T: Wire>(list: Seq<Doc>, i: int) -> Option<Fault>
    decreases list.len() - i,
{
    if i < 0 || i >= list.len() {
        None
    } else {
        match T::canon(list[i]) {
            Err(fault) => Some(inside(i, fault)),
            Ok(_) => list_fault::<T>(list, i + 1),
        }
    }
}

/// The documents of the values of a list.
pub open spec fn list_docs<T: Wire>(list: Seq<T>) -> Seq<Doc> {
    list.map_values(|v: T| v.doc())
}

proof fn lemma_list_fault<T: Wire>(list: Seq<Doc>, i: int, n: int)
    requires
        0 <= i <= n <= list.len(),
        forall|k: int| i <= k < n ==> T::canon(#[trigger] list[k]) is Ok,
    ensures
        list_fault::<T>(list, i) == list_fault::<T>(list, n),
    decreases n - i,
{
    if i < n {
        lemma_list_fault::<T>(list, i + 1, n);
    }
}

impl<T: Wire> Wire for Vec<T> {
    /// An array of which every item is read as a `T`.
    open spec fn canon(d: Doc) -> Result<Doc, Fault> {
        match d {
            Doc::Array(list) => match list_fault::<T>(list, 0) {
                Some(fault) => Err(fault),
                None => Ok(Doc::Array(list.map_values(|x: Doc| T::canon(x)->Ok_0))),
            },
            _ => Err(mistyped(d, "a sequence"@)),
        }
    }

    open spec fn doc(&self) -> Doc {
        Doc::Array(list_docs(self@))
    }

    open spec fn well_formed(&self) -> bool {
        forall|i: int| 0 <= i < self@.len() ==> (#[trigger] self@[i]).well_formed()
    }

    fn from_json(json: &Json) -> (value: Result<Self, DecodeError>) {
        proof {
            json::lemma_views();
        }
        match json {
            Json::Array(list) => {
                let ghost all = json::docs(list@);
                let mut out: Vec<T> = Vec::new();
                let mut i: usize = 0;
                while i < list.len()
                    invariant
                        all == json::docs(list@),
                        json@ == Doc::Array(all),
                        i <= list@.len(),
                        i == out@.len(),
                        forall|k: int|
                            0 <= k < i ==> T::canon(#[trigger] all[k]) == Ok::<Doc, Fault>(
                                out@[k].doc(),
                            ),
                        forall|k: int| 0 <= k < i ==> (#[trigger] out@[k]).well_formed(),
                    decreases list@.len() - i,
                {
                    proof {
                        lemma_list_fault::<T>(all, 0, i as int);
                        assert(all[i as int] == list@[i as int]@);
                    }
                    match T::from_json(&list[i]) {
                        Ok(v) => out.push(v),
                        Err(e) => return Err(inner_error(i, e)),
                    }
                    i = i + 1;
                }
                proof {
                    lemma_list_fault::<T>(all, 0, i as int);
                    assert(list_docs(out@) =~= all.map_values(|x: Doc| T::canon(x)->Ok_0));
                }
                Ok(out)
            },
            _ => Err(wrong_kind(json, "a sequence")),
        }
    }

    fn to_json(&self) -> (json: Json) {
        let mut out: Vec<Json> = Vec::new();
        let mut i: usize = 0;
        while i < self.len()
            invariant
                i <= self@.len(),
                json::docs(out@) =~= list_docs(self@).take(i as int),
            decreases self@.len() - i,
        {
            let ghost before = out@;
            let next: Json = self[i].to_json();
            out.push(next);
            proof {
                assert(json::docs(out@) =~= json::docs(before).push(next@));
                assert(list_docs(self@).take(i + 1) =~= list_docs(self@).take(i as int).push(
                    list_docs(self@)[i as int],
                ));
            }
            i = i + 1;
        }
        proof {
            json::lemma_views();
            assert(json::docs(out@) =~= list_docs(self@));
        }
        Json::Array(out)
    }

    proof fn law_reads_back(&self) {
        let list = list_docs(self@);
        assert forall|k: int| 0 <= k < list.len() implies T::canon(#[trigger] list[k]) == Ok::<
            Doc,
            Fault,
        >(list[k]) by {
            self@[k].law_reads_back();
        }
        lemma_list_fault::<T>(list, 0, list.len() as int);
        assert(list.map_values(|x: Doc| T::canon(x)->Ok_0) =~= list);
    }

    proof fn law_only_null_is_null(d: Doc) {
    }
}

/// Whether two readings are the same value, or both none.
pub open spec fn same_reading(a: Result<Doc, Fault>, b: Result<Doc, Fault>) -> bool {
    &&& a is Ok <==> b is Ok
    &&& a is Ok ==> a == b
}

/// Of two lists whose items are read alike, both are read as the same list or both are refused.
pub proof fn law_items_are_read_one_by_one<T: Wire>(a: Seq<Doc>, b: Seq<Doc>)
    requires
        a.len() == b.len(),
        forall|i: int|
            0 <= i < a.len() ==> same_reading(T::canon(#[trigger] a[i]), T::canon(b[i])),
    ensures
        same_reading(Vec::<T>::canon(Doc::Array(a)), Vec::<T>::canon(Doc::Array(b))),
{
    lemma_same_list_faults::<T>(a, b, 0);
    if list_fault::<T>(a, 0) is None {
        assert forall|i: int| 0 <= i < a.len() implies T::canon(#[trigger] a[i])->Ok_0 == T::canon(
            b[i],
        )->Ok_0 by {
            lemma_no_list_fault::<T>(a, 0, i);
        }
        assert(a.map_values(|x: Doc| T::canon(x)->Ok_0) =~= b.map_values(
            |x: Doc| T::canon(x)->Ok_0,
        ));
    }
}

proof fn lemma_same_list_faults<T: Wire>(a: Seq<Doc>, b: Seq<Doc>, i: int)
    requires
        0 <= i <= a.len(),
        a.len() == b.len(),
        forall|k: int|
            0 <= k < a.len() ==> same_reading(T::canon(#[trigger] a[k]), T::canon(b[k])),
    ensures
        list_fault::<T>(a, i) is None <==> list_fault::<T>(b, i) is None,
    decreases a.len() - i,
{
    if i < a.len() {
        assert(same_reading(T::canon(a[i]), T::canon(b[i])));
        lemma_same_list_faults::<T>(a, b, i + 1);
    }
}

/// `null` stands for no list and only `null` does; an array of texts stands for exactly those
/// texts, the empty one for the empty list.
pub proof fn law_optional_texts_are_exact(d: Doc, list: Option<Vec<String>>)
    requires
        Option::<Vec<String>>::canon(d) == Ok::<Doc, Fault>(list.doc()),
    ensures
        match list {
            None => d == Doc::Null,
            Some(l) => d == Doc::Array(text::texts(l@).map_values(|s: Seq<char>| Doc::Text(s))),
        },
{
    if let Some(l) = list {
        let items = d->Array_0;
        assert(list_docs(l@) =~= text::texts(l@).map_values(|s: Seq<char>| Doc::Text(s)));
        assert forall|i: int| 0 <= i < items.len() implies #[trigger] items[i] == list_docs(
            l@,
        )[i] by {
            lemma_no_list_fault::<String>(items, 0, i);
            assert(items.map_values(|x: Doc| String::canon(x)->Ok_0)[i] == items[i]);
        }
        assert(items =~= list_docs(l@));
    }
}

proof fn lemma_no_list_fault<T: Wire>(list: Seq<Doc>, from: int, i: int)
    requires
        0 <= from <= i < list.len(),
        list_fault::<T>(list, from) is None,
    ensures
        T::canon(list[i]) is Ok,
    decreases i - from,
{
    if from < i {
        lemma_no_list_fault::<T>(list, from + 1, i);
    }
}

impl<T: Wire> WireDefault for Vec<T> {
    open spec fn default_doc() -> Doc {
        Doc::Array(Seq::empty())
    }

    fn default_value() -> (value: Self) {
        let value: Vec<T> = Vec::new();
        proof {
            assert(list_docs(value@) =~= Seq::empty());
        }
        value
    }

    proof fn law_default_reads_back() {
        assert(Seq::<Doc>::empty().map_values(|x: Doc| T::canon(x)->Ok_0) =~= Seq::empty());
    }
}

impl Wire for Json {
    /// Any document of which no part was passed over.
    open spec fn canon(d: Doc) -> Result<Doc, Fault> {
        match json::unread_part(d) {
            Some(complaint) => Err(Fault::Unread(complaint)),
            None => Ok(d),
        }
    }

    open spec fn doc(&self) -> Doc {
        self@
    }

    open spec fn well_formed(&self) -> bool {
        json::unread_part(self@) is None
    }

    fn from_json(json: &Json) -> (value: Result<Self, DecodeError>) {
        match json.find_unread() {
            Some(complaint) => Err(DecodeError::Unread { complaint }),
            None => Ok(json.copy()),
        }
    }

    fn to_json(&self) -> (json: Json) {
        self.copy()
    }

    proof fn law_reads_back(&self) {
    }

    proof fn law_only_null_is_null(d: Doc) {
    }
}

/// The labels that the members of an object stand for, in ascending key order; of two members with
/// one name the later counts. `Err` is where the first value that is no text stands.
pub open spec fn member_labels(members: Seq<(Seq<char>, Doc)>) -> Result<
    Seq<(Seq<char>, Seq<char>)>,
    int,
>
    decreases members.len(),
{
    if members.len() == 0 {
        Ok(Seq::empty())
    } else {
        match member_labels(members.drop_last()) {
            Err(bad) => Err(bad),
            Ok(pairs) => match members.last().1 {
                Doc::Text(value) => Ok(labels::inserted(pairs, members.last().0, value)),
                _ => Err(members.len() - 1),
            },
        }
    }
}

/// The members that labels are written as.
pub open spec fn label_members(pairs: Seq<(Seq<char>, Seq<char>)>) -> Seq<(Seq<char>, Doc)> {
    pairs.map_values(|p: (Seq<char>, Seq<char>)| (p.0, Doc::Text(p.1)))
}

proof fn lemma_first_bad_member(members: Seq<(Seq<char>, Doc)>, n: int)
    requires
        0 <= n <= members.len(),
        member_labels(members.take(n)) is Err,
    ensures
        member_labels(members) == member_labels(members.take(n)),
    decreases members.len() - n,
{
    if n < members.len() {
        assert(members.take(n + 1).drop_last() =~= members.take(n));
        lemma_first_bad_member(members, n + 1);
    } else {
        assert(members.take(n) =~= members);
    }
}

/// Ascending labels are read back from the members that they are written as.
proof fn lemma_label_members(pairs: Seq<(Seq<char>, Seq<char>)>)
    requires
        labels::ascending(pairs),
    ensures
        member_labels(label_members(pairs)) == Ok::<_, int>(pairs),
    decreases pairs.len(),
{
    let members = label_members(pairs);
    if pairs.len() > 0 {
        let rest = pairs.drop_last();
        lemma_label_members(rest);
        assert(members.drop_last() =~= label_members(rest));
        if rest.len() > 0 {
            assert(rest.last() == pairs[pairs.len() - 2]);
            assert(labels::precedes(rest.last().0, pairs.last().0));
        }
        assert(labels::inserted(rest, pairs.last().0, pairs.last().1) =~= pairs);
    } else {
        assert(pairs =~= Seq::empty());
    }
}

impl Wire for Labels {
    /// An object of texts.
    open spec fn canon(d: Doc) -> Result<Doc, Fault> {
        match d {
            Doc::Object(members) => match member_labels(members) {
                Ok(pairs) => Ok(Doc::Object(label_members(pairs))),
                Err(bad) => Err(inside(bad, mistyped(members[bad].1, "a string"@))),
            },
            _ => Err(mistyped(d, "a map"@)),
        }
    }

    open spec fn doc(&self) -> Doc {
        Doc::Object(label_members(self@))
    }

    open spec fn well_formed(&self) -> bool {
        labels::ascending(self@)
    }

    fn from_json(json: &Json) -> (value: Result<Self, DecodeError>) {
        proof {
            json::lemma_views();
        }
        match json {
            Json::Object(members) => {
                let ghost all = json::member_docs(members@);
                let mut out: Labels = Labels::new();
                let mut i: usize = 0;
                while i < members.len()
                    invariant
                        all == json::member_docs(members@),
                        json@ == Doc::Object(all),
                        i <= members@.len(),
                        member_labels(all.take(i as int)) == Ok::<_, int>(out@),
                        labels::ascending(out@),
                    decreases members@.len() - i,
                {
                    proof {
                        assert(all.take(i + 1).drop_last() =~= all.take(i as int));
                        assert(all.take(i + 1).last() == (
                            members@[i as int].0@,
                            members@[i as int].1@,
                        ));
                    }
                    match &members[i].1 {
                        Json::Text(value) => {
                            out.insert(members[i].0.clone(), value.clone());
                        },
                        bad => {
                            proof {
                                lemma_first_bad_member(all, i + 1);
                            }
                            return Err(inner_error(i, wrong_kind(bad, "a string")));
                        },
                    }
                    i = i + 1;
                }
                proof {
                    assert(all.take(i as int) =~= all);
                }
                Ok(out)
            },
            _ => Err(wrong_kind(json, "a map")),
        }
    }

    fn to_json(&self) -> (json: Json) {
        let entries: &Vec<(String, String)> = self.entries();
        let mut out: Vec<(String, Json)> = Vec::new();
        let mut i: usize = 0;
        while i < entries.len()
            invariant
                i <= entries@.len(),
                labels::pair_texts(entries@) == self@,
                json::member_docs(out@) =~= label_members(self@).take(i as int),
            decreases entries@.len() - i,
        {
            let ghost before = out@;
            let name: String = entries[i].0.clone();
            let value: Json = Json::Text(entries[i].1.clone());
            let ghost member = (name@, value@);
            out.push((name, value));
            proof {
                assert(json::member_docs(out@) =~= json::member_docs(before).push(member));
                assert(self@[i as int] == (entries@[i as int].0@, entries@[i as int].1@));
                assert(label_members(self@).take(i + 1) =~= label_members(self@).take(
                    i as int,
                ).push(label_members(self@)[i as int]));
            }
            i = i + 1;
        }
        proof {
            json::lemma_views();
            assert(json::member_docs(out@) =~= label_members(self@));
        }
        Json::Object(out)
    }

    proof fn law_reads_back(&self) {
        lemma_label_members(self@);
    }

    proof fn law_only_null_is_null(d: Doc) {
    }
}

impl WireDefault for Labels {
    open spec fn default_doc() -> Doc {
        Doc::Object(Seq::empty())
    }

    fn default_value() -> (value: Self) {
        let value: Labels = Labels::new();
        proof {
            assert(label_members(value@) =~= Seq::empty());
        }
        value
    }

    proof fn law_default_reads_back() {
        assert(label_members(Seq::empty()) =~= Seq::empty());
    }
}

/// A scalar stands for itself and is written as itself: a text, a flag, and a number that fits.
pub proof fn law_scalars_stand_for_themselves(
    s: Seq<char>,
    b: bool,
    n: nat,
    text: String,
    long: u64,
    short: u16,
    size: usize,
)
    ensures
        String::canon(Doc::Text(s)) == Ok::<Doc, Fault>(Doc::Text(s)),
        bool::canon(Doc::Bool(b)) == Ok::<Doc, Fault>(Doc::Bool(b)),
        n <= u64::MAX ==> u64::canon(Doc::Unsigned(n)) == Ok::<Doc, Fault>(Doc::Unsigned(n)),
        n <= u16::MAX ==> u16::canon(Doc::Unsigned(n)) == Ok::<Doc, Fault>(Doc::Unsigned(n)),
        n <= usize::MAX ==> usize::canon(Doc::Unsigned(n)) == Ok::<Doc, Fault>(Doc::Unsigned(n)),
        text.doc() == Doc::Text(text@),
        b.doc() == Doc::Bool(b),
        long.doc() == Doc::Unsigned(long as nat),
        short.doc() == Doc::Unsigned(short as nat),
        size.doc() == Doc::Unsigned(size as nat),
{
}

/// Nothing else stands for a scalar: anything but a text is refused where a text is expected, and
/// so for flags and numbers. A whole number that does not fit is told as out of range, anything
/// else as of the wrong kind.
pub proof fn law_other_kinds_are_refused(d: Doc)
    requires
        !(d is Unread),
    ensures
        !(d is Text) ==> String::canon(d) == Err::<Doc, Fault>(
            Fault::Mistyped { found: kind_words(d), expected: "a string"@ },
        ),
        !(d is Bool) ==> bool::canon(d) == Err::<Doc, Fault>(
            Fault::Mistyped { found: kind_words(d), expected: "a boolean"@ },
        ),
        !(d is Unsigned) && !(d is Negative) ==> u64::canon(d) == Err::<Doc, Fault>(
            Fault::Mistyped { found: kind_words(d), expected: "u64"@ },
        ) && u16::canon(d) == Err::<Doc, Fault>(
            Fault::Mistyped { found: kind_words(d), expected: "u16"@ },
        ) && usize::canon(d) == Err::<Doc, Fault>(
            Fault::Mistyped { found: kind_words(d), expected: "usize"@ },
        ),
        d is Negative || (d is Unsigned && d->Unsigned_0 > u64::MAX) ==> u64::canon(d) == Err::<
            Doc,
            Fault,
        >(Fault::OutOfRange { found: kind_words(d), expected: "u64"@ }),
        d is Negative || (d is Unsigned && d->Unsigned_0 > u16::MAX) ==> u16::canon(d) == Err::<
            Doc,
            Fault,
        >(Fault::OutOfRange { found: kind_words(d), expected: "u16"@ }),
        d is Negative || (d is Unsigned && d->Unsigned_0 > usize::MAX) ==> usize::canon(d) == Err::<
            Doc,
            Fault,
        >(Fault::OutOfRange { found: kind_words(d), expected: "usize"@ }),
        !(d is Array) ==> Vec::<String>::canon(d) == Err::<Doc, Fault>(
            Fault::Mistyped { found: kind_words(d), expected: "a sequence"@ },
        ),
        !(d is Object) ==> Labels::canon(d) == Err::<Doc, Fault>(
            Fault::Mistyped { found: kind_words(d), expected: "a map"@ },
        ),
{
}

/// `null` stands for nothing, and anything else for what it stands for on its own.
pub proof fn law_options_hold_what_is_there<T: Wire>(d: Doc, v: T)
    ensures
        Option::<T>::canon(Doc::Null) == Ok::<Doc, Fault>(Doc::Null),
        d != Doc::Null ==> Option::<T>::canon(d) == T::canon(d),
        Some(v).doc() == v.doc(),
        None::<T>.doc() == Doc::Null,
{
}

/// A list is read item by item: a list that is read has an item for each item of the array, read
/// from it. The first item that is not read is what a list is refused for.
pub proof fn law_list_is_read_item_by_item<T: Wire>(d: Doc, list: Vec<T>, k: int)
    ensures
        Vec::<T>::canon(d) == Ok::<Doc, Fault>(list.doc()) ==> {
            &&& d is Array
            &&& d->Array_0.len() == list@.len()
            &&& forall|i: int|
                0 <= i < list@.len() ==> T::canon(#[trigger] d->Array_0[i]) == Ok::<Doc, Fault>(
                    list@[i].doc(),
                )
        },
        d is Array && 0 <= k < d->Array_0.len() && T::canon(d->Array_0[k]) is Err && (forall|i: int|
            0 <= i < k ==> T::canon(#[trigger] d->Array_0[i]) is Ok) ==> Vec::<T>::canon(d) == Err::<
            Doc,
            Fault,
        >(Fault::Inside { part: k, fault: Box::new(T::canon(d->Array_0[k])->Err_0) }),
{
    if Vec::<T>::canon(d) == Ok::<Doc, Fault>(list.doc()) {
        let items = d->Array_0;
        let read = items.map_values(|x: Doc| T::canon(x)->Ok_0);
        assert(read == list_docs(list@));
        assert(read.len() == items.len());
        assert(list_docs(list@).len() == list@.len());
        assert forall|i: int| 0 <= i < list@.len() implies T::canon(#[trigger] items[i]) == Ok::<
            Doc,
            Fault,
        >(list@[i].doc()) by {
            lemma_no_list_fault::<T>(items, 0, i);
            assert(read[i] == T::canon(items[i])->Ok_0);
            assert(list_docs(list@)[i] == list@[i].doc());
        }
    }
    if d is Array && 0 <= k < d->Array_0.len() && T::canon(d->Array_0[k]) is Err && (forall|i: int|
        0 <= i < k ==> T::canon(#[trigger] d->Array_0[i]) is Ok) {
        lemma_list_fault::<T>(d->Array_0, 0, k);
    }
}

/// The pairs that members with texts spell out.
pub open spec fn text_pairs(members: Seq<(Seq<char>, Doc)>) -> Seq<(Seq<char>, Seq<char>)> {
    members.map_values(|m: (Seq<char>, Doc)| (m.0, m.1->Text_0))
}

/// Labels are read from an object whose values are texts: each key has the value of the last member
/// of that name. They are written as one member for each, in ascending key order.
pub proof fn law_labels_are_read(d: Doc, labels: Labels)
    requires
        Labels::canon(d) == Ok::<Doc, Fault>(labels.doc()),
    ensures
        d is Object,
        forall|i: int| 0 <= i < d->Object_0.len() ==> (#[trigger] d->Object_0[i]).1 is Text,
        labels::pairs_map(labels@) == labels::pairs_map(text_pairs(d->Object_0)),
        labels::ascending(labels@),
        labels.doc()->Object_0.len() == labels@.len(),
        forall|i: int|
            0 <= i < labels@.len() ==> #[trigger] labels.doc()->Object_0[i] == (
                labels@[i].0,
                Doc::Text(labels@[i].1),
            ),
{
    let members = d->Object_0;
    lemma_member_labels(members);
    let pairs = member_labels(members)->Ok_0;
    let x = label_members(pairs);
    let y = label_members(labels@);
    assert(x == y);
    assert(x.len() == pairs.len() && y.len() == labels@.len());
    assert forall|i: int| 0 <= i < pairs.len() implies #[trigger] pairs[i] == labels@[i] by {
        assert(x[i] == y[i]);
    }
    assert(pairs =~= labels@);
}

proof fn lemma_member_labels(members: Seq<(Seq<char>, Doc)>)
    requires
        member_labels(members) is Ok,
    ensures
        forall|i: int| 0 <= i < members.len() ==> (#[trigger] members[i]).1 is Text,
        labels::pairs_map(member_labels(members)->Ok_0) == labels::pairs_map(text_pairs(members)),
        labels::ascending(member_labels(members)->Ok_0),
    decreases members.len(),
{
    if members.len() > 0 {
        let rest = members.drop_last();
        lemma_member_labels(rest);
        labels::law_inserted(
            member_labels(rest)->Ok_0,
            members.last().0,
            members.last().1->Text_0,
        );
        assert(text_pairs(members).drop_last() =~= text_pairs(rest));
        assert(text_pairs(members).last() == (members.last().0, members.last().1->Text_0));
        assert forall|i: int| 0 <= i < members.len() implies (#[trigger] members[i]).1 is Text by {
            if i < rest.len() {
                assert(rest[i] == members[i]);
            }
        }
    } else {
        assert(text_pairs(members) =~= Seq::empty());
    }
}

/// Labels are refused for the first member whose value is no text.
pub proof fn law_first_bad_label_value_is_told(members: Seq<(Seq<char>, Doc)>, k: int)
    requires
        0 <= k < members.len(),
        !(members[k].1 is Text),
        forall|i: int| 0 <= i < k ==> (#[trigger] members[i]).1 is Text,
    ensures
        Labels::canon(Doc::Object(members)) == Err::<Doc, Fault>(
            inside(k, mistyped(members[k].1, "a string"@)),
        ),
{
    let first = members.take(k);
    lemma_all_texts(first);
    let upto = members.take(k + 1);
    assert(upto.drop_last() =~= first);
    assert(upto.last() == members[k]);
    lemma_first_bad_member(members, k + 1);
}

proof fn lemma_all_texts(members: Seq<(Seq<char>, Doc)>)
    requires
        forall|i: int| 0 <= i < members.len() ==> (#[trigger] members[i]).1 is Text,
    ensures
        member_labels(members) is Ok,
    decreases members.len(),
{
    if members.len() > 0 {
        let rest = members.drop_last();
        assert forall|i: int| 0 <= i < rest.len() implies (#[trigger] rest[i]).1 is Text by {
            assert(rest[i] == members[i]);
        }
        lemma_all_texts(rest);
        assert(members[members.len() - 1] == members.last());
    }
}

} // verus!
