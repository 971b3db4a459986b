//! Records: values with named fields.

use vstd::prelude::*;

use crate::json;
use crate::json::Doc;
use crate::json::Json;
use crate::text;
use crate::text::same_text;
use crate::wire;
use crate::wire::DecodeError;
use crate::wire::Fault;
use crate::wire::Wire;
use crate::wire::WireDefault;

verus! {

/// A field of a record: its name, what it is read as, and what stands for it where it is absent
/// (`None` where it must not be).
pub struct Field {
    pub name: Seq<char>,
    pub default: Option<Doc>,
    pub canon: spec_fn(Doc) -> Result<Doc, Fault>,
}

/// A field that must be there.
pub open spec fn required<T: Wire>(name: Seq<char>) -> Field {
    Field { name, default: None, canon: |d: Doc| T::canon(d) }
}

/// A field that may be left out.
pub open spec fn defaulted<T: WireDefault>(name: Seq<char>) -> Field {
    Field { name, default: Some(T::default_doc()), canon: |d: Doc| T::canon(d) }
}

/// The values of the members with this name, in order.
pub open spec fn hits(members: Seq<(Seq<char>, Doc)>, name: Seq<char>) -> Seq<Doc>
    decreases members.len(),
{
    if members.len() == 0 {
        Seq::empty()
    } else if members.last().0 == name {
        hits(members.drop_last(), name).push(members.last().1)
    } else {
        hits(members.drop_last(), name)
    }
}

/// Where the first member with this name stands, from the `i`-th on; the number of members where
/// there is none.
pub open spec fn place(members: Seq<(Seq<char>, Doc)>, name: Seq<char>, i: int) -> int
    decreases members.len() - i,
{
    if i < 0 || i >= members.len() {
        members.len() as int
    } else if members[i].0 == name {
        i
    } else {
        place(members, name, i + 1)
    }
}

/// What a document says of a field.
pub enum Slot {
    Absent,
    Repeated,
    Present(Doc),
}

/// What `d` says of the field `name`, the `i`-th of its record.
pub open spec fn slot(d: Doc, i: int, name: Seq<char>) -> Slot {
    match d {
        Doc::Object(members) => {
            let first = place(members, name, 0);
            if first >= members.len() {
                Slot::Absent
            } else if place(members, name, first + 1) < members.len() {
                Slot::Repeated
            } else {
                Slot::Present(members[first].1)
            }
        },
        Doc::Array(list) => if i < list.len() {
            Slot::Present(list[i])
        } else {
            Slot::Absent
        },
        _ => Slot::Absent,
    }
}

/// The value of the field `f`, the `i`-th of its record, in a document without a fault.
pub open spec fn field_value(f: Field, d: Doc, i: int) -> Doc {
    match slot(d, i, f.name) {
        Slot::Present(x) => (f.canon)(x)->Ok_0,
        _ => f.default->0,
    }
}

/// What a record of `count` fields is called where its fields are listed.
pub open spec fn listed_record(name: Seq<char>, count: nat) -> Seq<char> {
    "struct "@ + name + " with "@ + text::decimal(count) + (if count == 1 {
        " element"@
    } else {
        " elements"@
    })
}

/// What is wrong with the field `f`, the `i`-th of the record `name` of `count` fields, and where:
/// in an object, at the first member with its name if that is not read as the field, else at the
/// second one, else, where a field without a default is absent, behind all members.
pub open spec fn field_fault(name: Seq<char>, count: nat, f: Field, d: Doc, i: int) -> Option<
    (int, Fault),
> {
    match d {
        Doc::Object(members) => {
            let first = place(members, f.name, 0);
            if first >= members.len() {
                if f.default is None {
                    Some((members.len() + i, Fault::Missing(f.name)))
                } else {
                    None
                }
            } else {
                let second = place(members, f.name, first + 1);
                match (f.canon)(members[first].1) {
                    Err(fault) => Some((first, wire::inside(first, fault))),
                    Ok(_) => if second < members.len() {
                        Some((second, Fault::Repeated { field: f.name, part: second }))
                    } else {
                        None
                    },
                }
            }
        },
        Doc::Array(list) => if i < list.len() {
            match (f.canon)(list[i]) {
                Err(fault) => Some((i, wire::inside(i, fault))),
                Ok(_) => None,
            }
        } else if f.default is None {
            Some((i, Fault::Short { length: i as nat, expected: listed_record(name, count) }))
        } else {
            None
        },
        _ => None,
    }
}

/// The fault that comes first.
pub open spec fn earlier(a: Option<(int, Fault)>, b: Option<(int, Fault)>) -> Option<(int, Fault)> {
    match (a, b) {
        (Some(x), Some(y)) => if y.0 < x.0 {
            b
        } else {
            a
        },
        (Some(_), None) => a,
        (None, _) => b,
    }
}

/// The fault of the first `n` fields that comes first in the document, and where it stands.
pub open spec fn first_fault(name: Seq<char>, fields: Seq<Field>, d: Doc, n: int) -> Option<
    (int, Fault),
>
    decreases n,
{
    if n <= 0 {
        None
    } else {
        earlier(
            first_fault(name, fields, d, n - 1),
            field_fault(name, fields.len(), fields[n - 1], d, n - 1),
        )
    }
}

/// Whether a document can stand for a record: it is an object or an array.
pub open spec fn record_shape(d: Doc) -> bool {
    d is Object || d is Array
}

/// Whether a document has nothing behind the last of `n` fields.
pub open spec fn ends_with(d: Doc, n: nat) -> bool {
    d is Array ==> d->Array_0.len() <= n
}

/// The object with every field of the record that `d` stands for, or why it stands for none: the
/// fault that comes first in the document.
pub open spec fn record(name: Seq<char>, fields: Seq<Field>, d: Doc) -> Result<Doc, Fault> {
    if !record_shape(d) {
        Err(wire::mistyped(d, "struct "@ + name))
    } else {
        match first_fault(name, fields, d, fields.len() as int) {
            Some((_, fault)) => Err(fault),
            None => if !ends_with(d, fields.len()) {
                Err(Fault::Trailing { part: fields.len() as int })
            } else {
                Ok(
                    Doc::Object(
                        Seq::new(
                            fields.len(),
                            |i: int| (fields[i].name, field_value(fields[i], d, i)),
                        ),
                    ),
                )
            },
        }
    }
}

/// Where the first `n` fields show no fault, none of them has one.
pub proof fn lemma_no_fault(name: Seq<char>, fields: Seq<Field>, d: Doc, n: int)
    requires
        0 <= n <= fields.len(),
        first_fault(name, fields, d, n) is None,
    ensures
        forall|i: int|
            0 <= i < n ==> field_fault(name, fields.len(), #[trigger] fields[i], d, i) is None,
    decreases n,
{
    if n > 0 {
        lemma_no_fault(name, fields, d, n - 1);
    }
}

proof fn lemma_faultless(name: Seq<char>, fields: Seq<Field>, d: Doc, n: int)
    requires
        0 <= n <= fields.len(),
        forall|i: int|
            0 <= i < n ==> field_fault(name, fields.len(), #[trigger] fields[i], d, i) is None,
    ensures
        first_fault(name, fields, d, n) is None,
    decreases n,
{
    if n > 0 {
        lemma_faultless(name, fields, d, n - 1);
    }
}

/// A record all of whose fields are read is read.
pub proof fn lemma_record_read(
    name: Seq<char>,
    fields: Seq<Field>,
    d: Doc,
    members: Seq<(Seq<char>, Doc)>,
)
    requires
        record_shape(d),
        first_fault(name, fields, d, fields.len() as int) is None,
        ends_with(d, fields.len()),
        members.len() == fields.len(),
        forall|i: int|
            0 <= i < fields.len() ==> #[trigger] members[i] == (
                fields[i].name,
                field_value(fields[i], d, i),
            ),
    ensures
        record(name, fields, d) == Ok::<Doc, Fault>(Doc::Object(members)),
{
    assert(members =~= Seq::new(
        fields.len(),
        |i: int| (fields[i].name, field_value(fields[i], d, i)),
    ));
}

proof fn lemma_place(members: Seq<(Seq<char>, Doc)>, name: Seq<char>, i: int)
    requires
        0 <= i <= members.len(),
    ensures
        i <= place(members, name, i) <= members.len(),
        place(members, name, i) < members.len() ==> members[place(members, name, i)].0 == name,
        forall|k: int|
            i <= k < place(members, name, i) && k < members.len() ==> (#[trigger] members[k]).0
                != name,
    decreases members.len() - i,
{
    if i < members.len() && members[i].0 != name {
        lemma_place(members, name, i + 1);
    }
}

/// Whether no two of the names are the same.
pub open spec fn distinct_names(fields: Seq<Field>) -> bool {
    forall|i: int, j: int|
        0 <= i < fields.len() && 0 <= j < fields.len() && i != j ==> (#[trigger] fields[i]).name != (
        #[trigger] fields[j]).name
}

/// A record is read back from the object that lists each field once, with a value that is read
/// back from what it was written as.
pub proof fn lemma_record_reads_back(
    name: Seq<char>,
    fields: Seq<Field>,
    members: Seq<(Seq<char>, Doc)>,
)
    requires
        distinct_names(fields),
        members.len() == fields.len(),
        forall|i: int| 0 <= i < fields.len() ==> (#[trigger] members[i]).0 == fields[i].name,
        forall|i: int|
            0 <= i < fields.len() ==> (fields[i].canon)((#[trigger] members[i]).1) == Ok::<Doc, Fault>(
                members[i].1,
            ),
    ensures
        record(name, fields, Doc::Object(members)) == Ok::<Doc, Fault>(Doc::Object(members)),
{
    let d = Doc::Object(members);
    assert forall|i: int| 0 <= i < fields.len() implies field_fault(
        name,
        fields.len(),
        #[trigger] fields[i],
        d,
        i,
    ) is None && field_value(fields[i], d, i) == members[i].1 by {
        let own = fields[i].name;
        lemma_place(members, own, 0);
        let first = place(members, own, 0);
        assert(members[i].0 == own);
        if first != i {
            assert(fields[first].name != fields[i].name);
        }
        lemma_place(members, own, first + 1);
        let second = place(members, own, first + 1);
        if second < members.len() {
            assert(fields[second].name != fields[i].name);
        }
    }
    lemma_faultless(name, fields, d, fields.len() as int);
    lemma_record_read(name, fields, d, members);
}

/// Whether `d` has a value for the field `f`, the `i`-th of its record.
pub open spec fn has_value(f: Field, d: Doc, i: int) -> bool {
    match slot(d, i, f.name) {
        Slot::Present(x) => (f.canon)(x) is Ok,
        Slot::Absent => f.default is Some,
        Slot::Repeated => false,
    }
}

proof fn lemma_fault_by_slot(name: Seq<char>, count: nat, f: Field, d: Doc, i: int)
    requires
        record_shape(d),
    ensures
        field_fault(name, count, f, d, i) is None <==> has_value(f, d, i),
{
}

/// A record that is read has every field once, in order: what stands for it in the document is
/// read as the field says, and where nothing stands for it the field has a default, which counts.
pub proof fn law_fields_are_read(name: Seq<char>, fields: Seq<Field>, d: Doc)
    requires
        record(name, fields, d) is Ok,
    ensures
        record(name, fields, d)->Ok_0 is Object,
        record(name, fields, d)->Ok_0->Object_0.len() == fields.len(),
        forall|i: int|
            0 <= i < fields.len() ==> {
                let member = #[trigger] record(name, fields, d)->Ok_0->Object_0[i];
                &&& member.0 == fields[i].name
                &&& match slot(d, i, fields[i].name) {
                    Slot::Present(x) => (fields[i].canon)(x) == Ok::<Doc, Fault>(member.1),
                    Slot::Absent => fields[i].default == Some(member.1),
                    Slot::Repeated => false,
                }
            },
{
    lemma_no_fault(name, fields, d, fields.len() as int);
    assert forall|i: int| 0 <= i < fields.len() implies has_value(#[trigger] fields[i], d, i) by {
        lemma_fault_by_slot(name, fields.len(), fields[i], d, i);
    }
}

/// Whether two documents say the same of a field: it is absent from both, repeated in both, read
/// as the same value from both, or refused in both.
pub open spec fn agree(f: Field, i: int, a: Doc, b: Doc) -> bool {
    match (slot(a, i, f.name), slot(b, i, f.name)) {
        (Slot::Absent, Slot::Absent) => true,
        (Slot::Repeated, Slot::Repeated) => true,
        (Slot::Present(x), Slot::Present(y)) => wire::same_reading((f.canon)(x), (f.canon)(y)),
        _ => false,
    }
}

/// Nothing but the fields counts: of two objects that agree on every field, whatever else they
/// hold, at this level or inside a field, and in whatever order, both are read as the same record
/// or both are refused.
pub proof fn law_only_fields_count(
    name: Seq<char>,
    fields: Seq<Field>,
    a: Seq<(Seq<char>, Doc)>,
    b: Seq<(Seq<char>, Doc)>,
)
    requires
        forall|i: int|
            0 <= i < fields.len() ==> agree(
                #[trigger] fields[i],
                i,
                Doc::Object(a),
                Doc::Object(b),
            ),
    ensures
        wire::same_reading(
            record(name, fields, Doc::Object(a)),
            record(name, fields, Doc::Object(b)),
        ),
{
    if record(name, fields, Doc::Object(a)) is Ok {
        lemma_agreeing(name, fields, Doc::Object(a), Doc::Object(b));
    }
    if record(name, fields, Doc::Object(b)) is Ok {
        lemma_agreeing(name, fields, Doc::Object(b), Doc::Object(a));
    }
}

proof fn lemma_agreeing(name: Seq<char>, fields: Seq<Field>, a: Doc, b: Doc)
    requires
        a is Object,
        b is Object,
        record(name, fields, a) is Ok,
        forall|i: int| 0 <= i < fields.len() ==> agree(#[trigger] fields[i], i, a, b),
    ensures
        record(name, fields, a) == record(name, fields, b),
{
    let n = fields.len() as int;
    lemma_no_fault(name, fields, a, n);
    assert forall|i: int| 0 <= i < n implies field_fault(
        name,
        fields.len(),
        #[trigger] fields[i],
        b,
        i,
    ) is None && field_value(fields[i], a, i) == field_value(fields[i], b, i) by {
        assert(agree(fields[i], i, a, b));
        lemma_fault_by_slot(name, fields.len(), fields[i], a, i);
        lemma_fault_by_slot(name, fields.len(), fields[i], b, i);
    }
    lemma_faultless(name, fields, b, n);
    assert(Seq::new(fields.len(), |i: int| (fields[i].name, field_value(fields[i], a, i)))
        =~= Seq::new(fields.len(), |i: int| (fields[i].name, field_value(fields[i], b, i))));
}

/// Faults are told in document order: every member before the fault that is told and that names a
/// field is the first one to do so and is read as the field, and a missing field is told only
/// where all members are in order.
pub proof fn law_faults_come_in_document_order(
    name: Seq<char>,
    fields: Seq<Field>,
    members: Seq<(Seq<char>, Doc)>,
    i: int,
    j: int,
)
    requires
        first_fault(name, fields, Doc::Object(members), fields.len() as int) is Some,
        0 <= i < fields.len(),
        0 <= j < members.len(),
        j < (first_fault(name, fields, Doc::Object(members), fields.len() as int)->0).0,
        members[j].0 == fields[i].name,
    ensures
        place(members, fields[i].name, 0) == j,
        (fields[i].canon)(members[j].1) is Ok,
{
    let d = Doc::Object(members);
    let own = fields[i].name;
    lemma_first(name, fields, d, fields.len() as int, i);
    lemma_place(members, own, 0);
    let first = place(members, own, 0);
    lemma_place(members, own, first + 1);
}

proof fn lemma_first(name: Seq<char>, fields: Seq<Field>, d: Doc, n: int, i: int)
    requires
        0 <= i < n <= fields.len(),
        first_fault(name, fields, d, n) is Some,
    ensures
        match field_fault(name, fields.len(), fields[i], d, i) {
            Some((at, _)) => (first_fault(name, fields, d, n)->0).0 <= at,
            None => true,
        },
    decreases n,
{
    if i < n - 1 {
        if first_fault(name, fields, d, n - 1) is Some {
            lemma_first(name, fields, d, n - 1, i);
        } else {
            lemma_no_fault(name, fields, d, n - 1);
        }
    }
}

/// Where a part is once a member is put in at `at`.
pub open spec fn moved(part: int, at: int) -> int {
    if part < at {
        part
    } else {
        part + 1
    }
}

/// A fault of an object once a member is put in at `at`.
pub open spec fn moved_fault(fault: Fault, at: int) -> Fault {
    match fault {
        Fault::Inside { part, fault } => Fault::Inside { part: moved(part, at), fault },
        Fault::Repeated { field, part } => Fault::Repeated { field, part: moved(part, at) },
        _ => fault,
    }
}

/// A member that no field is named after is ignored, wherever it stands: the same record is read,
/// or the same fault is told, of the member that is now one further on.
pub proof fn law_unknown_members_are_ignored(
    name: Seq<char>,
    fields: Seq<Field>,
    before: Seq<(Seq<char>, Doc)>,
    extra: (Seq<char>, Doc),
    after: Seq<(Seq<char>, Doc)>,
)
    requires
        forall|i: int| 0 <= i < fields.len() ==> (#[trigger] fields[i]).name != extra.0,
    ensures
        record(name, fields, Doc::Object(before + seq![extra] + after)) == (match record(
            name,
            fields,
            Doc::Object(before + after),
        ) {
            Ok(d) => Ok(d),
            Err(fault) => Err(moved_fault(fault, before.len() as int)),
        }),
        forall|fault: Fault, at: int| #[trigger]
            wire::fault_text(moved_fault(fault, at)) == wire::fault_text(fault),
{
    let with = Doc::Object(before + seq![extra] + after);
    let without = Doc::Object(before + after);
    assert forall|i: int| 0 <= i < fields.len() implies field_fault(
        name,
        fields.len(),
        #[trigger] fields[i],
        with,
        i,
    ) == shifted(field_fault(name, fields.len(), fields[i], without, i), before.len() as int)
        && field_value(fields[i], with, i) == field_value(fields[i], without, i) by {
        lemma_shifted_field(name, fields.len(), fields[i], before, extra, after, i);
    }
    lemma_shifted_first(
        name,
        fields,
        with,
        without,
        before.len() as int,
        fields.len() as int,
    );
    assert(Seq::new(fields.len(), |i: int| (fields[i].name, field_value(fields[i], with, i)))
        =~= Seq::new(fields.len(), |i: int| (fields[i].name, field_value(fields[i], without, i))));
}

spec fn shifted(fault: Option<(int, Fault)>, at: int) -> Option<(int, Fault)> {
    match fault {
        Some((place, fault)) => Some((moved(place, at), moved_fault(fault, at))),
        None => None,
    }
}

proof fn lemma_shifted_first(
    name: Seq<char>,
    fields: Seq<Field>,
    with: Doc,
    without: Doc,
    at: int,
    n: int,
)
    requires
        0 <= n <= fields.len(),
        forall|i: int|
            0 <= i < fields.len() ==> field_fault(
                name,
                fields.len(),
                #[trigger] fields[i],
                with,
                i,
            ) == shifted(field_fault(name, fields.len(), fields[i], without, i), at),
    ensures
        first_fault(name, fields, with, n) == shifted(first_fault(name, fields, without, n), at),
    decreases n,
{
    if n > 0 {
        lemma_shifted_first(name, fields, with, without, at, n - 1);
        assert(field_fault(name, fields.len(), fields[n - 1], with, n - 1) == shifted(
            field_fault(name, fields.len(), fields[n - 1], without, n - 1),
            at,
        ));
    }
}

proof fn lemma_shifted_place(
    before: Seq<(Seq<char>, Doc)>,
    extra: (Seq<char>, Doc),
    after: Seq<(Seq<char>, Doc)>,
    name: Seq<char>,
    i: int,
)
    requires
        extra.0 != name,
        0 <= i <= before.len() + after.len(),
    ensures
        place(before + seq![extra] + after, name, moved(i, before.len() as int)) == moved(
            place(before + after, name, i),
            before.len() as int,
        ),
        i == before.len() ==> place(before + seq![extra] + after, name, i) == moved(
            place(before + after, name, i),
            before.len() as int,
        ),
    decreases before.len() + after.len() - i,
{
    let at = before.len() as int;
    let with = before + seq![extra] + after;
    let without = before + after;
    lemma_place(without, name, i);
    if i < without.len() {
        assert(with[moved(i, at)] == without[i]);
        lemma_shifted_place(before, extra, after, name, i + 1);
    }
    if i == at {
        assert(with[at] == extra);
        assert(place(with, name, at) == place(with, name, at + 1));
    }
}

proof fn lemma_shifted_field(
    name: Seq<char>,
    count: nat,
    f: Field,
    before: Seq<(Seq<char>, Doc)>,
    extra: (Seq<char>, Doc),
    after: Seq<(Seq<char>, Doc)>,
    i: int,
)
    requires
        extra.0 != f.name,
        0 <= i,
    ensures
        ({
            let with = Doc::Object(before + seq![extra] + after);
            let without = Doc::Object(before + after);
            &&& field_fault(name, count, f, with, i) == shifted(
                field_fault(name, count, f, without, i),
                before.len() as int,
            )
            &&& field_value(f, with, i) == field_value(f, without, i)
        }),
{
    let at = before.len() as int;
    let with = before + seq![extra] + after;
    let without = before + after;
    lemma_shifted_place(before, extra, after, f.name, 0);
    lemma_place(without, f.name, 0);
    let first = place(without, f.name, 0);
    assert(place(with, f.name, 0) == moved(first, at));
    if first < without.len() {
        assert(with[moved(first, at)] == without[first]);
        lemma_shifted_place(before, extra, after, f.name, first + 1);
        assert(place(with, f.name, moved(first, at) + 1) == moved(
            place(without, f.name, first + 1),
            at,
        ));
        lemma_place(without, f.name, first + 1);
    }
}

/// Where a field stands in a document, if it does, and where it stands again.
enum Found<'a> {
    Absent { end: usize },
    At { first: usize, json: &'a Json, second: Option<usize> },
}

/// Looks a field up by name.
fn look_up<'a>(members: &'a Vec<(String, Json)>, name: &str) -> (found: Found<'a>)
    ensures
        ({
            let all = json::member_docs(members@);
            let place0 = place(all, name@, 0);
            match found {
                Found::Absent { end } => place0 == all.len() && end == all.len(),
                Found::At { first, json, second } => {
                    &&& place0 == first
                    &&& first < all.len()
                    &&& json@ == all[first as int].1
                    &&& match second {
                        Some(again) => place(all, name@, first + 1) == again && again < all.len(),
                        None => place(all, name@, first + 1) == all.len(),
                    }
                },
            }
        }),
{
    let first: usize = find(members, name, 0);
    if first >= members.len() {
        return Found::Absent { end: members.len() };
    }
    let again: usize = find(members, name, first + 1);
    let second: Option<usize> = if again < members.len() {
        Some(again)
    } else {
        None
    };
    Found::At { first, json: &members[first].1, second }
}

/// Where the first member with this name stands, from the `i`-th on.
fn find(members: &Vec<(String, Json)>, name: &str, i: usize) -> (at: usize)
    requires
        i <= members@.len(),
    ensures
        at == place(json::member_docs(members@), name@, i as int),
        at <= members@.len(),
{
    let mut k: usize = i;
    while k < members.len()
        invariant
            i <= k <= members@.len(),
            place(json::member_docs(members@), name@, i as int) == place(
                json::member_docs(members@),
                name@,
                k as int,
            ),
        decreases members@.len() - k,
    {
        proof {
            assert(json::member_docs(members@)[k as int].0 == members@[k as int].0@);
        }
        if same_text(members[k].0.as_str(), name) {
            return k;
        }
        k = k + 1;
    }
    k
}

/// A record that is being read, field by field, with the fault so far that comes first.
pub struct Scan<'a> {
    json: &'a Json,
    name: &'a str,
    count: usize,
    fault: Option<(u128, DecodeError)>,
}

impl<'a> Scan<'a> {
    /// The document that is read.
    pub closed spec fn doc(&self) -> Doc {
        self.json@
    }

    /// The name of the record.
    pub closed spec fn name(&self) -> Seq<char> {
        self.name@
    }

    /// The number of its fields.
    pub closed spec fn count(&self) -> nat {
        self.count as nat
    }

    /// The fault so far that comes first, and where it stands.
    pub closed spec fn fault(&self) -> Option<(int, Fault)> {
        match self.fault {
            Some((at, error)) => Some((at as int, error@)),
            None => None,
        }
    }

    /// Whether the first `n` of these fields have been read.
    pub open spec fn has_read(&self, fields: Seq<Field>, n: int) -> bool {
        &&& record_shape(self.doc())
        &&& self.count() == fields.len()
        &&& self.fault() == first_fault(self.name(), fields, self.doc(), n)
    }

    /// Starts to read the record `name` of `count` fields.
    pub(crate) fn new(
        json: &'a Json,
        name: &'a str,
        count: usize,
        Ghost(fields): Ghost<Seq<Field>>,
    ) -> (scan: Result<Scan<'a>, DecodeError>)
        requires
            fields.len() == count,
        ensures
            match scan {
                Ok(s) => s.doc() == json@ && s.name() == name@ && s.has_read(fields, 0),
                Err(e) => record(name@, fields, json@) == Err::<Doc, Fault>(e@),
            },
    {
        proof {
            json::lemma_views();
        }
        match json {
            Json::Object(_) => Ok(Scan { json, name, count, fault: None }),
            Json::Array(_) => Ok(Scan { json, name, count, fault: None }),
            _ => {
                let mut expected: String = "struct ".to_owned();
                expected.append(name);
                Err(wire::wrong_kind(json, expected.as_str()))
            },
        }
    }

    /// Notes a fault, unless one that comes before it is known.
    fn blame(&mut self, at: u128, error: DecodeError)
        ensures
            final(self).doc() == old(self).doc(),
            final(self).name() == old(self).name(),
            final(self).count() == old(self).count(),
            final(self).fault() == earlier(old(self).fault(), Some((at as int, error@))),
    {
        let sooner: bool = match &self.fault {
            Some((known, _)) => at < *known,
            None => true,
        };
        if sooner {
            self.fault = Some((at, error));
        }
    }

    /// What the record is called where its fields are listed.
    fn listed(&self) -> (text: String)
        ensures
            text@ == listed_record(self.name(), self.count()),
    {
        let mut text: String = "struct ".to_owned();
        text.append(self.name);
        text.append(" with ");
        text.append(text::decimal_text(self.count as u64).as_str());
        if self.count == 1 {
            text.append(" element");
        } else {
            text.append(" elements");
        }
        text
    }

    /// Reads the `i`-th field, which may be absent where it is optional. `None` where it has a
    /// fault, which is noted.
    fn read<T: Wire>(
        &mut self,
        i: usize,
        name: &str,
        optional: bool,
        Ghost(fields): Ghost<Seq<Field>>,
    ) -> (value: Option<Option<T>>)
        requires
            i < fields.len(),
            fields[i as int].name == name@,
            fields[i as int].canon == (|d: Doc| T::canon(d)),
            optional == (fields[i as int].default is Some),
            old(self).has_read(fields, i as int),
        ensures
            final(self).doc() == old(self).doc(),
            final(self).name() == old(self).name(),
            final(self).has_read(fields, i + 1),
            ({
                let d = old(self).doc();
                let f = fields[i as int];
                let fault = field_fault(old(self).name(), fields.len(), f, d, i as int);
                match value {
                    Some(Some(v)) => {
                        &&& fault is None
                        &&& slot(d, i as int, name@) is Present
                        &&& field_value(f, d, i as int) == v.doc()
                        &&& v.well_formed()
                    },
                    Some(None) => fault is None && slot(d, i as int, name@) == Slot::Absent,
                    None => fault is Some,
                }
            }),
    {
        proof {
            json::lemma_views();
            reveal_with_fuel(first_fault, 2);
        }
        let whole: &'a Json = self.json;
        match whole {
            Json::Object(members) => match look_up(members, name) {
                Found::Absent { end } => {
                    if optional {
                        return Some(None);
                    }
                    self.blame(
                        end as u128 + i as u128,
                        DecodeError::Missing { field: name.to_owned() },
                    );
                    None
                },
                Found::At { first, json, second } => match T::from_json(json) {
                    Err(e) => {
                        self.blame(first as u128, wire::inner_error(first, e));
                        None
                    },
                    Ok(v) => match second {
                        Some(again) => {
                            self.blame(
                                again as u128,
                                DecodeError::Repeated { field: name.to_owned(), part: again },
                            );
                            None
                        },
                        None => Some(Some(v)),
                    },
                },
            },
            Json::Array(list) => {
                if i < list.len() {
                    match T::from_json(&list[i]) {
                        Err(e) => {
                            self.blame(i as u128, wire::inner_error(i, e));
                            None
                        },
                        Ok(v) => Some(Some(v)),
                    }
                } else if optional {
                    Some(None)
                } else {
                    let expected: String = self.listed();
                    self.blame(i as u128, DecodeError::Short { length: i, expected });
                    None
                }
            },
            _ => None,
        }
    }

    /// Reads the `i`-th field, which must be there. `None` where it has a fault.
    pub(crate) fn required<T: Wire>(
        &mut self,
        i: usize,
        name: &str,
        Ghost(fields): Ghost<Seq<Field>>,
    ) -> (value: Option<T>)
        requires
            i < fields.len(),
            fields[i as int] == required::<T>(name@),
            old(self).has_read(fields, i as int),
        ensures
            final(self).doc() == old(self).doc(),
            final(self).name() == old(self).name(),
            final(self).has_read(fields, i + 1),
            ({
                let d = old(self).doc();
                let f = fields[i as int];
                match value {
                    Some(v) => field_value(f, d, i as int) == v.doc() && v.well_formed(),
                    None => field_fault(old(self).name(), fields.len(), f, d, i as int) is Some,
                }
            }),
    {
        match self.read::<T>(i, name, false, Ghost(fields)) {
            Some(Some(v)) => Some(v),
            _ => None,
        }
    }

    /// Reads the `i`-th field, which may be left out. `None` where it has a fault.
    pub(crate) fn defaulted<T: WireDefault>(
        &mut self,
        i: usize,
        name: &str,
        Ghost(fields): Ghost<Seq<Field>>,
    ) -> (value: Option<T>)
        requires
            i < fields.len(),
            fields[i as int] == defaulted::<T>(name@),
            old(self).has_read(fields, i as int),
        ensures
            final(self).doc() == old(self).doc(),
            final(self).name() == old(self).name(),
            final(self).has_read(fields, i + 1),
            ({
                let d = old(self).doc();
                let f = fields[i as int];
                match value {
                    Some(v) => field_value(f, d, i as int) == v.doc() && v.well_formed(),
                    None => field_fault(old(self).name(), fields.len(), f, d, i as int) is Some,
                }
            }),
    {
        match self.read::<T>(i, name, true, Ghost(fields)) {
            Some(Some(v)) => Some(v),
            Some(None) => Some(T::default_value()),
            None => None,
        }
    }

    /// Ends the reading: tells the fault that comes first, if there is one.
    pub(crate) fn finish(self, Ghost(fields): Ghost<Seq<Field>>) -> (checked: Result<
        (),
        DecodeError,
    >)
        requires
            self.has_read(fields, fields.len() as int),
        ensures
            match checked {
                Ok(_) => {
                    &&& first_fault(self.name(), fields, self.doc(), fields.len() as int) is None
                    &&& ends_with(self.doc(), fields.len())
                },
                Err(e) => record(self.name(), fields, self.doc()) == Err::<Doc, Fault>(e@),
            },
    {
        proof {
            json::lemma_views();
        }
        if let Some((_, error)) = self.fault {
            return Err(error);
        }
        match self.json {
            Json::Array(list) => if list.len() > self.count {
                Err(DecodeError::Trailing { part: self.count })
            } else {
                Ok(())
            },
            _ => Ok(()),
        }
    }
}

/// The members of an object that is being written.
pub struct Writer {
    members: Vec<(String, Json)>,
}

impl View for Writer {
    type V = Seq<(Seq<char>, Doc)>;

    closed spec fn view(&self) -> Seq<(Seq<char>, Doc)> {
        json::member_docs(self.members@)
    }
}

impl Writer {
    /// No members yet.
    pub fn new() -> (writer: Writer)
        ensures
            writer@ == Seq::<(Seq<char>, Doc)>::empty(),
    {
        let writer = Writer { members: Vec::new() };
        proof {
            assert(writer@ =~= Seq::empty());
        }
        writer
    }

    /// Adds a member.
    pub fn put<T: Wire>(&mut self, name: &str, value: &T)
        ensures
            final(self)@ == old(self)@.push((name@, value.doc())),
    {
        let json: Json = value.to_json();
        let ghost before = self.members@;
        let ghost member = (name@, json@);
        self.members.push((name.to_owned(), json));
        proof {
            assert(json::member_docs(self.members@) =~= json::member_docs(before).push(member));
        }
    }

    /// The object with the members added so far.
    pub fn finish(self) -> (json: Json)
        ensures
            json@ == Doc::Object(self@),
    {
        proof {
            json::lemma_views();
        }
        Json::Object(self.members)
    }
}

/// A member stands for a field if it is the only one of that name, and a field that no member is
/// named after is absent; a field that two members are named after is repeated. In a list the
/// items stand for the fields in order.
pub proof fn law_members_stand_for_fields(
    members: Seq<(Seq<char>, Doc)>,
    list: Seq<Doc>,
    name: Seq<char>,
    i: int,
    j: int,
    k: int,
)
    ensures
        (forall|m: int| 0 <= m < members.len() ==> (#[trigger] members[m]).0 != name) ==> slot(
            Doc::Object(members),
            i,
            name,
        ) == Slot::Absent,
        0 <= j < members.len() && members[j].0 == name && (forall|m: int|
            0 <= m < members.len() && m != j ==> (#[trigger] members[m]).0 != name) ==> slot(
            Doc::Object(members),
            i,
            name,
        ) == Slot::Present(members[j].1),
        0 <= j < k < members.len() && members[j].0 == name && members[k].0 == name ==> slot(
            Doc::Object(members),
            i,
            name,
        ) == Slot::Repeated,
        0 <= i < list.len() ==> slot(Doc::Array(list), i, name) == Slot::Present(list[i]),
        i >= list.len() ==> slot(Doc::Array(list), i, name) == Slot::Absent,
{
    lemma_place(members, name, 0);
    let first = place(members, name, 0);
    if first < members.len() {
        lemma_place(members, name, first + 1);
    }
}

/// A record is read exactly where the document is an object, or a list that is not too long, and
/// has a value for every field: one that is there is read as the field says, one that is absent has
/// a default, and none is repeated.
pub proof fn law_record_is_read_where_every_field_is(
    name: Seq<char>,
    fields: Seq<Field>,
    d: Doc,
)
    ensures
        record(name, fields, d) is Ok <==> {
            &&& d is Object || (d is Array && d->Array_0.len() <= fields.len())
            &&& forall|i: int|
                0 <= i < fields.len() ==> match slot(d, i, (#[trigger] fields[i]).name) {
                    Slot::Present(x) => (fields[i].canon)(x) is Ok,
                    Slot::Absent => fields[i].default is Some,
                    Slot::Repeated => false,
                }
        },
        !(d is Object) && !(d is Array) ==> record(name, fields, d) == Err::<Doc, Fault>(
            wire::mistyped(d, "struct "@ + name),
        ),
{
    let n = fields.len() as int;
    if record_shape(d) {
        assert forall|i: int| 0 <= i < n implies (field_fault(
            name,
            fields.len(),
            #[trigger] fields[i],
            d,
            i,
        ) is None <==> has_value(fields[i], d, i)) by {
            lemma_fault_by_slot(name, fields.len(), fields[i], d, i);
        }
        if first_fault(name, fields, d, n) is None {
            lemma_no_fault(name, fields, d, n);
            assert(forall|i: int| 0 <= i < n ==> has_value(#[trigger] fields[i], d, i));
        } else if forall|i: int| 0 <= i < n ==> has_value(#[trigger] fields[i], d, i) {
            lemma_faultless(name, fields, d, n);
        } else {
            let i = choose|i: int| 0 <= i < n && !has_value(#[trigger] fields[i], d, i);
            assert(!(match slot(d, i, fields[i].name) {
                Slot::Present(x) => (fields[i].canon)(x) is Ok,
                Slot::Absent => fields[i].default is Some,
                Slot::Repeated => false,
            }));
        }
    }
}

/// The first member that is not read as its field is told, with what is wrong inside it, and a
/// second member of a name is told as repeated; what comes behind does not count.
pub proof fn law_first_bad_member_is_told(
    name: Seq<char>,
    fields: Seq<Field>,
    members: Seq<(Seq<char>, Doc)>,
    i: int,
    k: int,
)
    requires
        distinct_names(fields),
        0 <= i < fields.len(),
        0 <= k < members.len(),
        members[k].0 == fields[i].name,
        forall|m: int, f: int|
            0 <= m < k && 0 <= f < fields.len() && (#[trigger] members[m]).0 == (
            #[trigger] fields[f]).name ==> (fields[f].canon)(members[m].1) is Ok,
        forall|m: int, l: int|
            0 <= m < l < k && (#[trigger] members[m]).0 == (#[trigger] members[l]).0 ==> forall|
                f: int,
            |
                0 <= f < fields.len() ==> (#[trigger] fields[f]).name != members[m].0,
    ensures
        (forall|m: int| 0 <= m < k ==> (#[trigger] members[m]).0 != fields[i].name) && (
        fields[i].canon)(members[k].1) is Err ==> record(name, fields, Doc::Object(members))
            == Err::<Doc, Fault>(
            Fault::Inside { part: k, fault: Box::new((fields[i].canon)(members[k].1)->Err_0) },
        ),
        (exists|m: int| 0 <= m < k && (#[trigger] members[m]).0 == fields[i].name) ==> record(
            name,
            fields,
            Doc::Object(members),
        ) == Err::<Doc, Fault>(Fault::Repeated { field: fields[i].name, part: k }),
{
    let d = Doc::Object(members);
    let n = fields.len() as int;
    let own = fields[i].name;
    lemma_place(members, own, 0);
    let first = place(members, own, 0);
    assert(first <= k);
    lemma_place(members, own, first + 1);
    let told = field_fault(name, fields.len(), fields[i], d, i);
    if first < k {
        assert(members[first].0 == fields[i].name);
        assert((fields[i].canon)(members[first].1) is Ok);
        let second = place(members, own, first + 1);
        assert(second <= k);
        if second < k {
            assert(members[first].0 == members[second].0);
            assert(fields[i].name != members[first].0);
        }
        assert(told == Some((k, Fault::Repeated { field: own, part: k })));
    }
    assert forall|f: int| 0 <= f < n && f != i implies match field_fault(
        name,
        fields.len(),
        #[trigger] fields[f],
        d,
        f,
    ) {
        Some((at, _)) => at > k,
        None => true,
    } by {
        let other = fields[f].name;
        assert(other != own);
        lemma_place(members, other, 0);
        let a = place(members, other, 0);
        if a < members.len() {
            lemma_place(members, other, a + 1);
            let b = place(members, other, a + 1);
            assert(a != k);
            assert(b != k);
            if a < k {
                assert(members[a].0 == fields[f].name);
                assert((fields[f].canon)(members[a].1) is Ok);
                if b < k {
                    assert(members[a].0 == members[b].0);
                    assert(fields[f].name != members[a].0);
                }
            }
        }
    }
    if told is Some && (told->0).0 == k {
        lemma_least(name, fields, d, n, i);
    }
}

/// Where every member is in order, the first field that is absent without a default is told.
pub proof fn law_first_missing_field_is_told(
    name: Seq<char>,
    fields: Seq<Field>,
    members: Seq<(Seq<char>, Doc)>,
    i: int,
)
    requires
        0 <= i < fields.len(),
        fields[i].default is None,
        slot(Doc::Object(members), i, fields[i].name) == Slot::Absent,
        forall|f: int|
            0 <= f < fields.len() ==> match slot(Doc::Object(members), f, (#[trigger] fields[f]).name) {
                Slot::Present(x) => (fields[f].canon)(x) is Ok,
                Slot::Absent => f < i ==> fields[f].default is Some,
                Slot::Repeated => false,
            },
    ensures
        record(name, fields, Doc::Object(members)) == Err::<Doc, Fault>(
            Fault::Missing(fields[i].name),
        ),
{
    let d = Doc::Object(members);
    let n = fields.len() as int;
    assert forall|f: int| 0 <= f < n && f != i implies match field_fault(
        name,
        fields.len(),
        #[trigger] fields[f],
        d,
        f,
    ) {
        Some((at, _)) => at > members.len() + i,
        None => true,
    } by {
        lemma_place(members, fields[f].name, 0);
    }
    lemma_least(name, fields, d, n, i);
}

/// A list that ends before a field without a default is too short, and one that goes on behind the
/// last field is too long.
pub proof fn law_lists_have_the_length_of_the_record(
    name: Seq<char>,
    fields: Seq<Field>,
    list: Seq<Doc>,
    i: int,
)
    requires
        forall|f: int|
            0 <= f < fields.len() && f < list.len() ==> ((#[trigger] fields[f]).canon)(list[f]) is Ok,
    ensures
        list.len() <= i < fields.len() && fields[i].default is None && (forall|f: int|
            list.len() <= f < i ==> (#[trigger] fields[f]).default is Some) ==> record(
            name,
            fields,
            Doc::Array(list),
        ) == Err::<Doc, Fault>(
            Fault::Short { length: i as nat, expected: listed_record(name, fields.len()) },
        ),
        list.len() > fields.len() ==> record(name, fields, Doc::Array(list)) == Err::<Doc, Fault>(
            Fault::Trailing { part: fields.len() as int },
        ),
{
    let d = Doc::Array(list);
    let n = fields.len() as int;
    if list.len() > fields.len() {
        lemma_faultless(name, fields, d, n);
    }
    if list.len() <= i < fields.len() && fields[i].default is None && (forall|f: int|
        list.len() <= f < i ==> (#[trigger] fields[f]).default is Some) {
        assert forall|f: int| 0 <= f < n && f != i implies match field_fault(
            name,
            fields.len(),
            #[trigger] fields[f],
            d,
            f,
        ) {
            Some((at, _)) => at > i,
            None => true,
        } by {
        }
        lemma_least(name, fields, d, n, i);
    }
}

/// A fault that comes before those of all other fields is the one that is told.
proof fn lemma_least(name: Seq<char>, fields: Seq<Field>, d: Doc, n: int, i: int)
    requires
        0 <= i < n <= fields.len(),
        field_fault(name, fields.len(), fields[i], d, i) is Some,
        forall|f: int|
            0 <= f < n && f != i ==> match field_fault(
                name,
                fields.len(),
                #[trigger] fields[f],
                d,
                f,
            ) {
                Some((at, _)) => at > (field_fault(name, fields.len(), fields[i], d, i)->0).0,
                None => true,
            },
    ensures
        first_fault(name, fields, d, n) == field_fault(name, fields.len(), fields[i], d, i),
    decreases n,
{
    if i < n - 1 {
        lemma_least(name, fields, d, n - 1, i);
        assert(match field_fault(name, fields.len(), fields[n - 1], d, n - 1) {
            Some((at, _)) => at > (field_fault(name, fields.len(), fields[i], d, i)->0).0,
            None => true,
        });
    } else {
        lemma_later(name, fields, d, n - 1, (field_fault(name, fields.len(), fields[i], d, i)->0).0);
    }
}

proof fn lemma_later(name: Seq<char>, fields: Seq<Field>, d: Doc, n: int, bound: int)
    requires
        0 <= n <= fields.len(),
        forall|f: int|
            0 <= f < n ==> match field_fault(name, fields.len(), #[trigger] fields[f], d, f) {
                Some((at, _)) => at > bound,
                None => true,
            },
    ensures
        match first_fault(name, fields, d, n) {
            Some((at, _)) => at > bound,
            None => true,
        },
    decreases n,
{
    if n > 0 {
        lemma_later(name, fields, d, n - 1, bound);
        assert(match field_fault(name, fields.len(), fields[n - 1], d, n - 1) {
            Some((at, _)) => at > bound,
            None => true,
        });
    }
}

/// The values of a name are those of the members with that name, in order: each member adds its
/// value to those of its own name and to no other.
pub proof fn law_hits_are_the_values_of_a_name(
    members: Seq<(Seq<char>, Doc)>,
    member: (Seq<char>, Doc),
    name: Seq<char>,
)
    ensures
        hits(Seq::empty(), name) == Seq::<Doc>::empty(),
        hits(members.push(member), member.0) == hits(members, member.0).push(member.1),
        name != member.0 ==> hits(members.push(member), name) == hits(members, name),
{
    assert(members.push(member).drop_last() =~= members);
}

/// A record whose fields are listed is called by its name and the number of its fields.
pub proof fn law_listed_records_are_named(name: Seq<char>, count: nat)
    ensures
        count != 1 ==> listed_record(name, count) == "struct "@ + name + " with "@ + text::decimal(
            count,
        ) + " elements"@,
        count == 1 ==> listed_record(name, count) == "struct "@ + name + " with "@ + text::decimal(
            count,
        ) + " element"@,
{
}

} // verus!
