//! Numbers, columns, lists, durations and places.

use vstd::prelude::*;

use crate::place;
use crate::place::Mark;
use crate::place::Place;
use crate::text;
use crate::wire;
use crate::wire::Fault;
use crate::json::Doc;

verus! {

/// The number that a row of decimal digits stands for.
pub open spec fn number(digits: Seq<char>) -> int
    decreases digits.len(),
{
    if digits.len() == 0 {
        0
    } else {
        number(digits.drop_last()) * 10 + (digits.last() as int - '0' as int)
    }
}

proof fn lemma_digit(d: nat)
    requires
        d < 10,
    ensures
        text::digit(d).len() == 1,
        text::digit(d)[0] as int == d + '0' as int,
{
    reveal_strlit("0");
    reveal_strlit("1");
    reveal_strlit("2");
    reveal_strlit("3");
    reveal_strlit("4");
    reveal_strlit("5");
    reveal_strlit("6");
    reveal_strlit("7");
    reveal_strlit("8");
    reveal_strlit("9");
}

/// A number is written in digits that stand for it, without a leading zero.
pub proof fn law_decimal_stands_for_its_number(n: nat)
    ensures
        number(text::decimal(n)) == n,
        text::decimal(n).len() > 0,
        forall|i: int|
            0 <= i < text::decimal(n).len() ==> '0' as int <= #[trigger] text::decimal(n)[i] as int
                <= '9' as int,
        text::decimal(n).len() > 1 ==> text::decimal(n)[0] != '0',
    decreases n,
{
    let s = text::decimal(n);
    lemma_digit(n % 10);
    if n < 10 {
        lemma_digit(n);
        assert(s.drop_last() =~= Seq::empty());
        assert(number(s.drop_last()) == 0);
    } else {
        let rest = text::decimal(n / 10);
        law_decimal_stands_for_its_number(n / 10);
        assert(s.drop_last() =~= rest);
        assert(s.last() == text::digit(n % 10)[0]);
        assert(s[0] == rest[0]);
        assert forall|i: int| 0 <= i < s.len() implies '0' as int <= #[trigger] s[i] as int
            <= '9' as int by {
            if i < rest.len() {
                assert(s[i] == rest[i]);
            }
        }
        if rest.len() == 1 && rest[0] == '0' {
            assert(rest.drop_last() =~= Seq::empty());
            assert(number(rest.drop_last()) == 0);
            assert(number(rest) == 0);
        }
    }
}

/// Two numbers that are written alike are the same.
pub proof fn law_decimals_differ(m: nat, n: nat)
    requires
        text::decimal(m) == text::decimal(n),
    ensures
        m == n,
{
    law_decimal_stands_for_its_number(m);
    law_decimal_stands_for_its_number(n);
}

/// A text that is cut ends in an ellipsis in place of the rest, and keeps as much of its start as
/// there is room for; one that fits stays as it is.
pub proof fn law_cut_texts_end_in_an_ellipsis(s: Seq<char>, max: nat)
    ensures
        s.len() <= max ==> text::truncated(s, max) == s,
        s.len() > max ==> text::truncated(s, max).last() == '…',
        s.len() > max >= 1 ==> text::truncated(s, max).drop_last() == s.take(max - 1),
        s.len() > max && max == 0 ==> text::truncated(s, max).len() == 1,
{
    reveal_strlit("…");
    assert("…"@.len() == 1);
    if s.len() > max && max >= 1 {
        assert(text::truncated(s, max).drop_last() =~= s.take(max - 1));
    }
}

/// Two lists are joined by joining each and putting the separator between the two; a list of one
/// is that one, and an empty list is nothing.
pub proof fn law_joining_is_done_piece_by_piece(
    a: Seq<Seq<char>>,
    b: Seq<Seq<char>>,
    one: Seq<char>,
    sep: Seq<char>,
)
    ensures
        text::joined(Seq::empty(), sep) == Seq::<char>::empty(),
        text::joined(seq![one], sep) == one,
        a.len() > 0 && b.len() > 0 ==> text::joined(a + b, sep) == text::joined(a, sep) + sep
            + text::joined(b, sep),
    decreases b.len(),
{
    if a.len() > 0 && b.len() == 1 {
        assert((a + b).drop_last() =~= a);
        assert((a + b).last() == b[0]);
    } else if a.len() > 0 && b.len() > 1 {
        let rest = b.drop_last();
        law_joining_is_done_piece_by_piece(a, rest, one, sep);
        assert((a + b).drop_last() =~= a + rest);
        assert((a + b).last() == b.last());
        assert(text::joined(a, sep) + sep + text::joined(rest, sep) + sep + b.last()
            =~= text::joined(a, sep) + sep + (text::joined(rest, sep) + sep + b.last()));
    }
}

/// A number of a unit, left out where it is zero.
pub open spec fn counted(n: nat, unit: Seq<char>) -> Seq<Seq<char>> {
    if n > 0 {
        seq![text::decimal(n) + unit]
    } else {
        Seq::empty()
    }
}

/// The days, hours, minutes and seconds that make up a duration are what is shown of it, one after
/// the other; of them days, hours and minutes that are zero are left out.
pub proof fn law_duration_shows_what_makes_it_up(d: nat, h: nat, m: nat, s: nat)
    requires
        h < 24,
        m < 60,
        s < 60,
    ensures
        text::duration_text(d * 86_400 + h * 3_600 + m * 60 + s) == text::joined(
            counted(d, "d"@) + counted(h, "h"@) + counted(m, "m"@) + seq![text::decimal(s) + "s"@],
            " "@,
        ),
{
    let secs = d * 86_400 + h * 3_600 + m * 60 + s;
    assert(secs / 86_400 == d);
    assert(secs % 86_400 == h * 3_600 + m * 60 + s);
    assert(secs % 86_400 / 3_600 == h);
    assert(secs % 3_600 == m * 60 + s);
    assert(secs % 3_600 / 60 == m);
    assert(secs % 60 == s);
}

/// The pools column tells every pool, no pool and some pools apart; some pools are named with
/// commas, cut to twelve characters.
pub proof fn law_pools_column_names_the_pools(pools: Option<Seq<Seq<char>>>)
    ensures
        match pools {
            None => text::pools_text(pools) == "(all)"@,
            Some(list) => if list.len() == 0 {
                text::pools_text(pools) == "(none)"@
            } else {
                let named = text::joined(list, ","@);
                let shown = text::pools_text(pools);
                if named.len() <= 12 {
                    shown == named
                } else {
                    shown.len() == 12 && shown.take(11) == named.take(11) && shown[11] == '…'
                }
            },
        },
{
    if let Some(list) = pools {
        let named = text::joined(list, ","@);
        law_cut_texts_end_in_an_ellipsis(named, 12);
        text::law_truncated_fits(named, 12);
    }
}

/// The line of a place is one more than the line breaks before it, and the column is how many bytes
/// come behind the last of them: a text without a line break is one line, and a line break starts a
/// new one.
pub proof fn law_places_count_line_breaks(before: Seq<u8>, line: Seq<u8>)
    requires
        forall|i: int| 0 <= i < line.len() ==> #[trigger] line[i] != 10,
    ensures
        place::line_breaks(line) == 0,
        place::last_line(line) == line.len(),
        place::line_breaks(before + seq![10u8] + line) == place::line_breaks(before) + 1,
        place::last_line(before + seq![10u8] + line) == line.len(),
    decreases line.len(),
{
    let whole = before + seq![10u8] + line;
    if line.len() == 0 {
        assert(whole.drop_last() =~= before);
        assert(whole.last() == 10);
    } else {
        let rest = line.drop_last();
        assert forall|i: int| 0 <= i < rest.len() implies #[trigger] rest[i] != 10 by {
            assert(rest[i] == line[i]);
        }
        law_places_count_line_breaks(before, rest);
        assert(whole.drop_last() =~= before + seq![10u8] + rest);
        assert(whole.last() == line.last());
        assert(line[line.len() - 1] != 10);
    }
}

/// A place is told by its line and column, behind what it is told of.
pub proof fn law_places_are_told(cause: Seq<char>, bytes: Seq<u8>, offset: usize)
    requires
        offset <= bytes.len() < u64::MAX,
        offset < usize::MAX,
    ensures
        place::placed_text(cause, place::place(bytes, offset)) == cause + " at line "@
            + text::decimal(place::line_breaks(bytes.take(offset as int)) + 1) + " column "@
            + text::decimal(place::last_line(bytes.take(offset as int))),
        place::placed_text(cause, None) == cause,
{
    lemma_counts_are_bounded(bytes.take(offset as int));
}

/// There is a place for every byte of a text and for its end, and none behind it.
pub proof fn law_places_end_with_the_text(bytes: Seq<u8>, offset: usize)
    requires
        offset < usize::MAX,
    ensures
        place::place(bytes, offset) is Some <==> offset <= bytes.len(),
{
}

/// No byte is told of a part that was passed over, which tells its place by itself, nor of a part
/// that the mark does not know.
pub proof fn law_unmarked_faults_have_no_place(
    mark: Mark,
    d: Doc,
    complaint: Seq<char>,
    field: Seq<char>,
    part: int,
    inner: Fault,
)
    ensures
        place::fault_offset(Fault::Unread(complaint), d, mark) is None,
        !(0 <= part < mark.parts@.len()) ==> {
            &&& place::fault_offset(Fault::Repeated { field, part }, d, mark) is None
            &&& place::fault_offset(Fault::Trailing { part }, d, mark) is None
            &&& place::fault_offset(Fault::Inside { part, fault: Box::new(inner) }, d, mark) is None
        },
{
}

proof fn lemma_counts_are_bounded(bytes: Seq<u8>)
    ensures
        place::line_breaks(bytes) <= bytes.len(),
        place::last_line(bytes) <= bytes.len(),
    decreases bytes.len(),
{
    if bytes.len() > 0 {
        lemma_counts_are_bounded(bytes.drop_last());
    }
}

/// A fault is told where it stands: an absent field, or one that a list ends before, at the end of
/// the record, what does not fit at its own end, an array or object at its start, a repeated member
/// and an item too many at its hinge, and a fault of a part in that part.
pub proof fn law_faults_are_told_where_they_stand(
    mark: Mark,
    d: Doc,
    field: Seq<char>,
    found: Seq<char>,
    expected: Seq<char>,
    n: nat,
    part: int,
    inner: Fault,
)
    requires
        0 <= part < mark.parts@.len(),
    ensures
        place::fault_offset(Fault::Missing(field), d, mark) == Some(mark.end),
        place::fault_offset(Fault::Short { length: n, expected }, d, mark) == Some(mark.end),
        place::fault_offset(Fault::OutOfRange { found, expected }, d, mark) == Some(mark.end),
        place::fault_offset(Fault::Repeated { field, part }, d, mark) == Some(
            mark.parts@[part].hinge,
        ),
        place::fault_offset(Fault::Trailing { part }, d, mark) == Some(mark.parts@[part].hinge),
        d is Array || d is Object ==> place::fault_offset(
            Fault::Mistyped { found, expected },
            d,
            mark,
        ) == Some(mark.start),
        !(d is Array || d is Object) ==> place::fault_offset(
            Fault::Mistyped { found, expected },
            d,
            mark,
        ) == Some(mark.end),
        d is Array && part < d->Array_0.len() ==> place::fault_offset(
            Fault::Inside { part, fault: Box::new(inner) },
            d,
            mark,
        ) == place::fault_offset(inner, d->Array_0[part], mark.parts@[part].mark),
        d is Object && part < d->Object_0.len() ==> place::fault_offset(
            Fault::Inside { part, fault: Box::new(inner) },
            d,
            mark,
        ) == place::fault_offset(inner, d->Object_0[part].1, mark.parts@[part].mark),
{
}

/// A fault names what is wrong: the field that is missing or repeated, what was found and what was
/// expected. A fault of a part is told as it would be of the part alone.
pub proof fn law_faults_name_what_is_wrong(
    field: Seq<char>,
    found: Seq<char>,
    expected: Seq<char>,
    n: nat,
    part: int,
    complaint: Seq<char>,
    inner: Fault,
)
    ensures
        wire::fault_text(Fault::Missing(field)) == "missing field `"@ + field + "`"@,
        wire::fault_text(Fault::Repeated { field, part }) == "duplicate field `"@ + field + "`"@,
        wire::fault_text(Fault::Mistyped { found, expected }) == "invalid type: "@ + found
            + ", expected "@ + expected,
        wire::fault_text(Fault::OutOfRange { found, expected }) == "invalid value: "@ + found
            + ", expected "@ + expected,
        wire::fault_text(Fault::Short { length: n, expected }) == "invalid length "@
            + text::decimal(n) + ", expected "@ + expected,
        wire::fault_text(Fault::Trailing { part }) == "trailing characters"@,
        wire::fault_text(Fault::Unread(complaint)) == complaint,
        wire::fault_text(Fault::Inside { part, fault: Box::new(inner) }) == wire::fault_text(inner),
{
}

/// What stands where something else is expected is described by its kind and by what it says.
pub proof fn law_documents_are_described(
    b: bool,
    n: nat,
    digits: Seq<char>,
    s: Seq<char>,
    list: Seq<Doc>,
    members: Seq<(Seq<char>, Doc)>,
)
    ensures
        wire::kind_words(Doc::Null) == "null"@,
        wire::kind_words(Doc::Bool(true)) == "boolean `"@ + "true"@ + "`"@,
        wire::kind_words(Doc::Bool(false)) == "boolean `"@ + "false"@ + "`"@,
        wire::kind_words(Doc::Unsigned(n)) == "integer `"@ + text::decimal(n) + "`"@,
        n > 0 ==> wire::kind_words(Doc::Negative(-(n as int))) == "integer `"@ + ("-"@
            + text::decimal(n)) + "`"@,
        wire::kind_words(Doc::Float(digits)) == "floating point `"@ + wire::float_shown(digits)
            + "`"@,
        wire::kind_words(Doc::Text(s)) == "string "@ + text::quoted(s),
        wire::kind_words(Doc::Array(list)) == "sequence"@,
        wire::kind_words(Doc::Object(members)) == "map"@,
{
}

} // verus!
