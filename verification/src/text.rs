//! Text building blocks of the human-readable output: numbers, columns, lists and durations.

use vstd::prelude::*;

verus! {

/// `s` as a quoted literal, the way `{:?}` shows a string.
pub uninterp spec fn quoted(s: Seq<char>) -> Seq<char>;

/// The `Debug` form of a string, from `std::fmt`: quotes around it, with escapes inside.
///
/// Trusted: that the text depends on the string alone. Which characters are escaped, and how, is
/// left unsaid.
#[verifier::external_body]
pub(crate) fn quote(s: &str) -> (text: String)
    ensures
        text@ == quoted(s@),
{
    format!("{s:?}")
}

/// The texts of a list of strings.
pub open spec fn texts(list: Seq<String>) -> Seq<Seq<char>> {
    list.map_values(|s: String| s@)
}

/// The decimal digit `d`, for `d` below ten.
pub open spec fn digit(d: nat) -> Seq<char> {
    if d == 0 {
        "0"@
    } else if d == 1 {
        "1"@
    } else if d == 2 {
        "2"@
    } else if d == 3 {
        "3"@
    } else if d == 4 {
        "4"@
    } else if d == 5 {
        "5"@
    } else if d == 6 {
        "6"@
    } else if d == 7 {
        "7"@
    } else if d == 8 {
        "8"@
    } else {
        "9"@
    }
}

/// `n` in decimal, without leading zeros.
pub open spec fn decimal(n: nat) -> Seq<char>
    decreases n,
{
    if n < 10 {
        digit(n)
    } else {
        decimal(n / 10) + digit(n % 10)
    }
}

/// `true` or `false`.
pub open spec fn bool_word(b: bool) -> Seq<char> {
    if b {
        "true"@
    } else {
        "false"@
    }
}

/// `s` followed by as many spaces as it takes to fill `width` characters; a longer `s` is kept
/// whole.
pub open spec fn padded(s: Seq<char>, width: nat) -> Seq<char> {
    s + Seq::new(
        if s.len() < width {
            (width - s.len()) as nat
        } else {
            0
        },
        |i: int| ' ',
    )
}

/// The texts of `list` one after the other, with `sep` between neighbours.
pub open spec fn joined(list: Seq<Seq<char>>, sep: Seq<char>) -> Seq<char>
    decreases list.len(),
{
    if list.len() == 0 {
        Seq::empty()
    } else if list.len() == 1 {
        list[0]
    } else {
        joined(list.drop_last(), sep) + sep + list.last()
    }
}

/// `s` itself where it has at most `max` characters, otherwise its first `max - 1` characters and
/// an ellipsis.
pub open spec fn truncated(s: Seq<char>, max: nat) -> Seq<char> {
    if s.len() <= max {
        s
    } else if max == 0 {
        "…"@
    } else {
        s.take(max - 1) + "…"@
    }
}

/// The part `<n><unit>` of a duration, left out where `n` is zero.
pub open spec fn duration_part(n: nat, unit: Seq<char>) -> Seq<Seq<char>> {
    if n == 0 {
        Seq::empty()
    } else {
        seq![decimal(n) + unit]
    }
}

/// A number of seconds as days, hours, minutes and seconds. Days, hours and minutes that are zero
/// are left out; the seconds always stand.
pub open spec fn duration_text(secs: nat) -> Seq<char> {
    joined(
        duration_part(secs / 86_400, "d"@) + duration_part(secs % 86_400 / 3_600, "h"@)
            + duration_part(secs % 3_600 / 60, "m"@) + seq![decimal(secs % 60) + "s"@],
        " "@,
    )
}

/// The pools column of a key: `None` is every pool, an empty list is no pool, any other list is
/// shown in at most twelve characters.
pub open spec fn pools_text(pools: Option<Seq<Seq<char>>>) -> Seq<char> {
    match pools {
        None => "(all)"@,
        Some(list) => if list.len() == 0 {
            "(none)"@
        } else {
            truncated(joined(list, ","@), 12)
        },
    }
}

/// The texts of an optional list.
pub open spec fn opt_texts(list: Option<Vec<String>>) -> Option<Seq<Seq<char>>> {
    match list {
        None => None,
        Some(l) => Some(texts(l@)),
    }
}

/// The text of an optional string.
pub open spec fn opt_text(s: Option<String>) -> Option<Seq<char>> {
    match s {
        None => None,
        Some(s) => Some(s@),
    }
}

/// Whether the two texts are the same.
pub fn same_text(a: &str, b: &str) -> (same: bool)
    ensures
        same == (a@ == b@),
{
    a.to_owned() == b.to_owned()
}

/// `n` in decimal.
pub fn decimal_text(n: u64) -> (text: String)
    ensures
        text@ == decimal(n as nat),
    decreases n,
{
    let last: u64 = n % 10;
    let unit: &str = if last == 0 {
        "0"
    } else if last == 1 {
        "1"
    } else if last == 2 {
        "2"
    } else if last == 3 {
        "3"
    } else if last == 4 {
        "4"
    } else if last == 5 {
        "5"
    } else if last == 6 {
        "6"
    } else if last == 7 {
        "7"
    } else if last == 8 {
        "8"
    } else {
        "9"
    };
    if n < 10 {
        unit.to_owned()
    } else {
        let mut text: String = decimal_text(n / 10);
        text.append(unit);
        text
    }
}

/// `true` or `false`.
pub fn bool_text(b: bool) -> (word: &'static str)
    ensures
        word@ == bool_word(b),
{
    if b {
        "true"
    } else {
        "false"
    }
}

/// `s` in a left-aligned column of `width` characters.
pub fn pad(s: &str, width: usize) -> (text: String)
    ensures
        text@ == padded(s@, width as nat),
{
    let mut text: String = s.to_owned();
    let len: usize = s.unicode_len();
    let mut filled: usize = len;
    proof {
        reveal_strlit(" ");
    }
    while filled < width
        invariant
            len == s@.len(),
            " "@ =~= seq![' '],
            len <= filled,
            filled <= width || filled == len,
            text@ =~= s@ + Seq::new((filled - len) as nat, |i: int| ' '),
        decreases width - filled,
    {
        text.append(" ");
        filled = filled + 1;
    }
    text
}

/// The strings of `list` with `sep` between neighbours.
pub fn join(list: &[String], sep: &str) -> (text: String)
    ensures
        text@ == joined(texts(list@), sep@),
{
    let mut text: String = String::new();
    let mut i: usize = 0;
    while i < list.len()
        invariant
            i <= list@.len(),
            text@ == joined(texts(list@).take(i as int), sep@),
        decreases list@.len() - i,
    {
        proof {
            assert(texts(list@).take(i + 1).drop_last() =~= texts(list@).take(i as int));
            assert(texts(list@).take(i + 1).last() == list@[i as int]@);
        }
        if i > 0 {
            text.append(sep);
            text.append(list[i].as_str());
        } else {
            text = list[i].clone();
        }
        i = i + 1;
    }
    proof {
        assert(texts(list@).take(i as int) =~= texts(list@));
    }
    text
}

/// `s` cut to at most `max` characters, with an ellipsis in place of what was cut.
pub fn truncate(s: &str, max: usize) -> (text: String)
    ensures
        text@ == truncated(s@, max as nat),
{
    if s.unicode_len() <= max {
        s.to_owned()
    } else if max == 0 {
        "…".to_owned()
    } else {
        let mut text: String = s.substring_char(0, max - 1).to_owned();
        text.append("…");
        text
    }
}

/// A number of seconds as `1d 2h 3m 4s`.
pub fn human_duration(secs: u64) -> (text: String)
    ensures
        text@ == duration_text(secs as nat),
{
    let d: u64 = secs / 86_400;
    let h: u64 = (secs % 86_400) / 3_600;
    let m: u64 = (secs % 3_600) / 60;
    let s: u64 = secs % 60;
    let mut parts: Vec<String> = Vec::new();
    if d > 0 {
        let mut part: String = decimal_text(d);
        part.append("d");
        parts.push(part);
    }
    proof {
        assert(texts(parts@) =~= duration_part(d as nat, "d"@));
    }
    if h > 0 {
        let mut part: String = decimal_text(h);
        part.append("h");
        parts.push(part);
    }
    proof {
        assert(texts(parts@) =~= duration_part(d as nat, "d"@) + duration_part(h as nat, "h"@));
    }
    if m > 0 {
        let mut part: String = decimal_text(m);
        part.append("m");
        parts.push(part);
    }
    proof {
        assert(texts(parts@) =~= duration_part(d as nat, "d"@) + duration_part(h as nat, "h"@)
            + duration_part(m as nat, "m"@));
    }
    let mut part: String = decimal_text(s);
    part.append("s");
    parts.push(part);
    proof {
        assert(texts(parts@) =~= duration_part(d as nat, "d"@) + duration_part(h as nat, "h"@)
            + duration_part(m as nat, "m"@) + seq![decimal(s as nat) + "s"@]);
    }
    join(parts.as_slice(), " ")
}

/// The pools column of a key.
pub fn pools_summary(pools: &Option<Vec<String>>) -> (text: String)
    ensures
        text@ == pools_text(opt_texts(*pools)),
{
    match pools {
        None => "(all)".to_owned(),
        Some(list) => {
            if list.len() == 0 {
                "(none)".to_owned()
            } else {
                truncate(join(list.as_slice(), ",").as_str(), 12)
            }
        },
    }
}

/// An optional flag, `-` where it is unknown.
pub fn opt(flag: Option<bool>) -> (text: String)
    ensures
        text@ == (match flag {
            Some(b) => bool_word(b),
            None => "-"@,
        }),
{
    match flag {
        Some(b) => bool_text(b).to_owned(),
        None => "-".to_owned(),
    }
}

/// A text cut to at least one character is no longer than asked, and keeps the start of what was
/// cut; one that fits is not cut.
pub proof fn law_truncated_fits(s: Seq<char>, max: nat)
    requires
        max >= 1,
    ensures
        truncated(s, max).len() <= max,
        s.len() <= max ==> truncated(s, max) == s,
        s.len() > max ==> truncated(s, max).len() == max && truncated(s, max).take(max - 1)
            == s.take(max - 1),
{
    reveal_strlit("…");
    assert("…"@.len() == 1);
    if s.len() > max {
        assert(truncated(s, max).take(max - 1) =~= s.take(max - 1));
    }
}

/// A column is at least as wide as asked, starts with its text and goes on with spaces.
pub proof fn law_padded_fills(s: Seq<char>, width: nat)
    ensures
        padded(s, width).len() == if s.len() < width {
            width
        } else {
            s.len()
        },
        padded(s, width).take(s.len() as int) == s,
        forall|i: int| s.len() <= i < padded(s, width).len() ==> padded(s, width)[i] == ' ',
{
    assert(padded(s, width).take(s.len() as int) =~= s);
}

/// The days, hours, minutes and seconds of a duration add up to it, each below the next larger
/// unit.
pub proof fn law_duration_adds_up(secs: nat)
    ensures
        secs / 86_400 * 86_400 + secs % 86_400 / 3_600 * 3_600 + secs % 3_600 / 60 * 60 + secs % 60
            == secs,
        secs % 86_400 / 3_600 < 24,
        secs % 3_600 / 60 < 60,
        secs % 60 < 60,
{
    assert(secs % 86_400 % 3_600 == secs % 3_600) by (nonlinear_arith);
    assert(secs % 3_600 % 60 == secs % 60) by (nonlinear_arith);
}

} // verus!
