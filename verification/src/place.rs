//! Places in a text, and where the parts of a document stand in it.

use vstd::prelude::*;

use crate::json;
use crate::json::Doc;
use crate::json::Json;
use crate::text;
use crate::wire::DecodeError;
use crate::wire::Fault;

verus! {

/// A place in a text: a line, counted from one, and how many bytes of it come before the place.
#[derive(Debug, Clone, Copy, PartialEq, Eq, Structural)]
pub struct Place {
    pub line: u64,
    pub column: u64,
}

/// The number of line breaks in `bytes`.
pub open spec fn line_breaks(bytes: Seq<u8>) -> nat
    decreases bytes.len(),
{
    if bytes.len() == 0 {
        0
    } else {
        line_breaks(bytes.drop_last()) + (if bytes.last() == 10 {
            1nat
        } else {
            0
        })
    }
}

/// The number of bytes behind the last line break.
pub open spec fn last_line(bytes: Seq<u8>) -> nat
    decreases bytes.len(),
{
    if bytes.len() == 0 || bytes.last() == 10 {
        0
    } else {
        last_line(bytes.drop_last()) + 1
    }
}

/// The place of the byte at `offset`, or of the end of the text; none behind it.
pub open spec fn place(bytes: Seq<u8>, offset: usize) -> Option<Place> {
    if offset <= bytes.len() && offset < usize::MAX {
        let before = bytes.take(offset as int);
        Some(Place { line: (line_breaks(before) + 1) as u64, column: last_line(before) as u64 })
    } else {
        None
    }
}

/// The place of the byte at `offset`, or of the end of the text; none behind it.
pub fn place_at(bytes: &[u8], offset: usize) -> (at: Option<Place>)
    ensures
        at == place(bytes@, offset),
        at matches Some(p) ==> {
            &&& p.line == line_breaks(bytes@.take(offset as int)) + 1
            &&& p.column == last_line(bytes@.take(offset as int))
        },
{
    if offset > bytes.len() || offset == usize::MAX {
        return None;
    }
    let mut line: u64 = 1;
    let mut column: u64 = 0;
    let mut i: usize = 0;
    while i < offset
        invariant
            i <= offset <= bytes@.len(),
            offset < usize::MAX,
            line == line_breaks(bytes@.take(i as int)) + 1,
            column == last_line(bytes@.take(i as int)),
            line <= i + 1,
            column <= i,
        decreases offset - i,
    {
        proof {
            assert(bytes@.take(i + 1).drop_last() =~= bytes@.take(i as int));
        }
        if bytes[i] == 10 {
            line = line + 1;
            column = 0;
        } else {
            column = column + 1;
        }
        i = i + 1;
    }
    Some(Place { line, column })
}

/// A cause with the place that it is told of.
pub open spec fn placed_text(cause: Seq<char>, place: Option<Place>) -> Seq<char> {
    match place {
        Some(p) => cause + " at line "@ + text::decimal(p.line as nat) + " column "@
            + text::decimal(p.column as nat),
        None => cause,
    }
}

/// A cause with the place that it is told of.
pub fn placed(cause: &str, place: Option<Place>) -> (text: String)
    ensures
        text@ == placed_text(cause@, place),
{
    let mut text: String = cause.to_owned();
    if let Some(p) = place {
        text.append(" at line ");
        text.append(text::decimal_text(p.line).as_str());
        text.append(" column ");
        text.append(text::decimal_text(p.column).as_str());
    }
    text
}

/// Where a document, or a part of one, stands in its text, in bytes from the start of the text.
#[derive(Debug)]
pub struct Mark {
    pub start: usize,
    pub end: usize,
    /// Where its items or members stand, in order.
    pub parts: Vec<Part>,
}

/// Where an item or a member stands.
#[derive(Debug)]
pub struct Part {
    /// Of a member, where the colon between name and value stands; of an item, where it goes on
    /// behind its first byte.
    pub hinge: usize,
    pub mark: Mark,
}

/// A document and where its parts stand in the text that it was read from.
#[derive(Debug)]
pub struct Reading {
    pub json: Json,
    pub mark: Mark,
}

/// The `k`-th item or member of a document, or the document itself where it has no such part.
pub open spec fn part_of(d: Doc, k: int) -> Doc {
    match d {
        Doc::Array(list) => if 0 <= k < list.len() {
            list[k]
        } else {
            d
        },
        Doc::Object(members) => if 0 <= k < members.len() {
            members[k].1
        } else {
            d
        },
        _ => d,
    }
}

/// The byte that a fault of `d` is told of, where the mark tells it.
///
/// An absent field is told at the end of the record, a repeated one at the second colon, a list
/// that goes on behind its end at the hinge of the first item too many. What stands
/// where something else is expected is told at its end, but an array or an object at its start. A
/// part that was passed over tells its place by itself.
pub open spec fn fault_offset(fault: Fault, d: Doc, mark: Mark) -> Option<usize>
    decreases fault,
{
    match fault {
        Fault::Inside { part, fault } => if 0 <= part < mark.parts@.len() {
            fault_offset(*fault, part_of(d, part), mark.parts@[part].mark)
        } else {
            None
        },
        Fault::Missing(_) => Some(mark.end),
        Fault::Short { .. } => Some(mark.end),
        Fault::Repeated { part, .. } => if 0 <= part < mark.parts@.len() {
            Some(mark.parts@[part].hinge)
        } else {
            None
        },
        Fault::Trailing { part } => if 0 <= part < mark.parts@.len() {
            Some(mark.parts@[part].hinge)
        } else {
            None
        },
        Fault::Mistyped { .. } => if d is Array || d is Object {
            Some(mark.start)
        } else {
            Some(mark.end)
        },
        Fault::OutOfRange { .. } => Some(mark.end),
        Fault::Unread(_) => None,
    }
}

/// The byte that an error is told of, where the mark tells it.
pub fn offset_of(error: &DecodeError, json: &Json, mark: &Mark) -> (offset: Option<usize>)
    ensures
        offset == fault_offset(error@, json@, *mark),
    decreases error@,
{
    proof {
        json::lemma_views();
    }
    match error {
        DecodeError::Inside { part, error } => {
            if *part >= mark.parts.len() {
                return None;
            }
            let inner: &Json = match json {
                Json::Array(list) => if *part < list.len() {
                    &list[*part]
                } else {
                    json
                },
                Json::Object(members) => if *part < members.len() {
                    &members[*part].1
                } else {
                    json
                },
                _ => json,
            };
            offset_of(error, inner, &mark.parts[*part].mark)
        },
        DecodeError::Missing { .. } => Some(mark.end),
        DecodeError::Short { .. } => Some(mark.end),
        DecodeError::Repeated { part, .. } => if *part < mark.parts.len() {
            Some(mark.parts[*part].hinge)
        } else {
            None
        },
        DecodeError::Trailing { part } => if *part < mark.parts.len() {
            Some(mark.parts[*part].hinge)
        } else {
            None
        },
        DecodeError::Mistyped { .. } => match json {
            Json::Array(_) => Some(mark.start),
            Json::Object(_) => Some(mark.start),
            _ => Some(mark.end),
        },
        DecodeError::OutOfRange { .. } => Some(mark.end),
        DecodeError::Unread { .. } => None,
    }
}

} // verus!
