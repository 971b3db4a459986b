//! Pure mappings from command-line arguments to what the gateway understands.
//!
//! They carry contract meaning: the three states of `allowed_pools`, and the split of a label at
//! its first `=`.

use vstd::prelude::*;

use crate::labels;
use crate::labels::Labels;
use crate::text;

verus! {

/// The allowed pools that the flags ask for: `--no-pools` is the empty list (no pool), no flag at
/// all is `None` (every pool), and named pools are exactly those.
pub open spec fn pools_asked(no_pools: bool, pools: Seq<Seq<char>>) -> Option<Seq<Seq<char>>> {
    if no_pools {
        Some(Seq::empty())
    } else if pools.len() == 0 {
        None
    } else {
        Some(pools)
    }
}

/// Key and value of a label argument: what stands before and after its first `=`.
pub open spec fn split_label(pair: Seq<char>) -> Option<(Seq<char>, Seq<char>)> {
    match pair.index_of_first('=') {
        Some(at) => Some((pair.take(at), pair.skip(at + 1))),
        None => None,
    }
}

/// The labels that a list of arguments stands for, in ascending key order, or the first argument
/// without a `=`. Of two labels with one key the later counts.
pub open spec fn labels_of(pairs: Seq<Seq<char>>) -> Result<Seq<(Seq<char>, Seq<char>)>, Seq<char>>
    decreases pairs.len(),
{
    if pairs.len() == 0 {
        Ok(Seq::empty())
    } else {
        match labels_of(pairs.drop_last()) {
            Err(bad) => Err(bad),
            Ok(labels) => match split_label(pairs.last()) {
                None => Err(pairs.last()),
                Some((key, value)) => Ok(labels::inserted(labels, key, value)),
            },
        }
    }
}

/// Why labels are refused: an argument without a `=`.
#[derive(Debug)]
pub struct LabelError {
    /// The argument.
    pub pair: String,
}

impl LabelError {
    /// The message for the user.
    pub open spec fn text(&self) -> Seq<char> {
        "--label must be KEY=VALUE, got "@ + text::quoted(self.pair@)
    }

    /// The message for the user.
    pub fn message(&self) -> (text: String)
        ensures
            text@ == self.text(),
    {
        let mut text: String = "--label must be KEY=VALUE, got ".to_owned();
        text.append(text::quote(self.pair.as_str()).as_str());
        text
    }
}

/// A copy of a list of strings.
fn copy_list(list: &[String]) -> (copy: Vec<String>)
    ensures
        copy@ == list@,
{
    let mut copy: Vec<String> = Vec::new();
    let mut i: usize = 0;
    while i < list.len()
        invariant
            i <= list@.len(),
            copy@ =~= list@.take(i as int),
        decreases list@.len() - i,
    {
        copy.push(list[i].clone());
        i = i + 1;
    }
    copy
}

/// Resolves the three distinct `allowed_pools` states: `None` (omitted) is every pool, an explicit
/// empty list (`--no-pools`) is no pool, a non-empty list is exactly those pools.
pub fn resolve_allowed_pools(no_pools: bool, pools: &[String]) -> (allowed: Option<Vec<String>>)
    ensures
        match allowed {
            Some(list) => pools_asked(no_pools, text::texts(pools@)) == Some(text::texts(list@)),
            None => pools_asked(no_pools, text::texts(pools@)) is None,
        },
        match allowed {
            Some(list) => list@ == (if no_pools {
                Seq::empty()
            } else {
                pools@
            }),
            None => true,
        },
{
    if no_pools {
        let none: Vec<String> = Vec::new();
        proof {
            assert(text::texts(none@) =~= Seq::empty());
        }
        Some(none)
    } else if pools.len() == 0 {
        None
    } else {
        Some(copy_list(pools))
    }
}

/// Where the first `=` of `pair` stands, if it has one.
fn first_equals(pair: &str) -> (at: Option<usize>)
    ensures
        match at {
            Some(i) => pair@.index_of_first('=') == Some(i as int) && i < pair@.len(),
            None => pair@.index_of_first('=') is None,
        },
{
    proof {
        pair@.index_of_first_ensures('=');
    }
    let len: usize = pair.unicode_len();
    let mut i: usize = 0;
    while i < len
        invariant
            len == pair@.len(),
            i <= len,
            forall|j: int| 0 <= j < i ==> pair@[j] != '=',
        decreases len - i,
    {
        if pair.get_char(i) == '=' {
            proof {
                pair@.index_of_first_ensures('=');
                assert(pair@.contains('=')) by {
                    assert(pair@[i as int] == '=');
                }
            }
            return Some(i);
        }
        i = i + 1;
    }
    None
}

/// Parses repeated `--label KEY=VALUE` arguments. The split is at the first `=` only, so that a
/// value which itself holds a `=` survives intact.
pub fn parse_labels(pairs: &[String]) -> (labels: Result<Labels, LabelError>)
    ensures
        match labels {
            Ok(l) => labels_of(text::texts(pairs@)) == Ok::<_, Seq<char>>(l@) && l.well_formed(),
            Err(e) => labels_of(text::texts(pairs@)) == Err::<Seq<(Seq<char>, Seq<char>)>, _>(e.pair@),
        },
{
    let mut labels: Labels = Labels::new();
    let ghost all = text::texts(pairs@);
    let mut i: usize = 0;
    while i < pairs.len()
        invariant
            i <= pairs@.len(),
            all == text::texts(pairs@),
            labels_of(all.take(i as int)) == Ok::<_, Seq<char>>(labels@),
            labels.well_formed(),
        decreases pairs@.len() - i,
    {
        let pair: &str = pairs[i].as_str();
        proof {
            assert(all.take(i + 1).drop_last() =~= all.take(i as int));
            assert(all.take(i + 1).last() == pair@);
        }
        match first_equals(pair) {
            Some(at) => {
                let key: String = pair.substring_char(0, at).to_owned();
                let len: usize = pair.unicode_len();
                let value: String = pair.substring_char(at + 1, len).to_owned();
                proof {
                    assert(key@ =~= pair@.take(at as int));
                    assert(value@ =~= pair@.skip(at + 1));
                }
                labels.insert(key, value);
            },
            None => {
                proof {
                    lemma_first_bad(all, i + 1);
                }
                return Err(LabelError { pair: pairs[i].clone() });
            },
        }
        i = i + 1;
    }
    proof {
        assert(all.take(i as int) =~= all);
    }
    Ok(labels)
}

/// An argument refused among the first `n` is what the whole list is refused for.
proof fn lemma_first_bad(pairs: Seq<Seq<char>>, n: int)
    requires
        0 <= n <= pairs.len(),
        labels_of(pairs.take(n)) is Err,
    ensures
        labels_of(pairs) == labels_of(pairs.take(n)),
    decreases pairs.len() - n,
{
    if n < pairs.len() {
        assert(pairs.take(n + 1).drop_last() =~= pairs.take(n));
        lemma_first_bad(pairs, n + 1);
    } else {
        assert(pairs.take(n) =~= pairs);
    }
}

/// The three states stay apart: flags that ask for no pool, for every pool and for some pools
/// never resolve to the same value.
pub proof fn law_pools_states_are_distinct(pools: Seq<Seq<char>>, ignored: Seq<Seq<char>>)
    requires
        pools.len() > 0,
    ensures
        pools_asked(true, ignored) == Some(Seq::<Seq<char>>::empty()),
        pools_asked(false, Seq::empty()) is None,
        pools_asked(false, pools) == Some(pools),
        pools_asked(true, ignored) != pools_asked(false, Seq::empty()),
        pools_asked(true, ignored) != pools_asked(false, pools),
        pools_asked(false, pools) != pools_asked(false, Seq::empty()),
{
}

/// A label is split without loss: key, `=` and value make up the argument, the key holds no `=`,
/// and only an argument without `=` is refused.
pub proof fn law_split_label_is_lossless(pair: Seq<char>)
    ensures
        split_label(pair) is Some <==> pair.contains('='),
        match split_label(pair) {
            Some((key, value)) => key + seq!['='] + value == pair && !key.contains('='),
            None => true,
        },
{
    pair.index_of_first_ensures('=');
    if let Some((key, value)) = split_label(pair) {
        assert(key + seq!['='] + value =~= pair);
        assert forall|i: int| 0 <= i < key.len() implies key[i] != '=' by {
            assert(key[i] == pair[i]);
        }
    }
}

/// The split of a value that itself holds `=`: a key without `=` comes back with the whole value.
pub proof fn law_label_values_survive(key: Seq<char>, value: Seq<char>)
    requires
        !key.contains('='),
    ensures
        split_label(key + seq!['='] + value) == Some((key, value)),
{
    let pair = key + seq!['='] + value;
    pair.index_of_first_ensures('=');
    assert(pair[key.len() as int] == '=');
    assert(pair.contains('='));
    let at = pair.index_of_first('=')->0;
    if at < key.len() {
        assert(key[at] == pair[at]);
        assert(key.contains('='));
    }
    assert(at == key.len());
    assert(pair.take(at) =~= key);
    assert(pair.skip(at + 1) =~= value);
}

/// The pairs that a list of label arguments spells out, in argument order.
pub open spec fn spelled(pairs: Seq<Seq<char>>) -> Seq<(Seq<char>, Seq<char>)> {
    pairs.map_values(|p: Seq<char>| split_label(p)->0)
}

/// Labels are accepted exactly where every argument holds a `=`. They then map each key to the
/// value of the last argument that names it.
pub proof fn law_labels_of(pairs: Seq<Seq<char>>)
    ensures
        labels_of(pairs) is Ok <==> forall|i: int|
            0 <= i < pairs.len() ==> (#[trigger] pairs[i]).contains('='),
        labels_of(pairs) is Ok ==> labels::pairs_map(labels_of(pairs)->Ok_0) == labels::pairs_map(spelled(pairs)),
        labels_of(pairs) is Ok ==> labels::ascending(labels_of(pairs)->Ok_0),
    decreases pairs.len(),
{
    if pairs.len() > 0 {
        let rest = pairs.drop_last();
        law_labels_of(rest);
        law_split_label_is_lossless(pairs.last());
        if labels_of(rest) is Ok {
            assert forall|i: int| 0 <= i < rest.len() implies (#[trigger] pairs[i]).contains(
                '=',
            ) by {
                assert(rest[i] == pairs[i]);
            }
            if let Some((key, value)) = split_label(pairs.last()) {
                labels::law_inserted(labels_of(rest)->Ok_0, key, value);
                assert(spelled(pairs).drop_last() =~= spelled(rest));
                assert(spelled(pairs).last() == (key, value));
            }
        } else {
            let i = choose|i: int| 0 <= i < rest.len() && !(#[trigger] rest[i]).contains('=');
            assert(pairs[i] == rest[i]);
        }
    } else {
        assert(spelled(pairs) =~= Seq::empty());
    }
}

/// Labels are refused for the first argument without a `=`.
pub proof fn law_first_bad_label_is_told(
    before: Seq<Seq<char>>,
    bad: Seq<char>,
    after: Seq<Seq<char>>,
)
    requires
        forall|i: int| 0 <= i < before.len() ==> (#[trigger] before[i]).contains('='),
        !bad.contains('='),
    ensures
        labels_of(before + seq![bad] + after) == Err::<Seq<(Seq<char>, Seq<char>)>, _>(bad),
{
    let whole = before + seq![bad] + after;
    let n = before.len() + 1;
    law_labels_of(before);
    law_split_label_is_lossless(bad);
    assert(whole.take(n as int).drop_last() =~= before);
    assert(whole.take(n as int).last() == bad);
    lemma_first_bad(whole, n as int);
}

} // verus!
