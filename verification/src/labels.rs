//! Key labels: a map from text to text that is walked in ascending key order.

use vstd::prelude::*;

use crate::text::same_text;

verus! {

/// Whether `a` stands before `b` in code-point order (the order of their UTF-8 bytes).
pub open spec fn precedes(a: Seq<char>, b: Seq<char>) -> bool
    decreases a.len(),
{
    if b.len() == 0 {
        false
    } else if a.len() == 0 {
        true
    } else if a[0] != b[0] {
        (a[0] as int) < (b[0] as int)
    } else {
        precedes(a.drop_first(), b.drop_first())
    }
}

/// Whether the keys of `pairs` are in strictly ascending order, so that none occurs twice.
pub open spec fn ascending(pairs: Seq<(Seq<char>, Seq<char>)>) -> bool {
    forall|i: int, j: int|
        0 <= i < j < pairs.len() ==> precedes(#[trigger] pairs[i].0, #[trigger] pairs[j].0)
}

/// The map that `pairs` lists; of two pairs with one key the later counts.
pub open spec fn pairs_map(pairs: Seq<(Seq<char>, Seq<char>)>) -> Map<Seq<char>, Seq<char>>
    decreases pairs.len(),
{
    if pairs.len() == 0 {
        Map::empty()
    } else {
        pairs_map(pairs.drop_last()).insert(pairs.last().0, pairs.last().1)
    }
}

/// `pairs` with the value of `key` set to `value`, at the place of `key` in the order.
pub open spec fn inserted(
    pairs: Seq<(Seq<char>, Seq<char>)>,
    key: Seq<char>,
    value: Seq<char>,
) -> Seq<(Seq<char>, Seq<char>)>
    decreases pairs.len(),
{
    if pairs.len() == 0 {
        seq![(key, value)]
    } else if precedes(pairs.last().0, key) {
        pairs.push((key, value))
    } else if pairs.last().0 == key {
        pairs.drop_last().push((key, value))
    } else {
        inserted(pairs.drop_last(), key, value).push(pairs.last())
    }
}

proof fn lemma_precedes_irreflexive(a: Seq<char>)
    ensures
        !precedes(a, a),
    decreases a.len(),
{
    if a.len() > 0 {
        lemma_precedes_irreflexive(a.drop_first());
    }
}

proof fn lemma_precedes_transitive(a: Seq<char>, b: Seq<char>, c: Seq<char>)
    requires
        precedes(a, b),
        precedes(b, c),
    ensures
        precedes(a, c),
    decreases a.len(),
{
    if a.len() > 0 && a[0] == b[0] && b[0] == c[0] {
        lemma_precedes_transitive(a.drop_first(), b.drop_first(), c.drop_first());
    }
}

proof fn lemma_precedes_total(a: Seq<char>, b: Seq<char>)
    ensures
        precedes(a, b) || precedes(b, a) || a == b,
    decreases a.len(),
{
    if a.len() == 0 && b.len() == 0 {
        assert(a =~= b);
    } else if a.len() > 0 && b.len() > 0 && a[0] == b[0] {
        lemma_precedes_total(a.drop_first(), b.drop_first());
        if a.drop_first() == b.drop_first() {
            assert(a =~= seq![a[0]] + a.drop_first());
            assert(b =~= seq![b[0]] + b.drop_first());
        }
    }
}

/// Code-point order is a strict total order.
pub proof fn law_precedes_is_a_strict_total_order(a: Seq<char>, b: Seq<char>, c: Seq<char>)
    ensures
        !precedes(a, a),
        precedes(a, b) && precedes(b, c) ==> precedes(a, c),
        precedes(a, b) || precedes(b, a) || a == b,
        !(precedes(a, b) && precedes(b, a)),
{
    lemma_precedes_irreflexive(a);
    lemma_precedes_total(a, b);
    if precedes(a, b) && precedes(b, c) {
        lemma_precedes_transitive(a, b, c);
    }
    if precedes(a, b) && precedes(b, a) {
        lemma_precedes_transitive(a, b, a);
    }
}

/// What stands before `bound` stays before it when a key before `bound` is inserted.
proof fn lemma_inserted_below(
    pairs: Seq<(Seq<char>, Seq<char>)>,
    key: Seq<char>,
    value: Seq<char>,
    bound: Seq<char>,
)
    requires
        forall|i: int| 0 <= i < pairs.len() ==> precedes(#[trigger] pairs[i].0, bound),
        precedes(key, bound),
    ensures
        forall|i: int|
            0 <= i < inserted(pairs, key, value).len() ==> precedes(
                #[trigger] inserted(pairs, key, value)[i].0,
                bound,
            ),
    decreases pairs.len(),
{
    let after = inserted(pairs, key, value);
    let rest = pairs.drop_last();
    if pairs.len() > 0 && !precedes(pairs.last().0, key) && pairs.last().0 != key {
        assert forall|i: int| 0 <= i < rest.len() implies precedes(#[trigger] rest[i].0, bound) by {
            assert(rest[i] == pairs[i]);
        }
        lemma_inserted_below(rest, key, value, bound);
        assert(after == inserted(rest, key, value).push(pairs.last()));
        assert(pairs.last() == pairs[pairs.len() - 1]);
    } else {
        assert forall|i: int| 0 <= i < after.len() implies precedes(#[trigger] after[i].0, bound) by {
            if after[i] != (key, value) {
                assert(after[i] == pairs[i]);
            }
        }
    }
}

/// How far from the end the place of a key is looked for: past every pair whose key is after it.
proof fn lemma_inserted_step(
    pairs: Seq<(Seq<char>, Seq<char>)>,
    i: int,
    key: Seq<char>,
    value: Seq<char>,
)
    requires
        0 < i <= pairs.len(),
        !precedes(pairs[i - 1].0, key),
        pairs[i - 1].0 != key,
        inserted(pairs, key, value) == inserted(pairs.take(i), key, value) + pairs.skip(i),
    ensures
        inserted(pairs, key, value) == inserted(pairs.take(i - 1), key, value) + pairs.skip(i - 1),
{
    let here = pairs.take(i);
    assert(here.last() == pairs[i - 1]);
    assert(here.drop_last() =~= pairs.take(i - 1));
    assert(inserted(pairs.take(i - 1), key, value).push(here.last()) + pairs.skip(i) =~= inserted(
        pairs.take(i - 1),
        key,
        value,
    ) + pairs.skip(i - 1));
}

proof fn lemma_inserted_here(
    pairs: Seq<(Seq<char>, Seq<char>)>,
    i: int,
    key: Seq<char>,
    value: Seq<char>,
)
    requires
        0 <= i <= pairs.len(),
        inserted(pairs, key, value) == inserted(pairs.take(i), key, value) + pairs.skip(i),
        i > 0 ==> precedes(pairs[i - 1].0, key) || pairs[i - 1].0 == key,
    ensures
        i > 0 && pairs[i - 1].0 == key ==> inserted(pairs, key, value) == pairs.update(
            i - 1,
            (key, value),
        ),
        !(i > 0 && pairs[i - 1].0 == key) ==> inserted(pairs, key, value) == pairs.insert(
            i,
            (key, value),
        ),
{
    let here = pairs.take(i);
    if i > 0 {
        assert(here.last() == pairs[i - 1]);
    }
    if i > 0 && pairs[i - 1].0 == key {
        lemma_precedes_irreflexive(key);
        assert(here.drop_last().push((key, value)) + pairs.skip(i) =~= pairs.update(
            i - 1,
            (key, value),
        ));
    } else {
        assert(here.push((key, value)) =~= inserted(here, key, value));
        assert(here.push((key, value)) + pairs.skip(i) =~= pairs.insert(i, (key, value)));
    }
}

/// Inserting keeps the order, and sets the key in the map that is listed.
pub proof fn law_inserted(pairs: Seq<(Seq<char>, Seq<char>)>, key: Seq<char>, value: Seq<char>)
    ensures
        pairs_map(inserted(pairs, key, value)) == pairs_map(pairs).insert(key, value),
        ascending(pairs) ==> ascending(inserted(pairs, key, value)),
    decreases pairs.len(),
{
    let after = inserted(pairs, key, value);
    if pairs.len() == 0 {
        assert(after.drop_last() =~= pairs);
    } else if precedes(pairs.last().0, key) {
        assert(after.drop_last() =~= pairs);
        if ascending(pairs) {
            assert forall|i: int| 0 <= i < pairs.len() implies precedes(#[trigger] pairs[i].0, key) by {
                if i < pairs.len() - 1 {
                    lemma_precedes_transitive(pairs[i].0, pairs.last().0, key);
                }
            }
        }
    } else if pairs.last().0 == key {
        assert(after.drop_last() =~= pairs.drop_last());
        assert(pairs_map(after) =~= pairs_map(pairs).insert(key, value));
    } else {
        let rest = pairs.drop_last();
        law_inserted(rest, key, value);
        assert(after.drop_last() =~= inserted(rest, key, value));
        assert(pairs_map(after) =~= pairs_map(pairs).insert(key, value));
        if ascending(pairs) {
            assert(ascending(rest));
            lemma_precedes_total(pairs.last().0, key);
            lemma_inserted_below(rest, key, value, pairs.last().0);
        }
    }
}

proof fn lemma_map_keys(pairs: Seq<(Seq<char>, Seq<char>)>, key: Seq<char>) -> (at: int)
    requires
        pairs_map(pairs).dom().contains(key),
    ensures
        0 <= at < pairs.len(),
        pairs[at].0 == key,
    decreases pairs.len(),
{
    if pairs.last().0 == key {
        pairs.len() - 1
    } else {
        lemma_map_keys(pairs.drop_last(), key)
    }
}

proof fn lemma_keys_in_map(pairs: Seq<(Seq<char>, Seq<char>)>, at: int)
    requires
        0 <= at < pairs.len(),
    ensures
        pairs_map(pairs).dom().contains(pairs[at].0),
    decreases pairs.len(),
{
    if at < pairs.len() - 1 {
        lemma_keys_in_map(pairs.drop_last(), at);
    }
}

/// An ascending list is determined by the map that it lists.
pub proof fn law_ascending_is_canonical(
    a: Seq<(Seq<char>, Seq<char>)>,
    b: Seq<(Seq<char>, Seq<char>)>,
)
    requires
        ascending(a),
        ascending(b),
        pairs_map(a) == pairs_map(b),
    ensures
        a == b,
    decreases a.len(),
{
    if a.len() == 0 {
        if b.len() > 0 {
            lemma_keys_in_map(b, b.len() - 1);
        }
        assert(a =~= b);
    } else {
        lemma_keys_in_map(a, a.len() - 1);
        let at_b = lemma_map_keys(b, a.last().0);
        lemma_keys_in_map(b, b.len() - 1);
        let at_a = lemma_map_keys(a, b.last().0);
        if at_b < b.len() - 1 {
            assert(precedes(b[at_b].0, b.last().0));
            if at_a < a.len() - 1 {
                assert(precedes(a[at_a].0, a.last().0));
                lemma_precedes_transitive(a.last().0, b.last().0, a.last().0);
            }
            lemma_precedes_irreflexive(a.last().0);
        }
        assert(a.last().0 == b.last().0);
        assert(pairs_map(a)[a.last().0] == a.last().1);
        assert(pairs_map(b)[b.last().0] == b.last().1);
        let ra = a.drop_last();
        let rb = b.drop_last();
        let key = a.last().0;
        if pairs_map(ra).dom().contains(key) {
            let i = lemma_map_keys(ra, key);
            assert(precedes(a[i].0, a.last().0));
            lemma_precedes_irreflexive(key);
        }
        if pairs_map(rb).dom().contains(key) {
            let i = lemma_map_keys(rb, key);
            assert(precedes(b[i].0, b.last().0));
            lemma_precedes_irreflexive(key);
        }
        assert(pairs_map(ra) =~= pairs_map(a).remove(key));
        assert(pairs_map(rb) =~= pairs_map(b).remove(key));
        law_ascending_is_canonical(ra, rb);
        assert(a =~= ra.push(a.last()));
        assert(b =~= rb.push(b.last()));
    }
}

/// Whether `a` stands before `b` in code-point order.
pub fn text_precedes(a: &str, b: &str) -> (before: bool)
    ensures
        before == precedes(a@, b@),
{
    let a_len: usize = a.unicode_len();
    let b_len: usize = b.unicode_len();
    let mut i: usize = 0;
    proof {
        assert(a@.skip(0) =~= a@);
        assert(b@.skip(0) =~= b@);
    }
    while i < a_len && i < b_len
        invariant
            a_len == a@.len(),
            b_len == b@.len(),
            i <= a_len,
            i <= b_len,
            precedes(a@, b@) == precedes(a@.skip(i as int), b@.skip(i as int)),
        decreases a_len - i,
    {
        let x: char = a.get_char(i);
        let y: char = b.get_char(i);
        if x != y {
            return x < y;
        }
        proof {
            assert(a@.skip(i as int).drop_first() =~= a@.skip(i + 1));
            assert(b@.skip(i as int).drop_first() =~= b@.skip(i + 1));
        }
        i = i + 1;
    }
    i < b_len
}

/// The texts of a list of pairs.
pub open spec fn pair_texts(pairs: Seq<(String, String)>) -> Seq<(Seq<char>, Seq<char>)> {
    pairs.map_values(|p: (String, String)| (p.0@, p.1@))
}

/// Sets the value of `key` in a list of pairs, at the place of `key` in the order.
fn set_pair(entries: &mut Vec<(String, String)>, key: String, value: String)
    ensures
        pair_texts(final(entries)@) == inserted(pair_texts(old(entries)@), key@, value@),
{
    let ghost before = pair_texts(entries@);
    let ghost k = key@;
    let ghost v = value@;
    let mut i: usize = entries.len();
    proof {
        assert(before.take(i as int) =~= before);
        assert(inserted(before, k, v) + before.skip(i as int) =~= inserted(before, k, v));
    }
    while i > 0 && !text_precedes(entries[i - 1].0.as_str(), key.as_str()) && !same_text(
        entries[i - 1].0.as_str(),
        key.as_str(),
    )
        invariant
            i <= entries@.len(),
            before == pair_texts(entries@),
            k == key@,
            inserted(before, k, v) == inserted(before.take(i as int), k, v) + before.skip(i as int),
        decreases i,
    {
        proof {
            lemma_inserted_step(before, i as int, k, v);
        }
        i = i - 1;
    }
    proof {
        lemma_inserted_here(before, i as int, k, v);
    }
    if i > 0 && same_text(entries[i - 1].0.as_str(), key.as_str()) {
        entries.set(i - 1, (key, value));
        proof {
            assert(pair_texts(entries@) =~= before.update(i - 1, (k, v)));
        }
    } else {
        entries.insert(i, (key, value));
        proof {
            assert(pair_texts(entries@) =~= before.insert(i as int, (k, v)));
        }
    }
}

/// The labels of a key: a map from text to text, kept in ascending key order.
#[derive(Debug, PartialEq, Eq)]
pub struct Labels {
    entries: Vec<(String, String)>,
}

impl Default for Labels {
    fn default() -> (labels: Labels)
        ensures
            labels@ == Seq::<(Seq<char>, Seq<char>)>::empty(),
            labels.well_formed(),
    {
        Labels::new()
    }
}

impl View for Labels {
    type V = Seq<(Seq<char>, Seq<char>)>;

    /// The labels in ascending key order.
    closed spec fn view(&self) -> Seq<(Seq<char>, Seq<char>)> {
        pair_texts(self.entries@)
    }
}

impl Labels {
    /// The keys ascend, so each occurs once.
    pub open spec fn well_formed(&self) -> bool {
        ascending(self@)
    }

    #[verifier::type_invariant]
    spec fn inv(&self) -> bool {
        ascending(pair_texts(self.entries@))
    }

    /// No labels.
    pub fn new() -> (labels: Labels)
        ensures
            labels@ == Seq::<(Seq<char>, Seq<char>)>::empty(),
            labels.well_formed(),
    {
        let labels = Labels { entries: Vec::new() };
        proof {
            assert(labels@ =~= Seq::empty());
        }
        labels
    }

    /// Sets the value of `key`.
    pub fn insert(&mut self, key: String, value: String)
        ensures
            final(self)@ == inserted(old(self)@, key@, value@),
            final(self).well_formed(),
            pairs_map(final(self)@) == pairs_map(old(self)@).insert(key@, value@),
    {
        proof {
            use_type_invariant(&*self);
            law_inserted(self@, key@, value@);
        }
        let mut entries: Vec<(String, String)> = Vec::new();
        std::mem::swap(&mut entries, &mut self.entries);
        set_pair(&mut entries, key, value);
        self.entries = entries;
    }

    /// The value of `key`, if it has one.
    pub fn get(&self, key: &str) -> (value: Option<&String>)
        ensures
            match value {
                Some(v) => pairs_map(self@).dom().contains(key@) && v@ == pairs_map(self@)[key@],
                None => !pairs_map(self@).dom().contains(key@),
            },
    {
        let mut i: usize = self.entries.len();
        proof {
            assert(self@.take(i as int) =~= self@);
        }
        while i > 0
            invariant
                i <= self.entries@.len(),
                self@ == pair_texts(self.entries@),
                pairs_map(self@).dom().contains(key@) == pairs_map(
                    self@.take(i as int),
                ).dom().contains(key@),
                pairs_map(self@).dom().contains(key@) ==> pairs_map(self@)[key@] == pairs_map(
                    self@.take(i as int),
                )[key@],
            decreases i,
        {
            proof {
                assert(self@.take(i as int).last() == self@[i - 1]);
                assert(self@.take(i as int).drop_last() =~= self@.take(i - 1));
            }
            if same_text(self.entries[i - 1].0.as_str(), key) {
                return Some(&self.entries[i - 1].1);
            }
            i = i - 1;
        }
        None
    }

    /// Whether there are no labels.
    pub fn is_empty(&self) -> (empty: bool)
        ensures
            empty == (self@.len() == 0),
    {
        self.entries.len() == 0
    }

    /// The labels in ascending key order.
    pub fn entries(&self) -> (entries: &Vec<(String, String)>)
        ensures
            pair_texts(entries@) == self@,
            self.well_formed(),
    {
        proof {
            use_type_invariant(self);
        }
        &self.entries
    }
}

/// The first difference decides the order: a text stands before any longer one that starts with
/// it, and of two texts that start alike the one whose next character is smaller stands first.
pub proof fn law_first_difference_decides(start: Seq<char>, a: Seq<char>, b: Seq<char>)
    ensures
        b.len() > 0 ==> precedes(start, start + b),
        a.len() > 0 && b.len() > 0 && (a[0] as int) < (b[0] as int) ==> precedes(
            start + a,
            start + b,
        ),
    decreases start.len(),
{
    if start.len() > 0 {
        let rest = start.drop_first();
        law_first_difference_decides(rest, a, b);
        assert((start + a).drop_first() =~= rest + a);
        assert((start + b).drop_first() =~= rest + b);
    } else {
        assert(start + a =~= a);
        assert(start + b =~= b);
    }
}

/// A list of pairs gives each key the value of the last pair that names it, and no other key a
/// value.
pub proof fn law_last_pair_counts(
    before: Seq<(Seq<char>, Seq<char>)>,
    pair: (Seq<char>, Seq<char>),
    after: Seq<(Seq<char>, Seq<char>)>,
    absent: Seq<char>,
)
    ensures
        (forall|i: int| 0 <= i < after.len() ==> (#[trigger] after[i]).0 != pair.0)
            ==> pairs_map(before + seq![pair] + after).dom().contains(pair.0) && pairs_map(
            before + seq![pair] + after,
        )[pair.0] == pair.1,
        (forall|i: int| 0 <= i < after.len() ==> (#[trigger] after[i]).0 != absent) ==> !pairs_map(
            after,
        ).dom().contains(absent),
    decreases after.len(),
{
    let whole = before + seq![pair] + after;
    if after.len() == 0 {
        assert(whole.last() == pair);
    } else {
        let rest = after.drop_last();
        law_last_pair_counts(before, pair, rest, absent);
        assert(whole.drop_last() =~= before + seq![pair] + rest);
        assert(whole.last() == after.last());
        assert(after[after.len() - 1] == after.last());
        assert forall|i: int| 0 <= i < rest.len() implies rest[i] == #[trigger] after[i] by {
        }
        assert(forall|i: int| 0 <= i < rest.len() ==> #[trigger] rest[i] == after[i]);
    }
}

} // verus!
