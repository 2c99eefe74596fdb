//! An ordered map from text keys to text values, iterated in key order like
//! the `BTreeMap<String, String>` metadata tables of the records.
use vstd::prelude::*;

use crate::text::{compare_text, lemma_text_lt_irreflexive, lemma_text_lt_total, lemma_text_lt_transitive, text_lt, TextOrder};

verus! {

pub type TextPairs = Seq<(Seq<char>, Seq<char>)>;

/// Keys strictly increase, so each key occurs once.
pub open spec fn pairs_sorted(p: TextPairs) -> bool {
    forall|i: int, j: int| 0 <= i < j < p.len() ==> text_lt(#[trigger] p[i].0, #[trigger] p[j].0)
}

/// The value stored under `k`.
pub open spec fn pairs_get(p: TextPairs, k: Seq<char>) -> Option<Seq<char>>
    decreases p.len(),
{
    if p.len() == 0 {
        None
    } else if p[0].0 == k {
        Some(p[0].1)
    } else {
        pairs_get(p.drop_first(), k)
    }
}

/// The keys, in order.
pub open spec fn pairs_keys(p: TextPairs) -> Seq<Seq<char>> {
    p.map_values(|e: (Seq<char>, Seq<char>)| e.0)
}

/// Sorted insertion that replaces the value of an existing key.
pub open spec fn pairs_insert(p: TextPairs, k: Seq<char>, v: Seq<char>) -> TextPairs
    decreases p.len(),
{
    if p.len() == 0 {
        seq![(k, v)]
    } else if p[0].0 == k {
        p.update(0, (k, v))
    } else if text_lt(k, p[0].0) {
        seq![(k, v)] + p
    } else {
        seq![p[0]] + pairs_insert(p.drop_first(), k, v)
    }
}

/// The table built by inserting `entries` one after another into an empty
/// table: a later entry for the same key replaces an earlier one.
pub open spec fn pairs_from(entries: TextPairs) -> TextPairs
    decreases entries.len(),
{
    if entries.len() == 0 {
        Seq::empty()
    } else {
        pairs_insert(pairs_from(entries.drop_last()), entries.last().0, entries.last().1)
    }
}

pub proof fn lemma_pairs_get_insert(p: TextPairs, k: Seq<char>, v: Seq<char>, q: Seq<char>)
    ensures
        pairs_get(pairs_insert(p, k, v), q) == if q == k {
            Some(v)
        } else {
            pairs_get(p, q)
        },
    decreases p.len(),
{
    reveal_with_fuel(pairs_get, 2);
    let r = pairs_insert(p, k, v);
    if p.len() == 0 {
        assert(r.drop_first() =~= Seq::<(Seq<char>, Seq<char>)>::empty());
    } else if p[0].0 == k {
        assert(r.drop_first() =~= p.drop_first());
    } else if text_lt(k, p[0].0) {
        assert(r.drop_first() =~= p);
    } else {
        lemma_pairs_get_insert(p.drop_first(), k, v, q);
        assert(r.drop_first() =~= pairs_insert(p.drop_first(), k, v));
        assert(r[0] == p[0]);
    }
}

proof fn lemma_sorted_tail(p: TextPairs)
    requires
        pairs_sorted(p),
        p.len() > 0,
    ensures
        pairs_sorted(p.drop_first()),
{
    assert forall|i: int, j: int| 0 <= i < j < p.drop_first().len() implies text_lt(
        #[trigger] p.drop_first()[i].0,
        #[trigger] p.drop_first()[j].0,
    ) by {
        assert(p.drop_first()[i] == p[i + 1]);
        assert(p.drop_first()[j] == p[j + 1]);
    }
}

/// Inserting keeps the keys sorted and leaves every other key's value alone.
pub proof fn lemma_pairs_insert_sorted(p: TextPairs, k: Seq<char>, v: Seq<char>)
    requires
        pairs_sorted(p),
    ensures
        pairs_sorted(pairs_insert(p, k, v)),
        pairs_insert(p, k, v).len() > 0,
        forall|i: int|
            0 <= i < pairs_insert(p, k, v).len() ==> (#[trigger] pairs_insert(p, k, v)[i].0 == k
                || exists|j: int| 0 <= j < p.len() && p[j].0 == pairs_insert(p, k, v)[i].0),
    decreases p.len(),
{
    reveal_with_fuel(pairs_get, 2);
    let r = pairs_insert(p, k, v);
    if p.len() == 0 {
    } else if p[0].0 == k {
        assert forall|i: int| 0 <= i < r.len() implies (#[trigger] r[i].0 == k || exists|j: int|
            0 <= j < p.len() && p[j].0 == r[i].0) by {
            if i > 0 {
                assert(p[i].0 == r[i].0);
            }
        }
    } else if text_lt(k, p[0].0) {
        assert forall|i: int, j: int| 0 <= i < j < r.len() implies text_lt(
            #[trigger] r[i].0,
            #[trigger] r[j].0,
        ) by {
            if i == 0 {
                if j > 1 {
                    lemma_text_lt_transitive(k, p[0].0, p[j - 1].0);
                }
            } else {
                assert(r[i] == p[i - 1]);
                assert(r[j] == p[j - 1]);
            }
        }
        assert forall|i: int| 0 <= i < r.len() implies (#[trigger] r[i].0 == k || exists|j: int|
            0 <= j < p.len() && p[j].0 == r[i].0) by {
            if i > 0 {
                assert(p[i - 1].0 == r[i].0);
            }
        }
    } else {
        let t = p.drop_first();
        lemma_sorted_tail(p);
        lemma_pairs_insert_sorted(t, k, v);
        let rt = pairs_insert(t, k, v);
        assert(r == seq![p[0]] + rt);
        lemma_text_lt_total(k, p[0].0);
        assert forall|i: int| 0 <= i < rt.len() implies text_lt(p[0].0, #[trigger] rt[i].0) by {
            if rt[i].0 == k {
            } else {
                let j = choose|j: int| 0 <= j < t.len() && t[j].0 == rt[i].0;
                assert(t[j] == p[j + 1]);
            }
        }
        assert forall|i: int, j: int| 0 <= i < j < r.len() implies text_lt(
            #[trigger] r[i].0,
            #[trigger] r[j].0,
        ) by {
            if i == 0 {
                assert(r[j] == rt[j - 1]);
            } else {
                assert(r[i] == rt[i - 1]);
                assert(r[j] == rt[j - 1]);
            }
        }
        assert forall|i: int| 0 <= i < r.len() implies (#[trigger] r[i].0 == k || exists|j: int|
            0 <= j < p.len() && p[j].0 == r[i].0) by {
            if i == 0 {
                assert(p[0].0 == r[0].0);
            } else {
                assert(r[i] == rt[i - 1]);
                if rt[i - 1].0 != k {
                    let j = choose|j: int| 0 <= j < t.len() && t[j].0 == rt[i - 1].0;
                    assert(t[j] == p[j + 1]);
                }
            }
        }
    }
}

proof fn lemma_pairs_insert_at(p: TextPairs, k: Seq<char>, v: Seq<char>, i: int)
    requires
        pairs_sorted(p),
        0 <= i <= p.len(),
        forall|j: int| 0 <= j < i ==> text_lt(#[trigger] p[j].0, k),
        i < p.len() ==> !text_lt(p[i].0, k),
    ensures
        pairs_insert(p, k, v) == if i < p.len() && p[i].0 == k {
            p.update(i, (k, v))
        } else {
            p.take(i) + seq![(k, v)] + p.skip(i)
        },
    decreases i,
{
    if i == 0 {
        if p.len() > 0 && p[0].0 != k {
            lemma_text_lt_total(k, p[0].0);
        }
        assert(p.take(0) + seq![(k, v)] + p.skip(0) =~= seq![(k, v)] + p);
    } else {
        let t = p.drop_first();
        lemma_sorted_tail(p);
        assert(p[0].0 != k) by {
            lemma_text_lt_irreflexive(k);
        }
        assert(!text_lt(k, p[0].0)) by {
            lemma_text_lt_total(k, p[0].0);
        }
        assert forall|j: int| 0 <= j < i - 1 implies text_lt(#[trigger] t[j].0, k) by {
            assert(t[j] == p[j + 1]);
        }
        if i < p.len() {
            assert(t[i - 1] == p[i]);
        }
        lemma_pairs_insert_at(t, k, v, i - 1);
        if i < p.len() && p[i].0 == k {
            assert(seq![p[0]] + t.update(i - 1, (k, v)) =~= p.update(i, (k, v)));
        } else {
            assert(seq![p[0]] + (t.take(i - 1) + seq![(k, v)] + t.skip(i - 1)) =~= p.take(i)
                + seq![(k, v)] + p.skip(i));
        }
    }
}

/// An ordered text table.
#[derive(Debug, PartialEq, Eq)]
pub struct StringMap {
    entries: Vec<(String, String)>,
}

pub open spec fn entry_views(v: Seq<(String, String)>) -> TextPairs {
    v.map_values(|e: (String, String)| (e.0@, e.1@))
}

impl View for StringMap {
    type V = TextPairs;

    closed spec fn view(&self) -> TextPairs {
        entry_views(self.entries@)
    }
}

impl StringMap {
    #[verifier::type_invariant]
    closed spec fn well_ordered(&self) -> bool {
        pairs_sorted(entry_views(self.entries@))
    }

    /// An empty table.
    pub fn new() -> (m: Self)
        ensures
            m@ == Seq::<(Seq<char>, Seq<char>)>::empty(),
    {
        let m = StringMap { entries: Vec::new() };
        assert(entry_views(m.entries@) =~= Seq::<(Seq<char>, Seq<char>)>::empty());
        m
    }

    /// The number of keys.
    pub fn len(&self) -> (n: usize)
        ensures
            n == self@.len(),
    {
        self.entries.len()
    }

    /// The entries in key order.
    pub fn entries(&self) -> (r: &Vec<(String, String)>)
        ensures
            entry_views(r@) == self@,
            pairs_sorted(self@),
    {
        proof {
            use_type_invariant(self);
        }
        &self.entries
    }

    /// The value stored under `key`.
    pub fn get(&self, key: &str) -> (r: Option<&String>)
        ensures
            match r {
                Some(v) => pairs_get(self@, key@) == Some(v@),
                None => pairs_get(self@, key@) is None,
            },
    {
        let mut i: usize = 0;
        assert(self@.skip(0) =~= self@);
        while i < self.entries.len()
            invariant
                i <= self.entries@.len(),
                pairs_get(self@, key@) == pairs_get(self@.skip(i as int), key@),
                self@ == entry_views(self.entries@),
            decreases self.entries@.len() - i,
        {
            let ghost rest = self@.skip(i as int);
            assert(rest[0] == (self.entries@[i as int].0@, self.entries@[i as int].1@));
            match compare_text(self.entries[i].0.as_str(), key) {
                TextOrder::Equal => {
                    return Some(&self.entries[i].1);
                },
                _ => {},
            }
            assert(rest.drop_first() =~= self@.skip(i + 1));
            i += 1;
        }
        None
    }

    /// Stores `value` under `key`, replacing any earlier value.
    pub fn insert(&mut self, key: String, value: String)
        ensures
            final(self)@ == pairs_insert(old(self)@, key@, value@),
            pairs_sorted(final(self)@),
    {
        proof {
            use_type_invariant(&*self);
        }
        let ghost p = self@;
        let mut i: usize = 0;
        while i < self.entries.len()
            invariant
                i <= self.entries@.len(),
                p == entry_views(self.entries@),
                pairs_sorted(p),
                forall|j: int| 0 <= j < i ==> text_lt(#[trigger] p[j].0, key@),
            ensures
                i < self.entries@.len() ==> !text_lt(p[i as int].0, key@),
            decreases self.entries@.len() - i,
        {
            assert(p[i as int].0 == self.entries@[i as int].0@);
            match compare_text(self.entries[i].0.as_str(), key.as_str()) {
                TextOrder::Less => {},
                _ => {
                    proof {
                        lemma_text_lt_irreflexive(key@);
                    }
                    break ;
                },
            }
            i += 1;
        }
        proof {
            if i < p.len() {
                assert(p[i as int].0 == self.entries@[i as int].0@);
                lemma_text_lt_total(p[i as int].0, key@);
                lemma_text_lt_irreflexive(key@);
            }
            lemma_pairs_insert_at(p, key@, value@, i as int);
            lemma_pairs_insert_sorted(p, key@, value@);
        }
        let replace = i < self.entries.len() && self.entries[i].0 == key;
        let mut entries: Vec<(String, String)> = Vec::new();
        std::mem::swap(&mut entries, &mut self.entries);
        if replace {
            entries.set(i, (key, value));
            assert(entry_views(entries@) =~= p.update(i as int, (key@, value@)));
        } else {
            entries.insert(i, (key, value));
            assert(entry_views(entries@) =~= p.take(i as int) + seq![(key@, value@)] + p.skip(
                i as int,
            ));
        }
        self.entries = entries;
    }

    /// The keys, in order.
    pub fn keys(&self) -> (r: Vec<String>)
        ensures
            r@.len() == self@.len(),
            forall|i: int| 0 <= i < r@.len() ==> #[trigger] r@[i]@ == self@[i].0,
    {
        let mut r: Vec<String> = Vec::new();
        let mut i: usize = 0;
        while i < self.entries.len()
            invariant
                i <= self.entries@.len(),
                self@ == entry_views(self.entries@),
                r@.len() == i,
                forall|j: int| 0 <= j < i ==> #[trigger] r@[j]@ == self@[j].0,
            decreases self.entries@.len() - i,
        {
            r.push(self.entries[i].0.clone());
            i += 1;
        }
        r
    }
}

impl Clone for StringMap {
    fn clone(&self) -> (r: Self)
        ensures
            r@ == self@,
    {
        proof {
            use_type_invariant(self);
        }
        let mut entries: Vec<(String, String)> = Vec::new();
        let mut i: usize = 0;
        while i < self.entries.len()
            invariant
                i <= self.entries@.len(),
                self@ == entry_views(self.entries@),
                entries@.len() == i,
                entry_views(entries@) == self@.take(i as int),
            decreases self.entries@.len() - i,
        {
            let k = self.entries[i].0.clone();
            let v = self.entries[i].1.clone();
            let ghost before = entries@;
            entries.push((k, v));
            assert forall|j: int| 0 <= j < i + 1 implies #[trigger] entry_views(entries@)[j]
                == self@.take(i + 1)[j] by {
                if j < i {
                    assert(entries@[j] == before[j]);
                    assert(entry_views(before)[j] == self@.take(i as int)[j]);
                }
            }
            assert(entry_views(entries@) =~= self@.take(i + 1));
            i += 1;
        }
        assert(self@.take(i as int) =~= self@);
        StringMap { entries }
    }
}

} // verus!

verus! {

/// A key has a value exactly when some entry carries it.
pub proof fn lemma_pairs_get_some(p: TextPairs, k: Seq<char>)
    ensures
        pairs_get(p, k) is Some <==> exists|i: int| 0 <= i < p.len() && #[trigger] p[i].0 == k,
    decreases p.len(),
{
    if p.len() > 0 {
        lemma_pairs_get_some(p.drop_first(), k);
        if pairs_get(p.drop_first(), k) is Some {
            let i = choose|i: int| 0 <= i < p.drop_first().len() && #[trigger] p.drop_first()[i].0 == k;
            assert(p[i + 1].0 == k);
        }
        if exists|i: int| 0 <= i < p.len() && #[trigger] p[i].0 == k {
            let i = choose|i: int| 0 <= i < p.len() && #[trigger] p[i].0 == k;
            if i > 0 {
                assert(p.drop_first()[i - 1].0 == k);
            }
        }
    }
}


/// The value that the last entry for `q` in `e` carries, if any entry does.
pub open spec fn last_value(e: TextPairs, q: Seq<char>) -> Option<Seq<char>>
    decreases e.len(),
{
    if e.len() == 0 {
        None
    } else if e.last().0 == q {
        Some(e.last().1)
    } else {
        last_value(e.drop_last(), q)
    }
}

/// A table built from entries gives each key the value of its last entry.
pub proof fn lemma_pairs_from_get(e: TextPairs, q: Seq<char>)
    ensures
        pairs_get(pairs_from(e), q) == last_value(e, q),
    decreases e.len(),
{
    if e.len() > 0 {
        lemma_pairs_from_get(e.drop_last(), q);
        lemma_pairs_get_insert(pairs_from(e.drop_last()), e.last().0, e.last().1, q);
    }
}

/// In entries `x` followed by `y`, an entry of `y` wins over one of `x`.
pub proof fn lemma_last_value_concat(x: TextPairs, y: TextPairs, q: Seq<char>)
    ensures
        last_value(x + y, q) == if last_value(y, q) is Some {
            last_value(y, q)
        } else {
            last_value(x, q)
        },
    decreases y.len(),
{
    if y.len() == 0 {
        assert(x + y =~= x);
    } else {
        assert((x + y).drop_last() =~= x + y.drop_last());
        lemma_last_value_concat(x, y.drop_last(), q);
    }
}

} // verus!
