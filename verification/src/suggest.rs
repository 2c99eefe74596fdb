//! Registry suggestions: organs that promoted mutations or generation
//! lineage records say were changed, but that the registry does not name.
use vstd::prelude::*;

use crate::organs::{occurs, push_unique, record_names, sorted_texts};
use crate::records::{
    GenerationRecord, MutationPromotionRecord, OrganRecord, OrganRegistrySuggestion,
    OrganRegistrySuggestionOutput, PromotionStatus,
};
use crate::strmap::{
    last_value, lemma_last_value_concat, lemma_pairs_from_get, lemma_pairs_get_insert,
    lemma_pairs_get_some, pairs_from, pairs_get, pairs_insert, StringMap, TextPairs,
};
use crate::text::{
    contains_text, decimal, decimal_string, has_prefix, join2, join_texts, join_with,
    text_lt, text_starts_with, views,
};

verus! {

// ---------------------------------------------------------------------------
// Specification
// ---------------------------------------------------------------------------

/// `organs` names `n`.
pub open spec fn mentions(organs: Seq<String>, n: Seq<char>) -> bool {
    exists|i: int| 0 <= i < organs.len() && #[trigger] organs[i]@ == n
}

/// A promotion counts as an observation of `n` when it was promoted and
/// lists `n` among its changed organs.
pub open spec fn promotion_observes(p: MutationPromotionRecord, n: Seq<char>) -> bool {
    p.status == PromotionStatus::Promoted && mentions(p.changed_organs@, n)
}

/// `s` without repeats, each text kept where it first occurs.
pub open spec fn dedup(s: Seq<Seq<char>>) -> Seq<Seq<char>>
    decreases s.len(),
{
    if s.len() == 0 {
        Seq::empty()
    } else {
        let d = dedup(s.drop_last());
        if occurs(d, s.last()) {
            d
        } else {
            d.push(s.last())
        }
    }
}

/// Promotion ids of the promotions that observe `n`, in journal order.
pub open spec fn observing_promotion_ids(ps: Seq<MutationPromotionRecord>, n: Seq<char>) -> Seq<Seq<char>>
    decreases ps.len(),
{
    if ps.len() == 0 {
        Seq::empty()
    } else {
        let r = observing_promotion_ids(ps.drop_last(), n);
        if promotion_observes(ps.last(), n) {
            r.push(ps.last().promotion_id@)
        } else {
            r
        }
    }
}

/// Mutation ids of the promotions that observe `n`, in journal order.
pub open spec fn observing_promotion_mutations(ps: Seq<MutationPromotionRecord>, n: Seq<char>) -> Seq<Seq<char>>
    decreases ps.len(),
{
    if ps.len() == 0 {
        Seq::empty()
    } else {
        let r = observing_promotion_mutations(ps.drop_last(), n);
        if promotion_observes(ps.last(), n) {
            r.push(ps.last().mutation_id@)
        } else {
            r
        }
    }
}

/// Generation ids of the lineage records that list `n`, in journal order.
pub open spec fn observing_generation_ids(gs: Seq<GenerationRecord>, n: Seq<char>) -> Seq<Seq<char>>
    decreases gs.len(),
{
    if gs.len() == 0 {
        Seq::empty()
    } else {
        let r = observing_generation_ids(gs.drop_last(), n);
        if mentions(gs.last().changed_organs@, n) {
            r.push(gs.last().generation@)
        } else {
            r
        }
    }
}

/// Mutation ids of the lineage records that list `n`, in journal order.
pub open spec fn observing_generation_mutations(gs: Seq<GenerationRecord>, n: Seq<char>) -> Seq<Seq<char>>
    decreases gs.len(),
{
    if gs.len() == 0 {
        Seq::empty()
    } else {
        let r = observing_generation_mutations(gs.drop_last(), n);
        if mentions(gs.last().changed_organs@, n) {
            r.push(gs.last().mutation_id@)
        } else {
            r
        }
    }
}

/// `n` is a changed organ of some promoted mutation or lineage record.
pub open spec fn observed_organ(ps: Seq<MutationPromotionRecord>, gs: Seq<GenerationRecord>, n: Seq<char>) -> bool {
    (exists|i: int| 0 <= i < ps.len() && #[trigger] promotion_observes(ps[i], n)) || (exists|i: int|
        0 <= i < gs.len() && #[trigger] mentions(gs[i].changed_organs@, n))
}

/// The observation lists of an organ.
pub struct ObservationView {
    pub promotion_ids: Seq<Seq<char>>,
    pub generation_ids: Seq<Seq<char>>,
    pub mutation_ids: Seq<Seq<char>>,
}

pub open spec fn observation_of(
    ps: Seq<MutationPromotionRecord>,
    gs: Seq<GenerationRecord>,
    n: Seq<char>,
) -> ObservationView {
    ObservationView {
        promotion_ids: dedup(observing_promotion_ids(ps, n)),
        generation_ids: dedup(observing_generation_ids(gs, n)),
        mutation_ids: dedup(observing_promotion_mutations(ps, n) + observing_generation_mutations(gs, n)),
    }
}

/// Each text of `s` with `prefix` in front.
pub open spec fn prefixed(prefix: Seq<char>, s: Seq<Seq<char>>) -> Seq<Seq<char>> {
    s.map_values(|x: Seq<char>| prefix + x)
}

/// The evidence table entries of a suggestion, in the order gathered.
pub open spec fn suggestion_evidence(o: ObservationView) -> TextPairs {
    (if o.promotion_ids.len() > 0 {
        seq![("promotion_ids"@, join_with(o.promotion_ids, ","@))]
    } else {
        Seq::empty()
    }) + (if o.generation_ids.len() > 0 {
        seq![("generation_ids"@, join_with(o.generation_ids, ","@))]
    } else {
        Seq::empty()
    }) + (if o.mutation_ids.len() > 0 {
        seq![("mutation_ids"@, join_with(o.mutation_ids, ","@))]
    } else {
        Seq::empty()
    })
}

pub open spec fn suggestion_reason() -> Seq<char> {
    "changed_organs mentions this organ, but the registry has no matching name"@
}

/// `s` is the registry suggestion for the organ `n` with observation `o`.
pub open spec fn suggestion_is(s: OrganRegistrySuggestion, n: Seq<char>, o: ObservationView) -> bool {
    &&& s.name@ == n
    &&& s.reason@ == suggestion_reason()
    &&& views(s.observed_in@) == prefixed("promotion:"@, o.promotion_ids) + prefixed(
        "generation:"@,
        o.generation_ids,
    )
    &&& s.evidence@ == pairs_from(suggestion_evidence(o))
}

/// A registry suggestion holds under `promotion_ids`, `generation_ids` and
/// `mutation_ids` the comma-joined ids of each kind that was observed, and
/// no value under any other key or for a kind with no ids.
pub proof fn lemma_suggestion_evidence_keys(
    s: OrganRegistrySuggestion,
    n: Seq<char>,
    o: ObservationView,
    q: Seq<char>,
)
    requires
        suggestion_is(s, n, o),
    ensures
        pairs_get(s.evidence@, q) == if q == "promotion_ids"@ && o.promotion_ids.len() > 0 {
            Some(join_with(o.promotion_ids, ","@))
        } else if q == "generation_ids"@ && o.generation_ids.len() > 0 {
            Some(join_with(o.generation_ids, ","@))
        } else if q == "mutation_ids"@ && o.mutation_ids.len() > 0 {
            Some(join_with(o.mutation_ids, ","@))
        } else {
            None
        },
{
    reveal_strlit("promotion_ids");
    reveal_strlit("generation_ids");
    reveal_strlit("mutation_ids");
    reveal_with_fuel(last_value, 2);
    let a: TextPairs = if o.promotion_ids.len() > 0 {
        seq![("promotion_ids"@, join_with(o.promotion_ids, ","@))]
    } else {
        Seq::empty()
    };
    let b: TextPairs = if o.generation_ids.len() > 0 {
        seq![("generation_ids"@, join_with(o.generation_ids, ","@))]
    } else {
        Seq::empty()
    };
    let c: TextPairs = if o.mutation_ids.len() > 0 {
        seq![("mutation_ids"@, join_with(o.mutation_ids, ","@))]
    } else {
        Seq::empty()
    };
    assert(suggestion_evidence(o) == a + b + c);
    lemma_pairs_from_get(a + b + c, q);
    lemma_last_value_concat(a + b, c, q);
    lemma_last_value_concat(a, b, q);
    assert(a.len() > 0 ==> a.drop_last() =~= Seq::<(Seq<char>, Seq<char>)>::empty());
    assert(b.len() > 0 ==> b.drop_last() =~= Seq::<(Seq<char>, Seq<char>)>::empty());
    assert(c.len() > 0 ==> c.drop_last() =~= Seq::<(Seq<char>, Seq<char>)>::empty());
    assert("promotion_ids"@ != "generation_ids"@ && "promotion_ids"@ != "mutation_ids"@
        && "generation_ids"@ != "mutation_ids"@) by {
        assert("promotion_ids"@.len() == 13 && "generation_ids"@.len() == 14 && "mutation_ids"@.len() == 12);
    }
    assert(last_value(a, q) == if q == "promotion_ids"@ && o.promotion_ids.len() > 0 {
        Some(join_with(o.promotion_ids, ","@))
    } else {
        None
    });
    assert(last_value(b, q) == if q == "generation_ids"@ && o.generation_ids.len() > 0 {
        Some(join_with(o.generation_ids, ","@))
    } else {
        None
    });
    assert(last_value(c, q) == if q == "mutation_ids"@ && o.mutation_ids.len() > 0 {
        Some(join_with(o.mutation_ids, ","@))
    } else {
        None
    });
}

/// The texts of `s` that `reg` does not hold, in order.
pub open spec fn unregistered(s: Seq<Seq<char>>, reg: Seq<Seq<char>>) -> Seq<Seq<char>>
    decreases s.len(),
{
    if s.len() == 0 {
        Seq::empty()
    } else {
        let r = unregistered(s.drop_last(), reg);
        if occurs(reg, s.last()) {
            r
        } else {
            r.push(s.last())
        }
    }
}

/// The candidates are the observed names that the registry does not hold,
/// in the order observed.
pub proof fn lemma_unregistered_filter(s: Seq<Seq<char>>, reg: Seq<Seq<char>>)
    ensures
        unregistered(s, reg) == s.filter(|x: Seq<char>| !occurs(reg, x)),
    decreases s.len(),
{
    reveal(Seq::filter);
    if s.len() > 0 {
        lemma_unregistered_filter(s.drop_last(), reg);
    }
}

pub open spec fn source_status_text(exists: bool, records: nat) -> Seq<char> {
    if exists {
        "loaded:"@ + decimal(records)
    } else {
        "missing:treated-as-empty"@
    }
}

pub open spec fn missing_source_limit(source: Seq<char>) -> Seq<char> {
    source + " source was missing, so absence of candidates is not proof that every changed organ is registered"@
}

/// One limit for each source, in key order, whose status says it was
/// missing.
pub open spec fn limits_of(statuses: TextPairs) -> Seq<Seq<char>>
    decreases statuses.len(),
{
    if statuses.len() == 0 {
        Seq::empty()
    } else {
        let r = limits_of(statuses.drop_last());
        if has_prefix(statuses.last().1, "missing:"@) {
            r.push(missing_source_limit(statuses.last().0))
        } else {
            r
        }
    }
}

/// Appends each string of `items`, with `prefix` in front, to `out`.
fn append_prefixed(out: &mut Vec<String>, prefix: &str, items: &Vec<String>)
    ensures
        views(final(out)@) == views(old(out)@) + prefixed(prefix@, views(items@)),
{
    let ghost start = views(out@);
    let mut i: usize = 0;
    while i < items.len()
        invariant
            i <= items@.len(),
            views(out@) == start + prefixed(prefix@, views(items@)).take(i as int),
        decreases items@.len() - i,
    {
        let ghost before = views(out@);
        out.push(join2(prefix, items[i].as_str()));
        proof {
            let t = prefixed(prefix@, views(items@));
            assert(views(out@) =~= before.push(prefix@ + items@[i as int]@));
            assert(t.take(i + 1) =~= t.take(i as int).push(prefix@ + items@[i as int]@));
        }
        i += 1;
    }
    assert(prefixed(prefix@, views(items@)).take(i as int) =~= prefixed(prefix@, views(items@)));
}

// ---------------------------------------------------------------------------
// Observations
// ---------------------------------------------------------------------------

/// Where an organ was seen changing.
#[derive(Debug)]
pub struct OrganObservation {
    pub promotion_ids: Vec<String>,
    pub generation_ids: Vec<String>,
    pub mutation_ids: Vec<String>,
}

impl OrganObservation {
    pub open spec fn view_of(&self) -> ObservationView {
        ObservationView {
            promotion_ids: views(self.promotion_ids@),
            generation_ids: views(self.generation_ids@),
            mutation_ids: views(self.mutation_ids@),
        }
    }

    /// No observation yet.
    pub fn new() -> (o: Self)
        ensures
            o.view_of() == (ObservationView {
                promotion_ids: Seq::empty(),
                generation_ids: Seq::empty(),
                mutation_ids: Seq::empty(),
            }),
    {
        let o = OrganObservation {
            promotion_ids: Vec::new(),
            generation_ids: Vec::new(),
            mutation_ids: Vec::new(),
        };
        assert(views(o.promotion_ids@) =~= Seq::empty());
        assert(views(o.generation_ids@) =~= Seq::empty());
        assert(views(o.mutation_ids@) =~= Seq::empty());
        o
    }

    /// Records a promotion that changed the organ.
    pub fn observe_promotion(&mut self, record: &MutationPromotionRecord)
        ensures
            final(self).view_of() == (ObservationView {
                promotion_ids: if occurs(views(old(self).promotion_ids@), record.promotion_id@) {
                    views(old(self).promotion_ids@)
                } else {
                    views(old(self).promotion_ids@).push(record.promotion_id@)
                },
                generation_ids: views(old(self).generation_ids@),
                mutation_ids: if occurs(views(old(self).mutation_ids@), record.mutation_id@) {
                    views(old(self).mutation_ids@)
                } else {
                    views(old(self).mutation_ids@).push(record.mutation_id@)
                },
            }),
    {
        push_unique(&mut self.promotion_ids, record.promotion_id.clone());
        push_unique(&mut self.mutation_ids, record.mutation_id.clone());
    }

    /// Records a lineage record that changed the organ.
    pub fn observe_generation(&mut self, record: &GenerationRecord)
        ensures
            final(self).view_of() == (ObservationView {
                promotion_ids: views(old(self).promotion_ids@),
                generation_ids: if occurs(views(old(self).generation_ids@), record.generation@) {
                    views(old(self).generation_ids@)
                } else {
                    views(old(self).generation_ids@).push(record.generation@)
                },
                mutation_ids: if occurs(views(old(self).mutation_ids@), record.mutation_id@) {
                    views(old(self).mutation_ids@)
                } else {
                    views(old(self).mutation_ids@).push(record.mutation_id@)
                },
            }),
    {
        push_unique(&mut self.generation_ids, record.generation.clone());
        push_unique(&mut self.mutation_ids, record.mutation_id.clone());
    }

    /// The registry suggestion for the organ `name`.
    pub fn into_suggestion(self, name: String) -> (s: OrganRegistrySuggestion)
        ensures
            suggestion_is(s, name@, self.view_of()),
    {
        let ghost o = self.view_of();
        let mut observed_in: Vec<String> = Vec::new();
        append_prefixed(&mut observed_in, "promotion:", &self.promotion_ids);
        append_prefixed(&mut observed_in, "generation:", &self.generation_ids);
        assert(views(observed_in@) =~= prefixed("promotion:"@, o.promotion_ids) + prefixed(
            "generation:"@,
            o.generation_ids,
        ));
        let mut evidence = StringMap::new();
        let ghost mut e: TextPairs = Seq::empty();
        proof {
            assert(pairs_from(e) =~= Seq::<(Seq<char>, Seq<char>)>::empty());
            assert(evidence@ == pairs_from(e));
        }
        if self.promotion_ids.len() > 0 {
            evidence.insert("promotion_ids".to_owned(), join_texts(&self.promotion_ids, ","));
            proof {
                let e0 = e;
                e = e.push(("promotion_ids"@, join_with(o.promotion_ids, ","@)));
                assert(e.drop_last() =~= e0);
                assert(evidence@ == pairs_from(e));
            }
        }
        if self.generation_ids.len() > 0 {
            evidence.insert("generation_ids".to_owned(), join_texts(&self.generation_ids, ","));
            proof {
                let e0 = e;
                e = e.push(("generation_ids"@, join_with(o.generation_ids, ","@)));
                assert(e.drop_last() =~= e0);
                assert(evidence@ == pairs_from(e));
            }
        }
        if self.mutation_ids.len() > 0 {
            evidence.insert("mutation_ids".to_owned(), join_texts(&self.mutation_ids, ","));
            proof {
                let e0 = e;
                e = e.push(("mutation_ids"@, join_with(o.mutation_ids, ","@)));
                assert(e.drop_last() =~= e0);
                assert(evidence@ == pairs_from(e));
            }
        }
        assert(e =~= suggestion_evidence(o));
        assert(evidence@ == pairs_from(e));
        let s = OrganRegistrySuggestion {
            name,
            reason: "changed_organs mentions this organ, but the registry has no matching name".to_owned(),
            observed_in,
            evidence,
        };
        assert(s.reason@ == suggestion_reason());
        assert(views(s.observed_in@) == prefixed("promotion:"@, o.promotion_ids) + prefixed(
            "generation:"@,
            o.generation_ids,
        ));
        s
    }
}


// ---------------------------------------------------------------------------
// Source statuses and limits
// ---------------------------------------------------------------------------

/// How a source journal was read: `loaded:N` or `missing:treated-as-empty`.
pub fn source_status(exists: bool, records: usize) -> (r: String)
    ensures
        r@ == source_status_text(exists, records as nat),
{
    if exists {
        let n = decimal_string(records as u64);
        join2("loaded:", n.as_str())
    } else {
        "missing:treated-as-empty".to_owned()
    }
}

/// The limits that follow from missing sources, one per source in key order.
pub fn suggestion_limits(source_statuses: &StringMap) -> (r: Vec<String>)
    ensures
        views(r@) == limits_of(source_statuses@),
{
    let entries = source_statuses.entries();
    let ghost p = source_statuses@;
    let mut r: Vec<String> = Vec::new();
    let mut i: usize = 0;
    while i < entries.len()
        invariant
            i <= entries@.len(),
            crate::strmap::entry_views(entries@) == p,
            views(r@) == limits_of(p.take(i as int)),
        decreases entries@.len() - i,
    {
        let ghost before = views(r@);
        assert(p.take(i + 1).drop_last() =~= p.take(i as int));
        assert(p[i as int] == (entries@[i as int].0@, entries@[i as int].1@));
        if text_starts_with(entries[i].1.as_str(), "missing:") {
            r.push(join2(
                entries[i].0.as_str(),
                " source was missing, so absence of candidates is not proof that every changed organ is registered",
            ));
            assert(views(r@) =~= before.push(missing_source_limit(p[i as int].0)));
        }
        i += 1;
    }
    assert(p.take(i as int) =~= p);
    r
}

/// The statuses of the three sources, keyed by source name.
pub open spec fn source_status_pairs(
    registry: (bool, nat),
    promotions: (bool, nat),
    generations: (bool, nat),
) -> TextPairs {
    pairs_from(
        seq![
            ("registry"@, source_status_text(registry.0, registry.1)),
            ("promotions"@, source_status_text(promotions.0, promotions.1)),
            ("generations"@, source_status_text(generations.0, generations.1)),
        ],
    )
}

// ---------------------------------------------------------------------------
// Observed organs
// ---------------------------------------------------------------------------

/// Adds every string of `names` to the key set of `m`.
fn insert_all(m: &mut StringMap, names: &Vec<String>)
    ensures
        forall|s: Seq<char>|
            #![trigger pairs_get(final(m)@, s)]
            pairs_get(final(m)@, s) is Some <==> (pairs_get(old(m)@, s) is Some || mentions(names@, s)),
{
    let mut i: usize = 0;
    while i < names.len()
        invariant
            i <= names@.len(),
            forall|s: Seq<char>|
                #![trigger pairs_get(m@, s)]
                pairs_get(m@, s) is Some <==> (pairs_get(old(m)@, s) is Some || exists|k: int|
                    0 <= k < i && #[trigger] names@[k]@ == s),
        decreases names@.len() - i,
    {
        let ghost before = m@;
        m.insert(names[i].clone(), String::new());
        proof {
            assert forall|s: Seq<char>|
                #![trigger pairs_get(m@, s)]
                pairs_get(m@, s) is Some <==> (pairs_get(old(m)@, s) is Some || exists|k: int|
                    0 <= k < i + 1 && #[trigger] names@[k]@ == s) by {
                lemma_pairs_get_insert(before, names@[i as int]@, Seq::empty(), s);
                if s == names@[i as int]@ {
                    assert(names@[i as int]@ == s);
                } else if exists|k: int| 0 <= k < i + 1 && #[trigger] names@[k]@ == s {
                    let k = choose|k: int| 0 <= k < i + 1 && #[trigger] names@[k]@ == s;
                    assert(k < i);
                }
            }
        }
        i += 1;
    }
}

/// The organs named as changed by a promoted mutation or a lineage record,
/// each once, in ascending order.
pub fn observed_organ_names(
    promotions: &Vec<MutationPromotionRecord>,
    generations: &Vec<GenerationRecord>,
) -> (r: Vec<String>)
    ensures
        sorted_texts(views(r@)),
        forall|s: Seq<char>| occurs(views(r@), s) <==> observed_organ(promotions@, generations@, s),
{
    let ghost ps = promotions@;
    let ghost gs = generations@;
    let mut m = StringMap::new();
    let mut i: usize = 0;
    while i < promotions.len()
        invariant
            i <= ps.len(),
            ps == promotions@,
            forall|s: Seq<char>|
                #![trigger pairs_get(m@, s)]
                pairs_get(m@, s) is Some <==> exists|k: int| 0 <= k < i && #[trigger] promotion_observes(ps[k], s),
        decreases ps.len() - i,
    {
        let ghost before = m@;
        let promoted = match promotions[i].status {
            PromotionStatus::Promoted => true,
            _ => false,
        };
        if promoted {
            insert_all(&mut m, &promotions[i].changed_organs);
        }
        proof {
            assert forall|s: Seq<char>|
                #![trigger pairs_get(m@, s)]
                pairs_get(m@, s) is Some <==> exists|k: int| 0 <= k < i + 1 && #[trigger] promotion_observes(ps[k], s) by {
                assert(promotion_observes(ps[i as int], s) <==> (promoted && mentions(ps[i as int].changed_organs@, s)));
                if promotion_observes(ps[i as int], s) {
                    assert(pairs_get(m@, s) is Some);
                }
                if exists|k: int| 0 <= k < i + 1 && #[trigger] promotion_observes(ps[k], s) {
                    let k = choose|k: int| 0 <= k < i + 1 && #[trigger] promotion_observes(ps[k], s);
                    if k < i {
                        assert(pairs_get(before, s) is Some);
                    }
                }
                assert(pairs_get(before, s) is Some <==> exists|k: int| 0 <= k < i && #[trigger] promotion_observes(ps[k], s));
            }
        }
        i += 1;
    }
    let mut j: usize = 0;
    while j < generations.len()
        invariant
            j <= gs.len(),
            ps == promotions@,
            gs == generations@,
            forall|s: Seq<char>|
                #![trigger pairs_get(m@, s)]
                pairs_get(m@, s) is Some <==> ((exists|k: int| 0 <= k < ps.len() && #[trigger] promotion_observes(ps[k], s)) || exists|k: int|
                    0 <= k < j && #[trigger] mentions(gs[k].changed_organs@, s)),
        decreases gs.len() - j,
    {
        let ghost before = m@;
        insert_all(&mut m, &generations[j].changed_organs);
        proof {
            assert forall|s: Seq<char>|
                #![trigger pairs_get(m@, s)]
                pairs_get(m@, s) is Some <==> ((exists|k: int| 0 <= k < ps.len() && #[trigger] promotion_observes(ps[k], s)) || exists|k: int|
                    0 <= k < j + 1 && #[trigger] mentions(gs[k].changed_organs@, s)) by {
                if exists|k: int| 0 <= k < j + 1 && #[trigger] mentions(gs[k].changed_organs@, s) {
                    let k = choose|k: int| 0 <= k < j + 1 && #[trigger] mentions(gs[k].changed_organs@, s);
                    if k < j {
                        assert(pairs_get(before, s) is Some);
                    }
                }
                assert(pairs_get(before, s) is Some <==> ((exists|k: int| 0 <= k < ps.len() && #[trigger] promotion_observes(ps[k], s)) || exists|k: int|
                    0 <= k < j && #[trigger] mentions(gs[k].changed_organs@, s)));
            }
        }
        j += 1;
    }
    let r = m.keys();
    let _ = m.entries();
    proof {
        let p = m@;
        assert forall|a: int, b: int| 0 <= a < b < views(r@).len() implies text_lt(
            #[trigger] views(r@)[a],
            #[trigger] views(r@)[b],
        ) by {
            assert(views(r@)[a] == r@[a]@);
            assert(views(r@)[b] == r@[b]@);
        }
        assert forall|s: Seq<char>| occurs(views(r@), s) <==> observed_organ(ps, gs, s) by {
            lemma_pairs_get_some(p, s);
            assert(pairs_get(m@, s) is Some <==> observed_organ(ps, gs, s));
            if occurs(views(r@), s) {
                let a = choose|a: int| 0 <= a < views(r@).len() && #[trigger] views(r@)[a] == s;
                assert(r@[a]@ == p[a].0);
            }
            if pairs_get(p, s) is Some {
                let a2 = choose|a2: int| 0 <= a2 < p.len() && #[trigger] p[a2].0 == s;
                assert(views(r@)[a2] == r@[a2]@);
            }
        }
    }
    r
}

/// Where the organ `name` was seen changing: the promoted mutations first,
/// then the lineage records, each in journal order.
pub fn observe_organ(
    name: &str,
    promotions: &Vec<MutationPromotionRecord>,
    generations: &Vec<GenerationRecord>,
) -> (o: OrganObservation)
    ensures
        o.view_of() == observation_of(promotions@, generations@, name@),
{
    let ghost ps = promotions@;
    let ghost gs = generations@;
    let ghost n = name@;
    let mut o = OrganObservation::new();
    let mut i: usize = 0;
    while i < promotions.len()
        invariant
            i <= ps.len(),
            ps == promotions@,
            n == name@,
            o.view_of() == (ObservationView {
                promotion_ids: dedup(observing_promotion_ids(ps.take(i as int), n)),
                generation_ids: Seq::empty(),
                mutation_ids: dedup(observing_promotion_mutations(ps.take(i as int), n)),
            }),
        decreases ps.len() - i,
    {
        assert(ps.take(i + 1).drop_last() =~= ps.take(i as int));
        let promoted = match promotions[i].status {
            PromotionStatus::Promoted => true,
            _ => false,
        };
        let ghost before = o.view_of();
        let ghost pi = observing_promotion_ids(ps.take(i as int), n);
        let ghost pmu = observing_promotion_mutations(ps.take(i as int), n);
        assert(ps.take(i + 1).last() == ps[i as int]);
        if promoted && contains_text(&promotions[i].changed_organs, name) {
            o.observe_promotion(&promotions[i]);
            assert(promotion_observes(ps[i as int], n));
            assert(pi.push(ps[i as int].promotion_id@).drop_last() =~= pi);
            assert(pmu.push(ps[i as int].mutation_id@).drop_last() =~= pmu);
        } else {
            assert(!promotion_observes(ps[i as int], n));
        }
        i += 1;
    }
    assert(ps.take(i as int) =~= ps);
    let ghost pm = observing_promotion_mutations(ps, n);
    let mut j: usize = 0;
    assert(pm + observing_generation_mutations(gs.take(0), n) =~= pm);
    while j < generations.len()
        invariant
            j <= gs.len(),
            gs == generations@,
            n == name@,
            pm == observing_promotion_mutations(ps, n),
            o.view_of() == (ObservationView {
                promotion_ids: dedup(observing_promotion_ids(ps, n)),
                generation_ids: dedup(observing_generation_ids(gs.take(j as int), n)),
                mutation_ids: dedup(pm + observing_generation_mutations(gs.take(j as int), n)),
            }),
        decreases gs.len() - j,
    {
        assert(gs.take(j + 1).drop_last() =~= gs.take(j as int));
        let ghost gm = observing_generation_mutations(gs.take(j as int), n);
        let ghost gi = observing_generation_ids(gs.take(j as int), n);
        assert(gs.take(j + 1).last() == gs[j as int]);
        if contains_text(&generations[j].changed_organs, name) {
            o.observe_generation(&generations[j]);
            assert(mentions(gs[j as int].changed_organs@, n));
            assert(gi.push(gs[j as int].generation@).drop_last() =~= gi);
            assert((pm + gm.push(gs[j as int].mutation_id@)).drop_last() =~= pm + gm);
            assert(pm + gm.push(gs[j as int].mutation_id@) =~= (pm + gm).push(gs[j as int].mutation_id@));
        } else {
            assert(!mentions(gs[j as int].changed_organs@, n));
        }
        j += 1;
    }
    assert(gs.take(j as int) =~= gs);
    o
}

// ---------------------------------------------------------------------------
// The suggestion report
// ---------------------------------------------------------------------------

/// The registry suggestion report for a registry, the promotion journal and
/// the generation lineage journal, with whether each source file existed.
pub fn suggest_organs(
    registry: &Vec<OrganRecord>,
    promotions: &Vec<MutationPromotionRecord>,
    generations: &Vec<GenerationRecord>,
    sources_exist: (bool, bool, bool),
    registry_source: String,
    promotion_source: String,
    generation_source: String,
    reviewed_at: String,
) -> (out: OrganRegistrySuggestionOutput)
    ensures
        out.schema_version@ == "0.1.0"@,
        out.reviewed_at == reviewed_at,
        out.registry_source == registry_source,
        out.promotion_source == promotion_source,
        out.generation_source == generation_source,
        out.source_statuses@ == source_status_pairs(
            (sources_exist.0, registry@.len()),
            (sources_exist.1, promotions@.len()),
            (sources_exist.2, generations@.len()),
        ),
        views(out.limits@) == limits_of(out.source_statuses@),
        views(out.registered_organs@) == record_names(registry@),
        sorted_texts(views(out.observed_changed_organs@)),
        forall|s: Seq<char>|
            occurs(views(out.observed_changed_organs@), s) <==> observed_organ(promotions@, generations@, s),
        out.candidates@.len() == unregistered(views(out.observed_changed_organs@), record_names(registry@)).len(),
        forall|i: int|
            0 <= i < out.candidates@.len() ==> {
                let n = unregistered(views(out.observed_changed_organs@), record_names(registry@))[i];
                suggestion_is(#[trigger] out.candidates@[i], n, observation_of(promotions@, generations@, n))
            },
{
    let mut source_statuses = StringMap::new();
    let ghost e0: TextPairs = Seq::empty();
    let st_reg = source_status(sources_exist.0, registry.len());
    let st_pro = source_status(sources_exist.1, promotions.len());
    let st_gen = source_status(sources_exist.2, generations.len());
    let ghost e = seq![("registry"@, st_reg@), ("promotions"@, st_pro@), ("generations"@, st_gen@)];
    source_statuses.insert("registry".to_owned(), st_reg);
    source_statuses.insert("promotions".to_owned(), st_pro);
    source_statuses.insert("generations".to_owned(), st_gen);
    proof {
        assert(e.take(1).drop_last() =~= e0);
        assert(e.take(2).drop_last() =~= e.take(1));
        assert(e.drop_last() =~= e.take(2));
        assert(pairs_from(e0) =~= Seq::<(Seq<char>, Seq<char>)>::empty());
        assert(pairs_from(e.take(1)) == pairs_insert(pairs_from(e0), "registry"@, e[0].1));
        assert(pairs_from(e.take(2)) == pairs_insert(pairs_from(e.take(1)), "promotions"@, e[1].1));
    }
    let limits = suggestion_limits(&source_statuses);

    let mut registered_organs: Vec<String> = Vec::new();
    let mut i: usize = 0;
    while i < registry.len()
        invariant
            i <= registry@.len(),
            views(registered_organs@) == record_names(registry@).take(i as int),
        decreases registry@.len() - i,
    {
        let ghost before = views(registered_organs@);
        registered_organs.push(registry[i].name.clone());
        assert(views(registered_organs@) =~= before.push(registry@[i as int].name@));
        assert(record_names(registry@).take(i + 1) =~= record_names(registry@).take(i as int).push(
            registry@[i as int].name@,
        ));
        i += 1;
    }
    assert(record_names(registry@).take(i as int) =~= record_names(registry@));
    let ghost reg = record_names(registry@);

    let observed = observed_organ_names(promotions, generations);
    let ghost obs = views(observed@);
    let mut candidates: Vec<OrganRegistrySuggestion> = Vec::new();
    let mut k: usize = 0;
    while k < observed.len()
        invariant
            k <= observed@.len(),
            obs == views(observed@),
            reg == record_names(registry@),
            views(registered_organs@) == reg,
            candidates@.len() == unregistered(obs.take(k as int), reg).len(),
            forall|t: int|
                0 <= t < candidates@.len() ==> {
                    let n = unregistered(obs.take(k as int), reg)[t];
                    suggestion_is(#[trigger] candidates@[t], n, observation_of(promotions@, generations@, n))
                },
        decreases observed@.len() - k,
    {
        let ghost u = unregistered(obs.take(k as int), reg);
        assert(obs.take(k + 1).drop_last() =~= obs.take(k as int));
        assert(obs.take(k + 1).last() == observed@[k as int]@);
        let known = contains_text(&registered_organs, observed[k].as_str());
        proof {
            assert(known <==> occurs(reg, observed@[k as int]@)) by {
                if known {
                    let t = choose|t: int| 0 <= t < registered_organs@.len() && #[trigger] registered_organs@[t]@ == observed@[k as int]@;
                    assert(reg[t] == registered_organs@[t]@);
                }
                if occurs(reg, observed@[k as int]@) {
                    let t = choose|t: int| 0 <= t < reg.len() && #[trigger] reg[t] == observed@[k as int]@;
                    assert(reg[t] == registered_organs@[t]@);
                }
            }
        }
        if !known {
            let o = observe_organ(observed[k].as_str(), promotions, generations);
            let c = o.into_suggestion(observed[k].clone());
            candidates.push(c);
            proof {
                assert(unregistered(obs.take(k + 1), reg) == u.push(observed@[k as int]@));
                assert forall|t: int|
                    0 <= t < candidates@.len() implies {
                        let n = unregistered(obs.take(k + 1), reg)[t];
                        suggestion_is(#[trigger] candidates@[t], n, observation_of(promotions@, generations@, n))
                    } by {
                    if t < u.len() {
                        assert(unregistered(obs.take(k + 1), reg)[t] == u[t]);
                    }
                }
            }
        }
        k += 1;
    }
    assert(obs.take(k as int) =~= obs);

    OrganRegistrySuggestionOutput {
        schema_version: "0.1.0".to_owned(),
        reviewed_at,
        registry_source,
        promotion_source,
        generation_source,
        source_statuses,
        registered_organs,
        observed_changed_organs: observed,
        candidates,
        limits,
    }
}

} // verus!
