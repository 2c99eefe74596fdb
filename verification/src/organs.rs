//! The organ registry: validating new registry records, and the read-only
//! decay review of a registry.
use vstd::prelude::*;

use crate::records::{
    DecayStatus, OrganRecord, OrganReviewFinding, OrganReviewOutput, OrganReviewStatus, OrganType,
};
use crate::strmap::{lemma_pairs_get_some, pairs_from, pairs_get, pairs_sorted, StringMap, TextPairs};
use crate::text::{
    compare_text, decimal, decimal_string, is_blank, join3, text_is_blank, text_lt, views,
    TextOrder,
};

verus! {

// ---------------------------------------------------------------------------
// Text lists
// ---------------------------------------------------------------------------

/// `s` occurs in `v`.
pub open spec fn occurs(v: Seq<Seq<char>>, s: Seq<char>) -> bool {
    exists|i: int| 0 <= i < v.len() && #[trigger] v[i] == s
}

/// `s` occurs at two different places in `v`.
pub open spec fn occurs_twice(v: Seq<Seq<char>>, s: Seq<char>) -> bool {
    exists|i: int, j: int| 0 <= i < v.len() && 0 <= j < v.len() && i != j && #[trigger] v[i] == s && #[trigger] v[j] == s
}

/// The texts strictly increase.
pub open spec fn sorted_texts(v: Seq<Seq<char>>) -> bool {
    forall|i: int, j: int| 0 <= i < j < v.len() ==> text_lt(#[trigger] v[i], #[trigger] v[j])
}

/// Appends `value` unless an equal string is already present.
pub fn push_unique(values: &mut Vec<String>, value: String)
    ensures
        views(final(values)@) == if occurs(views(old(values)@), value@) {
            views(old(values)@)
        } else {
            views(old(values)@).push(value@)
        },
{
    let mut i: usize = 0;
    while i < values.len()
        invariant
            i <= values@.len(),
            forall|j: int| 0 <= j < i ==> #[trigger] values@[j]@ != value@,
        decreases values@.len() - i,
    {
        if let TextOrder::Equal = compare_text(values[i].as_str(), value.as_str()) {
            assert(views(values@)[i as int] == value@);
            return ;
        }
        i += 1;
    }
    assert(!occurs(views(values@), value@)) by {
        if occurs(views(values@), value@) {
            let k = choose|k: int| 0 <= k < views(values@).len() && #[trigger] views(values@)[k] == value@;
            assert(values@[k]@ == value@);
        }
    }
    values.push(value);
    assert(views(values@) =~= views(old(values)@).push(value@));
}

/// Whether the string at `i` also occurs at another index.
fn occurs_elsewhere(values: &Vec<String>, i: usize) -> (r: bool)
    requires
        i < values@.len(),
    ensures
        r == exists|j: int| 0 <= j < values@.len() && j != i && #[trigger] values@[j]@ == values@[i as int]@,
{
    let mut j: usize = 0;
    while j < values.len()
        invariant
            i < values@.len(),
            j <= values@.len(),
            forall|k: int| 0 <= k < j && k != i ==> #[trigger] values@[k]@ != values@[i as int]@,
        decreases values@.len() - j,
    {
        if j != i {
            if let TextOrder::Equal = compare_text(values[j].as_str(), values[i].as_str()) {
                return true;
            }
        }
        j += 1;
    }
    false
}

/// The distinct values that occur more than once, in ascending order.
pub fn duplicate_values(values: &Vec<String>) -> (r: Vec<String>)
    ensures
        sorted_texts(views(r@)),
        forall|s: Seq<char>| occurs(views(r@), s) <==> occurs_twice(views(values@), s),
{
    let mut m = StringMap::new();
    let ghost v = views(values@);
    let mut i: usize = 0;
    while i < values.len()
        invariant
            i <= values@.len(),
            v == views(values@),
            forall|s: Seq<char>|
                #![trigger pairs_get(m@, s)]
                pairs_get(m@, s) is Some <==> (occurs_twice(v, s) && exists|k: int|
                    0 <= k < i && #[trigger] v[k] == s),
        decreases values@.len() - i,
    {
        let dup = occurs_elsewhere(values, i);
        let ghost before = m@;
        if dup {
            m.insert(values[i].clone(), String::new());
        }
        proof {
            let x = v[i as int];
            if !dup {
                assert(!occurs_twice(v, x)) by {
                    if occurs_twice(v, x) {
                        let (a, b) = choose|a: int, b: int|
                            0 <= a < v.len() && 0 <= b < v.len() && a != b && #[trigger] v[a] == x
                                && #[trigger] v[b] == x;
                        if a != i {
                            assert(values@[a]@ == values@[i as int]@);
                        } else {
                            assert(values@[b]@ == values@[i as int]@);
                        }
                    }
                }
            } else {
                let j = choose|j: int| 0 <= j < values@.len() && j != i && #[trigger] values@[j]@
                    == values@[i as int]@;
                assert(v[j] == x && v[i as int] == x);
                assert(occurs_twice(v, x));
            }
            assert forall|s: Seq<char>|
                #![trigger pairs_get(m@, s)]
                pairs_get(m@, s) is Some <==> (occurs_twice(v, s) && exists|k: int|
                    0 <= k < i + 1 && #[trigger] v[k] == s) by {
                if dup {
                    crate::strmap::lemma_pairs_get_insert(before, values@[i as int]@, Seq::empty(), s);
                    assert(pairs_get(m@, s) == if s == x { Some(Seq::<char>::empty()) } else { pairs_get(before, s) });
                } else {
                    assert(m@ == before);
                }
                assert(pairs_get(before, s) is Some <==> (occurs_twice(v, s) && exists|k: int|
                    0 <= k < i && #[trigger] v[k] == s));
                if s == x {
                    assert(v[i as int] == s);
                } else {
                    if exists|k: int| 0 <= k < i + 1 && #[trigger] v[k] == s {
                        let k = choose|k: int| 0 <= k < i + 1 && #[trigger] v[k] == s;
                        assert(k < i);
                    }
                }
            }
        }
        i += 1;
    }
    let r = m.keys();
    let _ = m.entries();
    proof {
        let p = m@;
        assert forall|a: int, b: int| 0 <= a < b < views(r@).len() implies text_lt(
            #[trigger] views(r@)[a],
            #[trigger] views(r@)[b],
        ) by {
            assert(views(r@)[a] == r@[a]@);
            assert(views(r@)[b] == r@[b]@);
        }
        assert forall|s: Seq<char>| occurs(views(r@), s) <==> occurs_twice(v, s) by {
            lemma_pairs_get_some(p, s);
            if occurs(views(r@), s) {
                let a = choose|a: int| 0 <= a < views(r@).len() && #[trigger] views(r@)[a] == s;
                assert(r@[a]@ == p[a].0);
            }
            if occurs_twice(v, s) {
                let (a, b) = choose|a: int, b: int|
                    0 <= a < v.len() && 0 <= b < v.len() && a != b && #[trigger] v[a] == s && #[trigger] v[b] == s;
                assert(exists|k: int| 0 <= k < values@.len() && #[trigger] v[k] == s);
                let a2 = choose|a2: int| 0 <= a2 < p.len() && #[trigger] p[a2].0 == s;
                assert(views(r@)[a2] == r@[a2]@);
            }
        }
    }
    r
}


// ---------------------------------------------------------------------------
// Registry records
// ---------------------------------------------------------------------------

pub open spec fn must_not_be_empty_message(field: Seq<char>) -> Seq<char> {
    "organ "@ + field + " must not be empty"@
}

/// Rejects a blank required field.
pub fn require_non_empty(field: &str, value: &str) -> (r: Result<(), String>)
    ensures
        r is Ok <==> !is_blank(value@),
        r matches Err(e) ==> e@ == must_not_be_empty_message(field@),
{
    if text_is_blank(value) {
        Err(join3("organ ", field, " must not be empty"))
    } else {
        Ok(())
    }
}

/// A new registry record; name, source and purpose must not be blank, and
/// the first blank one among them is reported.
pub fn add_organ(
    name: String,
    organ_type: OrganType,
    source: String,
    purpose: String,
    created_by: Option<String>,
    usage_count: Option<u64>,
    failure_count: Option<u64>,
    related_goals: Vec<String>,
    decay_status: Option<DecayStatus>,
) -> (r: Result<OrganRecord, String>)
    ensures
        r is Ok <==> (!is_blank(name@) && !is_blank(source@) && !is_blank(purpose@)),
        r matches Err(e) ==> e@ == must_not_be_empty_message(
            if is_blank(name@) {
                "name"@
            } else if is_blank(source@) {
                "source"@
            } else {
                "purpose"@
            },
        ),
        r matches Ok(o) ==> {
            &&& o.name == name
            &&& o.organ_type == organ_type
            &&& o.source == source
            &&& o.purpose == purpose
            &&& o.created_by == created_by
            &&& o.usage_count == usage_count
            &&& o.failure_count == failure_count
            &&& o.related_goals == related_goals
            &&& o.decay_status == decay_status
        },
{
    require_non_empty("name", name.as_str())?;
    require_non_empty("source", source.as_str())?;
    require_non_empty("purpose", purpose.as_str())?;
    Ok(
        OrganRecord {
            name,
            organ_type,
            source,
            purpose,
            created_by,
            usage_count,
            failure_count,
            related_goals,
            decay_status,
        },
    )
}

// ---------------------------------------------------------------------------
// Decay review
// ---------------------------------------------------------------------------

pub open spec fn review_status_of(s: DecayStatus) -> OrganReviewStatus {
    match s {
        DecayStatus::Active => OrganReviewStatus::Active,
        DecayStatus::Candidate => OrganReviewStatus::Candidate,
        DecayStatus::Stale => OrganReviewStatus::Stale,
        DecayStatus::Duplicate => OrganReviewStatus::Duplicate,
        DecayStatus::Failed => OrganReviewStatus::Failed,
    }
}

/// The review status that an explicit decay status stands for.
pub fn organ_review_status(s: DecayStatus) -> (r: OrganReviewStatus)
    ensures
        r == review_status_of(s),
{
    match s {
        DecayStatus::Active => OrganReviewStatus::Active,
        DecayStatus::Candidate => OrganReviewStatus::Candidate,
        DecayStatus::Stale => OrganReviewStatus::Stale,
        DecayStatus::Duplicate => OrganReviewStatus::Duplicate,
        DecayStatus::Failed => OrganReviewStatus::Failed,
    }
}

/// The debug rendering of a decay status, as recorded in review evidence.
pub open spec fn decay_debug_name(s: DecayStatus) -> Seq<char> {
    match s {
        DecayStatus::Active => "Active"@,
        DecayStatus::Candidate => "Candidate"@,
        DecayStatus::Stale => "Stale"@,
        DecayStatus::Duplicate => "Duplicate"@,
        DecayStatus::Failed => "Failed"@,
    }
}

fn decay_debug_text(s: DecayStatus) -> (r: String)
    ensures
        r@ == decay_debug_name(s),
{
    match s {
        DecayStatus::Active => "Active".to_owned(),
        DecayStatus::Candidate => "Candidate".to_owned(),
        DecayStatus::Stale => "Stale".to_owned(),
        DecayStatus::Duplicate => "Duplicate".to_owned(),
        DecayStatus::Failed => "Failed".to_owned(),
    }
}

/// The review evidence of a record, in the order it is gathered.
pub open spec fn review_evidence(r: OrganRecord) -> TextPairs {
    seq![("source"@, r.source@)] + (match r.usage_count {
        Some(u) => seq![("usage_count"@, decimal(u as nat))],
        None => Seq::empty(),
    }) + (match r.failure_count {
        Some(f) => seq![("failure_count"@, decimal(f as nat))],
        None => Seq::empty(),
    }) + seq![("related_goals_count"@, decimal(r.related_goals@.len()))] + (match r.decay_status {
        Some(d) => seq![("declared_decay_status"@, decay_debug_name(d))],
        None => Seq::empty(),
    })
}

/// The review rules, in priority order, given whether the record's name and
/// its source occur more than once in the registry.
pub open spec fn review_rules(r: OrganRecord, name_dup: bool, source_dup: bool) -> (
    OrganReviewStatus,
    Seq<char>,
) {
    if name_dup {
        (OrganReviewStatus::Duplicate, "duplicate organ name"@)
    } else if source_dup {
        (OrganReviewStatus::Duplicate, "duplicate organ source"@)
    } else if r.failure_count matches Some(c) && c > 0 {
        (OrganReviewStatus::Failed, "failure_count is greater than zero"@)
    } else if r.decay_status is Some {
        (review_status_of(r.decay_status->0), "explicit decay_status"@)
    } else if r.usage_count == Some(0u64) {
        (OrganReviewStatus::Stale, "usage_count is zero"@)
    } else if r.related_goals@.len() == 0 {
        (OrganReviewStatus::Candidate, "no related goals recorded"@)
    } else {
        (OrganReviewStatus::Unknown, "insufficient review evidence"@)
    }
}

/// The review rules given the lists of duplicated names and sources.
pub open spec fn review_verdict(r: OrganRecord, dup_names: Seq<Seq<char>>, dup_sources: Seq<Seq<char>>) -> (
    OrganReviewStatus,
    Seq<char>,
) {
    review_rules(r, occurs(dup_names, r.name@), occurs(dup_sources, r.source@))
}

pub open spec fn record_names(rs: Seq<OrganRecord>) -> Seq<Seq<char>> {
    rs.map_values(|r: OrganRecord| r.name@)
}

pub open spec fn record_sources(rs: Seq<OrganRecord>) -> Seq<Seq<char>> {
    rs.map_values(|r: OrganRecord| r.source@)
}

/// The review rules for a record of the registry `all`.
pub open spec fn registry_verdict(all: Seq<OrganRecord>, r: OrganRecord) -> (OrganReviewStatus, Seq<char>) {
    review_rules(
        r,
        occurs_twice(record_names(all), r.name@),
        occurs_twice(record_sources(all), r.source@),
    )
}

/// Two records of a registry that share a name, or a source, are both
/// reviewed as duplicates: for a shared name with the reason "duplicate
/// organ name", otherwise with "duplicate organ source".
pub proof fn lemma_shared_name_or_source_is_duplicate(all: Seq<OrganRecord>, i: int, j: int)
    requires
        0 <= i < all.len(),
        0 <= j < all.len(),
        i != j,
        all[i].name@ == all[j].name@ || all[i].source@ == all[j].source@,
    ensures
        registry_verdict(all, all[i]).0 == OrganReviewStatus::Duplicate,
        registry_verdict(all, all[j]).0 == OrganReviewStatus::Duplicate,
        all[i].name@ == all[j].name@ ==> registry_verdict(all, all[i]).1 == "duplicate organ name"@,
        all[i].name@ != all[j].name@ && !occurs_twice(record_names(all), all[i].name@) ==> registry_verdict(
            all,
            all[i],
        ).1 == "duplicate organ source"@,
{
    let ns = record_names(all);
    let ss = record_sources(all);
    assert(ns[i] == all[i].name@ && ns[j] == all[j].name@);
    assert(ss[i] == all[i].source@ && ss[j] == all[j].source@);
    if all[i].name@ == all[j].name@ {
        assert(occurs_twice(ns, all[i].name@));
        assert(occurs_twice(ns, all[j].name@));
    } else {
        assert(occurs_twice(ss, all[i].source@));
        assert(occurs_twice(ss, all[j].source@));
    }
}

/// A record whose name and source no other record of the registry shares
/// is reviewed as a duplicate only when its declared decay status says so.
pub proof fn lemma_unique_record_not_duplicate(all: Seq<OrganRecord>, i: int)
    requires
        0 <= i < all.len(),
        forall|j: int| 0 <= j < all.len() && j != i ==> (#[trigger] all[j]).name@ != all[i].name@ && all[j].source@
            != all[i].source@,
    ensures
        registry_verdict(all, all[i]).0 == OrganReviewStatus::Duplicate ==> all[i].decay_status == Some(
            DecayStatus::Duplicate,
        ),
{
    let ns = record_names(all);
    let ss = record_sources(all);
    if occurs_twice(ns, all[i].name@) {
        let (a, b) = choose|a: int, b: int|
            0 <= a < ns.len() && 0 <= b < ns.len() && a != b && #[trigger] ns[a] == all[i].name@ && #[trigger] ns[b]
                == all[i].name@;
        let k = if a != i { a } else { b };
        assert(all[k].name@ == ns[k]);
    }
    if occurs_twice(ss, all[i].source@) {
        let (a, b) = choose|a: int, b: int|
            0 <= a < ss.len() && 0 <= b < ss.len() && a != b && #[trigger] ss[a] == all[i].source@ && #[trigger] ss[b]
                == all[i].source@;
        let k = if a != i { a } else { b };
        assert(all[k].source@ == ss[k]);
    }
}

/// The names, in registry order, of the first `n` records of `all` that the
/// review puts under `st`.
pub open spec fn group_names(all: Seq<OrganRecord>, n: nat, st: OrganReviewStatus) -> Seq<Seq<char>>
    decreases n,
{
    if n == 0 {
        Seq::empty()
    } else {
        let g = group_names(all, (n - 1) as nat, st);
        if registry_verdict(all, all[n - 1]).0 == st {
            g.push(all[n - 1].name@)
        } else {
            g
        }
    }
}

/// Each review group lists, in registry order, the names of exactly the
/// records that the review puts under its status.
pub proof fn lemma_group_names_filter(all: Seq<OrganRecord>, n: nat, st: OrganReviewStatus)
    requires
        n <= all.len(),
    ensures
        group_names(all, n, st) == all.take(n as int).filter(|r: OrganRecord| registry_verdict(all, r).0 == st).map_values(
            |r: OrganRecord| r.name@,
        ),
    decreases n,
{
    reveal(Seq::filter);
    let p = |r: OrganRecord| registry_verdict(all, r).0 == st;
    let f = |r: OrganRecord| r.name@;
    if n > 0 {
        lemma_group_names_filter(all, (n - 1) as nat, st);
        let t = all.take(n as int);
        assert(t.drop_last() =~= all.take(n - 1));
        assert(t.last() == all[n - 1]);
        let sub = t.drop_last().filter(p);
        if p(t.last()) {
            assert(sub.push(t.last()).map_values(f) =~= sub.map_values(f).push(f(t.last())));
        }
    } else {
        assert(all.take(0) =~= Seq::<OrganRecord>::empty());
    }
}

/// A finding about `record`.
pub fn review_finding(record: &OrganRecord, status: OrganReviewStatus, reason: &str, evidence: StringMap) -> (f:
    OrganReviewFinding)
    ensures
        f.name == record.name,
        f.status == status,
        f.reason@ == reason@,
        f.evidence@ == evidence@,
{
    OrganReviewFinding { name: record.name.clone(), status, reason: reason.to_owned(), evidence }
}

fn review_evidence_map(record: &OrganRecord) -> (m: StringMap)
    ensures
        m@ == pairs_from(review_evidence(*record)),
{
    let ghost mut e: TextPairs = Seq::empty();
    let mut m = StringMap::new();
    m.insert("source".to_owned(), record.source.clone());
    proof {
        e = e.push(("source"@, record.source@));
        assert(e.drop_last() =~= Seq::<(Seq<char>, Seq<char>)>::empty());
        assert(pairs_from(e.drop_last()) =~= Seq::<(Seq<char>, Seq<char>)>::empty());
        assert(m@ == pairs_from(e));
    }
    if let Some(u) = record.usage_count {
        m.insert("usage_count".to_owned(), decimal_string(u));
        proof {
            let e0 = e;
            e = e.push(("usage_count"@, decimal(u as nat)));
            assert(e.drop_last() =~= e0);
            assert(m@ == pairs_from(e));
        }
    }
    if let Some(f) = record.failure_count {
        m.insert("failure_count".to_owned(), decimal_string(f));
        proof {
            let e0 = e;
            e = e.push(("failure_count"@, decimal(f as nat)));
            assert(e.drop_last() =~= e0);
            assert(m@ == pairs_from(e));
        }
    }
    let goals = record.related_goals.len() as u64;
    m.insert("related_goals_count".to_owned(), decimal_string(goals));
    proof {
        let e0 = e;
        e = e.push(("related_goals_count"@, decimal(record.related_goals@.len())));
        assert(e.drop_last() =~= e0);
        assert(goals as nat == record.related_goals@.len());
        assert(m@ == pairs_from(e));
    }
    if let Some(d) = record.decay_status {
        m.insert("declared_decay_status".to_owned(), decay_debug_text(d));
        proof {
            let e0 = e;
            e = e.push(("declared_decay_status"@, decay_debug_name(d)));
            assert(e.drop_last() =~= e0);
            assert(m@ == pairs_from(e));
        }
    }
    assert(e =~= review_evidence(*record));
    m
}

/// Reviews one record against the registry's duplicate names and sources.
pub fn review_organ_record(
    record: &OrganRecord,
    duplicate_names: &Vec<String>,
    duplicate_sources: &Vec<String>,
) -> (f: OrganReviewFinding)
    ensures
        f.name == record.name,
        (f.status, f.reason@) == review_verdict(
            *record,
            views(duplicate_names@),
            views(duplicate_sources@),
        ),
        f.evidence@ == pairs_from(review_evidence(*record)),
{
    let evidence = review_evidence_map(record);
    let ghost dn = views(duplicate_names@);
    let ghost ds = views(duplicate_sources@);
    if crate::text::contains_text(duplicate_names, record.name.as_str()) {
        proof {
            let i = choose|i: int| 0 <= i < duplicate_names@.len() && #[trigger] duplicate_names@[i]@ == record.name@;
            assert(dn[i] == record.name@);
        }
        return review_finding(record, OrganReviewStatus::Duplicate, "duplicate organ name", evidence);
    }
    assert(!occurs(dn, record.name@)) by {
        if occurs(dn, record.name@) {
            let i = choose|i: int| 0 <= i < dn.len() && #[trigger] dn[i] == record.name@;
            assert(duplicate_names@[i]@ == record.name@);
        }
    }
    if crate::text::contains_text(duplicate_sources, record.source.as_str()) {
        proof {
            let i = choose|i: int| 0 <= i < duplicate_sources@.len() && #[trigger] duplicate_sources@[i]@ == record.source@;
            assert(ds[i] == record.source@);
        }
        return review_finding(record, OrganReviewStatus::Duplicate, "duplicate organ source", evidence);
    }
    assert(!occurs(ds, record.source@)) by {
        if occurs(ds, record.source@) {
            let i = choose|i: int| 0 <= i < ds.len() && #[trigger] ds[i] == record.source@;
            assert(duplicate_sources@[i]@ == record.source@);
        }
    }
    if let Some(count) = record.failure_count {
        if count > 0 {
            return review_finding(
                record,
                OrganReviewStatus::Failed,
                "failure_count is greater than zero",
                evidence,
            );
        }
    }
    if let Some(status) = record.decay_status {
        return review_finding(record, organ_review_status(status), "explicit decay_status", evidence);
    }
    if let Some(0) = record.usage_count {
        return review_finding(record, OrganReviewStatus::Stale, "usage_count is zero", evidence);
    }
    if record.related_goals.len() == 0 {
        return review_finding(
            record,
            OrganReviewStatus::Candidate,
            "no related goals recorded",
            evidence,
        );
    }
    review_finding(record, OrganReviewStatus::Unknown, "insufficient review evidence", evidence)
}


/// The review of a registry, read from `source` at `reviewed_at`: one
/// finding per record, and the record names grouped by review status.
pub fn review_organs(records: &Vec<OrganRecord>, source: String, reviewed_at: String) -> (out:
    OrganReviewOutput)
    ensures
        out.schema_version@ == "0.1.0"@,
        out.reviewed_at == reviewed_at,
        out.source == source,
        out.total_organs == records@.len(),
        out.findings@.len() == records@.len(),
        forall|i: int|
            0 <= i < records@.len() ==> {
                &&& (#[trigger] out.findings@[i]).name == records@[i].name
                &&& (out.findings@[i].status, out.findings@[i].reason@) == registry_verdict(
                    records@,
                    records@[i],
                )
                &&& out.findings@[i].evidence@ == pairs_from(review_evidence(records@[i]))
            },
        views(out.active@) == group_names(records@, records@.len(), OrganReviewStatus::Active),
        views(out.candidates@) == group_names(records@, records@.len(), OrganReviewStatus::Candidate),
        views(out.stale@) == group_names(records@, records@.len(), OrganReviewStatus::Stale),
        views(out.duplicate@) == group_names(records@, records@.len(), OrganReviewStatus::Duplicate),
        views(out.failed@) == group_names(records@, records@.len(), OrganReviewStatus::Failed),
        views(out.unknown@) == group_names(records@, records@.len(), OrganReviewStatus::Unknown),
{
    let mut names: Vec<String> = Vec::new();
    let mut sources: Vec<String> = Vec::new();
    let mut k: usize = 0;
    while k < records.len()
        invariant
            k <= records@.len(),
            names@.len() == k,
            sources@.len() == k,
            views(names@) == record_names(records@).take(k as int),
            views(sources@) == record_sources(records@).take(k as int),
        decreases records@.len() - k,
    {
        names.push(records[k].name.clone());
        sources.push(records[k].source.clone());
        assert(views(names@) =~= record_names(records@).take(k + 1));
        assert(views(sources@) =~= record_sources(records@).take(k + 1));
        k += 1;
    }
    assert(record_names(records@).take(k as int) =~= record_names(records@));
    assert(record_sources(records@).take(k as int) =~= record_sources(records@));
    let duplicate_names = duplicate_values(&names);
    let duplicate_sources = duplicate_values(&sources);
    let mut active: Vec<String> = Vec::new();
    let mut candidates: Vec<String> = Vec::new();
    let mut stale: Vec<String> = Vec::new();
    let mut duplicate: Vec<String> = Vec::new();
    let mut failed: Vec<String> = Vec::new();
    let mut unknown: Vec<String> = Vec::new();
    let mut findings: Vec<OrganReviewFinding> = Vec::new();
    let ghost all = records@;
    let mut i: usize = 0;
    while i < records.len()
        invariant
            i <= records@.len(),
            all == records@,
            forall|s: Seq<char>|
                #![trigger occurs(views(duplicate_names@), s)]
                occurs(views(duplicate_names@), s) <==> occurs_twice(record_names(all), s),
            forall|s: Seq<char>|
                #![trigger occurs(views(duplicate_sources@), s)]
                occurs(views(duplicate_sources@), s) <==> occurs_twice(record_sources(all), s),
            findings@.len() == i,
            forall|j: int|
                0 <= j < i ==> {
                    &&& (#[trigger] findings@[j]).name == records@[j].name
                    &&& (findings@[j].status, findings@[j].reason@) == registry_verdict(all, all[j])
                    &&& findings@[j].evidence@ == pairs_from(review_evidence(all[j]))
                },
            views(active@) == group_names(all, i as nat, OrganReviewStatus::Active),
            views(candidates@) == group_names(all, i as nat, OrganReviewStatus::Candidate),
            views(stale@) == group_names(all, i as nat, OrganReviewStatus::Stale),
            views(duplicate@) == group_names(all, i as nat, OrganReviewStatus::Duplicate),
            views(failed@) == group_names(all, i as nat, OrganReviewStatus::Failed),
            views(unknown@) == group_names(all, i as nat, OrganReviewStatus::Unknown),
        decreases records@.len() - i,
    {
        let record = &records[i];
        let finding = review_organ_record(record, &duplicate_names, &duplicate_sources);
        proof {
            assert(record_names(all)[i as int] == record.name@);
            assert(record_sources(all)[i as int] == record.source@);
            assert(occurs(views(duplicate_names@), record.name@) == occurs_twice(record_names(all), record.name@));
            assert(occurs(views(duplicate_sources@), record.source@) == occurs_twice(record_sources(all), record.source@));
        }
        let ghost st = finding.status;
        let ghost (a0, c0, s0, d0, f0, u0) = (views(active@), views(candidates@), views(stale@), views(duplicate@), views(failed@), views(unknown@));
        match finding.status {
            OrganReviewStatus::Active => active.push(record.name.clone()),
            OrganReviewStatus::Candidate => candidates.push(record.name.clone()),
            OrganReviewStatus::Stale => stale.push(record.name.clone()),
            OrganReviewStatus::Duplicate => duplicate.push(record.name.clone()),
            OrganReviewStatus::Failed => failed.push(record.name.clone()),
            OrganReviewStatus::Unknown => unknown.push(record.name.clone()),
        }
        proof {
            let n = (i + 1) as nat;
            assert(views(active@) =~= if st == OrganReviewStatus::Active { a0.push(record.name@) } else { a0 });
            assert(views(candidates@) =~= if st == OrganReviewStatus::Candidate { c0.push(record.name@) } else { c0 });
            assert(views(stale@) =~= if st == OrganReviewStatus::Stale { s0.push(record.name@) } else { s0 });
            assert(views(duplicate@) =~= if st == OrganReviewStatus::Duplicate { d0.push(record.name@) } else { d0 });
            assert(views(failed@) =~= if st == OrganReviewStatus::Failed { f0.push(record.name@) } else { f0 });
            assert(views(unknown@) =~= if st == OrganReviewStatus::Unknown { u0.push(record.name@) } else { u0 });
            assert((n - 1) as nat == i as nat);
        }
        findings.push(finding);
        i += 1;
    }
    OrganReviewOutput {
        schema_version: "0.1.0".to_owned(),
        reviewed_at,
        source,
        total_organs: records.len(),
        findings,
        active,
        candidates,
        stale,
        duplicate,
        failed,
        unknown,
    }
}


pub open spec fn grouped_count(all: Seq<OrganRecord>, n: nat) -> nat {
    group_names(all, n, OrganReviewStatus::Active).len() + group_names(
        all,
        n,
        OrganReviewStatus::Candidate,
    ).len() + group_names(all, n, OrganReviewStatus::Stale).len() + group_names(
        all,
        n,
        OrganReviewStatus::Duplicate,
    ).len() + group_names(all, n, OrganReviewStatus::Failed).len() + group_names(
        all,
        n,
        OrganReviewStatus::Unknown,
    ).len()
}

/// The decay review partitions the registry: each record is listed under
/// exactly one review status, so the groups together hold as many names as
/// the registry has records.
pub proof fn lemma_review_groups_partition(all: Seq<OrganRecord>, n: nat)
    requires
        n <= all.len(),
    ensures
        grouped_count(all, n) == n,
    decreases n,
{
    if n > 0 {
        lemma_review_groups_partition(all, (n - 1) as nat);
    }
}

} // verus!
