//! Evidence bundles: the phase hand-off envelopes derived from the P1
//! verification and P2 promotion records.
//!
//! Every claim in a bundle built here is backed: each of its backing
//! references names an observation, a canonical fact or a comparison of the
//! same bundle.
use vstd::prelude::*;

use crate::records::{
    CanonicalFact, ComparisonReport, ComparisonStatus, DataQuality, DigestRef, EvidenceBundle,
    EvidenceClaim, EvidenceInputRef, EvidenceObservation, EvidenceSubject, FactValue,
    MutationPromotionRecord, MutationVerificationRecord, PromotionStatus, ProvenanceRef,
    VerificationCheckResult, VerificationCheckStatus, VerificationStatus,
};
use crate::strmap::{pairs_from, StringMap, TextPairs};
use crate::text::{compare_text, TextOrder, copy_opt, copy_strings, has_prefix, join2, join3, text_starts_with, views};

verus! {

// ---------------------------------------------------------------------------
// Views
// ---------------------------------------------------------------------------

/// A fact value as the character data it carries.
pub enum FactView {
    Absent,
    Text(Seq<char>),
    Number(nat),
    Flag(bool),
    Texts(Seq<Seq<char>>),
    Table(TextPairs),
}

pub open spec fn fact_view(v: FactValue) -> FactView {
    match v {
        FactValue::Absent => FactView::Absent,
        FactValue::Text(s) => FactView::Text(s@),
        FactValue::Number(n) => FactView::Number(n as nat),
        FactValue::Flag(b) => FactView::Flag(b),
        FactValue::Texts(v) => FactView::Texts(views(v@)),
        FactValue::Table(m) => FactView::Table(m@),
    }
}

pub open spec fn opt_fact(o: Option<String>) -> FactView {
    match o {
        Some(s) => FactView::Text(s@),
        None => FactView::Absent,
    }
}

/// Two provenance references carry the same data.
pub open spec fn same_provenance(a: ProvenanceRef, b: ProvenanceRef) -> bool {
    &&& a.kind@ == b.kind@
    &&& a.source@ == b.source@
    &&& a.digest.algorithm@ == b.digest.algorithm@
    &&& a.digest.value@ == b.digest.value@
    &&& a.schema_version@ == b.schema_version@
    &&& a.metadata@ == b.metadata@
}

// ---------------------------------------------------------------------------
// Status vocabulary
// ---------------------------------------------------------------------------

pub open spec fn verification_status_name(s: VerificationStatus) -> Seq<char> {
    match s {
        VerificationStatus::Verified => "verified"@,
        VerificationStatus::Rejected => "rejected"@,
        VerificationStatus::Error => "error"@,
    }
}

pub open spec fn promotion_status_name(s: PromotionStatus) -> Seq<char> {
    match s {
        PromotionStatus::Promoted => "promoted"@,
        PromotionStatus::Rejected => "rejected"@,
        PromotionStatus::Error => "error"@,
    }
}

pub open spec fn check_status_name(s: VerificationCheckStatus) -> Seq<char> {
    match s {
        VerificationCheckStatus::Passed => "passed"@,
        VerificationCheckStatus::Failed => "failed"@,
        VerificationCheckStatus::Error => "error"@,
    }
}

/// The record name of a verification status.
pub fn verification_status_text(s: VerificationStatus) -> (r: String)
    ensures
        r@ == verification_status_name(s),
{
    match s {
        VerificationStatus::Verified => "verified".to_owned(),
        VerificationStatus::Rejected => "rejected".to_owned(),
        VerificationStatus::Error => "error".to_owned(),
    }
}

/// The record name of a promotion status.
pub fn promotion_status_text(s: PromotionStatus) -> (r: String)
    ensures
        r@ == promotion_status_name(s),
{
    match s {
        PromotionStatus::Promoted => "promoted".to_owned(),
        PromotionStatus::Rejected => "rejected".to_owned(),
        PromotionStatus::Error => "error".to_owned(),
    }
}

/// The record name of a check status.
pub fn check_status_text(s: VerificationCheckStatus) -> (r: String)
    ensures
        r@ == check_status_name(s),
{
    match s {
        VerificationCheckStatus::Passed => "passed".to_owned(),
        VerificationCheckStatus::Failed => "failed".to_owned(),
        VerificationCheckStatus::Error => "error".to_owned(),
    }
}

pub open spec fn verification_claim_text(s: VerificationStatus) -> Seq<char> {
    match s {
        VerificationStatus::Verified => "mutation verified"@,
        VerificationStatus::Rejected => "mutation rejected"@,
        VerificationStatus::Error => "verification errored"@,
    }
}

pub open spec fn promotion_claim_text(s: PromotionStatus) -> Seq<char> {
    match s {
        PromotionStatus::Promoted => "mutation promoted"@,
        PromotionStatus::Rejected => "promotion rejected"@,
        PromotionStatus::Error => "promotion errored"@,
    }
}

/// The claim a verification bundle makes for a verification status.
pub fn verification_claim(s: VerificationStatus) -> (r: String)
    ensures
        r@ == verification_claim_text(s),
{
    match s {
        VerificationStatus::Verified => "mutation verified".to_owned(),
        VerificationStatus::Rejected => "mutation rejected".to_owned(),
        VerificationStatus::Error => "verification errored".to_owned(),
    }
}

/// The claim a promotion bundle makes for a promotion status.
pub fn promotion_claim(s: PromotionStatus) -> (r: String)
    ensures
        r@ == promotion_claim_text(s),
{
    match s {
        PromotionStatus::Promoted => "mutation promoted".to_owned(),
        PromotionStatus::Rejected => "promotion rejected".to_owned(),
        PromotionStatus::Error => "promotion errored".to_owned(),
    }
}

// ---------------------------------------------------------------------------
// Root fingerprint comparison
// ---------------------------------------------------------------------------

/// How a P1 verified root fingerprint compares with a P2 promotion root
/// fingerprint: missing when P1 recorded none, incomparable when either side
/// is an `unavailable:` placeholder, matched when equal, stale otherwise.
pub open spec fn root_comparison(verified: Option<Seq<char>>, promotion: Seq<char>) -> ComparisonStatus {
    match verified {
        None => ComparisonStatus::Missing,
        Some(v) => if has_prefix(v, "unavailable:"@) || has_prefix(promotion, "unavailable:"@) {
            ComparisonStatus::Incomparable
        } else if v == promotion {
            ComparisonStatus::Matched
        } else {
            ComparisonStatus::Stale
        },
    }
}

pub open spec fn root_comparison_reason(s: ComparisonStatus) -> Seq<char> {
    match s {
        ComparisonStatus::Missing => "missing P1 verified root fingerprint"@,
        ComparisonStatus::Incomparable => "root fingerprint comparison is unavailable for this promotion record"@,
        ComparisonStatus::Matched => "P1 verified root fingerprint matches P2 promotion root fingerprint"@,
        _ => "P1 verified root fingerprint differs from P2 promotion root fingerprint"@,
    }
}

/// Compares the P1 verified root fingerprint with the P2 promotion root
/// fingerprint, and says why.
pub fn compare_root_fingerprints(verified: Option<&str>, promotion: &str) -> (r: (
    ComparisonStatus,
    String,
))
    ensures
        r.0 == root_comparison(
            match verified {
                Some(v) => Some(v@),
                None => None,
            },
            promotion@,
        ),
        r.1@ == root_comparison_reason(r.0),
{
    match verified {
        None => (ComparisonStatus::Missing, "missing P1 verified root fingerprint".to_owned()),
        Some(v) => {
            if text_starts_with(v, "unavailable:") || text_starts_with(promotion, "unavailable:") {
                (
                    ComparisonStatus::Incomparable,
                    "root fingerprint comparison is unavailable for this promotion record".to_owned(),
                )
            } else if let TextOrder::Equal = compare_text(v, promotion) {
                (
                    ComparisonStatus::Matched,
                    "P1 verified root fingerprint matches P2 promotion root fingerprint".to_owned(),
                )
            } else {
                (
                    ComparisonStatus::Stale,
                    "P1 verified root fingerprint differs from P2 promotion root fingerprint".to_owned(),
                )
            }
        },
    }
}


// ---------------------------------------------------------------------------
// Building blocks
// ---------------------------------------------------------------------------

/// A copy of a provenance reference.
pub fn copy_provenance(p: &ProvenanceRef) -> (r: ProvenanceRef)
    ensures
        same_provenance(r, *p),
{
    ProvenanceRef {
        kind: p.kind.clone(),
        source: p.source.clone(),
        digest: DigestRef { algorithm: p.digest.algorithm.clone(), value: p.digest.value.clone() },
        schema_version: p.schema_version.clone(),
        metadata: p.metadata.clone(),
    }
}

/// A raw input reference.
pub fn evidence_input(input_id: String, kind: &str, provenance: ProvenanceRef) -> (r:
    EvidenceInputRef)
    ensures
        r.input_id == input_id,
        r.kind@ == kind@,
        r.provenance == provenance,
        r.quality == DataQuality::Raw,
        r.metadata@.len() == 0,
{
    EvidenceInputRef {
        input_id,
        kind: kind.to_owned(),
        provenance,
        quality: DataQuality::Raw,
        metadata: StringMap::new(),
    }
}

/// The id of the fact `kind` about the record `prefix`.
pub open spec fn fact_id(prefix: Seq<char>, kind: Seq<char>) -> Seq<char> {
    "fact:"@ + prefix + ":"@ + kind
}

/// `f` is the canonical fact `kind` of `prefix` with the value `value`.
pub open spec fn fact_is(f: CanonicalFact, prefix: Seq<char>, kind: Seq<char>, value: FactView) -> bool {
    &&& f.fact_id@ == fact_id(prefix, kind)
    &&& f.kind@ == kind
    &&& fact_view(f.value) == value
    &&& f.quality == DataQuality::Canonicalized
    &&& f.derived_from@.len() == 0
    &&& f.metadata@.len() == 0
}

/// The id of the fact `kind` about `prefix`.
pub fn fact_ref(prefix: &str, kind: &str) -> (r: String)
    ensures
        r@ == fact_id(prefix@, kind@),
{
    let mut id = join3("fact:", prefix, ":");
    id.append(kind);
    id
}

/// A canonical fact with no derivation.
pub fn canonical_fact(prefix: &str, kind: &str, value: FactValue) -> (f: CanonicalFact)
    ensures
        fact_is(f, prefix@, kind@, fact_view(value)),
{
    CanonicalFact {
        fact_id: fact_ref(prefix, kind),
        kind: kind.to_owned(),
        value,
        quality: DataQuality::Canonicalized,
        derived_from: Vec::new(),
        metadata: StringMap::new(),
    }
}

/// The (name, status) pairs of a list of check results.
pub open spec fn check_pairs(checks: Seq<VerificationCheckResult>) -> TextPairs {
    checks.map_values(|c: VerificationCheckResult| (c.name@, check_status_name(c.status)))
}

/// The status of each named check; when two checks share a name the later
/// one wins.
pub fn check_statuses(checks: &Vec<VerificationCheckResult>) -> (m: StringMap)
    ensures
        m@ == pairs_from(check_pairs(checks@)),
{
    let mut m = StringMap::new();
    let mut i: usize = 0;
    while i < checks.len()
        invariant
            i <= checks@.len(),
            m@ == pairs_from(check_pairs(checks@.take(i as int))),
        decreases checks@.len() - i,
    {
        proof {
            assert(check_pairs(checks@.take(i + 1)).drop_last() =~= check_pairs(
                checks@.take(i as int),
            ));
            assert(check_pairs(checks@.take(i + 1)).last() == (
                checks@[i as int].name@,
                check_status_name(checks@[i as int].status),
            ));
        }
        m.insert(checks[i].name.clone(), check_status_text(checks[i].status));
        i += 1;
    }
    assert(checks@.take(i as int) =~= checks@);
    m
}

// ---------------------------------------------------------------------------
// Backing
// ---------------------------------------------------------------------------

/// `id` names an observation, a canonical fact or a comparison of `b`.
pub open spec fn names_evidence(b: EvidenceBundle, id: Seq<char>) -> bool {
    ||| exists|i: int| 0 <= i < b.observations@.len() && #[trigger] b.observations@[i].observation_id@ == id
    ||| exists|i: int| 0 <= i < b.canonical_facts@.len() && #[trigger] b.canonical_facts@[i].fact_id@ == id
    ||| exists|i: int| 0 <= i < b.comparisons@.len() && #[trigger] b.comparisons@[i].comparison_id@ == id
}

/// Every claim of `b` is backed only by evidence in `b`.
pub open spec fn claims_backed(b: EvidenceBundle) -> bool {
    forall|c: int, j: int|
        0 <= c < b.claims@.len() && 0 <= j < b.claims@[c].backing@.len() ==> names_evidence(
            b,
            #[trigger] b.claims@[c].backing@[j]@,
        )
}

// ---------------------------------------------------------------------------
// P1 verification bundle
// ---------------------------------------------------------------------------

pub open spec fn record_ref(id: Seq<char>) -> Seq<char> {
    "observation:"@ + id + ":record"@
}

/// The canonical facts of a verification record, in order.
pub open spec fn verification_facts_are(facts: Seq<CanonicalFact>, r: MutationVerificationRecord) -> bool {
    let p = r.verification_id@;
    &&& facts.len() == 6
    &&& fact_is(facts[0], p, "mutation-id"@, FactView::Text(r.mutation_id@))
    &&& fact_is(facts[1], p, "proposal-fingerprint"@, FactView::Text(r.proposal_fingerprint@))
    &&& fact_is(facts[2], p, "root-fingerprint"@, FactView::Text(r.root_fingerprint@))
    &&& fact_is(facts[3], p, "status"@, FactView::Text(verification_status_name(r.status)))
    &&& fact_is(facts[4], p, "changed-paths"@, FactView::Texts(views(r.changed_paths@)))
    &&& fact_is(facts[5], p, "check-statuses"@, FactView::Table(pairs_from(check_pairs(r.checks@))))
}

/// The canonical facts of a verification record.
pub fn verification_canonical_facts(record: &MutationVerificationRecord) -> (facts: Vec<CanonicalFact>)
    ensures
        verification_facts_are(facts@, *record),
{
    let prefix = record.verification_id.as_str();
    let mut facts: Vec<CanonicalFact> = Vec::new();
    facts.push(canonical_fact(prefix, "mutation-id", FactValue::Text(record.mutation_id.clone())));
    facts.push(
        canonical_fact(
            prefix,
            "proposal-fingerprint",
            FactValue::Text(record.proposal_fingerprint.clone()),
        ),
    );
    facts.push(
        canonical_fact(prefix, "root-fingerprint", FactValue::Text(record.root_fingerprint.clone())),
    );
    facts.push(
        canonical_fact(prefix, "status", FactValue::Text(verification_status_text(record.status))),
    );
    let paths = copy_strings(&record.changed_paths);
    facts.push(canonical_fact(prefix, "changed-paths", FactValue::Texts(paths)));
    facts.push(
        canonical_fact(prefix, "check-statuses", FactValue::Table(check_statuses(&record.checks))),
    );
    facts
}

/// The shape of the bundle derived from a verification record and the
/// provenance of its raw journal entry.
pub open spec fn verification_bundle_is(
    b: EvidenceBundle,
    r: MutationVerificationRecord,
    raw: ProvenanceRef,
) -> bool {
    let id = r.verification_id@;
    &&& b.schema_version@ == "0.1.0"@
    &&& b.bundle_id@ == "evidence:"@ + id
    &&& b.phase@ == r.phase@
    &&& b.subject.mutation_id@ == r.mutation_id@
    &&& b.subject.proposal_fingerprint@ == r.proposal_fingerprint@
    &&& b.subject.root_fingerprint == Some(r.root_fingerprint)
    &&& b.subject.generation_id is None
    &&& b.subject.metadata@.len() == 0
    &&& b.inputs@.len() == 1
    &&& b.inputs@[0].input_id@ == "input:"@ + id + ":verification-record"@
    &&& b.inputs@[0].kind@ == "mutation-verification-record"@
    &&& same_provenance(b.inputs@[0].provenance, raw)
    &&& b.inputs@[0].quality == DataQuality::Raw
    &&& b.inputs@[0].metadata@.len() == 0
    &&& b.observations@.len() == 1
    &&& b.observations@[0].observation_id@ == record_ref(id)
    &&& b.observations@[0].kind@ == "mutation-verification-record"@
    &&& b.observations@[0].summary@ == r.reason@
    &&& b.observations@[0].quality == DataQuality::Observed
    &&& b.observations@[0].observed_at == Some(r.timestamp)
    &&& same_provenance(b.observations@[0].raw_ref, raw)
    &&& b.observations@[0].metadata@.len() == 0
    &&& verification_facts_are(b.canonical_facts@, r)
    &&& b.comparisons@.len() == 0
    &&& b.claims@.len() == 1
    &&& b.claims@[0].claim_id@ == "claim:"@ + id + ":status"@
    &&& b.claims@[0].claim@ == verification_claim_text(r.status)
    &&& b.claims@[0].quality == DataQuality::Derived
    &&& views(b.claims@[0].backing@) == seq![record_ref(id), fact_id(id, "status"@)]
    &&& views(b.claims@[0].limits@) == seq![
        "P1 does not boot a VM"@,
        "P1 does not install, activate, or write to the live system"@,
        "P1 verified is not P2 promoted and not generation accepted"@,
    ]
    &&& b.claims@[0].metadata@.len() == 0
    &&& b.metadata@.len() == 0
}

impl MutationVerificationRecord {
    /// The P1 evidence bundle of this verification record, whose raw journal
    /// entry `raw_ref` refers to.
    pub fn to_evidence_bundle(&self, raw_ref: ProvenanceRef) -> (b: EvidenceBundle)
        ensures
            verification_bundle_is(b, *self, raw_ref),
            claims_backed(b),
    {
        let id = self.verification_id.as_str();
        let observation_ref = join3("observation:", id, ":record");
        let status_fact_ref = fact_ref(id, "status");
        let input_id = join3("input:", id, ":verification-record");
        let input_provenance = copy_provenance(&raw_ref);
        let ghost raw = raw_ref;
        let mut inputs: Vec<EvidenceInputRef> = Vec::new();
        inputs.push(evidence_input(input_id, "mutation-verification-record", input_provenance));
        let mut observations: Vec<EvidenceObservation> = Vec::new();
        observations.push(
            EvidenceObservation {
                observation_id: observation_ref.clone(),
                kind: "mutation-verification-record".to_owned(),
                summary: self.reason.clone(),
                quality: DataQuality::Observed,
                observed_at: Some(self.timestamp.clone()),
                raw_ref,
                metadata: StringMap::new(),
            },
        );
        let mut backing: Vec<String> = Vec::new();
        backing.push(observation_ref);
        backing.push(status_fact_ref);
        let mut limits: Vec<String> = Vec::new();
        limits.push("P1 does not boot a VM".to_owned());
        limits.push("P1 does not install, activate, or write to the live system".to_owned());
        limits.push("P1 verified is not P2 promoted and not generation accepted".to_owned());
        let mut claims: Vec<EvidenceClaim> = Vec::new();
        claims.push(
            EvidenceClaim {
                claim_id: join3("claim:", id, ":status"),
                claim: verification_claim(self.status),
                quality: DataQuality::Derived,
                backing,
                limits,
                metadata: StringMap::new(),
            },
        );
        let b = EvidenceBundle {
            schema_version: "0.1.0".to_owned(),
            bundle_id: join2("evidence:", id),
            phase: self.phase.clone(),
            subject: EvidenceSubject {
                mutation_id: self.mutation_id.clone(),
                proposal_fingerprint: self.proposal_fingerprint.clone(),
                root_fingerprint: Some(self.root_fingerprint.clone()),
                generation_id: None,
                metadata: StringMap::new(),
            },
            inputs,
            observations,
            canonical_facts: verification_canonical_facts(self),
            comparisons: Vec::new(),
            claims,
            metadata: StringMap::new(),
        };
        proof {
            assert(views(b.claims@[0].backing@) =~= seq![record_ref(id@), fact_id(id@, "status"@)]);
            assert(views(b.claims@[0].limits@) =~= seq![
                "P1 does not boot a VM"@,
                "P1 does not install, activate, or write to the live system"@,
                "P1 verified is not P2 promoted and not generation accepted"@,
            ]);
            assert forall|c: int, j: int|
                0 <= c < b.claims@.len() && 0 <= j < b.claims@[c].backing@.len() implies names_evidence(
                b,
                #[trigger] b.claims@[c].backing@[j]@,
            ) by {
                assert(views(b.claims@[c].backing@)[j] == b.claims@[c].backing@[j]@);
                if j == 0 {
                    assert(b.observations@[0].observation_id@ == b.claims@[c].backing@[j]@);
                } else {
                    assert(b.canonical_facts@[3].fact_id@ == b.claims@[c].backing@[j]@);
                }
            }
        }
        b
    }
}


// ---------------------------------------------------------------------------
// P2 promotion bundle
// ---------------------------------------------------------------------------

pub open spec fn root_comparison_id(id: Seq<char>) -> Seq<char> {
    "comparison:"@ + id + ":verified-root-vs-promotion-root"@
}

/// The comparisons of a promotion record: its P1 verified root fingerprint
/// against its P2 promotion root fingerprint.
pub open spec fn promotion_comparisons_are(cs: Seq<ComparisonReport>, r: MutationPromotionRecord) -> bool {
    let id = r.promotion_id@;
    let status = root_comparison(opt_text(r.verified_root_fingerprint), r.promotion_root_fingerprint@);
    &&& cs.len() == 1
    &&& cs[0].comparison_id@ == root_comparison_id(id)
    &&& cs[0].left_ref@ == fact_id(id, "verified-root-fingerprint"@)
    &&& cs[0].right_ref@ == fact_id(id, "promotion-root-fingerprint"@)
    &&& cs[0].status == status
    &&& cs[0].reason@ == root_comparison_reason(status)
    &&& cs[0].quality == DataQuality::Verified
    &&& cs[0].metadata@.len() == 0
}

pub open spec fn opt_text(o: Option<String>) -> Option<Seq<char>> {
    match o {
        Some(s) => Some(s@),
        None => None,
    }
}

/// The root fingerprint comparison of a promotion record.
pub fn promotion_comparisons(record: &MutationPromotionRecord) -> (cs: Vec<ComparisonReport>)
    ensures
        promotion_comparisons_are(cs@, *record),
{
    let verified = match &record.verified_root_fingerprint {
        Some(v) => Some(v.as_str()),
        None => None,
    };
    let (status, reason) = compare_root_fingerprints(verified, record.promotion_root_fingerprint.as_str());
    let id = record.promotion_id.as_str();
    let mut cs: Vec<ComparisonReport> = Vec::new();
    cs.push(
        ComparisonReport {
            comparison_id: join3("comparison:", id, ":verified-root-vs-promotion-root"),
            left_ref: fact_ref(id, "verified-root-fingerprint"),
            right_ref: fact_ref(id, "promotion-root-fingerprint"),
            status,
            reason,
            quality: DataQuality::Verified,
            metadata: StringMap::new(),
        },
    );
    cs
}

/// The canonical facts of a promotion record, in order.
pub open spec fn promotion_facts_are(facts: Seq<CanonicalFact>, r: MutationPromotionRecord) -> bool {
    let p = r.promotion_id@;
    &&& facts.len() == 7
    &&& fact_is(facts[0], p, "mutation-id"@, FactView::Text(r.mutation_id@))
    &&& fact_is(facts[1], p, "proposal-fingerprint"@, FactView::Text(r.proposal_fingerprint@))
    &&& fact_is(facts[2], p, "promotion-root-fingerprint"@, FactView::Text(r.promotion_root_fingerprint@))
    &&& fact_is(facts[3], p, "verified-root-fingerprint"@, opt_fact(r.verified_root_fingerprint))
    &&& fact_is(facts[4], p, "status"@, FactView::Text(promotion_status_name(r.status)))
    &&& fact_is(facts[5], p, "changed-paths"@, FactView::Texts(views(r.changed_paths@)))
    &&& fact_is(facts[6], p, "check-statuses"@, FactView::Table(pairs_from(check_pairs(r.checks@))))
}

/// The canonical facts of a promotion record.
pub fn promotion_canonical_facts(record: &MutationPromotionRecord) -> (facts: Vec<CanonicalFact>)
    ensures
        promotion_facts_are(facts@, *record),
{
    let prefix = record.promotion_id.as_str();
    let mut facts: Vec<CanonicalFact> = Vec::new();
    facts.push(canonical_fact(prefix, "mutation-id", FactValue::Text(record.mutation_id.clone())));
    facts.push(
        canonical_fact(
            prefix,
            "proposal-fingerprint",
            FactValue::Text(record.proposal_fingerprint.clone()),
        ),
    );
    facts.push(
        canonical_fact(
            prefix,
            "promotion-root-fingerprint",
            FactValue::Text(record.promotion_root_fingerprint.clone()),
        ),
    );
    let verified = match copy_opt(&record.verified_root_fingerprint) {
        Some(v) => FactValue::Text(v),
        None => FactValue::Absent,
    };
    facts.push(canonical_fact(prefix, "verified-root-fingerprint", verified));
    facts.push(
        canonical_fact(prefix, "status", FactValue::Text(promotion_status_text(record.status))),
    );
    let paths = copy_strings(&record.changed_paths);
    facts.push(canonical_fact(prefix, "changed-paths", FactValue::Texts(paths)));
    facts.push(
        canonical_fact(prefix, "check-statuses", FactValue::Table(check_statuses(&record.checks))),
    );
    facts
}

/// The shape of the bundle derived from a promotion record and the
/// provenance of its raw journal entry.
pub open spec fn promotion_bundle_is(
    b: EvidenceBundle,
    r: MutationPromotionRecord,
    raw: ProvenanceRef,
) -> bool {
    let id = r.promotion_id@;
    &&& b.schema_version@ == "0.1.0"@
    &&& b.bundle_id@ == "evidence:"@ + id
    &&& b.phase@ == r.phase@
    &&& b.subject.mutation_id@ == r.mutation_id@
    &&& b.subject.proposal_fingerprint@ == r.proposal_fingerprint@
    &&& b.subject.root_fingerprint == Some(r.promotion_root_fingerprint)
    &&& b.subject.generation_id is None
    &&& b.subject.metadata@.len() == 0
    &&& b.inputs@.len() == 1
    &&& b.inputs@[0].input_id@ == "input:"@ + id + ":promotion-record"@
    &&& b.inputs@[0].kind@ == "mutation-promotion-record"@
    &&& same_provenance(b.inputs@[0].provenance, raw)
    &&& b.inputs@[0].quality == DataQuality::Raw
    &&& b.inputs@[0].metadata@.len() == 0
    &&& b.observations@.len() == 1
    &&& b.observations@[0].observation_id@ == record_ref(id)
    &&& b.observations@[0].kind@ == "mutation-promotion-record"@
    &&& b.observations@[0].summary@ == r.reason@
    &&& b.observations@[0].quality == DataQuality::Observed
    &&& b.observations@[0].observed_at == Some(r.timestamp)
    &&& same_provenance(b.observations@[0].raw_ref, raw)
    &&& b.observations@[0].metadata@.len() == 0
    &&& promotion_facts_are(b.canonical_facts@, r)
    &&& promotion_comparisons_are(b.comparisons@, r)
    &&& b.claims@.len() == 1
    &&& b.claims@[0].claim_id@ == "claim:"@ + id + ":status"@
    &&& b.claims@[0].claim@ == promotion_claim_text(r.status)
    &&& b.claims@[0].quality == DataQuality::Derived
    &&& views(b.claims@[0].backing@) == seq![record_ref(id), fact_id(id, "status"@), root_comparison_id(id)]
    &&& views(b.claims@[0].limits@) == seq![
        "P2 does not accept the mutation into generation lineage"@,
        "P2 does not write installed memory"@,
        "P2 does not run live nixos-rebuild switch"@,
    ]
    &&& b.claims@[0].metadata@.len() == 0
    &&& b.metadata@.len() == 0
}

impl MutationPromotionRecord {
    /// The P2 evidence bundle of this promotion record, whose raw journal
    /// entry `raw_ref` refers to.
    pub fn to_evidence_bundle(&self, raw_ref: ProvenanceRef) -> (b: EvidenceBundle)
        ensures
            promotion_bundle_is(b, *self, raw_ref),
            claims_backed(b),
    {
        let id = self.promotion_id.as_str();
        let observation_ref = join3("observation:", id, ":record");
        let status_fact_ref = fact_ref(id, "status");
        let comparisons = promotion_comparisons(self);
        let mut backing: Vec<String> = Vec::new();
        backing.push(observation_ref.clone());
        backing.push(status_fact_ref);
        backing.push(comparisons[0].comparison_id.clone());
        let input_id = join3("input:", id, ":promotion-record");
        let input_provenance = copy_provenance(&raw_ref);
        let mut inputs: Vec<EvidenceInputRef> = Vec::new();
        inputs.push(evidence_input(input_id, "mutation-promotion-record", input_provenance));
        let mut observations: Vec<EvidenceObservation> = Vec::new();
        observations.push(
            EvidenceObservation {
                observation_id: observation_ref,
                kind: "mutation-promotion-record".to_owned(),
                summary: self.reason.clone(),
                quality: DataQuality::Observed,
                observed_at: Some(self.timestamp.clone()),
                raw_ref,
                metadata: StringMap::new(),
            },
        );
        let mut limits: Vec<String> = Vec::new();
        limits.push("P2 does not accept the mutation into generation lineage".to_owned());
        limits.push("P2 does not write installed memory".to_owned());
        limits.push("P2 does not run live nixos-rebuild switch".to_owned());
        let mut claims: Vec<EvidenceClaim> = Vec::new();
        claims.push(
            EvidenceClaim {
                claim_id: join3("claim:", id, ":status"),
                claim: promotion_claim(self.status),
                quality: DataQuality::Derived,
                backing,
                limits,
                metadata: StringMap::new(),
            },
        );
        let b = EvidenceBundle {
            schema_version: "0.1.0".to_owned(),
            bundle_id: join2("evidence:", id),
            phase: self.phase.clone(),
            subject: EvidenceSubject {
                mutation_id: self.mutation_id.clone(),
                proposal_fingerprint: self.proposal_fingerprint.clone(),
                root_fingerprint: Some(self.promotion_root_fingerprint.clone()),
                generation_id: None,
                metadata: StringMap::new(),
            },
            inputs,
            observations,
            canonical_facts: promotion_canonical_facts(self),
            comparisons,
            claims,
            metadata: StringMap::new(),
        };
        proof {
            assert(views(b.claims@[0].backing@) =~= seq![
                record_ref(id@),
                fact_id(id@, "status"@),
                root_comparison_id(id@),
            ]);
            assert(views(b.claims@[0].limits@) =~= seq![
                "P2 does not accept the mutation into generation lineage"@,
                "P2 does not write installed memory"@,
                "P2 does not run live nixos-rebuild switch"@,
            ]);
            assert forall|c: int, j: int|
                0 <= c < b.claims@.len() && 0 <= j < b.claims@[c].backing@.len() implies names_evidence(
                b,
                #[trigger] b.claims@[c].backing@[j]@,
            ) by {
                assert(views(b.claims@[c].backing@)[j] == b.claims@[c].backing@[j]@);
                if j == 0 {
                    assert(b.observations@[0].observation_id@ == b.claims@[c].backing@[j]@);
                } else if j == 1 {
                    assert(b.canonical_facts@[4].fact_id@ == b.claims@[c].backing@[j]@);
                } else {
                    assert(b.comparisons@[0].comparison_id@ == b.claims@[c].backing@[j]@);
                }
            }
        }
        b
    }
}

/// The claim of a verification bundle names the record's status: it is
/// "mutation verified" exactly when the record is `Verified`, and records of
/// different statuses get different claims.
pub proof fn lemma_verification_claim_names_status(
    b: EvidenceBundle,
    r: MutationVerificationRecord,
    raw: ProvenanceRef,
    other: VerificationStatus,
)
    requires
        verification_bundle_is(b, r, raw),
    ensures
        b.claims@[0].claim@ == "mutation verified"@ <==> r.status == VerificationStatus::Verified,
        other != r.status ==> verification_claim_text(other) != b.claims@[0].claim@,
{
    reveal_strlit("mutation verified");
    reveal_strlit("mutation rejected");
    reveal_strlit("verification errored");
    assert("mutation verified"@[9] == 'v' && "mutation rejected"@[9] == 'r');
    assert("verification errored"@.len() == 20 && "mutation verified"@.len() == 17 && "mutation rejected"@.len() == 17);
}

/// The claim of a promotion bundle names the record's status: it is
/// "mutation promoted" exactly when the record is `Promoted`, and records of
/// different statuses get different claims.
pub proof fn lemma_promotion_claim_names_status(
    b: EvidenceBundle,
    r: MutationPromotionRecord,
    raw: ProvenanceRef,
    other: PromotionStatus,
)
    requires
        promotion_bundle_is(b, r, raw),
    ensures
        b.claims@[0].claim@ == "mutation promoted"@ <==> r.status == PromotionStatus::Promoted,
        other != r.status ==> promotion_claim_text(other) != b.claims@[0].claim@,
{
    reveal_strlit("mutation promoted");
    reveal_strlit("promotion rejected");
    reveal_strlit("promotion errored");
    assert("mutation promoted"@[0] == 'm' && "promotion errored"@[0] == 'p');
    assert("promotion rejected"@.len() == 18 && "mutation promoted"@.len() == 17 && "promotion errored"@.len() == 17);
}

} // verus!
