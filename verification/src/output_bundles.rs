//! Evidence bundles of the P3 install outputs and the P4 organ registry
//! outputs. Each bundle wraps one raw output record: the record is its one
//! input and its one observation, the bundle carries the output's canonical
//! facts (and, for install verification, one comparison per seed file), and
//! its one claim is backed by the observation and the first fact.
use vstd::prelude::*;

use crate::evidence::{
    claims_backed, copy_provenance, evidence_input, fact_is, names_evidence, record_ref,
    same_provenance, canonical_fact, FactView,
};
use crate::records::{
    CanonicalFact, ComparisonReport, ComparisonStatus, DataQuality, EvidenceBundle, EvidenceClaim,
    EvidenceInputRef, EvidenceObservation, EvidenceSubject, FactValue, InstallPlanOutput, InstallSeedFilePlan,
    InstallSeedFileStatus, InstallSeedFileVerification, InstallVerifyOutput, OrganRegistrySuggestion,
    OrganRegistrySuggestionOutput, OrganReviewOutput, ProvenanceRef,
};
use crate::strmap::{pairs_get, StringMap};
use crate::text::{copy_strings, join2, join3, views};

verus! {

// ---------------------------------------------------------------------------
// The common shape
// ---------------------------------------------------------------------------

/// `b` is the bundle `id` of phase `phase` about `subject`, around the raw
/// output record `raw` of kind `kind` (observed at `observed_at`, summed up
/// as `summary`), with the facts `facts`, the comparisons `comparisons`,
/// and the one claim `claim` with the limits `limits`.
pub open spec fn output_bundle_is(
    b: EvidenceBundle,
    id: Seq<char>,
    phase: Seq<char>,
    subject: EvidenceSubject,
    kind: Seq<char>,
    summary: Seq<char>,
    observed_at: Option<String>,
    raw: ProvenanceRef,
    facts: Seq<CanonicalFact>,
    comparisons: Seq<ComparisonReport>,
    claim: Seq<char>,
    limits: Seq<Seq<char>>,
) -> bool {
    &&& b.schema_version@ == "0.1.0"@
    &&& b.bundle_id@ == "evidence:"@ + id
    &&& b.phase@ == phase
    &&& b.subject == subject
    &&& b.inputs@.len() == 1
    &&& b.inputs@[0].input_id@ == "input:"@ + id + ":"@ + kind
    &&& b.inputs@[0].kind@ == kind
    &&& same_provenance(b.inputs@[0].provenance, raw)
    &&& b.inputs@[0].quality == DataQuality::Raw
    &&& b.inputs@[0].metadata@.len() == 0
    &&& b.observations@.len() == 1
    &&& b.observations@[0].observation_id@ == record_ref(id)
    &&& b.observations@[0].kind@ == kind
    &&& b.observations@[0].summary@ == summary
    &&& b.observations@[0].quality == DataQuality::Observed
    &&& b.observations@[0].observed_at == observed_at
    &&& same_provenance(b.observations@[0].raw_ref, raw)
    &&& b.observations@[0].metadata@.len() == 0
    &&& b.canonical_facts@ == facts
    &&& b.comparisons@ == comparisons
    &&& b.claims@.len() == 1
    &&& b.claims@[0].claim_id@ == "claim:"@ + id + ":summary"@
    &&& b.claims@[0].claim@ == claim
    &&& b.claims@[0].quality == DataQuality::Derived
    &&& views(b.claims@[0].backing@) == seq![record_ref(id), facts[0].fact_id@]
    &&& views(b.claims@[0].limits@) == limits
    &&& b.claims@[0].metadata@.len() == 0
    &&& b.metadata@.len() == 0
}

/// Builds the bundle `output_bundle_is` describes.
fn output_bundle(
    id: &str,
    phase: &str,
    subject: EvidenceSubject,
    kind: &str,
    summary: String,
    observed_at: Option<String>,
    raw_ref: ProvenanceRef,
    facts: Vec<CanonicalFact>,
    comparisons: Vec<ComparisonReport>,
    claim: String,
    limits: Vec<String>,
) -> (b: EvidenceBundle)
    requires
        facts@.len() >= 1,
    ensures
        output_bundle_is(
            b,
            id@,
            phase@,
            subject,
            kind@,
            summary@,
            observed_at,
            raw_ref,
            facts@,
            comparisons@,
            claim@,
            views(limits@),
        ),
        claims_backed(b),
{
    let observation_ref = join3("observation:", id, ":record");
    let mut input_id = join3("input:", id, ":");
    input_id.append(kind);
    let mut inputs: Vec<EvidenceInputRef> = Vec::new();
    inputs.push(evidence_input(input_id, kind, copy_provenance(&raw_ref)));
    let mut observations: Vec<EvidenceObservation> = Vec::new();
    observations.push(
        EvidenceObservation {
            observation_id: observation_ref.clone(),
            kind: kind.to_owned(),
            summary,
            quality: DataQuality::Observed,
            observed_at,
            raw_ref,
            metadata: StringMap::new(),
        },
    );
    let mut backing: Vec<String> = Vec::new();
    backing.push(observation_ref);
    backing.push(facts[0].fact_id.clone());
    let mut claims: Vec<EvidenceClaim> = Vec::new();
    claims.push(
        EvidenceClaim {
            claim_id: join3("claim:", id, ":summary"),
            claim,
            quality: DataQuality::Derived,
            backing,
            limits,
            metadata: StringMap::new(),
        },
    );
    let b = EvidenceBundle {
        schema_version: "0.1.0".to_owned(),
        bundle_id: join2("evidence:", id),
        phase: phase.to_owned(),
        subject,
        inputs,
        observations,
        canonical_facts: facts,
        comparisons,
        claims,
        metadata: StringMap::new(),
    };
    proof {
        assert(views(b.claims@[0].backing@) =~= seq![record_ref(id@), b.canonical_facts@[0].fact_id@]);
        assert forall|c: int, j: int|
            0 <= c < b.claims@.len() && 0 <= j < b.claims@[c].backing@.len() implies names_evidence(
            b,
            #[trigger] b.claims@[c].backing@[j]@,
        ) by {
            assert(views(b.claims@[c].backing@)[j] == b.claims@[c].backing@[j]@);
            if j == 0 {
                assert(b.observations@[0].observation_id@ == b.claims@[c].backing@[j]@);
            } else {
                assert(b.canonical_facts@[0].fact_id@ == b.claims@[c].backing@[j]@);
            }
        }
    }
    b
}

// ---------------------------------------------------------------------------
// P3 install plan
// ---------------------------------------------------------------------------

/// The content digests of the seed files, in manifest order.
pub open spec fn seed_hashes(files: Seq<InstallSeedFilePlan>) -> Seq<Seq<char>> {
    files.map_values(|f: InstallSeedFilePlan| f.content_sha256@)
}

fn seed_hash_list(files: &Vec<InstallSeedFilePlan>) -> (r: Vec<String>)
    ensures
        views(r@) == seed_hashes(files@),
{
    let mut r: Vec<String> = Vec::new();
    let mut i: usize = 0;
    while i < files.len()
        invariant
            i <= files@.len(),
            views(r@) == seed_hashes(files@.take(i as int)),
        decreases files@.len() - i,
    {
        let ghost before = views(r@);
        r.push(files[i].content_sha256.clone());
        assert(views(r@) =~= before.push(files@[i as int].content_sha256@));
        assert(seed_hashes(files@.take(i + 1)) =~= seed_hashes(files@.take(i as int)).push(
            files@[i as int].content_sha256@,
        ));
        i += 1;
    }
    assert(files@.take(i as int) =~= files@);
    r
}

/// The proposal fingerprint the planned generation carries in its metadata.
pub open spec fn planned_proposal_fingerprint(o: InstallPlanOutput) -> Seq<char> {
    match pairs_get(o.generation.metadata@, "proposal_fingerprint"@) {
        Some(f) => f,
        None => "unavailable:missing-proposal-fingerprint"@,
    }
}

pub open spec fn install_plan_id(o: InstallPlanOutput) -> Seq<char> {
    "install-plan:"@ + o.generation.generation@
}

/// The shape of the P3 bundle of an install plan: about the planned
/// generation of the promoted mutation, with the generation, the promotion,
/// the target root and the seed-file digests as facts, and the claim
/// `install planned`.
pub open spec fn install_plan_bundle_is(b: EvidenceBundle, o: InstallPlanOutput, raw: ProvenanceRef) -> bool {
    let id = install_plan_id(o);
    &&& b.subject.mutation_id@ == o.seed_manifest.mutation_id@
    &&& b.subject.proposal_fingerprint@ == planned_proposal_fingerprint(o)
    &&& b.subject.root_fingerprint is None
    &&& b.subject.generation_id == Some(o.generation.generation)
    &&& b.subject.metadata@.len() == 0
    &&& b.canonical_facts@.len() == 4
    &&& fact_is(b.canonical_facts@[0], id, "generation"@, FactView::Text(o.generation.generation@))
    &&& fact_is(b.canonical_facts@[1], id, "promotion-id"@, FactView::Text(o.seed_manifest.promotion_id@))
    &&& fact_is(b.canonical_facts@[2], id, "target-root"@, FactView::Text(o.seed_manifest.target_root@))
    &&& fact_is(
        b.canonical_facts@[3],
        id,
        "seed-file-hashes"@,
        FactView::Texts(seed_hashes(o.seed_manifest.files@)),
    )
    &&& output_bundle_is(
        b,
        id,
        "P3"@,
        b.subject,
        "install-plan-output"@,
        o.generation.activation_result@,
        Some(o.seed_manifest.generated_at),
        raw,
        b.canonical_facts@,
        Seq::empty(),
        "install planned"@,
        seq![
            "install-plan does not write to the target root"@,
            "lineage_status: planned is not an installed generation"@,
        ],
    )
}

impl InstallPlanOutput {
    /// The P3 evidence bundle of this install plan, whose raw output
    /// `raw_ref` refers to.
    pub fn to_evidence_bundle(&self, raw_ref: ProvenanceRef) -> (b: EvidenceBundle)
        ensures
            install_plan_bundle_is(b, *self, raw_ref),
            claims_backed(b),
    {
        let id = join2("install-plan:", self.generation.generation.as_str());
        let proposal_fingerprint = match self.generation.metadata.get("proposal_fingerprint") {
            Some(f) => f.clone(),
            None => "unavailable:missing-proposal-fingerprint".to_owned(),
        };
        let subject = EvidenceSubject {
            mutation_id: self.seed_manifest.mutation_id.clone(),
            proposal_fingerprint,
            root_fingerprint: None,
            generation_id: Some(self.generation.generation.clone()),
            metadata: StringMap::new(),
        };
        let mut facts: Vec<CanonicalFact> = Vec::new();
        facts.push(canonical_fact(id.as_str(), "generation", FactValue::Text(self.generation.generation.clone())));
        facts.push(
            canonical_fact(id.as_str(), "promotion-id", FactValue::Text(self.seed_manifest.promotion_id.clone())),
        );
        facts.push(
            canonical_fact(id.as_str(), "target-root", FactValue::Text(self.seed_manifest.target_root.clone())),
        );
        facts.push(
            canonical_fact(
                id.as_str(),
                "seed-file-hashes",
                FactValue::Texts(seed_hash_list(&self.seed_manifest.files)),
            ),
        );
        let mut limits: Vec<String> = Vec::new();
        limits.push("install-plan does not write to the target root".to_owned());
        limits.push("lineage_status: planned is not an installed generation".to_owned());
        let ghost lv = views(limits@);
        assert(lv =~= seq![
            "install-plan does not write to the target root"@,
            "lineage_status: planned is not an installed generation"@,
        ]);
        output_bundle(
            id.as_str(),
            "P3",
            subject,
            "install-plan-output",
            self.generation.activation_result.clone(),
            Some(self.seed_manifest.generated_at.clone()),
            raw_ref,
            facts,
            Vec::new(),
            "install planned".to_owned(),
            limits,
        )
    }
}

// ---------------------------------------------------------------------------
// P3 install verification
// ---------------------------------------------------------------------------

/// The comparison status of a seed file's verification status.
pub open spec fn seed_comparison_status(s: InstallSeedFileStatus) -> ComparisonStatus {
    match s {
        InstallSeedFileStatus::Matched => ComparisonStatus::Matched,
        InstallSeedFileStatus::Missing => ComparisonStatus::Missing,
        InstallSeedFileStatus::Mismatched => ComparisonStatus::Mismatched,
        InstallSeedFileStatus::Error => ComparisonStatus::Error,
    }
}

fn comparison_status_of(s: InstallSeedFileStatus) -> (r: ComparisonStatus)
    ensures
        r == seed_comparison_status(s),
{
    match s {
        InstallSeedFileStatus::Matched => ComparisonStatus::Matched,
        InstallSeedFileStatus::Missing => ComparisonStatus::Missing,
        InstallSeedFileStatus::Mismatched => ComparisonStatus::Mismatched,
        InstallSeedFileStatus::Error => ComparisonStatus::Error,
    }
}

/// `c` compares the expected digest of the seed file `f` with the digest
/// found at its target (`unavailable` when nothing was read).
pub open spec fn seed_comparison_is(c: ComparisonReport, id: Seq<char>, f: InstallSeedFileVerification) -> bool {
    &&& c.comparison_id@ == "comparison:"@ + id + ":"@ + f.installed_path@
    &&& c.left_ref@ == f.expected_sha256@
    &&& c.right_ref@ == match f.actual_sha256 {
        Some(a) => a@,
        None => "unavailable"@,
    }
    &&& c.status == seed_comparison_status(f.status)
    &&& c.reason@ == f.reason@
    &&& c.quality == DataQuality::Verified
    &&& c.metadata@.len() == 0
}

fn seed_comparisons(id: &str, files: &Vec<InstallSeedFileVerification>) -> (cs: Vec<ComparisonReport>)
    ensures
        cs@.len() == files@.len(),
        forall|i: int| 0 <= i < cs@.len() ==> seed_comparison_is(#[trigger] cs@[i], id@, files@[i]),
{
    let mut cs: Vec<ComparisonReport> = Vec::new();
    let mut i: usize = 0;
    while i < files.len()
        invariant
            i <= files@.len(),
            cs@.len() == i,
            forall|k: int| 0 <= k < i ==> seed_comparison_is(#[trigger] cs@[k], id@, files@[k]),
        decreases files@.len() - i,
    {
        let f = &files[i];
        let mut comparison_id = join3("comparison:", id, ":");
        comparison_id.append(f.installed_path.as_str());
        let right_ref = match &f.actual_sha256 {
            Some(a) => a.clone(),
            None => "unavailable".to_owned(),
        };
        cs.push(
            ComparisonReport {
                comparison_id,
                left_ref: f.expected_sha256.clone(),
                right_ref,
                status: comparison_status_of(f.status),
                reason: f.reason.clone(),
                quality: DataQuality::Verified,
                metadata: StringMap::new(),
            },
        );
        i += 1;
    }
    cs
}

pub open spec fn install_verify_id(o: InstallVerifyOutput) -> Seq<char> {
    "install-verify:"@ + o.promotion_id@
}

pub open spec fn install_verify_claim(all_matched: bool) -> Seq<char> {
    if all_matched {
        "seed files verified"@
    } else {
        "seed verification failed"@
    }
}

pub open spec fn install_verify_summary(all_matched: bool) -> Seq<char> {
    if all_matched {
        "every seed file matched its manifest digest"@
    } else {
        "some seed files are missing, mismatched or unreadable"@
    }
}

/// The shape of the P3 bundle of an install verification: one comparison of
/// expected and found digest per seed file, and the claim `seed files
/// verified` exactly when every file matched.
pub open spec fn install_verify_bundle_is(b: EvidenceBundle, o: InstallVerifyOutput, raw: ProvenanceRef) -> bool {
    let id = install_verify_id(o);
    &&& b.subject.mutation_id@ == o.mutation_id@
    &&& b.subject.proposal_fingerprint@ == "unavailable:not-in-install-verify-output"@
    &&& b.subject.root_fingerprint is None
    &&& b.subject.generation_id is None
    &&& b.subject.metadata@.len() == 0
    &&& b.canonical_facts@.len() == 3
    &&& fact_is(b.canonical_facts@[0], id, "all-matched"@, FactView::Flag(o.all_matched))
    &&& fact_is(b.canonical_facts@[1], id, "target-root"@, FactView::Text(o.target_root@))
    &&& fact_is(b.canonical_facts@[2], id, "seed-file-count"@, FactView::Number(o.files@.len()))
    &&& b.comparisons@.len() == o.files@.len()
    &&& forall|i: int| 0 <= i < b.comparisons@.len() ==> seed_comparison_is(#[trigger] b.comparisons@[i], id, o.files@[i])
    &&& output_bundle_is(
        b,
        id,
        "P3"@,
        b.subject,
        "install-verify-output"@,
        install_verify_summary(o.all_matched),
        Some(o.verified_at),
        raw,
        b.canonical_facts@,
        b.comparisons@,
        install_verify_claim(o.all_matched),
        seq![
            "install-verify checks seed-file hashes only"@,
            "install-verify does not evaluate the installed NixOS configuration"@,
            "install-verify does not prove that nixos-install ran"@,
        ],
    )
}

impl InstallVerifyOutput {
    /// The P3 evidence bundle of this install verification, whose raw output
    /// `raw_ref` refers to.
    pub fn to_evidence_bundle(&self, raw_ref: ProvenanceRef) -> (b: EvidenceBundle)
        ensures
            install_verify_bundle_is(b, *self, raw_ref),
            claims_backed(b),
    {
        let id = join2("install-verify:", self.promotion_id.as_str());
        let subject = EvidenceSubject {
            mutation_id: self.mutation_id.clone(),
            proposal_fingerprint: "unavailable:not-in-install-verify-output".to_owned(),
            root_fingerprint: None,
            generation_id: None,
            metadata: StringMap::new(),
        };
        let mut facts: Vec<CanonicalFact> = Vec::new();
        facts.push(canonical_fact(id.as_str(), "all-matched", FactValue::Flag(self.all_matched)));
        facts.push(canonical_fact(id.as_str(), "target-root", FactValue::Text(self.target_root.clone())));
        facts.push(canonical_fact(id.as_str(), "seed-file-count", FactValue::Number(self.files.len() as u64)));
        let comparisons = seed_comparisons(id.as_str(), &self.files);
        let (claim, summary) = if self.all_matched {
            ("seed files verified".to_owned(), "every seed file matched its manifest digest".to_owned())
        } else {
            (
                "seed verification failed".to_owned(),
                "some seed files are missing, mismatched or unreadable".to_owned(),
            )
        };
        let mut limits: Vec<String> = Vec::new();
        limits.push("install-verify checks seed-file hashes only".to_owned());
        limits.push("install-verify does not evaluate the installed NixOS configuration".to_owned());
        limits.push("install-verify does not prove that nixos-install ran".to_owned());
        assert(views(limits@) =~= seq![
            "install-verify checks seed-file hashes only"@,
            "install-verify does not evaluate the installed NixOS configuration"@,
            "install-verify does not prove that nixos-install ran"@,
        ]);
        output_bundle(
            id.as_str(),
            "P3",
            subject,
            "install-verify-output",
            summary,
            Some(self.verified_at.clone()),
            raw_ref,
            facts,
            comparisons,
            claim,
            limits,
        )
    }
}

// ---------------------------------------------------------------------------
// P4 organ review
// ---------------------------------------------------------------------------

/// The shape of the P4 bundle of an organ review: the review's groups as
/// facts, and the claim `organ decay review generated`.
pub open spec fn organ_review_bundle_is(b: EvidenceBundle, o: OrganReviewOutput, raw: ProvenanceRef) -> bool {
    let id = "organ-review"@;
    &&& b.subject.mutation_id@ == "organ-registry"@
    &&& b.subject.proposal_fingerprint@ == "unavailable:organ-registry-review"@
    &&& b.subject.root_fingerprint is None
    &&& b.subject.generation_id is None
    &&& b.subject.metadata@.len() == 0
    &&& b.canonical_facts@.len() == 7
    &&& fact_is(b.canonical_facts@[0], id, "total-organs"@, FactView::Number(o.total_organs as nat))
    &&& fact_is(b.canonical_facts@[1], id, "active"@, FactView::Texts(views(o.active@)))
    &&& fact_is(b.canonical_facts@[2], id, "candidates"@, FactView::Texts(views(o.candidates@)))
    &&& fact_is(b.canonical_facts@[3], id, "stale"@, FactView::Texts(views(o.stale@)))
    &&& fact_is(b.canonical_facts@[4], id, "duplicate"@, FactView::Texts(views(o.duplicate@)))
    &&& fact_is(b.canonical_facts@[5], id, "failed"@, FactView::Texts(views(o.failed@)))
    &&& fact_is(b.canonical_facts@[6], id, "unknown"@, FactView::Texts(views(o.unknown@)))
    &&& output_bundle_is(
        b,
        id,
        "P4"@,
        b.subject,
        "organ-review-output"@,
        o.source@,
        Some(o.reviewed_at),
        raw,
        b.canonical_facts@,
        Seq::empty(),
        "organ decay review generated"@,
        seq![
            "organ review is read-only: it does not update the registry or remove files"@,
            "review findings are not decay decisions"@,
        ],
    )
}

impl OrganReviewOutput {
    /// The P4 evidence bundle of this organ review, whose raw output
    /// `raw_ref` refers to.
    pub fn to_evidence_bundle(&self, raw_ref: ProvenanceRef) -> (b: EvidenceBundle)
        ensures
            organ_review_bundle_is(b, *self, raw_ref),
            claims_backed(b),
    {
        let id = "organ-review";
        let subject = EvidenceSubject {
            mutation_id: "organ-registry".to_owned(),
            proposal_fingerprint: "unavailable:organ-registry-review".to_owned(),
            root_fingerprint: None,
            generation_id: None,
            metadata: StringMap::new(),
        };
        let mut facts: Vec<CanonicalFact> = Vec::new();
        facts.push(canonical_fact(id, "total-organs", FactValue::Number(self.total_organs as u64)));
        facts.push(canonical_fact(id, "active", FactValue::Texts(copy_strings(&self.active))));
        facts.push(canonical_fact(id, "candidates", FactValue::Texts(copy_strings(&self.candidates))));
        facts.push(canonical_fact(id, "stale", FactValue::Texts(copy_strings(&self.stale))));
        facts.push(canonical_fact(id, "duplicate", FactValue::Texts(copy_strings(&self.duplicate))));
        facts.push(canonical_fact(id, "failed", FactValue::Texts(copy_strings(&self.failed))));
        facts.push(canonical_fact(id, "unknown", FactValue::Texts(copy_strings(&self.unknown))));
        let mut limits: Vec<String> = Vec::new();
        limits.push("organ review is read-only: it does not update the registry or remove files".to_owned());
        limits.push("review findings are not decay decisions".to_owned());
        assert(views(limits@) =~= seq![
            "organ review is read-only: it does not update the registry or remove files"@,
            "review findings are not decay decisions"@,
        ]);
        output_bundle(
            id,
            "P4",
            subject,
            "organ-review-output",
            self.source.clone(),
            Some(self.reviewed_at.clone()),
            raw_ref,
            facts,
            Vec::new(),
            "organ decay review generated".to_owned(),
            limits,
        )
    }
}

// ---------------------------------------------------------------------------
// P4 organ registry suggestions
// ---------------------------------------------------------------------------

/// The names of the suggested organs, in order.
pub open spec fn candidate_names(cs: Seq<OrganRegistrySuggestion>) -> Seq<Seq<char>> {
    cs.map_values(|c: OrganRegistrySuggestion| c.name@)
}

fn candidate_name_list(cs: &Vec<OrganRegistrySuggestion>) -> (r: Vec<String>)
    ensures
        views(r@) == candidate_names(cs@),
{
    let mut r: Vec<String> = Vec::new();
    let mut i: usize = 0;
    while i < cs.len()
        invariant
            i <= cs@.len(),
            views(r@) == candidate_names(cs@.take(i as int)),
        decreases cs@.len() - i,
    {
        let ghost before = views(r@);
        r.push(cs[i].name.clone());
        assert(views(r@) =~= before.push(cs@[i as int].name@));
        assert(candidate_names(cs@.take(i + 1)) =~= candidate_names(cs@.take(i as int)).push(cs@[i as int].name@));
        i += 1;
    }
    assert(cs@.take(i as int) =~= cs@);
    r
}

/// The shape of the P4 bundle of registry suggestions: the suggested, the
/// registered and the observed organs and the source statuses as facts, the
/// claim `organ registry suggestions generated`, and the output's own limits
/// followed by the read-only limit.
pub open spec fn organ_suggest_bundle_is(
    b: EvidenceBundle,
    o: OrganRegistrySuggestionOutput,
    raw: ProvenanceRef,
) -> bool {
    let id = "organ-suggest"@;
    &&& b.subject.mutation_id@ == "organ-registry"@
    &&& b.subject.proposal_fingerprint@ == "unavailable:organ-registry-suggestion"@
    &&& b.subject.root_fingerprint is None
    &&& b.subject.generation_id is None
    &&& b.subject.metadata@.len() == 0
    &&& b.canonical_facts@.len() == 4
    &&& fact_is(b.canonical_facts@[0], id, "candidate-organs"@, FactView::Texts(candidate_names(o.candidates@)))
    &&& fact_is(b.canonical_facts@[1], id, "registered-organs"@, FactView::Texts(views(o.registered_organs@)))
    &&& fact_is(
        b.canonical_facts@[2],
        id,
        "observed-changed-organs"@,
        FactView::Texts(views(o.observed_changed_organs@)),
    )
    &&& fact_is(b.canonical_facts@[3], id, "source-statuses"@, FactView::Table(o.source_statuses@))
    &&& output_bundle_is(
        b,
        id,
        "P4"@,
        b.subject,
        "organ-registry-suggestion-output"@,
        o.registry_source@,
        Some(o.reviewed_at),
        raw,
        b.canonical_facts@,
        Seq::empty(),
        "organ registry suggestions generated"@,
        views(o.limits@).push("organ suggest is read-only and does not update the registry"@),
    )
}

impl OrganRegistrySuggestionOutput {
    /// The P4 evidence bundle of these registry suggestions, whose raw
    /// output `raw_ref` refers to.
    pub fn to_evidence_bundle(&self, raw_ref: ProvenanceRef) -> (b: EvidenceBundle)
        ensures
            organ_suggest_bundle_is(b, *self, raw_ref),
            claims_backed(b),
    {
        let id = "organ-suggest";
        let subject = EvidenceSubject {
            mutation_id: "organ-registry".to_owned(),
            proposal_fingerprint: "unavailable:organ-registry-suggestion".to_owned(),
            root_fingerprint: None,
            generation_id: None,
            metadata: StringMap::new(),
        };
        let mut facts: Vec<CanonicalFact> = Vec::new();
        facts.push(canonical_fact(id, "candidate-organs", FactValue::Texts(candidate_name_list(&self.candidates))));
        facts.push(canonical_fact(id, "registered-organs", FactValue::Texts(copy_strings(&self.registered_organs))));
        facts.push(
            canonical_fact(
                id,
                "observed-changed-organs",
                FactValue::Texts(copy_strings(&self.observed_changed_organs)),
            ),
        );
        facts.push(canonical_fact(id, "source-statuses", FactValue::Table(self.source_statuses.clone())));
        let mut limits = copy_strings(&self.limits);
        let ghost before = views(limits@);
        limits.push("organ suggest is read-only and does not update the registry".to_owned());
        assert(views(limits@) =~= before.push("organ suggest is read-only and does not update the registry"@));
        output_bundle(
            id,
            "P4",
            subject,
            "organ-registry-suggestion-output",
            self.registry_source.clone(),
            Some(self.reviewed_at.clone()),
            raw_ref,
            facts,
            Vec::new(),
            "organ registry suggestions generated".to_owned(),
            limits,
        )
    }
}

} // verus!
