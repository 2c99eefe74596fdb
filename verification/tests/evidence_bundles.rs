use autopoietic::records::{
    ComparisonStatus, DigestRef, MutationPromotionRecord, MutationVerificationRecord,
    PromotionStatus, ProvenanceRef, VerificationCheckResult, VerificationCheckStatus,
    VerificationStatus,
};
use autopoietic::strmap::StringMap;

fn provenance(source: &str) -> ProvenanceRef {
    ProvenanceRef {
        kind: "jsonl-record".to_owned(),
        source: source.to_owned(),
        digest: DigestRef {
            algorithm: "sha256".to_owned(),
            value: "sha256:aaaaaaaaaaaaaaaaaaaaaaaaaaaaaaaaaaaaaaaaaaaaaaaaaaaaaaaaaaaaaaaa".to_owned(),
        },
        schema_version: "0.1.0".to_owned(),
        metadata: StringMap::new(),
    }
}

fn check(status: VerificationCheckStatus) -> VerificationCheckResult {
    VerificationCheckResult {
        name: "nix-flake-check".to_owned(),
        command: "nix".to_owned(),
        args: vec!["flake".to_owned(), "check".to_owned()],
        status,
        exit_code: Some(0),
        stdout: String::new(),
        stderr: String::new(),
    }
}

fn verification_record(status: VerificationStatus) -> MutationVerificationRecord {
    MutationVerificationRecord {
        verification_id: "ver-test".to_owned(),
        timestamp: "2026-05-10T00:00:00Z".to_owned(),
        mutation_id: "mut-test".to_owned(),
        goal: "test evidence mapping".to_owned(),
        phase: "P1".to_owned(),
        status,
        reason: "test verification".to_owned(),
        proposal_fingerprint: "sha256:bbbbbbbbbbbbbbbbbbbbbbbbbbbbbbbbbbbbbbbbbbbbbbbbbbbbbbbbbbbbbbbb".to_owned(),
        root_fingerprint: "sha256:cccccccccccccccccccccccccccccccccccccccccccccccccccccccccccccccc".to_owned(),
        changed_paths: vec!["README.md".to_owned()],
        checks: vec![check(VerificationCheckStatus::Passed)],
        side_effects: Vec::new(),
        metadata: StringMap::new(),
    }
}

fn promotion_record(status: PromotionStatus) -> MutationPromotionRecord {
    MutationPromotionRecord {
        promotion_id: "pro-test".to_owned(),
        timestamp: "2026-05-10T00:00:00Z".to_owned(),
        mutation_id: "mut-test".to_owned(),
        goal: "test evidence mapping".to_owned(),
        phase: "P2".to_owned(),
        status,
        reason: "test promotion".to_owned(),
        verification_id: Some("ver-test".to_owned()),
        proposal_fingerprint: "sha256:bbbbbbbbbbbbbbbbbbbbbbbbbbbbbbbbbbbbbbbbbbbbbbbbbbbbbbbbbbbbbbbb".to_owned(),
        verified_root_fingerprint: Some(
            "sha256:cccccccccccccccccccccccccccccccccccccccccccccccccccccccccccccccc".to_owned(),
        ),
        promotion_root_fingerprint: "sha256:cccccccccccccccccccccccccccccccccccccccccccccccccccccccccccccccc".to_owned(),
        parent_genome: "git:parent".to_owned(),
        target_configuration: "iso".to_owned(),
        changed_paths: vec!["README.md".to_owned()],
        changed_organs: vec!["docs".to_owned()],
        checks: vec![check(VerificationCheckStatus::Passed)],
        metadata: StringMap::new(),
    }
}

#[test]
fn verification_record_maps_to_backed_evidence_bundle() {
    let bundle = verification_record(VerificationStatus::Verified)
        .to_evidence_bundle(provenance("memory/mutation-results.jsonl:1"));

    assert_eq!(bundle.schema_version, "0.1.0");
    assert_eq!(bundle.subject.mutation_id, "mut-test");
    assert_eq!(bundle.subject.generation_id, None);
    assert_eq!(bundle.claims[0].claim, "mutation verified");
    assert!(bundle.claims[0].backing.contains(&"observation:ver-test:record".to_owned()));
    assert!(bundle
        .canonical_facts
        .iter()
        .any(|fact| fact.fact_id == "fact:ver-test:root-fingerprint"));
}

#[test]
fn promotion_record_maps_root_fingerprint_comparison() {
    let bundle = promotion_record(PromotionStatus::Promoted)
        .to_evidence_bundle(provenance("memory/mutation-promotions.jsonl:1"));

    assert_eq!(
        bundle.subject.root_fingerprint.as_deref(),
        Some("sha256:cccccccccccccccccccccccccccccccccccccccccccccccccccccccccccccccc")
    );
    assert_eq!(bundle.claims[0].claim, "mutation promoted");
    assert_eq!(bundle.comparisons[0].status, ComparisonStatus::Matched);
    assert!(bundle.claims[0]
        .backing
        .contains(&"comparison:pro-test:verified-root-vs-promotion-root".to_owned()));
}

#[test]
fn promotion_record_marks_root_fingerprint_drift_as_stale() {
    let mut record = promotion_record(PromotionStatus::Rejected);
    record.promotion_root_fingerprint =
        "sha256:dddddddddddddddddddddddddddddddddddddddddddddddddddddddddddddddd".to_owned();

    let bundle = record.to_evidence_bundle(provenance("memory/mutation-promotions.jsonl:2"));

    assert_eq!(bundle.comparisons[0].status, ComparisonStatus::Stale);
    assert_eq!(bundle.claims[0].claim, "promotion rejected");
}

#[test]
fn promotion_record_marks_missing_verified_root_as_missing() {
    let mut record = promotion_record(PromotionStatus::Rejected);
    record.verified_root_fingerprint = None;
    record.promotion_root_fingerprint = "unavailable:no-verification-evidence".to_owned();

    let bundle = record.to_evidence_bundle(provenance("memory/mutation-promotions.jsonl:3"));

    assert_eq!(bundle.comparisons[0].status, ComparisonStatus::Missing);
    assert!(bundle.comparisons[0].reason.contains("missing P1"));
}

#[test]
fn promotion_record_marks_unavailable_root_as_incomparable() {
    let mut record = promotion_record(PromotionStatus::Rejected);
    record.promotion_root_fingerprint = "unavailable:not-verified".to_owned();

    let bundle = record.to_evidence_bundle(provenance("memory/mutation-promotions.jsonl:4"));

    assert_eq!(bundle.comparisons[0].status, ComparisonStatus::Incomparable);
    assert!(bundle.comparisons[0].reason.contains("unavailable"));
}

#[test]
fn every_claim_of_a_bundle_is_backed_by_named_evidence() {
    let bundle = promotion_record(PromotionStatus::Promoted)
        .to_evidence_bundle(provenance("memory/mutation-promotions.jsonl:1"));
    for claim in &bundle.claims {
        for backing in &claim.backing {
            let named = bundle.observations.iter().any(|o| &o.observation_id == backing)
                || bundle.canonical_facts.iter().any(|f| &f.fact_id == backing)
                || bundle.comparisons.iter().any(|c| &c.comparison_id == backing)
                || bundle.inputs.iter().any(|i| &i.input_id == backing);
            assert!(named, "claim backing {backing} names no evidence");
        }
    }
}
