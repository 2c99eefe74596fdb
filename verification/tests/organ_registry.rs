use autopoietic::organs::{add_organ, duplicate_values, review_organs};
use autopoietic::records::{
    DecayStatus, GenerationRecord, LineageStatus, MutationPromotionRecord, OrganRecord,
    OrganReviewStatus, OrganType, PromotionStatus, VerificationCheckResult,
    VerificationCheckStatus,
};
use autopoietic::records::{DigestRef, ProvenanceRef};
use autopoietic::strmap::StringMap;
use autopoietic::suggest::{source_status, suggest_organs, suggestion_limits};

fn organ(name: &str, status: Option<DecayStatus>) -> OrganRecord {
    add_organ(
        name.to_owned(),
        OrganType::Cli,
        format!("crates/{name}"),
        format!("test organ {name}"),
        Some("test".to_owned()),
        Some(1),
        Some(0),
        vec!["p4-test".to_owned()],
        status,
    )
    .expect("organ should be added")
}

fn check_result() -> VerificationCheckResult {
    VerificationCheckResult {
        name: "test-check".to_owned(),
        command: "true".to_owned(),
        args: Vec::new(),
        status: VerificationCheckStatus::Passed,
        exit_code: Some(0),
        stdout: String::new(),
        stderr: String::new(),
    }
}

fn promotion_record(id: &str, changed_organs: Vec<String>) -> MutationPromotionRecord {
    MutationPromotionRecord {
        promotion_id: id.to_owned(),
        timestamp: "2026-05-11T00:00:00Z".to_owned(),
        mutation_id: format!("mut-{id}"),
        goal: format!("promote {id}"),
        phase: "P2".to_owned(),
        status: PromotionStatus::Promoted,
        reason: "test promotion".to_owned(),
        verification_id: Some(format!("ver-{id}")),
        proposal_fingerprint: "sha256:bbbbbbbbbbbbbbbbbbbbbbbbbbbbbbbbbbbbbbbbbbbbbbbbbbbbbbbbbbbbbbbb".to_owned(),
        verified_root_fingerprint: Some(
            "sha256:cccccccccccccccccccccccccccccccccccccccccccccccccccccccccccccccc".to_owned(),
        ),
        promotion_root_fingerprint: "sha256:cccccccccccccccccccccccccccccccccccccccccccccccccccccccccccccccc".to_owned(),
        parent_genome: "git:parent".to_owned(),
        target_configuration: "iso".to_owned(),
        changed_paths: vec!["README.md".to_owned()],
        changed_organs,
        checks: vec![check_result()],
        metadata: StringMap::new(),
    }
}

fn generation_record(id: &str, changed_organs: Vec<String>) -> GenerationRecord {
    GenerationRecord {
        timestamp: "2026-05-11T00:00:01Z".to_owned(),
        lineage_status: LineageStatus::Planned,
        generation: id.to_owned(),
        mutation_id: format!("mut-{id}"),
        goal: format!("plan {id}"),
        changed_organs,
        parent_generation: Some("gen-parent".to_owned()),
        activation_result: "planned-install".to_owned(),
        verification_id: Some(format!("ver-{id}")),
        promotion_id: Some(format!("pro-{id}")),
        target_root: Some("/mnt/autopoietic".to_owned()),
        target_configuration: Some("iso".to_owned()),
        metadata: StringMap::new(),
    }
}

#[test]
fn add_organ_appends_registry_record() {
    let record = organ("mutation-journal", Some(DecayStatus::Active));
    assert_eq!(record.name, "mutation-journal");
    assert_eq!(record.decay_status, Some(DecayStatus::Active));
    assert_eq!(record.source, "crates/mutation-journal");
}

#[test]
fn add_organ_rejects_blank_fields_in_order() {
    let error = add_organ(
        " ".to_owned(),
        OrganType::Cli,
        "".to_owned(),
        "p".to_owned(),
        None,
        None,
        None,
        Vec::new(),
        None,
    )
    .expect_err("empty organ name should fail");
    assert_eq!(error, "organ name must not be empty");
    let error = add_organ(
        "n".to_owned(),
        OrganType::Cli,
        "\t".to_owned(),
        "p".to_owned(),
        None,
        None,
        None,
        Vec::new(),
        None,
    )
    .expect_err("empty organ source should fail");
    assert_eq!(error, "organ source must not be empty");
}

#[test]
fn suggest_organs_reports_changed_organs_missing_from_registry() {
    let registry = vec![organ("registered-cli", Some(DecayStatus::Active))];
    let promotions = vec![promotion_record(
        "pro-one",
        vec!["registered-cli".to_owned(), "new-service".to_owned()],
    )];
    let generations = vec![generation_record(
        "gen-one",
        vec!["new-service".to_owned(), "new-module".to_owned()],
    )];

    let suggestions = suggest_organs(
        &registry,
        &promotions,
        &generations,
        (true, true, true),
        "organs.jsonl".to_owned(),
        "promotions.jsonl".to_owned(),
        "generations.jsonl".to_owned(),
        "2026-05-11T00:00:02Z".to_owned(),
    );

    assert_eq!(suggestions.registered_organs, vec!["registered-cli".to_owned()]);
    assert_eq!(suggestions.source_statuses.get("promotions").map(String::as_str), Some("loaded:1"));
    assert_eq!(suggestions.source_statuses.get("generations").map(String::as_str), Some("loaded:1"));
    assert_eq!(suggestions.candidates.len(), 2);
    assert_eq!(suggestions.candidates[0].name, "new-module");
    assert_eq!(suggestions.candidates[1].name, "new-service");
    assert!(suggestions.candidates[1].observed_in.contains(&"promotion:pro-one".to_owned()));
    assert!(suggestions.candidates[1].observed_in.contains(&"generation:gen-one".to_owned()));
    assert_eq!(
        suggestions.observed_changed_organs,
        vec!["new-module".to_owned(), "new-service".to_owned(), "registered-cli".to_owned()]
    );
    assert_eq!(
        suggestions.candidates[1].evidence.get("mutation_ids").map(String::as_str),
        Some("mut-pro-one,mut-gen-one")
    );
    assert!(suggestions.limits.is_empty());
}

#[test]
fn suggestion_evidence_holds_only_observed_kinds() {
    let generations = vec![generation_record("gen-one", vec!["new-module".to_owned()])];
    let suggestions = suggest_organs(
        &Vec::new(),
        &Vec::new(),
        &generations,
        (true, true, true),
        "organs.jsonl".to_owned(),
        "promotions.jsonl".to_owned(),
        "generations.jsonl".to_owned(),
        "now".to_owned(),
    );
    assert_eq!(suggestions.candidates.len(), 1);
    let c = &suggestions.candidates[0];
    assert_eq!(c.observed_in, vec!["generation:gen-one".to_owned()]);
    assert_eq!(c.evidence.get("generation_ids").map(String::as_str), Some("gen-one"));
    assert_eq!(c.evidence.get("mutation_ids").map(String::as_str), Some("mut-gen-one"));
    assert_eq!(c.evidence.get("promotion_ids"), None);
    assert_eq!(c.evidence.len(), 2);
    assert_eq!(c.reason, "changed_organs mentions this organ, but the registry has no matching name");
}

#[test]
fn suggest_organs_treats_missing_sources_as_empty() {
    let registry = vec![organ("registered-cli", Some(DecayStatus::Active))];
    let suggestions = suggest_organs(
        &registry,
        &Vec::new(),
        &Vec::new(),
        (true, false, false),
        "organs.jsonl".to_owned(),
        "promotions.jsonl".to_owned(),
        "generations.jsonl".to_owned(),
        "now".to_owned(),
    );
    assert!(suggestions.observed_changed_organs.is_empty());
    assert!(suggestions.candidates.is_empty());
    assert_eq!(
        suggestions.source_statuses.get("promotions").map(String::as_str),
        Some("missing:treated-as-empty")
    );
    assert!(suggestions
        .limits
        .iter()
        .any(|limit| limit.contains("promotions source was missing")));
    assert_eq!(suggestions.limits.len(), 2);
    assert_eq!(suggestions.schema_version, "0.1.0");
}

#[test]
fn suggest_organs_ignores_rejected_promotions() {
    let mut rejected = promotion_record("pro-rejected", vec!["rejected-organ".to_owned()]);
    rejected.status = PromotionStatus::Rejected;
    let suggestions = suggest_organs(
        &Vec::new(),
        &vec![rejected],
        &Vec::new(),
        (false, true, false),
        "organs.jsonl".to_owned(),
        "promotions.jsonl".to_owned(),
        "generations.jsonl".to_owned(),
        "now".to_owned(),
    );
    assert!(suggestions.observed_changed_organs.is_empty());
    assert!(suggestions.candidates.is_empty());
}

#[test]
fn source_status_and_limits_follow_source_presence() {
    assert_eq!(source_status(true, 3), "loaded:3");
    assert_eq!(source_status(false, 0), "missing:treated-as-empty");
    let mut statuses = StringMap::new();
    statuses.insert("registry".to_owned(), "loaded:0".to_owned());
    statuses.insert("generations".to_owned(), "missing:treated-as-empty".to_owned());
    assert_eq!(
        suggestion_limits(&statuses),
        vec!["generations source was missing, so absence of candidates is not proof that every changed organ is registered".to_owned()]
    );
}

#[test]
fn review_groups_records_by_decay_status() {
    let mut stale = organ("old-tool", None);
    stale.usage_count = Some(0);
    let mut failing = organ("flaky", None);
    failing.failure_count = Some(2);
    let mut goalless = organ("orphan", None);
    goalless.related_goals = Vec::new();
    let records = vec![
        organ("active-one", Some(DecayStatus::Active)),
        stale,
        failing,
        goalless,
        organ("plain", None),
    ];
    let output = review_organs(&records, "organs.jsonl".to_owned(), "now".to_owned());
    assert_eq!(output.total_organs, 5);
    assert_eq!(output.active, vec!["active-one".to_owned()]);
    assert_eq!(output.stale, vec!["old-tool".to_owned()]);
    assert_eq!(output.failed, vec!["flaky".to_owned()]);
    assert_eq!(output.candidates, vec!["orphan".to_owned()]);
    assert_eq!(output.unknown, vec!["plain".to_owned()]);
    assert_eq!(output.findings[1].status, OrganReviewStatus::Stale);
    assert_eq!(output.findings[1].reason, "usage_count is zero");
    assert_eq!(output.findings[2].reason, "failure_count is greater than zero");
    assert_eq!(
        output.findings[0].evidence.get("declared_decay_status").map(String::as_str),
        Some("Active")
    );
}

#[test]
fn review_detects_duplicate_names_first() {
    let mut twin = organ("twin", Some(DecayStatus::Active));
    twin.source = "crates/other".to_owned();
    let records = vec![organ("twin", Some(DecayStatus::Active)), twin];
    let output = review_organs(&records, "organs.jsonl".to_owned(), "now".to_owned());
    assert_eq!(output.duplicate, vec!["twin".to_owned(), "twin".to_owned()]);
    assert_eq!(output.findings[0].reason, "duplicate organ name");
}

#[test]
fn duplicate_values_are_sorted_and_distinct() {
    let values = vec!["b".to_owned(), "a".to_owned(), "b".to_owned(), "c".to_owned(), "a".to_owned(), "b".to_owned()];
    assert_eq!(duplicate_values(&values), vec!["a".to_owned(), "b".to_owned()]);
}

fn raw(source: &str) -> ProvenanceRef {
    ProvenanceRef {
        kind: "organ-output".to_owned(),
        source: source.to_owned(),
        digest: DigestRef { algorithm: "sha256".to_owned(), value: "sha256:0".to_owned() },
        schema_version: "0.1.0".to_owned(),
        metadata: StringMap::new(),
    }
}

#[test]
fn organ_review_bundle_is_read_only_p4_evidence() {
    let records = vec![organ("mutation-journal", Some(DecayStatus::Active))];
    let output = review_organs(&records, "organs.jsonl".to_owned(), "now".to_owned());
    let bundle = output.to_evidence_bundle(raw("organ review:organs.jsonl"));
    assert_eq!(bundle.phase, "P4");
    assert_eq!(bundle.claims[0].claim, "organ decay review generated");
    assert!(bundle.claims[0].limits.iter().any(|limit| limit.contains("read-only")));
    assert_eq!(bundle.canonical_facts[0].fact_id, "fact:organ-review:total-organs");
    assert_eq!(bundle.canonical_facts[1].fact_id, "fact:organ-review:active");
}

#[test]
fn organ_suggest_bundle_names_candidate_organs() {
    let promotions = vec![promotion_record("pro-one", vec!["new-service".to_owned()])];
    let output = suggest_organs(
        &Vec::new(),
        &promotions,
        &Vec::new(),
        (false, true, false),
        "organs.jsonl".to_owned(),
        "promotions.jsonl".to_owned(),
        "generations.jsonl".to_owned(),
        "now".to_owned(),
    );
    let bundle = output.to_evidence_bundle(raw("organ suggest:organs.jsonl"));
    assert_eq!(output.candidates.len(), 1);
    assert_eq!(bundle.phase, "P4");
    assert_eq!(bundle.claims[0].claim, "organ registry suggestions generated");
    assert!(bundle.canonical_facts.iter().any(|fact| fact.fact_id == "fact:organ-suggest:candidate-organs"));
    assert_eq!(bundle.claims[0].limits.len(), output.limits.len() + 1);
}
