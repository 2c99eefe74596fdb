use autopoietic::digest::sha256_uri;
use autopoietic::install_plan::{
    generation_record, matches_selector, planned_effect_records, planned_generation, seed_manifest, select_promotion,
    select_verification, selector_summary, target_path_for_installed_path,
    validate_install_plan_input, validate_verification_seed, InstallPlanSettings, RecordPathFacts,
};
use autopoietic::install_verify::{
    install_verify_output, validate_install_verify_plan, verify_seed_file, verify_seed_files, SeedRead,
};
use autopoietic::records::{
    EffectRisk, GenerationRecord, InstallPlanOutput, InstallSeedFilePlan, InstallSeedFileStatus,
    InstallSeedManifest, LineageStatus, MutationPromotionRecord, MutationVerificationRecord,
    PlannedEffect, PromotionStatus, VerificationCheckResult, VerificationCheckStatus,
    VerificationStatus,
};
use autopoietic::records::{ComparisonStatus, DigestRef, ProvenanceRef};
use autopoietic::strmap::StringMap;

const ROOT: &str = "/tmp/autopoietic-install-test";

fn promotion(status: PromotionStatus) -> MutationPromotionRecord {
    MutationPromotionRecord {
        promotion_id: "pro-test".to_owned(),
        timestamp: "2026-05-12T00:00:00Z".to_owned(),
        mutation_id: "mut-test".to_owned(),
        goal: "test install plan".to_owned(),
        phase: "P2-test".to_owned(),
        status,
        reason: "test evidence".to_owned(),
        verification_id: Some("ver-test".to_owned()),
        proposal_fingerprint: "sha256:aaaaaaaaaaaaaaaaaaaaaaaaaaaaaaaaaaaaaaaaaaaaaaaaaaaaaaaaaaaaaaaa".to_owned(),
        verified_root_fingerprint: Some(
            "sha256:bbbbbbbbbbbbbbbbbbbbbbbbbbbbbbbbbbbbbbbbbbbbbbbbbbbbbbbbbbbbbbbb".to_owned(),
        ),
        promotion_root_fingerprint: "sha256:bbbbbbbbbbbbbbbbbbbbbbbbbbbbbbbbbbbbbbbbbbbbbbbbbbbbbbbbbbbbbbbb".to_owned(),
        parent_genome: "git:parent".to_owned(),
        target_configuration: "iso".to_owned(),
        changed_paths: vec!["README.md".to_owned()],
        changed_organs: vec!["docs".to_owned()],
        checks: vec![VerificationCheckResult {
            name: "vm-check:iso-boot-basic".to_owned(),
            command: "nix".to_owned(),
            args: Vec::new(),
            status: VerificationCheckStatus::Passed,
            exit_code: Some(0),
            stdout: String::new(),
            stderr: String::new(),
        }],
        metadata: StringMap::new(),
    }
}

fn verification() -> MutationVerificationRecord {
    MutationVerificationRecord {
        verification_id: "ver-test".to_owned(),
        timestamp: "2026-05-12T00:00:00Z".to_owned(),
        mutation_id: "mut-test".to_owned(),
        goal: "test install plan".to_owned(),
        phase: "P1-test".to_owned(),
        status: VerificationStatus::Verified,
        reason: "test verification evidence".to_owned(),
        proposal_fingerprint: "sha256:aaaaaaaaaaaaaaaaaaaaaaaaaaaaaaaaaaaaaaaaaaaaaaaaaaaaaaaaaaaaaaaa".to_owned(),
        root_fingerprint: "sha256:bbbbbbbbbbbbbbbbbbbbbbbbbbbbbbbbbbbbbbbbbbbbbbbbbbbbbbbbbbbbbbbb".to_owned(),
        changed_paths: vec!["README.md".to_owned()],
        checks: vec![VerificationCheckResult {
            name: "verification-smoke".to_owned(),
            command: "true".to_owned(),
            args: Vec::new(),
            status: VerificationCheckStatus::Passed,
            exit_code: Some(0),
            stdout: String::new(),
            stderr: String::new(),
        }],
        side_effects: Vec::new(),
        metadata: StringMap::new(),
    }
}

fn settings(target_root: &str) -> InstallPlanSettings {
    InstallPlanSettings {
        promotion_id: Some("pro-test".to_owned()),
        mutation_id: None,
        target_root: target_root.to_owned(),
        parent_generation: "gen-parent".to_owned(),
        resulting_generation: "gen-child".to_owned(),
        record: false,
    }
}

fn no_facts() -> RecordPathFacts {
    RecordPathFacts {
        journal_absolute: Ok("/var/tmp/generations.jsonl".to_owned()),
        journal_uses_symlink: Ok(false),
        target_root_uses_symlink: Ok(false),
    }
}

fn plan_input(s: &InstallPlanSettings, p: &MutationPromotionRecord) -> Result<(), String> {
    validate_install_plan_input(s, p, &no_facts())
}

fn verify_plan(content_sha256: String) -> InstallPlanOutput {
    let target_root = format!("{ROOT}/installed-root");
    let target_path = format!("{target_root}/etc/autopoietic/identity.json");
    InstallPlanOutput {
        generation: GenerationRecord {
            timestamp: "2026-05-12T00:00:00Z".to_owned(),
            lineage_status: LineageStatus::Planned,
            generation: "gen-child".to_owned(),
            mutation_id: "mut-test".to_owned(),
            goal: "test install verify".to_owned(),
            changed_organs: Vec::new(),
            parent_generation: Some("gen-parent".to_owned()),
            activation_result: "planned-install".to_owned(),
            verification_id: Some("ver-test".to_owned()),
            promotion_id: Some("pro-test".to_owned()),
            target_root: Some(target_root.clone()),
            target_configuration: Some("iso".to_owned()),
            metadata: StringMap::new(),
        },
        seed_manifest: InstallSeedManifest {
            schema_version: "0.1.0".to_owned(),
            generated_at: "2026-05-12T00:00:00Z".to_owned(),
            target_root,
            mutation_id: "mut-test".to_owned(),
            promotion_id: "pro-test".to_owned(),
            lineage_status: LineageStatus::Planned,
            files: vec![InstallSeedFilePlan {
                installed_path: "/etc/autopoietic/identity.json".to_owned(),
                target_path: target_path.clone(),
                source: "test".to_owned(),
                content_sha256,
                effect: PlannedEffect {
                    effect_type: "planned-seed-file-write".to_owned(),
                    target: target_path,
                    reversible: false,
                    compensation: "test".to_owned(),
                    verified_by: "test".to_owned(),
                    risk: EffectRisk::Low,
                    metadata: StringMap::new(),
                },
            }],
        },
    }
}

fn contents() -> Vec<Vec<u8>> {
    vec![b"{}".to_vec(), b"a\n".to_vec(), b"b\n".to_vec(), b"c\n".to_vec(), b"d\n".to_vec()]
}

#[test]
fn promoted_evidence_produces_dry_run_generation_record_without_journal_write() {
    let target_root = format!("{ROOT}/installed-root");
    let s = settings(&target_root);
    let p = promotion(PromotionStatus::Promoted);
    plan_input(&s, &p).expect("promoted evidence is accepted");
    validate_verification_seed(&p, &verification()).expect("seed verification agrees");
    let record = generation_record(&s, &p, "now".to_owned());
    assert_eq!(record.activation_result, "planned-install");
    assert_eq!(record.lineage_status, LineageStatus::Planned);
    assert_eq!(record.mutation_id, "mut-test");
    assert_eq!(record.parent_generation.as_deref(), Some("gen-parent"));
    assert_eq!(record.generation, "gen-child");
    assert_eq!(record.verification_id.as_deref(), Some("ver-test"));
    assert_eq!(record.promotion_id.as_deref(), Some("pro-test"));
    assert_eq!(record.target_configuration.as_deref(), Some("iso"));
    assert_eq!(record.metadata.get("parent_genome").map(String::as_str), Some("git:parent"));
    let manifest = seed_manifest(&target_root, &p, &record, &contents(), "now".to_owned())
        .expect("manifest is built");
    assert_eq!(manifest.lineage_status, LineageStatus::Planned);
    assert_eq!(manifest.files.len(), 5);
    assert!(manifest.files.iter().all(|file| file.content_sha256.starts_with("sha256:")));
    assert!(manifest
        .files
        .iter()
        .any(|file| file.installed_path == "/var/lib/autopoietic/generations.jsonl"));
}

#[test]
fn planned_generation_carries_the_lineage_links() {
    let target_root = format!("{ROOT}/installed-root");
    let s = settings(&target_root);
    let records = vec![promotion(PromotionStatus::Promoted)];
    let (i, g) = planned_generation(&records, &s, &no_facts(), "now".to_owned()).expect("one promotion matches");
    assert_eq!(i, 0);
    assert_eq!(g.activation_result, "planned-install");
    assert_eq!(g.lineage_status, LineageStatus::Planned);
    assert_eq!(g.parent_generation.as_deref(), Some("gen-parent"));
    assert_eq!(g.generation, "gen-child");
    assert_eq!(g.verification_id.as_deref(), Some("ver-test"));
    assert_eq!(g.promotion_id.as_deref(), Some("pro-test"));
    assert_eq!(g.target_configuration.as_deref(), Some("iso"));
    assert_eq!(g.target_root.as_deref(), Some(target_root.as_str()));
    assert_eq!(g.metadata.get("parent_genome").map(String::as_str), Some("git:parent"));
    let twice = vec![promotion(PromotionStatus::Promoted), promotion(PromotionStatus::Promoted)];
    assert!(planned_generation(&twice, &s, &no_facts(), "now".to_owned())
        .unwrap_err()
        .contains("multiple promotion records"));
}

#[test]
fn seed_manifest_effects_are_planned_not_written() {
    let target_root = format!("{ROOT}/installed-root");
    let s = settings(&target_root);
    let p = promotion(PromotionStatus::Promoted);
    let record = generation_record(&s, &p, "now".to_owned());
    let manifest = seed_manifest(&target_root, &p, &record, &contents(), "now".to_owned()).unwrap();
    for file in &manifest.files {
        assert!(file.target_path.starts_with(ROOT));
        assert_eq!(file.effect.effect_type, "planned-seed-file-write");
        assert!(!file.effect.reversible);
        assert_eq!(file.effect.verified_by, "mutation-runner install-plan");
        assert_eq!(file.effect.target, file.target_path);
    }
    assert_eq!(
        manifest.files[0].target_path,
        format!("{ROOT}/installed-root/etc/autopoietic/identity.json")
    );
    assert_eq!(manifest.files[1].content_sha256, sha256_uri(b"a\n"));
}

#[test]
fn planned_manifest_passes_install_verification() {
    let target_root = format!("{ROOT}/installed-root");
    let s = settings(&target_root);
    let p = promotion(PromotionStatus::Promoted);
    let record = generation_record(&s, &p, "now".to_owned());
    let manifest = seed_manifest(&target_root, &p, &record, &contents(), "now".to_owned()).unwrap();
    let plan = InstallPlanOutput { generation: record, seed_manifest: manifest };
    assert_eq!(validate_install_verify_plan(&plan), Ok(()));
}

#[test]
fn planned_effects_cover_every_seed_path() {
    let effects = planned_effect_records("/mnt/root/", &promotion(PromotionStatus::Promoted), "now");
    assert_eq!(effects.len(), 5);
    assert_eq!(effects[0].target, "/mnt/root/etc/autopoietic/identity.json");
    assert_eq!(
        effects[0].effect_id,
        format!("eff-plan-{}", sha256_uri(b"pro-test:/mnt/root/etc/autopoietic/identity.json"))
    );
    assert_eq!(effects[4].metadata.get("installed_path").map(String::as_str), Some("/var/lib/autopoietic/effects.jsonl"));
    assert_eq!(effects[2].risk, EffectRisk::Medium);
}

#[test]
fn target_paths_join_the_target_root() {
    assert_eq!(target_path_for_installed_path("/mnt", "/etc/x").unwrap(), "/mnt/etc/x");
    assert_eq!(target_path_for_installed_path("/", "/etc/x").unwrap(), "/etc/x");
    assert_eq!(
        target_path_for_installed_path("/mnt", "etc/x").unwrap_err(),
        "installed seed path must be absolute: etc/x"
    );
}

#[test]
fn mismatched_verification_seed_is_rejected() {
    let mut v = verification();
    v.proposal_fingerprint = "sha256:cccccccccccccccccccccccccccccccccccccccccccccccccccccccccccccccc".to_owned();
    let error = validate_verification_seed(&promotion(PromotionStatus::Promoted), &v)
        .expect_err("mismatched P1 seed fails");
    assert!(error.contains("proposal fingerprint"));
}

#[test]
fn verification_seed_with_failed_checks_is_rejected() {
    let mut v = verification();
    v.checks[0].status = VerificationCheckStatus::Failed;
    let error = validate_verification_seed(&promotion(PromotionStatus::Promoted), &v)
        .expect_err("failed P1 check fails");
    assert!(error.contains("non-passing checks"));
}

#[test]
fn rejected_promotion_evidence_cannot_enter_p3_lineage() {
    let error = plan_input(&settings("/mnt/root"), &promotion(PromotionStatus::Rejected))
        .expect_err("rejected promotion fails");
    assert!(error.contains("requires promoted P2 evidence"));
    assert_eq!(error, "P3 install plan requires promoted P2 evidence, got Rejected");
}

#[test]
fn promoted_evidence_without_checks_is_rejected() {
    let mut record = promotion(PromotionStatus::Promoted);
    record.checks = Vec::new();
    let error = plan_input(&settings("/mnt/root"), &record).expect_err("missing checks fail");
    assert!(error.contains("missing VM check evidence"));
}

#[test]
fn promoted_evidence_without_verified_root_fingerprint_is_rejected() {
    let mut record = promotion(PromotionStatus::Promoted);
    record.verified_root_fingerprint = None;
    let error = plan_input(&settings("/mnt/root"), &record).expect_err("missing root evidence fails");
    assert!(error.contains("verified_root_fingerprint"));
}

#[test]
fn promoted_evidence_without_vm_check_is_rejected() {
    let mut record = promotion(PromotionStatus::Promoted);
    record.checks[0].name = "non-vm-check".to_owned();
    let error = plan_input(&settings("/mnt/root"), &record).expect_err("missing vm check fails");
    assert!(error.contains("missing VM check evidence"));
}

#[test]
fn relative_target_root_is_rejected() {
    let error = plan_input(&settings("relative-root"), &promotion(PromotionStatus::Promoted))
        .expect_err("relative target root fails");
    assert!(error.contains("absolute path"));
}

#[test]
fn record_journal_inside_target_root_is_rejected() {
    let mut s = settings("/mnt/root");
    s.record = true;
    let facts = RecordPathFacts {
        journal_absolute: Ok("/mnt/root/memory/generations.jsonl".to_owned()),
        journal_uses_symlink: Ok(false),
        target_root_uses_symlink: Ok(false),
    };
    let error = validate_install_plan_input(&s, &promotion(PromotionStatus::Promoted), &facts)
        .expect_err("target-root journal fails");
    assert!(error.contains("must not be inside"));
    let facts = RecordPathFacts {
        journal_absolute: Ok("/mnt/root/../root/x.jsonl".to_owned()),
        journal_uses_symlink: Ok(false),
        target_root_uses_symlink: Ok(false),
    };
    let error = validate_install_plan_input(&s, &promotion(PromotionStatus::Promoted), &facts)
        .expect_err("normalized target-root journal fails");
    assert!(error.contains("must not be inside"));
}

#[test]
fn symlinked_record_paths_are_rejected() {
    let mut s = settings("/mnt/root");
    s.record = true;
    let facts = RecordPathFacts {
        journal_absolute: Ok("/var/tmp/generations.jsonl".to_owned()),
        journal_uses_symlink: Ok(true),
        target_root_uses_symlink: Ok(false),
    };
    assert_eq!(
        validate_install_plan_input(&s, &promotion(PromotionStatus::Promoted), &facts).unwrap_err(),
        "generation journal for --record must not traverse symlinks"
    );
}

#[test]
fn blank_generations_are_rejected() {
    let mut s = settings("/mnt/root");
    s.parent_generation = " ".to_owned();
    assert_eq!(
        plan_input(&s, &promotion(PromotionStatus::Promoted)).unwrap_err(),
        "install plan requires a non-empty parent generation"
    );
}

#[test]
fn mutation_id_selector_rejects_multiple_matching_promotions() {
    let mut second = promotion(PromotionStatus::Promoted);
    second.promotion_id = "pro-second".to_owned();
    let records = vec![promotion(PromotionStatus::Promoted), second];
    let error = select_promotion(&records, &None, &Some("mut-test".to_owned()))
        .expect_err("multiple promotions fail");
    assert!(error.contains("multiple promotion records"));
    assert_eq!(
        error,
        "multiple promotion records matched selector mutation_id=mut-test; rerun with a unique --promotion-id"
    );
}

#[test]
fn promotion_id_selector_allows_matching_promotion_among_multiple_records() {
    let mut second = promotion(PromotionStatus::Promoted);
    second.promotion_id = "pro-second".to_owned();
    let records = vec![promotion(PromotionStatus::Promoted), second];
    assert_eq!(select_promotion(&records, &Some("pro-second".to_owned()), &None), Ok(1));
    assert!(matches_selector(&Some("pro-test".to_owned()), &Some("mut-test".to_owned()), &records[0]));
    assert_eq!(
        selector_summary(&Some("p".to_owned()), &Some("m".to_owned())),
        "promotion_id=p, mutation_id=m"
    );
    assert_eq!(
        select_promotion(&records, &Some("absent".to_owned()), &None).unwrap_err(),
        "no matching promotion evidence found"
    );
}

#[test]
fn verification_selection_finds_the_one_record() {
    let records = vec![verification()];
    assert_eq!(select_verification(&records, None, "ver-test", "mut-test"), Ok(0));
    let twice = vec![verification(), verification()];
    assert_eq!(
        select_verification(&twice, Some("line 3 unreadable".to_owned()), "ver-test", "mut-test")
            .unwrap_err(),
        "multiple verification records matched promotion evidence"
    );
    assert_eq!(
        select_verification(&records, Some("line 2 unreadable".to_owned()), "ver-test", "mut-test")
            .unwrap_err(),
        "line 2 unreadable"
    );
    assert_eq!(
        select_verification(&records, None, "ver-other", "mut-test").unwrap_err(),
        "no matching P1 verification evidence found"
    );
}

#[test]
fn install_verify_succeeds_when_seed_files_match_manifest_hashes() {
    let content = br#"{"host":"iso"}"#;
    let plan = verify_plan(sha256_uri(content));
    validate_install_verify_plan(&plan).expect("plan verifies");
    let file = verify_seed_file(&plan.seed_manifest.files[0], &SeedRead::Bytes(content.to_vec()));
    assert_eq!(file.status, InstallSeedFileStatus::Matched);
    assert_eq!(file.reason, "content hash matched");
    let output = install_verify_output(&plan, vec![file], "now".to_owned());
    assert!(output.all_matched);
}

#[test]
fn install_verify_reports_missing_seed_files() {
    let plan = verify_plan(sha256_uri(b"expected"));
    let file = verify_seed_file(&plan.seed_manifest.files[0], &SeedRead::NotFound);
    let output = install_verify_output(&plan, vec![file], "now".to_owned());
    assert!(!output.all_matched);
    assert_eq!(output.files[0].status, InstallSeedFileStatus::Missing);
}

#[test]
fn install_verify_reports_mismatched_seed_files() {
    let plan = verify_plan(sha256_uri(b"expected"));
    let file = verify_seed_file(&plan.seed_manifest.files[0], &SeedRead::Bytes(b"actual".to_vec()));
    let output = install_verify_output(&plan, vec![file], "now".to_owned());
    assert!(!output.all_matched);
    assert_eq!(output.files[0].status, InstallSeedFileStatus::Mismatched);
    assert_eq!(output.files[0].actual_sha256.as_deref(), Some(sha256_uri(b"actual").as_str()));
}

#[test]
fn install_verify_reports_read_errors() {
    let plan = verify_plan(sha256_uri(b"expected"));
    let file = verify_seed_file(
        &plan.seed_manifest.files[0],
        &SeedRead::Failed("target path is not a regular seed file".to_owned()),
    );
    assert_eq!(file.status, InstallSeedFileStatus::Error);
    assert_eq!(file.reason, "failed to read target file: target path is not a regular seed file");
    assert_eq!(file.actual_sha256, None);
}

#[test]
fn install_verify_rejects_empty_seed_manifest() {
    let mut plan = verify_plan(sha256_uri(b"expected"));
    plan.seed_manifest.files = Vec::new();
    let error = validate_install_verify_plan(&plan).expect_err("empty manifest fails");
    assert!(error.contains("no files"));
}

#[test]
fn install_verify_rejects_unsupported_seed_manifest_schema_version() {
    let mut plan = verify_plan(sha256_uri(b"expected"));
    plan.seed_manifest.schema_version = "9.9.9".to_owned();
    let error = validate_install_verify_plan(&plan).expect_err("unsupported schema version fails");
    assert!(error.contains("schema_version"));
}

#[test]
fn install_verify_rejects_malformed_seed_manifest_hashes() {
    let mut plan = verify_plan(sha256_uri(b"expected"));
    plan.seed_manifest.files[0].content_sha256 = "not-a-sha256-uri".to_owned();
    let error = validate_install_verify_plan(&plan).expect_err("malformed content hash fails");
    assert!(error.contains("content_sha256"));
    plan.seed_manifest.files[0].content_sha256 =
        "sha256:AAAAAAAAAAAAAAAAAAAAAAAAAAAAAAAAAAAAAAAAAAAAAAAAAAAAAAAAAAAAAAAA".to_owned();
    assert!(validate_install_verify_plan(&plan).is_err());
}

#[test]
fn install_verify_rejects_relative_installed_paths() {
    let mut plan = verify_plan(sha256_uri(b"expected"));
    plan.seed_manifest.files[0].installed_path = "etc/autopoietic/identity.json".to_owned();
    let error = validate_install_verify_plan(&plan).expect_err("relative installed path fails");
    assert!(error.contains("installed_path"));
}

#[test]
fn install_verify_rejects_installed_paths_with_parent_components() {
    let mut plan = verify_plan(sha256_uri(b"expected"));
    plan.seed_manifest.files[0].installed_path = "/etc/../identity.json".to_owned();
    let error = validate_install_verify_plan(&plan).expect_err("parent components in installed path fail");
    assert!(error.contains("parent components"));
}

#[test]
fn install_verify_rejects_relative_target_paths() {
    let mut plan = verify_plan(sha256_uri(b"expected"));
    plan.seed_manifest.files[0].target_path = "relative/path".to_owned();
    let error = validate_install_verify_plan(&plan).expect_err("relative target path fails");
    assert!(error.contains("must be absolute"));
}

#[test]
fn install_verify_rejects_target_paths_outside_target_root() {
    let mut plan = verify_plan(sha256_uri(b"expected"));
    plan.seed_manifest.files[0].target_path = format!("{ROOT}/outside-file");
    let error = validate_install_verify_plan(&plan).expect_err("outside target path fails");
    assert!(error.contains("outside target_root"));
}

#[test]
fn install_verify_rejects_target_paths_that_do_not_match_installed_paths() {
    let mut plan = verify_plan(sha256_uri(b"expected"));
    plan.seed_manifest.files[0].target_path =
        format!("{ROOT}/installed-root/var/lib/autopoietic/identity.json");
    let error = validate_install_verify_plan(&plan).expect_err("target path must match installed path");
    assert!(error.contains("installed_path"));
}

#[test]
fn install_verify_accepts_equivalent_spellings_of_the_target_path() {
    let mut plan = verify_plan(sha256_uri(b"expected"));
    plan.seed_manifest.files[0].target_path =
        format!("{ROOT}/installed-root/./etc//autopoietic/x/../identity.json");
    assert_eq!(validate_install_verify_plan(&plan), Ok(()));
}

#[test]
fn seed_files_are_checked_one_by_one() {
    let plan = verify_plan(sha256_uri(b"expected"));
    let files = verify_seed_files(&plan, &vec![SeedRead::Bytes(b"expected".to_vec())]);
    assert_eq!(files.len(), 1);
    assert_eq!(files[0].status, InstallSeedFileStatus::Matched);
    assert_eq!(files[0].installed_path, plan.seed_manifest.files[0].installed_path);
    let files = verify_seed_files(&plan, &vec![SeedRead::NotFound]);
    assert_eq!(files[0].status, InstallSeedFileStatus::Missing);
}

fn raw(source: &str) -> ProvenanceRef {
    ProvenanceRef {
        kind: "install-output".to_owned(),
        source: source.to_owned(),
        digest: DigestRef { algorithm: "sha256".to_owned(), value: sha256_uri(b"output") },
        schema_version: "0.1.0".to_owned(),
        metadata: StringMap::new(),
    }
}

#[test]
fn install_plan_bundle_is_planned_p3_evidence() {
    let mut plan = verify_plan(sha256_uri(b"seed"));
    plan.generation.metadata.insert("proposal_fingerprint".to_owned(), sha256_uri(b"proposal"));
    let bundle = plan.to_evidence_bundle(raw("mutation-runner install-plan output"));
    assert_eq!(bundle.phase, "P3");
    assert_eq!(bundle.bundle_id, "evidence:install-plan:gen-child");
    assert_eq!(bundle.subject.generation_id.as_deref(), Some("gen-child"));
    assert_eq!(bundle.subject.mutation_id, "mut-test");
    assert_eq!(bundle.subject.proposal_fingerprint, sha256_uri(b"proposal"));
    assert_eq!(bundle.claims[0].claim, "install planned");
    assert_eq!(
        bundle.claims[0].backing,
        vec!["observation:install-plan:gen-child:record".to_owned(), "fact:install-plan:gen-child:generation".to_owned()]
    );
    assert_eq!(bundle.canonical_facts[3].fact_id, "fact:install-plan:gen-child:seed-file-hashes");
    assert_eq!(bundle.observations[0].raw_ref.source, "mutation-runner install-plan output");
    assert!(bundle.comparisons.is_empty());
}

#[test]
fn install_verify_bundle_compares_each_seed_file() {
    let plan = verify_plan(sha256_uri(b"seed"));
    let files = verify_seed_files(&plan, &vec![SeedRead::Bytes(b"seed".to_vec())]);
    let output = install_verify_output(&plan, files, "now".to_owned());
    let bundle = output.to_evidence_bundle(raw("mutation-runner install-verify output"));
    assert_eq!(bundle.claims[0].claim, "seed files verified");
    assert_eq!(bundle.comparisons.len(), 1);
    assert_eq!(bundle.comparisons[0].status, ComparisonStatus::Matched);
    assert_eq!(bundle.comparisons[0].left_ref, sha256_uri(b"seed"));
    assert_eq!(bundle.observations[0].raw_ref.source, "mutation-runner install-verify output");

    let files = verify_seed_files(&plan, &vec![SeedRead::NotFound]);
    let output = install_verify_output(&plan, files, "now".to_owned());
    let bundle = output.to_evidence_bundle(raw("mutation-runner install-verify output"));
    assert_eq!(bundle.claims[0].claim, "seed verification failed");
    assert_eq!(bundle.comparisons[0].status, ComparisonStatus::Missing);
    assert_eq!(bundle.comparisons[0].right_ref, "unavailable");
}
