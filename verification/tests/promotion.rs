use autopoietic::digest::{root_fingerprint_of, sha256_uri};
use autopoietic::promote_run::{
    promote_proposal, promotion_record, validate_target_checks, nix_vm_check, PromoteAction,
    PromotionEvidence, PromotionSettings,
};
use autopoietic::records::{
    MutationPromotionRecord, MutationProposal, MutationVerificationRecord, PromotionStatus,
    ProposalCheck, VerificationCheckResult, VerificationCheckStatus, VerificationStatus,
};
use autopoietic::strmap::StringMap;
use autopoietic::verify_run::PatchRead;

/// A genome of one file, `README.md`, holding `readme`.
fn genome(readme: &str) -> Vec<(String, Vec<u8>)> {
    vec![("README.md".to_owned(), readme.as_bytes().to_vec())]
}

/// The root fingerprint of the genome the verification saw.
fn root_fp() -> String {
    root_fingerprint_of(&genome("old\n"))
}

fn patch_one_file(path: &str, old: &str, new: &str) -> String {
    format!("diff --git a/{path} b/{path}\n--- a/{path}\n+++ b/{path}\n@@ -1 +1 @@\n-{old}\n+{new}\n")
}

fn proposal(patch: &str) -> MutationProposal {
    MutationProposal {
        schema_version: "0.1.0".to_owned(),
        mutation_id: "mut-promote".to_owned(),
        goal: "promote proposal".to_owned(),
        phase: "P2-test".to_owned(),
        changed_paths: vec!["README.md".to_owned()],
        expected_checks: Vec::new(),
        patch: Some(patch.to_owned()),
        patch_path: None,
        side_effects: Vec::new(),
        metadata: StringMap::new(),
    }
}

fn verification(proposal_bytes: &[u8], status: VerificationStatus) -> MutationVerificationRecord {
    MutationVerificationRecord {
        verification_id: "ver-test".to_owned(),
        timestamp: "2026-05-12T00:00:00Z".to_owned(),
        mutation_id: "mut-promote".to_owned(),
        goal: "promote proposal".to_owned(),
        phase: "P1-test".to_owned(),
        status,
        reason: "test evidence".to_owned(),
        proposal_fingerprint: sha256_uri(proposal_bytes),
        root_fingerprint: root_fp(),
        changed_paths: vec!["README.md".to_owned()],
        checks: vec![VerificationCheckResult {
            name: "test".to_owned(),
            command: "true".to_owned(),
            args: Vec::new(),
            status: VerificationCheckStatus::Passed,
            exit_code: Some(0),
            stdout: String::new(),
            stderr: String::new(),
        }],
        side_effects: Vec::new(),
        metadata: StringMap::new(),
    }
}

fn settings() -> PromotionSettings {
    PromotionSettings {
        system: "x86_64-linux".to_owned(),
        target_configuration: "iso".to_owned(),
        vm_checks: Vec::new(),
        parent_genome: "test-parent".to_owned(),
        changed_organs: vec!["docs".to_owned()],
        extra_checks: vec![ProposalCheck {
            name: "promotion-smoke".to_owned(),
            command: "true".to_owned(),
            args: Vec::new(),
        }],
        skip_default_checks: true,
    }
}

/// Drives a promotion, standing in for the file system and the commands:
/// the proposal serializes to `bytes`, the root holds the files `root`,
/// and a check passes unless its command is `false`.
fn run(
    p: &MutationProposal,
    journal: Vec<MutationVerificationRecord>,
    bytes: &[u8],
    root: Vec<(String, Vec<u8>)>,
    s: &PromotionSettings,
) -> (MutationPromotionRecord, Vec<String>) {
    let (mut run, mut action) = promote_proposal(p, Ok(journal));
    let mut ran = Vec::new();
    loop {
        action = match action {
            PromoteAction::ReadPatchFile(_) => run.patch_read(PatchRead::Failed("no file".to_owned())),
            PromoteAction::FingerprintProposal(_) => run.proposal_serialized(p, bytes),
            PromoteAction::FingerprintRoot => run.root_fingerprinted(s, Ok(root.clone())),
            PromoteAction::CreateWorktree => run.worktree_created(Ok("/tmp/promotion-worktree".to_owned())),
            PromoteAction::ApplyPatch(_) => run.patch_applied(s, Ok(())),
            PromoteAction::RunCheck(c) => {
                ran.push(c.name.clone());
                let passed = c.command != "false";
                run.check_done(VerificationCheckResult {
                    name: c.name.clone(),
                    command: c.command.clone(),
                    args: c.args.clone(),
                    status: if passed { VerificationCheckStatus::Passed } else { VerificationCheckStatus::Failed },
                    exit_code: Some(if passed { 0 } else { 1 }),
                    stdout: String::new(),
                    stderr: String::new(),
                })
            }
            PromoteAction::Finish(status, reason) => {
                assert_eq!(run.verdict(), Some(status));
                let (evidence, checks) = run.into_parts();
                let record = promotion_record(p, s, status, reason, evidence, checks, "pro-test".to_owned(), "now".to_owned());
                return (record, ran);
            }
        };
    }
}

#[test]
fn verified_mutation_is_promoted() {
    let p = proposal(&patch_one_file("README.md", "old", "new"));
    let (record, ran) = run(&p, vec![verification(b"v1", VerificationStatus::Verified)], b"v1", genome("old\n"), &settings());
    assert_eq!(record.status, PromotionStatus::Promoted);
    assert_eq!(record.reason, "all promotion checks passed");
    assert_eq!(record.verification_id.as_deref(), Some("ver-test"));
    assert_eq!(record.proposal_fingerprint, sha256_uri(b"v1"));
    assert_eq!(record.promotion_root_fingerprint, root_fp());
    assert_eq!(record.checks[0].name, "apply-patch");
    assert_eq!(ran, vec!["promotion-smoke".to_owned()]);
    assert_eq!(record.changed_organs, vec!["docs".to_owned()]);
}

#[test]
fn missing_verified_evidence_is_rejected() {
    let p = proposal(&patch_one_file("README.md", "old", "new"));
    let (record, _) = run(&p, Vec::new(), b"v1", genome("old\n"), &settings());
    assert_eq!(record.status, PromotionStatus::Rejected);
    assert!(record.reason.contains("no P1 verification evidence"));
    assert_eq!(record.proposal_fingerprint, "unavailable:no-verification-evidence");
    assert_eq!(record.promotion_root_fingerprint, "unavailable:no-verification-evidence");
    assert_eq!(record.verification_id, None);
    assert_eq!(record.verified_root_fingerprint, None);
    assert!(record.checks.is_empty());
}

#[test]
fn rejected_p1_evidence_is_not_promoted() {
    let p = proposal(&patch_one_file("README.md", "old", "new"));
    let (record, _) = run(&p, vec![verification(b"v1", VerificationStatus::Rejected)], b"v1", genome("old\n"), &settings());
    assert_eq!(record.status, PromotionStatus::Rejected);
    assert!(record.reason.contains("is not verified"));
    assert_eq!(record.promotion_root_fingerprint, "unavailable:not-verified");
}

#[test]
fn failed_promotion_check_is_rejected_and_journaled() {
    let p = proposal(&patch_one_file("README.md", "old", "new"));
    let mut s = settings();
    s.extra_checks = vec![ProposalCheck {
        name: "promotion-smoke".to_owned(),
        command: "false".to_owned(),
        args: Vec::new(),
    }];
    let (record, _) = run(&p, vec![verification(b"v1", VerificationStatus::Verified)], b"v1", genome("old\n"), &s);
    assert_eq!(record.status, PromotionStatus::Rejected);
    assert_eq!(record.reason, "one or more promotion checks failed");
}

#[test]
fn changed_proposal_after_verification_is_rejected() {
    let p = proposal(&patch_one_file("README.md", "old", "other"));
    let (record, _) = run(&p, vec![verification(b"v1", VerificationStatus::Verified)], b"v2", genome("old\n"), &settings());
    assert_eq!(record.status, PromotionStatus::Rejected);
    assert!(record.reason.contains("does not match"));
    assert_eq!(record.promotion_root_fingerprint, "unavailable:fingerprint-mismatch");
}

#[test]
fn changed_root_after_verification_is_rejected() {
    let p = proposal(&patch_one_file("README.md", "old", "new"));
    let other = root_fingerprint_of(&genome("changed\n"));
    let (record, _) = run(&p, vec![verification(b"v1", VerificationStatus::Verified)], b"v1", genome("changed\n"), &settings());
    assert_eq!(record.status, PromotionStatus::Rejected);
    assert!(record.reason.contains("root fingerprint does not match"));
    assert_eq!(record.promotion_root_fingerprint, other);
}

#[test]
fn mismatched_target_configuration_is_rejected() {
    let p = proposal(&patch_one_file("README.md", "old", "new"));
    let mut s = settings();
    s.target_configuration = "aion".to_owned();
    s.vm_checks = vec!["iso-boot-basic".to_owned()];
    let (record, _) = run(&p, vec![verification(b"v1", VerificationStatus::Verified)], b"v1", genome("old\n"), &s);
    assert_eq!(record.status, PromotionStatus::Rejected);
    assert!(record.reason.contains("does not match target_configuration"));
}

#[test]
fn latest_verification_record_is_the_evidence() {
    let p = proposal(&patch_one_file("README.md", "old", "new"));
    let mut earlier = verification(b"v1", VerificationStatus::Rejected);
    earlier.verification_id = "ver-old".to_owned();
    let journal = vec![earlier, verification(b"v1", VerificationStatus::Verified)];
    let (record, _) = run(&p, journal, b"v1", genome("old\n"), &settings());
    assert_eq!(record.status, PromotionStatus::Promoted);
    assert_eq!(record.verification_id.as_deref(), Some("ver-test"));
}

#[test]
fn default_vm_checks_run_for_the_target() {
    let p = proposal(&patch_one_file("README.md", "old", "new"));
    let mut s = settings();
    s.skip_default_checks = false;
    s.target_configuration = "iso".to_owned();
    s.vm_checks = vec!["iso-boot-basic".to_owned(), "iso-net".to_owned()];
    let (record, ran) = run(&p, vec![verification(b"v1", VerificationStatus::Verified)], b"v1", genome("old\n"), &s);
    assert_eq!(record.status, PromotionStatus::Promoted);
    assert_eq!(
        ran,
        vec!["vm-check:iso-boot-basic".to_owned(), "vm-check:iso-net".to_owned(), "promotion-smoke".to_owned()]
    );
}

#[test]
fn vm_check_names_must_match_target() {
    let mut s = settings();
    assert_eq!(validate_target_checks(&s), Ok(()));
    s.target_configuration = "aion".to_owned();
    assert_eq!(validate_target_checks(&s), Err("VM check 'iso-boot-basic' does not match target_configuration 'aion'".to_owned()));
    s.target_configuration = "iso".to_owned();
    s.vm_checks = vec!["iso-x".to_owned()];
    assert_eq!(validate_target_checks(&s), Ok(()));
    let c = nix_vm_check("/w", "x86_64-linux", "iso-x");
    assert_eq!(c.name, "vm-check:iso-x");
    assert_eq!(c.args[4], "path:/w#checks.x86_64-linux.iso-x");
}

#[test]
fn unavailable_evidence_names_its_reason() {
    let e = PromotionEvidence::unavailable("verification-journal-error");
    assert_eq!(e.proposal_fingerprint, "unavailable:verification-journal-error");
    assert_eq!(e.promotion_root_fingerprint, "unavailable:verification-journal-error");
    assert!(e.verification_id.is_none());
}

#[test]
fn unreadable_journal_is_an_error() {
    let p = proposal(&patch_one_file("README.md", "old", "new"));
    let (_, action) = promote_proposal(&p, Err("permission denied".to_owned()));
    match action {
        PromoteAction::Finish(status, reason) => {
            assert_eq!(status, PromotionStatus::Error);
            assert_eq!(reason, "failed to read P1 verification evidence: permission denied");
        }
        _ => panic!("an unreadable journal ends the promotion"),
    }
}

#[test]
fn root_fingerprint_digests_paths_and_content_digests() {
    assert_eq!(root_fingerprint_of(&Vec::new()), sha256_uri(b""));
    let mut expected = b"README.md\0".to_vec();
    expected.extend_from_slice(sha256_uri(b"old\n").as_bytes());
    expected.push(b'\n');
    assert_eq!(root_fp(), sha256_uri(&expected));
    assert_ne!(root_fp(), root_fingerprint_of(&genome("new\n")));
}
