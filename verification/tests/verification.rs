use std::collections::HashMap;

use autopoietic::digest::{root_fingerprint_of, sha256_uri};
use autopoietic::journal::proposal_directory;

use autopoietic::checks::{
    apply_patch_check, check_result, guard_patch_location, is_allowed_check, is_safe_test_arg,
    patch_source, validate_proposal, PatchSource,
};
use autopoietic::lines::{split_lines, text_lines, with_newline};
use autopoietic::patch::{
    ensure_old_line, next_patch_step, parse_hunk_old_start, parse_usize, patch_file_change,
    patch_file_path, patch_paths, FileChange, PatchStep,
};
use autopoietic::paths::{normalized_starts_with, path_has_parent_component, validate_relative_path};
use autopoietic::records::{
    EffectRisk, MutationProposal, ProposalCheck, SideEffectDeclaration, VerificationCheckResult,
    VerificationCheckStatus, VerificationStatus,
};
use autopoietic::strmap::StringMap;
use autopoietic::verify_run::{genome_excludes, skip_in_copy, verification_record, verify_proposal, PatchRead, VerifyAction};

fn patch_one_file(path: &str, old: &str, new: &str) -> String {
    format!("diff --git a/{path} b/{path}\n--- a/{path}\n+++ b/{path}\n@@ -1 +1 @@\n-{old}\n+{new}\n")
}

fn base_proposal(patch: &str) -> MutationProposal {
    MutationProposal {
        schema_version: "0.1.0".to_owned(),
        mutation_id: "mut-test".to_owned(),
        goal: "verify proposal".to_owned(),
        phase: "P1-test".to_owned(),
        changed_paths: vec!["README.md".to_owned()],
        expected_checks: vec![ProposalCheck {
            name: "readme-exists".to_owned(),
            command: "test".to_owned(),
            args: vec!["-f".to_owned(), "README.md".to_owned()],
        }],
        patch: Some(patch.to_owned()),
        patch_path: None,
        side_effects: Vec::new(),
        metadata: StringMap::new(),
    }
}

/// Applies a patch to an in-memory tree, the way the runner applies it to
/// a worktree.
fn apply(files: &mut HashMap<String, String>, patch: &str) -> Result<(), String> {
    let lines = text_lines(patch);
    let mut index = 0;
    let mut applied = false;
    loop {
        match next_patch_step(&lines, index, applied) {
            PatchStep::Done(outcome) => return outcome,
            PatchStep::File { target, deletes, body_start } => {
                let old_text = files.get(&target).cloned().unwrap_or_default();
                let (next, change) = patch_file_change(&lines, body_start, &old_text, &target, deletes)?;
                match change {
                    FileChange::Write(contents) => {
                        files.insert(target, contents);
                    }
                    FileChange::Remove => {
                        files.remove(&target);
                    }
                }
                applied = true;
                index = next;
            }
        }
    }
}

/// Drives a verification with every command passing unless it is `false`.
fn verify(p: &MutationProposal, skip_default_checks: bool) -> (VerificationStatus, String, Vec<VerificationCheckResult>) {
    let (mut run, mut action) = verify_proposal(p, skip_default_checks);
    loop {
        action = match action {
            VerifyAction::ReadPatchFile(_) => run.patch_read(p, PatchRead::Failed("failed to read proposal patch".to_owned())),
            VerifyAction::CreateWorktree => run.worktree_created(Ok("/tmp/worktree".to_owned())),
            VerifyAction::ApplyPatch(patch) => {
                let mut files = HashMap::new();
                files.insert("README.md".to_owned(), "old\n".to_owned());
                let outcome = apply(&mut files, &patch);
                run.patch_applied(p, outcome)
            }
            VerifyAction::RunCheck(c) => {
                let ok = c.command != "false";
                let r = check_result(&c, ok, Some(if ok { 0 } else { 1 }), String::new(), String::new());
                run.check_done(r)
            }
            VerifyAction::Finish(status, reason) => {
                assert_eq!(run.verdict(), Some(status));
                let checks = run.into_checks();
                return (status, reason, checks);
            }
        };
    }
}

#[test]
fn valid_docs_proposal_is_verified() {
    let p = base_proposal(&patch_one_file("README.md", "old", "new"));
    let (status, reason, checks) = verify(&p, true);
    assert_eq!(status, VerificationStatus::Verified);
    assert_eq!(reason, "all verifier checks passed");
    assert_eq!(checks.len(), 2);
    assert_eq!(checks[0].name, "apply-patch");
    let files = vec![("README.md".to_owned(), b"new\n".to_vec())];
    let record = verification_record(
        &p,
        status,
        reason,
        checks,
        "ver-1".to_owned(),
        "now".to_owned(),
        Some(b"proposal bytes".as_slice()),
        &Ok(files.clone()),
    );
    assert_eq!(record.mutation_id, "mut-test");
    assert_eq!(record.checks.len(), 2);
    assert_eq!(record.proposal_fingerprint, sha256_uri(b"proposal bytes"));
    assert_eq!(record.root_fingerprint, root_fingerprint_of(&files));
    assert!(record.root_fingerprint.starts_with("sha256:"));
}

#[test]
fn default_flake_check_runs_first() {
    let p = base_proposal(&patch_one_file("README.md", "old", "new"));
    let (status, _, checks) = verify(&p, false);
    assert_eq!(status, VerificationStatus::Verified);
    assert_eq!(checks[1].name, "nix-flake-check");
    assert_eq!(checks[1].args[3], "path:/tmp/worktree");
    assert_eq!(checks.len(), 1 + p.expected_checks.len() + 1);
    assert!(checks.iter().all(|c| c.status == VerificationCheckStatus::Passed));
}

#[test]
fn proposal_with_patch_and_patch_path_is_rejected() {
    let mut p = base_proposal(&patch_one_file("README.md", "old", "new"));
    p.patch_path = Some("patches/readme.diff".to_owned());
    let (status, reason, checks) = verify(&p, true);
    assert_eq!(status, VerificationStatus::Rejected);
    assert_eq!(reason, "proposal must set only one of patch or patch_path");
    assert!(checks.is_empty());
}

#[test]
fn proposal_without_patch_or_patch_path_is_rejected() {
    let mut p = base_proposal("");
    p.patch = None;
    let (status, reason, _) = verify(&p, true);
    assert_eq!(status, VerificationStatus::Rejected);
    assert_eq!(reason, "proposal must set patch or patch_path");
}

#[test]
fn absolute_and_parent_patch_paths_are_rejected() {
    let mut p = base_proposal("");
    p.patch = None;
    p.patch_path = Some("/tmp/readme.diff".to_owned());
    match patch_source(&p) {
        PatchSource::Rejected(r) => assert!(r.contains("must be relative")),
        _ => panic!("absolute patch path is rejected"),
    }
    p.patch_path = Some("../readme.diff".to_owned());
    match patch_source(&p) {
        PatchSource::Rejected(r) => assert!(r.contains("must stay inside")),
        _ => panic!("parent patch path is rejected"),
    }
    p.patch_path = Some("patches/readme.diff".to_owned());
    assert!(matches!(patch_source(&p), PatchSource::File(path) if path == "patches/readme.diff"));
}

#[test]
fn missing_patch_path_file_is_an_error() {
    let mut p = base_proposal("");
    p.patch = None;
    p.patch_path = Some("missing.diff".to_owned());
    let (status, reason, _) = verify(&p, true);
    assert_eq!(status, VerificationStatus::Error);
    assert_eq!(reason, "failed to read proposal patch");
}

#[test]
fn patch_file_must_stay_inside_proposal_directory() {
    assert_eq!(guard_patch_location("/work/proposals", "/work/proposals/p.diff", "p.diff"), Ok(()));
    assert_eq!(
        guard_patch_location("/work/proposals", "/work/other/p.diff", "link.diff").unwrap_err(),
        "proposal patch_path 'link.diff' must stay inside the proposal directory"
    );
}

#[test]
fn undeclared_side_effect_command_is_rejected() {
    let p = base_proposal("--- a/../outside\n+++ b/../outside\n@@ -1 +1 @@\n-a\n+b\n");
    assert_eq!(
        validate_proposal(&p, p.patch.as_deref().unwrap()).unwrap_err(),
        "patch path '../outside' requires an explicit side-effect declaration"
    );
}

#[test]
fn declared_side_effect_command_is_still_rejected_in_p1() {
    let mut p = base_proposal("--- a//etc/hosts\n+++ b//etc/hosts\n@@ -1 +1 @@\n-a\n+b\n");
    p.side_effects = vec![SideEffectDeclaration {
        effect_type: "file-write".to_owned(),
        target: "/etc/hosts".to_owned(),
        reversible: true,
        compensation: "restore".to_owned(),
        risk: EffectRisk::High,
    }];
    assert_eq!(
        validate_proposal(&p, p.patch.as_deref().unwrap()).unwrap_err(),
        "patch path '/etc/hosts' is outside the isolated worktree and cannot be applied in P1"
    );
}

#[test]
fn unlisted_patch_path_is_rejected() {
    let p = base_proposal(&patch_one_file("docs/other.md", "old", "new"));
    assert_eq!(
        validate_proposal(&p, p.patch.as_deref().unwrap()).unwrap_err(),
        "patch path 'docs/other.md' is not listed in changed_paths"
    );
}

#[test]
fn proposal_fields_are_checked_in_order() {
    let mut p = base_proposal(&patch_one_file("README.md", "old", "new"));
    p.schema_version = "9".to_owned();
    assert_eq!(validate_proposal(&p, "x").unwrap_err(), "unsupported proposal schema_version '9'");
    p.schema_version = "0.1.0".to_owned();
    p.goal = "  ".to_owned();
    assert_eq!(validate_proposal(&p, "x").unwrap_err(), "proposal goal is required");
    p.goal = "g".to_owned();
    assert_eq!(validate_proposal(&p, " \n").unwrap_err(), "proposal patch is required");
    assert_eq!(
        validate_proposal(&p, "no headers here").unwrap_err(),
        "proposal patch does not contain a target path"
    );
}

#[test]
fn allowlisted_test_command_rejects_absolute_paths() {
    let mut p = base_proposal(&patch_one_file("README.md", "old", "new"));
    p.expected_checks = vec![ProposalCheck {
        name: "absolute".to_owned(),
        command: "test".to_owned(),
        args: vec!["-f".to_owned(), "/etc/passwd".to_owned()],
    }];
    let (status, reason, _) = verify(&p, true);
    assert_eq!(status, VerificationStatus::Rejected);
    assert_eq!(reason, "check command 'test' is not allowed in P1 offline verification");
    assert!(!is_safe_test_arg("/etc/passwd"));
    assert!(is_safe_test_arg("-f"));
}

#[test]
fn only_allowlisted_commands_run() {
    let check = |name: &str, command: &str, args: &[&str]| ProposalCheck {
        name: name.to_owned(),
        command: command.to_owned(),
        args: args.iter().map(|a| a.to_string()).collect(),
    };
    assert!(is_allowed_check(&check("t", "true", &[]), "/w"));
    assert!(!is_allowed_check(&check("t", "true", &["x"]), "/w"));
    assert!(!is_allowed_check(&check("c", "curl", &[]), "/w"));
    assert!(is_allowed_check(&check("nix-flake-check", "nix", &["flake", "check", "--no-write-lock-file", "path:/w"]), "/w"));
    assert!(!is_allowed_check(&check("nix-flake-check", "nix", &["flake", "check", "--no-write-lock-file", "path:/other"]), "/w"));
}

#[test]
fn failed_check_is_rejected() {
    let mut p = base_proposal(&patch_one_file("README.md", "old", "new"));
    p.expected_checks = vec![ProposalCheck { name: "fails".to_owned(), command: "false".to_owned(), args: Vec::new() }];
    let (status, reason, checks) = verify(&p, true);
    assert_eq!(status, VerificationStatus::Rejected);
    assert_eq!(reason, "one or more verifier checks failed");
    assert_eq!(checks[1].status, VerificationCheckStatus::Failed);
}

#[test]
fn malformed_patch_is_rejected() {
    let p = base_proposal("--- a/README.md\n+++ b/README.md\n@@ -1 +1 @@\n-missing\n+new\n");
    let (status, reason, checks) = verify(&p, true);
    assert_eq!(status, VerificationStatus::Rejected);
    assert_eq!(reason, "patch application failed");
    assert_eq!(checks[0].status, VerificationCheckStatus::Failed);
    assert_eq!(checks[0].stderr, "patch context mismatch: expected \"missing\\n\", got \"old\\n\"");
}

#[test]
fn multi_file_patch_is_applied() {
    let mut files = HashMap::new();
    files.insert("a.txt".to_owned(), "one\ntwo\nthree\n".to_owned());
    let patch = "--- a/a.txt\n+++ b/a.txt\n@@ -2 +2 @@\n-two\n+TWO\n--- /dev/null\n+++ b/new/b.txt\n@@ -0,0 +1 @@\n+fresh\n";
    assert_eq!(apply(&mut files, patch), Ok(()));
    assert_eq!(files["a.txt"], "one\nTWO\nthree\n");
    assert_eq!(files["new/b.txt"], "fresh\n");
    assert_eq!(patch_paths(patch).unwrap(), vec!["a.txt".to_owned(), "new/b.txt".to_owned()]);
}

#[test]
fn patch_targets_keep_first_appearance_order() {
    let patch = "--- a/z.txt\n+++ b/z.txt\n@@ -1 +1 @@\n-x\n+y\n--- a/a.txt\n+++ /dev/null\n@@ -1 +0,0 @@\n-q\n--- a/z.txt\n+++ b/z.txt\n@@ -2 +2 @@\n-m\n+n\n";
    assert_eq!(patch_paths(patch).unwrap(), vec!["z.txt".to_owned(), "a.txt".to_owned()]);
    assert_eq!(patch_paths("--- a/z.txt\nplain\n").unwrap_err(), "patch file header is missing target path");
}

#[test]
fn deletion_patch_removes_file() {
    let mut files = HashMap::new();
    files.insert("gone.txt".to_owned(), "bye\n".to_owned());
    let patch = "--- a/gone.txt\n+++ /dev/null\n@@ -1 +0,0 @@\n-bye\n";
    assert_eq!(apply(&mut files, patch), Ok(()));
    assert!(!files.contains_key("gone.txt"));
}

#[test]
fn malformed_partial_deletion_patch_is_rejected() {
    let mut files = HashMap::new();
    files.insert("gone.txt".to_owned(), "bye\nstay\n".to_owned());
    let patch = "--- a/gone.txt\n+++ /dev/null\n@@ -1 +0,0 @@\n-bye\n";
    assert_eq!(
        apply(&mut files, patch),
        Err("deletion patch for 'gone.txt' leaves undeleted content".to_owned())
    );
}

#[test]
fn patch_without_header_or_hunk_is_rejected() {
    let mut files = HashMap::new();
    assert_eq!(apply(&mut files, "just text\n"), Err("patch does not contain an applicable file header".to_owned()));
    assert_eq!(
        apply(&mut files, "--- a/x\n+++ b/x\n"),
        Err("patch for 'x' does not contain a hunk".to_owned())
    );
    assert_eq!(
        apply(&mut files, "--- a/x\n"),
        Err("patch file header is missing target path".to_owned())
    );
    assert_eq!(
        apply(&mut files, "--- a/x\n+++ b/x\n@@ -1 +1 @@\n*odd\n"),
        Err("unsupported patch hunk line '*odd'".to_owned())
    );
}

#[test]
fn header_and_hunk_fields_are_read() {
    assert_eq!(patch_file_path("--- a/src/lib.rs\t2024-01-01", "--- ").unwrap(), "src/lib.rs");
    assert_eq!(patch_file_path("+++ b/x", "+++ ").unwrap(), "x");
    assert_eq!(patch_file_path("+++   ", "+++ ").unwrap_err(), "patch line '+++   ' is missing a path");
    assert_eq!(patch_file_path("x", "--- ").unwrap_err(), "patch line 'x' is missing prefix '--- '");
    assert_eq!(parse_hunk_old_start("@@ -12,3 +12,4 @@").unwrap(), 12);
    assert_eq!(parse_hunk_old_start("@@ -7 +7 @@").unwrap(), 7);
    assert_eq!(parse_hunk_old_start("@@ -x +7 @@").unwrap_err(), "malformed hunk start 'x': invalid digit found in string");
    assert_eq!(parse_hunk_old_start("@@ -7").unwrap_err(), "malformed hunk header '@@ -7'");
    assert_eq!(parse_usize("+42"), Ok(42));
    assert_eq!(parse_usize("").unwrap_err(), "cannot parse integer from empty string");
    assert_eq!(parse_usize("99999999999999999999999").unwrap_err(), "number too large to fit in target type");
}

#[test]
fn lines_split_like_std() {
    assert_eq!(text_lines("a\r\nb\n\nc"), vec!["a".to_owned(), "b".to_owned(), "".to_owned(), "c".to_owned()]);
    assert_eq!(split_lines("a\nb"), vec!["a\n".to_owned(), "b".to_owned()]);
    assert_eq!(with_newline("x"), "x\n");
    let lines = vec!["a\n".to_owned()];
    assert_eq!(ensure_old_line(&lines, 0, "a\n"), Ok(()));
    assert_eq!(ensure_old_line(&lines, 1, "a\n").unwrap_err(), "patch hunk refers past end of file");
}

#[test]
fn relative_paths_stay_inside() {
    assert_eq!(validate_relative_path("docs/a.md"), Ok(()));
    assert_eq!(validate_relative_path("/etc").unwrap_err(), "path '/etc' must be relative");
    assert_eq!(validate_relative_path("a/../../b").unwrap_err(), "path 'a/../../b' must stay inside the worktree");
    assert!(path_has_parent_component("/x/../y"));
    assert!(!path_has_parent_component("/x/./y"));
    assert!(normalized_starts_with("/a/b/../c/d", "/a/c"));
    assert!(!normalized_starts_with("/a/bc", "/a/b"));
}

#[test]
fn apply_check_records_the_outcome() {
    let ok = apply_patch_check(Ok(()));
    assert_eq!(ok.status, VerificationCheckStatus::Passed);
    assert_eq!(ok.exit_code, Some(0));
    let failed = apply_patch_check(Err("bad".to_owned()));
    assert_eq!(failed.status, VerificationCheckStatus::Failed);
    assert_eq!(failed.exit_code, Some(1));
    assert_eq!(failed.stderr, "bad");
}

#[test]
fn validated_patch_writes_only_declared_paths() {
    let patch = format!(
        "{}{}",
        patch_one_file("README.md", "old", "new"),
        patch_one_file("docs/notes.md", "a", "b")
    );
    let mut proposal = base_proposal(&patch);
    proposal.changed_paths = vec!["README.md".to_owned(), "docs/notes.md".to_owned()];
    assert_eq!(validate_proposal(&proposal, &patch), Ok(()));

    let lines = text_lines(&patch);
    let mut from = 0;
    let mut applied = false;
    let mut written = Vec::new();
    loop {
        match next_patch_step(&lines, from, applied) {
            PatchStep::Done(_) => break,
            PatchStep::File { target, body_start, .. } => {
                assert!(proposal.changed_paths.contains(&target));
                written.push(target);
                from = body_start;
                applied = true;
            }
        }
    }
    assert_eq!(written, vec!["README.md".to_owned(), "docs/notes.md".to_owned()]);
}

#[test]
fn genome_copies_leave_out_outputs_journals_and_evidence() {
    assert!(skip_in_copy(".git"));
    assert!(skip_in_copy("result-vm"));
    assert!(!skip_in_copy("results"));
    assert!(genome_excludes("target", "target", false));
    assert!(genome_excludes("memory/mutations.jsonl", "mutations.jsonl", true));
    assert!(!genome_excludes("memory/archive.jsonl", "archive.jsonl", false));
    assert!(genome_excludes("memory/evidence", "evidence", false));
    assert!(!genome_excludes("evidence", "evidence", false));
    assert!(!genome_excludes("flake.nix", "flake.nix", true));
    assert!(!genome_excludes("a", ".jsonl", false));
    assert!(genome_excludes("a/.jsonl", ".jsonl", true));
}

#[test]
fn unread_inputs_leave_fingerprints_unavailable() {
    let p = base_proposal(&patch_one_file("README.md", "old", "new"));
    let record = verification_record(
        &p,
        VerificationStatus::Rejected,
        "proposal patch is required".to_owned(),
        Vec::new(),
        "ver-2".to_owned(),
        "now".to_owned(),
        None,
        &Err("root is gone".to_owned()),
    );
    assert_eq!(record.proposal_fingerprint, "unavailable:patch-input");
    assert_eq!(record.root_fingerprint, "unavailable:root is gone");
}

#[test]
fn proposal_directory_is_the_parent_or_dot() {
    assert_eq!(proposal_directory("proposal.json"), Ok(".".to_owned()));
    assert_eq!(proposal_directory("./proposal.json"), Ok(".".to_owned()));
    assert_eq!(proposal_directory("mutations/p1/proposal.json"), Ok("mutations/p1".to_owned()));
    assert_eq!(proposal_directory("/proposal.json"), Ok("/".to_owned()));
    assert_eq!(proposal_directory("/"), Err("failed to resolve proposal directory for /".to_owned()));
    assert_eq!(proposal_directory(""), Err("failed to resolve proposal directory for ".to_owned()));
}
