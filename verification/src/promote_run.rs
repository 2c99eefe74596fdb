//! Promotion of a verified proposal, as a state machine: the P1 evidence,
//! the proposal and root fingerprints and the VM checks must all agree
//! before a mutation is promoted. The caller performs each requested action
//! (reading the patch file, fingerprinting, creating the worktree, applying
//! the patch, running a check) and reports the outcome.
use vstd::prelude::*;

use crate::checks::{
    all_passed, apply_patch_check, checks_all_passed, copy_check, patch_source, patch_source_of,
    proposal_problem, validate_proposal, PatchSource, PatchSourceView,
};
use crate::digest::{file_views, fingerprint_bytes, root_fingerprint_of, sha256_uri, sha256_uri_of};
use crate::records::{
    MutationPromotionRecord, MutationProposal, MutationVerificationRecord, PromotionStatus,
    ProposalCheck, VerificationCheckResult, VerificationCheckStatus, VerificationStatus,
};
use crate::text::{compare_text, copy_strings, has_prefix, join2, join3, opt_view, text_starts_with, views, TextOrder};
use crate::verify_run::PatchRead;

verus! {

// ---------------------------------------------------------------------------
// Settings and evidence
// ---------------------------------------------------------------------------

/// How a promotion is run.
pub struct PromotionSettings {
    pub system: String,
    pub target_configuration: String,
    pub vm_checks: Vec<String>,
    pub parent_genome: String,
    pub changed_organs: Vec<String>,
    pub extra_checks: Vec<ProposalCheck>,
    pub skip_default_checks: bool,
}

/// The fingerprints a promotion record carries.
pub struct PromotionEvidence {
    pub verification_id: Option<String>,
    pub proposal_fingerprint: String,
    pub verified_root_fingerprint: Option<String>,
    pub promotion_root_fingerprint: String,
}

impl PromotionEvidence {
    /// Evidence that could not be gathered, for `reason`.
    pub fn unavailable(reason: &str) -> (e: PromotionEvidence)
        ensures
            e.verification_id is None,
            e.proposal_fingerprint@ == "unavailable:"@ + reason@,
            e.verified_root_fingerprint is None,
            e.promotion_root_fingerprint@ == "unavailable:"@ + reason@,
    {
        let unavailable = join2("unavailable:", reason);
        PromotionEvidence {
            verification_id: None,
            proposal_fingerprint: unavailable.clone(),
            verified_root_fingerprint: None,
            promotion_root_fingerprint: unavailable,
        }
    }
}

/// The VM checks a promotion runs: the configured ones, or `iso-boot-basic`.
pub open spec fn effective_vm_checks(vm_checks: Seq<Seq<char>>) -> Seq<Seq<char>> {
    if vm_checks.len() == 0 {
        seq!["iso-boot-basic"@]
    } else {
        vm_checks
    }
}

/// The first VM check not named for the target configuration.
pub open spec fn first_vm_check_problem(checks: Seq<Seq<char>>, target: Seq<char>) -> Option<Seq<char>>
    decreases checks.len(),
{
    if checks.len() == 0 {
        None
    } else if !has_prefix(checks[0], target + "-"@) {
        Some("VM check '"@ + checks[0] + "' does not match target_configuration '"@ + target + "'"@)
    } else {
        first_vm_check_problem(checks.drop_first(), target)
    }
}

/// The VM checks are accepted exactly when each of them is named
/// `<target_configuration>-...`.
pub proof fn lemma_target_checks_accepted(checks: Seq<Seq<char>>, target: Seq<char>)
    ensures
        first_vm_check_problem(checks, target) is None <==> forall|i: int|
            0 <= i < checks.len() ==> has_prefix(#[trigger] checks[i], target + "-"@),
    decreases checks.len(),
{
    if checks.len() > 0 {
        let rest = checks.drop_first();
        lemma_target_checks_accepted(rest, target);
        if first_vm_check_problem(checks, target) is None {
            assert forall|i: int| 0 <= i < checks.len() implies has_prefix(#[trigger] checks[i], target + "-"@) by {
                if i > 0 {
                    assert(checks[i] == rest[i - 1]);
                }
            }
        } else if has_prefix(checks[0], target + "-"@) {
            let j = choose|j: int| 0 <= j < rest.len() && !has_prefix(#[trigger] rest[j], target + "-"@);
            assert(checks[j + 1] == rest[j]);
        }
    }
}

/// How many checks a promotion runs before the extra ones: one per
/// effective VM check, or none when the defaults are skipped.
pub open spec fn default_check_count(settings: PromotionSettings) -> int {
    if settings.skip_default_checks {
        0
    } else {
        effective_vm_checks(views(settings.vm_checks@)).len() as int
    }
}

fn effective_vm_check_names(vm_checks: &Vec<String>) -> (r: Vec<String>)
    ensures
        views(r@) == effective_vm_checks(views(vm_checks@)),
{
    if vm_checks.len() == 0 {
        let mut r: Vec<String> = Vec::new();
        r.push("iso-boot-basic".to_owned());
        assert(views(r@) =~= seq!["iso-boot-basic"@]);
        r
    } else {
        copy_strings(vm_checks)
    }
}

/// Checks that every VM check is named for the target configuration
/// (`<target_configuration>-...`).
pub fn validate_target_checks(settings: &PromotionSettings) -> (r: Result<(), String>)
    ensures
        match r {
            Ok(()) => first_vm_check_problem(
                effective_vm_checks(views(settings.vm_checks@)),
                settings.target_configuration@,
            ) is None,
            Err(e) => first_vm_check_problem(
                effective_vm_checks(views(settings.vm_checks@)),
                settings.target_configuration@,
            ) == Some(e@),
        },
{
    let prefix = join2(settings.target_configuration.as_str(), "-");
    let names = effective_vm_check_names(&settings.vm_checks);
    let ghost v = views(names@);
    let ghost t = settings.target_configuration@;
    let mut i: usize = 0;
    assert(v.skip(0) =~= v);
    while i < names.len()
        invariant
            i <= names@.len(),
            v == views(names@),
            v == effective_vm_checks(views(settings.vm_checks@)),
            t == settings.target_configuration@,
            prefix@ == t + "-"@,
            first_vm_check_problem(v, t) == first_vm_check_problem(v.skip(i as int), t),
        decreases names@.len() - i,
    {
        assert(v.skip(i as int)[0] == names@[i as int]@);
        assert(v.skip(i as int).drop_first() =~= v.skip(i + 1));
        if !text_starts_with(names[i].as_str(), prefix.as_str()) {
            let head = join3("VM check '", names[i].as_str(), "' does not match target_configuration '");
            return Err(join3(head.as_str(), settings.target_configuration.as_str(), "'"));
        }
        i += 1;
    }
    assert(v.skip(i as int) =~= Seq::<Seq<char>>::empty());
    Ok(())
}

pub open spec fn vm_check_args(worktree: Seq<char>, system: Seq<char>, vm_check: Seq<char>) -> Seq<Seq<char>> {
    seq![
        "build"@,
        "--no-link"@,
        "--print-out-paths"@,
        "--no-write-lock-file"@,
        "path:"@ + worktree + "#checks."@ + system + "."@ + vm_check,
    ]
}

/// The build of the VM check `vm_check` for `system` in `worktree`.
pub fn nix_vm_check(worktree: &str, system: &str, vm_check: &str) -> (c: ProposalCheck)
    ensures
        c.name@ == "vm-check:"@ + vm_check@,
        c.command@ == "nix"@,
        views(c.args@) == vm_check_args(worktree@, system@, vm_check@),
{
    let mut args: Vec<String> = Vec::new();
    args.push("build".to_owned());
    args.push("--no-link".to_owned());
    args.push("--print-out-paths".to_owned());
    args.push("--no-write-lock-file".to_owned());
    let head = join3("path:", worktree, "#checks.");
    let tail = join3(system, ".", vm_check);
    args.push(join2(head.as_str(), tail.as_str()));
    assert(args@[4]@ =~= "path:"@ + worktree@ + "#checks."@ + system@ + "."@ + vm_check@);
    assert(views(args@) =~= vm_check_args(worktree@, system@, vm_check@));
    ProposalCheck { name: join2("vm-check:", vm_check), command: "nix".to_owned(), args }
}

/// The index of the last record of `rs` for `mutation_id`, or -1.
pub open spec fn last_match(rs: Seq<MutationVerificationRecord>, mutation_id: Seq<char>) -> int
    decreases rs.len(),
{
    if rs.len() == 0 {
        -1
    } else if rs.last().mutation_id@ == mutation_id {
        rs.len() - 1
    } else {
        last_match(rs.drop_last(), mutation_id)
    }
}

proof fn lemma_last_match(rs: Seq<MutationVerificationRecord>, mutation_id: Seq<char>)
    ensures
        -1 <= last_match(rs, mutation_id) < rs.len(),
        last_match(rs, mutation_id) >= 0 ==> rs[last_match(rs, mutation_id)].mutation_id@ == mutation_id,
        forall|j: int| last_match(rs, mutation_id) < j < rs.len() ==> #[trigger] rs[j].mutation_id@ != mutation_id,
    decreases rs.len(),
{
    if rs.len() > 0 && rs.last().mutation_id@ != mutation_id {
        lemma_last_match(rs.drop_last(), mutation_id);
        assert forall|j: int| last_match(rs, mutation_id) < j < rs.len() implies #[trigger] rs[j].mutation_id@
            != mutation_id by {
            if j < rs.len() - 1 {
                assert(rs.drop_last()[j] == rs[j]);
            }
        }
    }
}

/// The index of the last verification record of `mutation_id`.
pub fn latest_verification(records: &Vec<MutationVerificationRecord>, mutation_id: &str) -> (r: Option<usize>)
    ensures
        match r {
            Some(i) => i as int == last_match(records@, mutation_id@),
            None => last_match(records@, mutation_id@) == -1,
        },
        match r {
            Some(i) => i < records@.len() && records@[i as int].mutation_id@ == mutation_id@ && forall|j: int|
                i < j < records@.len() ==> #[trigger] records@[j].mutation_id@ != mutation_id@,
            None => forall|j: int| 0 <= j < records@.len() ==> #[trigger] records@[j].mutation_id@ != mutation_id@,
        },
{
    let mut latest: Option<usize> = None;
    let mut i: usize = 0;
    while i < records.len()
        invariant
            i <= records@.len(),
            match latest {
                Some(k) => k as int == last_match(records@.take(i as int), mutation_id@),
                None => last_match(records@.take(i as int), mutation_id@) == -1,
            },
        decreases records@.len() - i,
    {
        assert(records@.take(i + 1).drop_last() =~= records@.take(i as int));
        assert(records@.take(i + 1).last() == records@[i as int]);
        if let TextOrder::Equal = compare_text(records[i].mutation_id.as_str(), mutation_id) {
            latest = Some(i);
        }
        i += 1;
    }
    assert(records@.take(i as int) =~= records@);
    proof {
        lemma_last_match(records@, mutation_id@);
        if latest is None {
            assert forall|j: int| 0 <= j < records@.len() implies #[trigger] records@[j].mutation_id@
                != mutation_id@ by {}
        }
    }
    latest
}

// ---------------------------------------------------------------------------
// The machine
// ---------------------------------------------------------------------------

/// What the caller is asked to do next.
pub enum PromoteAction {
    /// Read the patch file at this proposal-relative path.
    ReadPatchFile(String),
    /// Serialize the proposal together with this patch text, to be
    /// fingerprinted.
    FingerprintProposal(String),
    /// Fingerprint the promotion root.
    FingerprintRoot,
    /// Create the isolated promotion worktree.
    CreateWorktree,
    /// Apply this patch text in the worktree.
    ApplyPatch(String),
    /// Run this check in the worktree.
    RunCheck(ProposalCheck),
    /// The promotion is over; the run's evidence and checks go into the
    /// record.
    Finish(PromotionStatus, String),
}

#[derive(Clone, Copy, Debug, PartialEq, Eq, Structural)]
pub enum PromoteStage {
    AwaitPatch,
    AwaitProposalFingerprint,
    AwaitRootFingerprint,
    AwaitWorktree,
    AwaitApply,
    AwaitCheck,
    Finished,
}

/// A promotion in progress.
pub struct PromoteRun {
    stage: PromoteStage,
    verification_id: String,
    verified_proposal_fingerprint: String,
    verified_root: String,
    evidence: PromotionEvidence,
    patch: String,
    worktree: String,
    planned: Vec<ProposalCheck>,
    next: usize,
    checks: Vec<VerificationCheckResult>,
    verdict: Option<PromotionStatus>,
}

/// The evidence agrees with the P1 verification: same proposal fingerprint,
/// and a promotion root equal to the verified root.
pub open spec fn evidence_agrees(r: PromoteRun) -> bool {
    &&& r.run_evidence().verification_id == Some(r.run_verification_id())
    &&& r.run_evidence().proposal_fingerprint@ == r.run_verified_proposal_fingerprint()@
    &&& r.run_evidence().verified_root_fingerprint == Some(r.run_verified_root())
    &&& r.run_evidence().promotion_root_fingerprint@ == r.run_verified_root()@
}

/// The run works from the last record that the P1 verification journal
/// `rs` holds for the mutation `mutation_id`, and that record is `Verified`.
pub open spec fn selected_from(r: PromoteRun, rs: Seq<MutationVerificationRecord>, mutation_id: Seq<char>) -> bool {
    let k = last_match(rs, mutation_id);
    &&& 0 <= k < rs.len()
    &&& rs[k].status == VerificationStatus::Verified
    &&& r.run_verification_id() == rs[k].verification_id
    &&& r.run_verified_proposal_fingerprint() == rs[k].proposal_fingerprint
    &&& r.run_verified_root() == rs[k].root_fingerprint
}

/// A step kept the P1 verification the run works from.
pub open spec fn keeps_selection(after: PromoteRun, before: PromoteRun) -> bool {
    &&& after.run_verification_id() == before.run_verification_id()
    &&& after.run_verified_proposal_fingerprint() == before.run_verified_proposal_fingerprint()
    &&& after.run_verified_root() == before.run_verified_root()
}

impl PromoteRun {
    /// How the run finished, once it has.
    pub fn verdict(&self) -> (v: Option<PromotionStatus>)
        ensures
            v == self.run_verdict(),
    {
        self.verdict
    }

    /// Where the run stands.
    pub fn stage(&self) -> (s: PromoteStage)
        ensures
            s == self.run_stage(),
    {
        self.stage
    }

    /// The worktree the run works in (empty before it is created).
    pub fn worktree(&self) -> (w: &str)
        ensures
            w@ == self.run_worktree()@,
    {
        self.worktree.as_str()
    }

    /// The check results recorded so far.
    pub fn checks(&self) -> (c: &Vec<VerificationCheckResult>)
        ensures
            c@ == self.run_checks()@,
    {
        &self.checks
    }

    /// The evidence gathered so far.
    pub fn evidence(&self) -> (e: &PromotionEvidence)
        ensures
            *e == self.run_evidence(),
    {
        &self.evidence
    }

    /// The proposal fingerprint of the selected P1 verification.
    pub fn verified_proposal_fingerprint(&self) -> (f: &str)
        ensures
            f@ == self.run_verified_proposal_fingerprint()@,
    {
        self.verified_proposal_fingerprint.as_str()
    }

    /// Ends the run, handing out its evidence and its check results.
    pub fn into_parts(self) -> (r: (PromotionEvidence, Vec<VerificationCheckResult>))
        ensures
            r.0 == self.run_evidence(),
            r.1 == self.run_checks(),
    {
        (self.evidence, self.checks)
    }

    /// The run's `stage`.
    pub closed spec fn run_stage(&self) -> PromoteStage {
        self.stage
    }

    /// The run's `verification_id`.
    pub closed spec fn run_verification_id(&self) -> String {
        self.verification_id
    }

    /// The run's `verified_proposal_fingerprint`.
    pub closed spec fn run_verified_proposal_fingerprint(&self) -> String {
        self.verified_proposal_fingerprint
    }

    /// The run's `verified_root`.
    pub closed spec fn run_verified_root(&self) -> String {
        self.verified_root
    }

    /// The run's `evidence`.
    pub closed spec fn run_evidence(&self) -> PromotionEvidence {
        self.evidence
    }

    /// The run's `patch`.
    pub closed spec fn run_patch(&self) -> String {
        self.patch
    }

    /// The run's `worktree`.
    pub closed spec fn run_worktree(&self) -> String {
        self.worktree
    }

    /// The run's `planned`.
    pub closed spec fn run_planned(&self) -> Vec<ProposalCheck> {
        self.planned
    }

    /// The run's `next`.
    pub closed spec fn run_next(&self) -> usize {
        self.next
    }

    /// The run's `checks`.
    pub closed spec fn run_checks(&self) -> Vec<VerificationCheckResult> {
        self.checks
    }

    /// How the run finished, once it has.
    pub closed spec fn run_verdict(&self) -> Option<PromotionStatus> {
        self.verdict
    }

    /// The run's bookkeeping agrees with its stage: a verdict exactly when
    /// finished, the evidence agreeing with the P1 verification from the
    /// worktree on, the replayed patch first among the checks, and a
    /// `Promoted` verdict only after every gate passed.
    pub open spec fn well_formed(&self) -> bool {
        &&& (self.run_verdict() is Some) == (self.run_stage() == PromoteStage::Finished)
        &&& self.run_stage() == PromoteStage::AwaitCheck ==> self.run_checks()@.len() >= 1
            && crate::checks::is_apply_check(self.run_checks()@[0], Ok(()))
        &&& self.run_verdict() == Some(PromotionStatus::Promoted) ==> self.promoted_soundly()
            && crate::checks::is_apply_check(self.run_checks()@[0], Ok(()))
        &&& (self.run_stage() == PromoteStage::AwaitWorktree || self.run_stage() == PromoteStage::AwaitApply || self.run_stage()
            == PromoteStage::AwaitCheck) ==> evidence_agrees(*self)
        &&& self.run_stage() == PromoteStage::AwaitCheck ==> {
            &&& self.run_next() < self.run_planned()@.len()
            &&& self.run_checks()@.len() == self.run_next() + 1
        }
    }

    /// A promotion finished `Promoted` passed every gate.
    pub open spec fn promoted_soundly(&self) -> bool {
        evidence_agrees(*self) && all_passed(self.run_checks()@) && self.run_checks()@.len() >= 1
    }

    fn finish(&mut self, status: PromotionStatus, reason: String) -> (a: PromoteAction)
        ensures
            a == PromoteAction::Finish(status, reason),
            final(self).run_stage() == PromoteStage::Finished,
            final(self).run_verdict() == Some(status),
            final(self).run_evidence() == old(self).run_evidence(),
            final(self).run_checks() == old(self).run_checks(),
            final(self).run_verification_id() == old(self).run_verification_id(),
            final(self).run_verified_proposal_fingerprint() == old(self).run_verified_proposal_fingerprint(),
            final(self).run_verified_root() == old(self).run_verified_root(),
            final(self).run_patch() == old(self).run_patch(),
            final(self).run_planned() == old(self).run_planned(),
            final(self).run_next() == old(self).run_next(),
            final(self).run_worktree() == old(self).run_worktree(),
    {
        self.stage = PromoteStage::Finished;
        self.verdict = Some(status);
        PromoteAction::Finish(status, reason)
    }

    fn finish_with(&mut self, status: PromotionStatus, reason: String, evidence: PromotionEvidence) -> (a:
        PromoteAction)
        ensures
            a == PromoteAction::Finish(status, reason),
            final(self).run_stage() == PromoteStage::Finished,
            final(self).run_verdict() == Some(status),
            final(self).run_evidence() == evidence,
            final(self).run_checks() == old(self).run_checks(),
            final(self).run_verification_id() == old(self).run_verification_id(),
            final(self).run_verified_proposal_fingerprint() == old(self).run_verified_proposal_fingerprint(),
            final(self).run_verified_root() == old(self).run_verified_root(),
            final(self).run_patch() == old(self).run_patch(),
    {
        self.evidence = evidence;
        self.finish(status, reason)
    }

    fn patch_evidence(&self, kind: &str) -> (e: PromotionEvidence)
        ensures
            e.verification_id == Some(self.verification_id),
            e.proposal_fingerprint@ == "unavailable:"@ + kind@,
            e.verified_root_fingerprint == Some(self.verified_root),
            e.promotion_root_fingerprint@ == "unavailable:"@ + kind@,
    {
        let u = join2("unavailable:", kind);
        PromotionEvidence {
            verification_id: Some(self.verification_id.clone()),
            proposal_fingerprint: u.clone(),
            verified_root_fingerprint: Some(self.verified_root.clone()),
            promotion_root_fingerprint: u,
        }
    }

    /// The patch file was read (or not).
    pub fn patch_read(&mut self, outcome: PatchRead) -> (a: PromoteAction)
        requires
            old(self).run_stage() == PromoteStage::AwaitPatch,
            old(self).well_formed(),
        ensures
            final(self).well_formed(),
            final(self).run_checks() == old(self).run_checks(),
            final(self).run_verification_id() == old(self).run_verification_id(),
            final(self).run_verified_proposal_fingerprint() == old(self).run_verified_proposal_fingerprint(),
            final(self).run_verified_root() == old(self).run_verified_root(),
            match outcome {
                PatchRead::Failed(r) => a == PromoteAction::Finish(PromotionStatus::Error, r)
                    && final(self).run_evidence().proposal_fingerprint@ == "unavailable:"@ + "patch-input-error"@,
                PatchRead::Rejected(r) => a == PromoteAction::Finish(PromotionStatus::Rejected, r)
                    && final(self).run_evidence().proposal_fingerprint@ == "unavailable:"@ + "patch-input-rejected"@,
                PatchRead::Read(p) => a is FingerprintProposal && a->FingerprintProposal_0@ == p@
                    && final(self).run_patch()@ == p@ && final(self).run_stage() == PromoteStage::AwaitProposalFingerprint,
            },
            a is Finish ==> final(self).run_stage() == PromoteStage::Finished,
    {
        match outcome {
            PatchRead::Failed(r) => {
                let ev = self.patch_evidence("patch-input-error");
                self.finish_with(PromotionStatus::Error, r, ev)
            },
            PatchRead::Rejected(r) => {
                let ev = self.patch_evidence("patch-input-rejected");
                self.finish_with(PromotionStatus::Rejected, r, ev)
            },
            PatchRead::Read(p) => {
                self.patch = p.clone();
                self.stage = PromoteStage::AwaitProposalFingerprint;
                PromoteAction::FingerprintProposal(p)
            },
        }
    }

    /// The proposal with its patch was serialized to `bytes`; its
    /// fingerprint is their content digest.
    pub fn proposal_serialized(&mut self, proposal: &MutationProposal, bytes: &[u8]) -> (a: PromoteAction)
        requires
            old(self).run_stage() == PromoteStage::AwaitProposalFingerprint,
            old(self).well_formed(),
        ensures
            final(self).well_formed(),
            final(self).run_checks() == old(self).run_checks(),
            final(self).run_verification_id() == old(self).run_verification_id(),
            final(self).run_verified_proposal_fingerprint() == old(self).run_verified_proposal_fingerprint(),
            final(self).run_verified_root() == old(self).run_verified_root(),
            final(self).run_patch() == old(self).run_patch(),
            final(self).run_evidence().proposal_fingerprint@ == sha256_uri_of(bytes@),
            match proposal_problem(*proposal, old(self).run_patch()@) {
                Some(e) => a == PromoteAction::Finish(PromotionStatus::Rejected, a->Finish_1) && a->Finish_1@ == e,
                None => if sha256_uri_of(bytes@) != old(self).run_verified_proposal_fingerprint()@ {
                    a is Finish && a->Finish_0 == PromotionStatus::Rejected && a->Finish_1@
                        == "P1 verification evidence does not match the current proposal fingerprint"@
                } else {
                    a is FingerprintRoot && final(self).run_stage() == PromoteStage::AwaitRootFingerprint
                },
            },
            a is Finish ==> final(self).run_stage() == PromoteStage::Finished,
    {
        let fingerprint = sha256_uri(bytes);
        let checked = validate_proposal(proposal, self.patch.as_str());
        match checked {
            Err(reason) => {
                let ev = PromotionEvidence {
                    verification_id: Some(self.verification_id.clone()),
                    proposal_fingerprint: fingerprint,
                    verified_root_fingerprint: Some(self.verified_root.clone()),
                    promotion_root_fingerprint: "unavailable:validation-rejected".to_owned(),
                };
                self.finish_with(PromotionStatus::Rejected, reason, ev)
            },
            Ok(()) => {
                let same = match compare_text(fingerprint.as_str(), self.verified_proposal_fingerprint.as_str()) {
                    TextOrder::Equal => true,
                    _ => false,
                };
                if !same {
                    let ev = PromotionEvidence {
                        verification_id: Some(self.verification_id.clone()),
                        proposal_fingerprint: fingerprint,
                        verified_root_fingerprint: Some(self.verified_root.clone()),
                        promotion_root_fingerprint: "unavailable:fingerprint-mismatch".to_owned(),
                    };
                    return self.finish_with(
                        PromotionStatus::Rejected,
                        "P1 verification evidence does not match the current proposal fingerprint".to_owned(),
                        ev,
                    );
                }
                self.evidence = PromotionEvidence {
                    verification_id: Some(self.verification_id.clone()),
                    proposal_fingerprint: fingerprint,
                    verified_root_fingerprint: Some(self.verified_root.clone()),
                    promotion_root_fingerprint: "unavailable:pending".to_owned(),
                };
                self.stage = PromoteStage::AwaitRootFingerprint;
                PromoteAction::FingerprintRoot
            },
        }
    }

    /// The promotion root's files were read, in path order (or not), to be
    /// fingerprinted.
    pub fn root_fingerprinted(
        &mut self,
        settings: &PromotionSettings,
        outcome: Result<Vec<(String, Vec<u8>)>, String>,
    ) -> (a: PromoteAction)
        requires
            old(self).run_stage() == PromoteStage::AwaitRootFingerprint,
            old(self).well_formed(),
            old(self).run_evidence().proposal_fingerprint@ == old(self).run_verified_proposal_fingerprint()@,
        ensures
            final(self).well_formed(),
            final(self).run_checks() == old(self).run_checks(),
            final(self).run_verification_id() == old(self).run_verification_id(),
            final(self).run_verified_proposal_fingerprint() == old(self).run_verified_proposal_fingerprint(),
            final(self).run_verified_root() == old(self).run_verified_root(),
            final(self).run_patch() == old(self).run_patch(),
            match outcome {
                Err(e) => a is Finish && a->Finish_0 == PromotionStatus::Error && a->Finish_1@
                    == "failed to fingerprint promotion root: "@ + e@
                    && final(self).run_evidence().promotion_root_fingerprint@ == "unavailable:"@ + e@,
                Ok(files) => if sha256_uri_of(fingerprint_bytes(file_views(files@))) != old(self).run_verified_root()@ {
                    a is Finish && a->Finish_0 == PromotionStatus::Rejected && a->Finish_1@
                        == "promotion root fingerprint does not match P1 verification root fingerprint"@
                        && final(self).run_evidence().promotion_root_fingerprint@ == sha256_uri_of(
                        fingerprint_bytes(file_views(files@)),
                    )
                } else {
                    evidence_agrees(*final(self)) && match first_vm_check_problem(
                        effective_vm_checks(views(settings.vm_checks@)),
                        settings.target_configuration@,
                    ) {
                        Some(e) => a == PromoteAction::Finish(PromotionStatus::Rejected, a->Finish_1) && a->Finish_1@ == e,
                        None => a is CreateWorktree && final(self).run_stage() == PromoteStage::AwaitWorktree,
                    }
                },
            },
            a is Finish ==> final(self).run_stage() == PromoteStage::Finished,
    {
        match outcome {
            Err(e) => {
                let ev = PromotionEvidence {
                    verification_id: Some(self.verification_id.clone()),
                    proposal_fingerprint: self.verified_proposal_fingerprint.clone(),
                    verified_root_fingerprint: Some(self.verified_root.clone()),
                    promotion_root_fingerprint: join2("unavailable:", e.as_str()),
                };
                let reason = join2("failed to fingerprint promotion root: ", e.as_str());
                self.finish_with(PromotionStatus::Error, reason, ev)
            },
            Ok(files) => {
                let rf = root_fingerprint_of(&files);
                let same = match compare_text(rf.as_str(), self.verified_root.as_str()) {
                    TextOrder::Equal => true,
                    _ => false,
                };
                let ev = PromotionEvidence {
                    verification_id: Some(self.verification_id.clone()),
                    proposal_fingerprint: self.verified_proposal_fingerprint.clone(),
                    verified_root_fingerprint: Some(self.verified_root.clone()),
                    promotion_root_fingerprint: rf,
                };
                if !same {
                    return self.finish_with(
                        PromotionStatus::Rejected,
                        "promotion root fingerprint does not match P1 verification root fingerprint".to_owned(),
                        ev,
                    );
                }
                self.evidence = ev;
                match validate_target_checks(settings) {
                    Err(reason) => self.finish(PromotionStatus::Rejected, reason),
                    Ok(()) => {
                        self.stage = PromoteStage::AwaitWorktree;
                        PromoteAction::CreateWorktree
                    },
                }
            },
        }
    }

    /// The isolated promotion worktree was created at `path` (or not).
    pub fn worktree_created(&mut self, outcome: Result<String, String>) -> (a: PromoteAction)
        requires
            old(self).run_stage() == PromoteStage::AwaitWorktree,
            old(self).well_formed(),
        ensures
            final(self).well_formed(),
            final(self).run_evidence() == old(self).run_evidence(),
            final(self).run_checks() == old(self).run_checks(),
            final(self).run_verification_id() == old(self).run_verification_id(),
            final(self).run_verified_proposal_fingerprint() == old(self).run_verified_proposal_fingerprint(),
            final(self).run_verified_root() == old(self).run_verified_root(),
            match outcome {
                Err(e) => a is Finish && a->Finish_0 == PromotionStatus::Error && a->Finish_1@
                    == "failed to create isolated promotion worktree: "@ + e@,
                Ok(w) => a is ApplyPatch && a->ApplyPatch_0@ == old(self).run_patch()@ && final(self).run_worktree() == w
                    && final(self).run_stage() == PromoteStage::AwaitApply,
            },
            a is Finish ==> final(self).run_stage() == PromoteStage::Finished,
    {
        match outcome {
            Err(e) => {
                let reason = join2("failed to create isolated promotion worktree: ", e.as_str());
                self.finish(PromotionStatus::Error, reason)
            },
            Ok(w) => {
                self.worktree = w;
                self.stage = PromoteStage::AwaitApply;
                PromoteAction::ApplyPatch(self.patch.clone())
            },
        }
    }

    fn advance(&mut self) -> (a: PromoteAction)
        requires
            old(self).run_next() <= old(self).run_planned()@.len(),
            old(self).run_checks()@.len() == old(self).run_next() + 1,
            evidence_agrees(*old(self)),
            crate::checks::is_apply_check(old(self).run_checks()@[0], Ok(())),
            old(self).run_verdict() is None,
        ensures
            final(self).well_formed(),
            final(self).run_evidence() == old(self).run_evidence(),
            final(self).run_checks() == old(self).run_checks(),
            final(self).run_planned() == old(self).run_planned(),
            final(self).run_next() == old(self).run_next(),
            final(self).run_verification_id() == old(self).run_verification_id(),
            final(self).run_verified_proposal_fingerprint() == old(self).run_verified_proposal_fingerprint(),
            final(self).run_verified_root() == old(self).run_verified_root(),
            old(self).run_next() < old(self).run_planned()@.len() ==> a is RunCheck && crate::checks::same_check(
                a->RunCheck_0,
                old(self).run_planned()@[old(self).run_next() as int],
            ) && final(self).run_stage() == PromoteStage::AwaitCheck,
            old(self).run_next() >= old(self).run_planned()@.len() ==> a is Finish && final(self).run_stage()
                == PromoteStage::Finished && if all_passed(old(self).run_checks()@) {
                a->Finish_0 == PromotionStatus::Promoted && a->Finish_1@ == "all promotion checks passed"@
            } else {
                a->Finish_0 == PromotionStatus::Rejected && a->Finish_1@ == "one or more promotion checks failed"@
            },
    {
        if self.next < self.planned.len() {
            let c = copy_check(&self.planned[self.next]);
            self.stage = PromoteStage::AwaitCheck;
            PromoteAction::RunCheck(c)
        } else if checks_all_passed(&self.checks) {
            self.finish(PromotionStatus::Promoted, "all promotion checks passed".to_owned())
        } else {
            self.finish(PromotionStatus::Rejected, "one or more promotion checks failed".to_owned())
        }
    }

    /// The patch was replayed in the worktree (or not).
    pub fn patch_applied(&mut self, settings: &PromotionSettings, outcome: Result<(), String>) -> (a:
        PromoteAction)
        requires
            old(self).run_stage() == PromoteStage::AwaitApply,
            old(self).well_formed(),
            old(self).run_checks()@.len() == 0,
        ensures
            final(self).well_formed(),
            final(self).run_evidence() == old(self).run_evidence(),
            final(self).run_verification_id() == old(self).run_verification_id(),
            final(self).run_verified_proposal_fingerprint() == old(self).run_verified_proposal_fingerprint(),
            final(self).run_verified_root() == old(self).run_verified_root(),
            final(self).run_checks()@.len() == 1,
            crate::checks::is_apply_check(final(self).run_checks()@[0], outcome),
            outcome is Err ==> a is Finish && a->Finish_0 == PromotionStatus::Rejected && a->Finish_1@
                == "patch application failed during promotion replay"@,
            outcome is Ok ==> final(self).run_planned()@.len() == settings.extra_checks@.len() + (if settings.skip_default_checks {
                0int
            } else {
                effective_vm_checks(views(settings.vm_checks@)).len() as int
            }),
            outcome is Ok && !settings.skip_default_checks ==> forall|i: int|
                0 <= i < effective_vm_checks(views(settings.vm_checks@)).len() ==> {
                    &&& (#[trigger] final(self).run_planned()@[i]).name@ == "vm-check:"@ + effective_vm_checks(
                        views(settings.vm_checks@),
                    )[i]
                    &&& views(final(self).run_planned()@[i].args@) == vm_check_args(
                        old(self).run_worktree()@,
                        settings.system@,
                        effective_vm_checks(views(settings.vm_checks@))[i],
                    )
                },
            outcome is Ok ==> final(self).run_next() == 0,
            outcome is Ok ==> forall|i: int|
                0 <= i < settings.extra_checks@.len() ==> crate::checks::same_check(
                    #[trigger] final(self).run_planned()@[i + default_check_count(*settings)],
                    settings.extra_checks@[i],
                ),
            outcome is Ok && final(self).run_planned()@.len() > 0 ==> a is RunCheck && crate::checks::same_check(
                a->RunCheck_0,
                final(self).run_planned()@[0],
            ) && final(self).run_stage() == PromoteStage::AwaitCheck,
            outcome is Ok && final(self).run_planned()@.len() == 0 ==> a is Finish && if all_passed(final(self).run_checks()@) {
                a->Finish_0 == PromotionStatus::Promoted && a->Finish_1@ == "all promotion checks passed"@
            } else {
                a->Finish_0 == PromotionStatus::Rejected && a->Finish_1@ == "one or more promotion checks failed"@
            },
            a is Finish ==> final(self).run_stage() == PromoteStage::Finished,
            a is Finish && a->Finish_0 == PromotionStatus::Promoted ==> final(self).promoted_soundly(),
    {
        let failed = outcome.is_err();
        self.checks.push(apply_patch_check(outcome));
        if failed {
            return self.finish(
                PromotionStatus::Rejected,
                "patch application failed during promotion replay".to_owned(),
            );
        }
        let mut planned: Vec<ProposalCheck> = Vec::new();
        let ghost vms = effective_vm_checks(views(settings.vm_checks@));
        if !settings.skip_default_checks {
            let names = effective_vm_check_names(&settings.vm_checks);
            let mut i: usize = 0;
            while i < names.len()
                invariant
                    i <= names@.len(),
                    vms == views(names@),
                    planned@.len() == i,
                    forall|j: int|
                        0 <= j < i ==> {
                            &&& (#[trigger] planned@[j]).name@ == "vm-check:"@ + vms[j]
                            &&& views(planned@[j].args@) == vm_check_args(self.worktree@, settings.system@, vms[j])
                        },
                decreases names@.len() - i,
            {
                planned.push(nix_vm_check(self.worktree.as_str(), settings.system.as_str(), names[i].as_str()));
                i += 1;
            }
        }
        let lead = planned.len();
        let mut i: usize = 0;
        while i < settings.extra_checks.len()
            invariant
                i <= settings.extra_checks@.len(),
                planned@.len() == lead + i,
                lead == (if settings.skip_default_checks {
                    0int
                } else {
                    vms.len() as int
                }),
                !settings.skip_default_checks ==> forall|j: int|
                    0 <= j < vms.len() ==> {
                        &&& (#[trigger] planned@[j]).name@ == "vm-check:"@ + vms[j]
                        &&& views(planned@[j].args@) == vm_check_args(self.worktree@, settings.system@, vms[j])
                    },
                lead == default_check_count(*settings),
                forall|j: int|
                    0 <= j < i ==> crate::checks::same_check(#[trigger] planned@[j + lead], settings.extra_checks@[j]),
            decreases settings.extra_checks@.len() - i,
        {
            planned.push(copy_check(&settings.extra_checks[i]));
            i += 1;
        }
        self.planned = planned;
        self.next = 0;
        self.advance()
    }

    /// The check requested last ran, with this result.
    pub fn check_done(&mut self, result: VerificationCheckResult) -> (a: PromoteAction)
        requires
            old(self).run_stage() == PromoteStage::AwaitCheck,
            old(self).well_formed(),
        ensures
            final(self).well_formed(),
            keeps_selection(*final(self), *old(self)),
            final(self).run_evidence() == old(self).run_evidence(),
            final(self).run_checks()@ == old(self).run_checks()@.push(result),
            final(self).run_next() == old(self).run_next() + 1,
            final(self).run_planned() == old(self).run_planned(),
            a is Finish ==> final(self).run_stage() == PromoteStage::Finished,
            a is Finish && a->Finish_0 == PromotionStatus::Promoted ==> final(self).promoted_soundly(),
            a is Finish ==> (a->Finish_0 == PromotionStatus::Promoted <==> all_passed(final(self).run_checks()@)),
            a is Finish ==> final(self).run_next() >= final(self).run_planned()@.len() && if all_passed(final(self).run_checks()@) {
                a->Finish_1@ == "all promotion checks passed"@
            } else {
                a->Finish_0 == PromotionStatus::Rejected && a->Finish_1@ == "one or more promotion checks failed"@
            },
            !(a is Finish) ==> a is RunCheck && final(self).run_stage() == PromoteStage::AwaitCheck
                && final(self).run_next() < final(self).run_planned()@.len() && crate::checks::same_check(
                a->RunCheck_0,
                final(self).run_planned()@[final(self).run_next() as int],
            ),
    {
        let total = self.planned.len();
        assert(self.next < total);
        self.checks.push(result);
        self.next = self.next + 1;
        self.advance()
    }
}

/// A promotion run that works from the last P1 verification record `v` of
/// its mutation in the journal `rs` (as `promote_proposal` starts every run
/// it does not finish at once, and as every step keeps it) and that finishes
/// `Promoted`: `v` is `Verified`; the evidence carries `v`'s id, its
/// proposal fingerprint, and its root fingerprint both as the verified root
/// and as the promotion root; the replayed patch is the first check; and
/// every check passed.
pub proof fn lemma_promoted_run(run: PromoteRun, rs: Seq<MutationVerificationRecord>, mutation_id: Seq<char>)
    requires
        run.well_formed(),
        selected_from(run, rs, mutation_id),
        run.run_verdict() == Some(PromotionStatus::Promoted),
    ensures
        0 <= last_match(rs, mutation_id) < rs.len(),
        rs[last_match(rs, mutation_id)].status == VerificationStatus::Verified,
        run.run_evidence().verification_id == Some(rs[last_match(rs, mutation_id)].verification_id),
        run.run_evidence().proposal_fingerprint@ == rs[last_match(rs, mutation_id)].proposal_fingerprint@,
        run.run_evidence().verified_root_fingerprint == Some(rs[last_match(rs, mutation_id)].root_fingerprint),
        run.run_evidence().promotion_root_fingerprint@ == rs[last_match(rs, mutation_id)].root_fingerprint@,
        run.run_checks()@.len() >= 1,
        run.run_checks()@[0].name@ == "apply-patch"@,
        run.run_checks()@[0].status == VerificationCheckStatus::Passed,
        all_passed(run.run_checks()@),
{
}

/// Starts promoting `proposal`, given the P1 verification journal as
/// read (or the reason it could not be read).
pub fn promote_proposal(proposal: &MutationProposal, journal: Result<Vec<MutationVerificationRecord>, String>) -> (r: (
    PromoteRun,
    PromoteAction,
))
    ensures
        r.0.run_checks()@.len() == 0,
        r.0.well_formed(),
        r.1 is Finish ==> r.0.run_stage() == PromoteStage::Finished,
        r.1 is ReadPatchFile ==> r.0.run_stage() == PromoteStage::AwaitPatch,
        r.1 is FingerprintProposal ==> r.0.run_stage() == PromoteStage::AwaitProposalFingerprint,
        !(r.1 is FingerprintRoot || r.1 is CreateWorktree || r.1 is ApplyPatch || r.1 is RunCheck),
        match journal {
            Err(e) => r.1 == PromoteAction::Finish(PromotionStatus::Error, r.1->Finish_1)
                && r.1->Finish_1@ == "failed to read P1 verification evidence: "@ + e@
                && r.0.run_evidence().verification_id is None && r.0.run_evidence().verified_root_fingerprint is None
                && r.0.run_evidence().proposal_fingerprint@ == "unavailable:verification-journal-error"@
                && r.0.run_evidence().promotion_root_fingerprint@ == "unavailable:verification-journal-error"@,
            Ok(rs) => (forall|j: int| 0 <= j < rs@.len() ==> #[trigger] rs@[j].mutation_id@ != proposal.mutation_id@)
                ==> (r.1 is Finish && r.1->Finish_0 == PromotionStatus::Rejected && r.1->Finish_1@
                == "no P1 verification evidence found for mutation "@ + proposal.mutation_id@
                && r.0.run_evidence().verification_id is None && r.0.run_evidence().verified_root_fingerprint is None
                && r.0.run_evidence().proposal_fingerprint@ == "unavailable:no-verification-evidence"@
                && r.0.run_evidence().promotion_root_fingerprint@ == "unavailable:no-verification-evidence"@),
        },
        r.1 is Finish && r.1->Finish_0 == PromotionStatus::Promoted ==> false,
        !(r.1 is Finish) ==> journal is Ok && selected_from(r.0, journal->Ok_0@, proposal.mutation_id@),
        !(r.1 is Finish) ==> exists|k: int|
            0 <= k < journal->Ok_0@.len() && (#[trigger] journal->Ok_0@[k]).status
                == VerificationStatus::Verified && r.0.run_verification_id() == journal->Ok_0@[k].verification_id
                && r.0.run_verified_proposal_fingerprint() == journal->Ok_0@[k].proposal_fingerprint
                && r.0.run_verified_root() == journal->Ok_0@[k].root_fingerprint,
        match journal {
            Err(_) => true,
            Ok(rs) => last_match(rs@, proposal.mutation_id@) >= 0 ==> {
            let v = rs@[last_match(rs@, proposal.mutation_id@)];
            if v.status != VerificationStatus::Verified {
                &&& r.1 is Finish
                &&& r.1->Finish_0 == PromotionStatus::Rejected
                &&& r.1->Finish_1@ == "P1 verification "@ + v.verification_id@ + " is not verified"@
                &&& r.0.run_evidence().verification_id == Some(v.verification_id)
                &&& r.0.run_evidence().proposal_fingerprint == v.proposal_fingerprint
                &&& r.0.run_evidence().verified_root_fingerprint == Some(v.root_fingerprint)
                &&& r.0.run_evidence().promotion_root_fingerprint@ == "unavailable:not-verified"@
            } else {
                &&& r.0.run_verification_id() == v.verification_id
                &&& r.0.run_verified_proposal_fingerprint() == v.proposal_fingerprint
                &&& r.0.run_verified_root() == v.root_fingerprint
                &&& match patch_source_of(proposal.patch, proposal.patch_path) {
                    PatchSourceView::Rejected(e) => r.1 is Finish && r.1->Finish_0 == PromotionStatus::Rejected
                        && r.1->Finish_1@ == e && r.0.run_evidence().proposal_fingerprint@
                        == "unavailable:patch-input-rejected"@,
                    PatchSourceView::Inline(p) => r.1 is FingerprintProposal && r.1->FingerprintProposal_0@ == p,
                    PatchSourceView::File(f) => r.1 is ReadPatchFile && r.1->ReadPatchFile_0@ == f,
                }
            }
        },
        },
        r.1 matches PromoteAction::ReadPatchFile(p) ==> patch_source_of(proposal.patch, proposal.patch_path)
            == PatchSourceView::File(p@),
        r.1 matches PromoteAction::FingerprintProposal(p) ==> patch_source_of(
            proposal.patch,
            proposal.patch_path,
        ) == PatchSourceView::Inline(p@) && r.0.run_patch()@ == p@,
{
    let mut run = PromoteRun {
        stage: PromoteStage::AwaitPatch,
        verification_id: String::new(),
        verified_proposal_fingerprint: String::new(),
        verified_root: String::new(),
        evidence: PromotionEvidence::unavailable("pending"),
        patch: String::new(),
        worktree: String::new(),
        planned: Vec::new(),
        next: 0,
        checks: Vec::new(),
        verdict: None,
    };
    let records = match journal {
        Err(e) => {
            let reason = join2("failed to read P1 verification evidence: ", e.as_str());
            let ev = PromotionEvidence::unavailable("verification-journal-error");
            proof {
                reveal_strlit("unavailable:");
                reveal_strlit("verification-journal-error");
                reveal_strlit("unavailable:verification-journal-error");
                assert("unavailable:"@ + "verification-journal-error"@ =~= "unavailable:verification-journal-error"@);
            }
            let a = run.finish_with(PromotionStatus::Error, reason, ev);
            return (run, a);
        },
        Ok(records) => records,
    };
    let found = latest_verification(&records, proposal.mutation_id.as_str());
    let k = match found {
        None => {
            let reason = join2("no P1 verification evidence found for mutation ", proposal.mutation_id.as_str());
            let ev = PromotionEvidence::unavailable("no-verification-evidence");
            proof {
                reveal_strlit("unavailable:");
                reveal_strlit("no-verification-evidence");
                reveal_strlit("unavailable:no-verification-evidence");
                assert("unavailable:"@ + "no-verification-evidence"@ =~= "unavailable:no-verification-evidence"@);
            }
            let a = run.finish_with(PromotionStatus::Rejected, reason, ev);
            return (run, a);
        },
        Some(k) => k,
    };
    let v = &records[k];
    run.verification_id = v.verification_id.clone();
    run.verified_proposal_fingerprint = v.proposal_fingerprint.clone();
    run.verified_root = v.root_fingerprint.clone();
    match v.status {
        VerificationStatus::Verified => {},
        _ => {
            let reason = join3("P1 verification ", v.verification_id.as_str(), " is not verified");
            let ev = PromotionEvidence {
                verification_id: Some(v.verification_id.clone()),
                proposal_fingerprint: v.proposal_fingerprint.clone(),
                verified_root_fingerprint: Some(v.root_fingerprint.clone()),
                promotion_root_fingerprint: "unavailable:not-verified".to_owned(),
            };
            let a = run.finish_with(PromotionStatus::Rejected, reason, ev);
            return (run, a);
        },
    }
    assert(records@[k as int].status == VerificationStatus::Verified);
    let a = match patch_source(proposal) {
        PatchSource::Rejected(r) => {
            let ev = run.patch_evidence("patch-input-rejected");
            proof {
                reveal_strlit("unavailable:");
                reveal_strlit("patch-input-rejected");
                reveal_strlit("unavailable:patch-input-rejected");
                assert("unavailable:"@ + "patch-input-rejected"@ =~= "unavailable:patch-input-rejected"@);
            }
            run.finish_with(PromotionStatus::Rejected, r, ev)
        },
        PatchSource::Inline(p) => {
            run.patch = p.clone();
            run.stage = PromoteStage::AwaitProposalFingerprint;
            PromoteAction::FingerprintProposal(p)
        },
        PatchSource::File(path) => PromoteAction::ReadPatchFile(path),
    };
    (run, a)
}

// ---------------------------------------------------------------------------
// The promotion record
// ---------------------------------------------------------------------------

/// The journal record of a finished promotion.
pub fn promotion_record(
    proposal: &MutationProposal,
    settings: &PromotionSettings,
    status: PromotionStatus,
    reason: String,
    evidence: PromotionEvidence,
    checks: Vec<VerificationCheckResult>,
    promotion_id: String,
    timestamp: String,
) -> (r: MutationPromotionRecord)
    ensures
        r.promotion_id == promotion_id,
        r.timestamp == timestamp,
        r.mutation_id@ == proposal.mutation_id@,
        r.goal@ == proposal.goal@,
        r.phase@ == proposal.phase@,
        r.status == status,
        r.reason == reason,
        r.verification_id == evidence.verification_id,
        r.proposal_fingerprint == evidence.proposal_fingerprint,
        r.verified_root_fingerprint == evidence.verified_root_fingerprint,
        r.promotion_root_fingerprint == evidence.promotion_root_fingerprint,
        r.parent_genome@ == settings.parent_genome@,
        r.target_configuration@ == settings.target_configuration@,
        r.changed_paths@ == proposal.changed_paths@,
        r.changed_organs@ == settings.changed_organs@,
        r.checks == checks,
        r.metadata@ == proposal.metadata@,
{
    MutationPromotionRecord {
        promotion_id,
        timestamp,
        mutation_id: proposal.mutation_id.clone(),
        goal: proposal.goal.clone(),
        phase: proposal.phase.clone(),
        status,
        reason,
        verification_id: evidence.verification_id,
        proposal_fingerprint: evidence.proposal_fingerprint,
        verified_root_fingerprint: evidence.verified_root_fingerprint,
        promotion_root_fingerprint: evidence.promotion_root_fingerprint,
        parent_genome: settings.parent_genome.clone(),
        target_configuration: settings.target_configuration.clone(),
        changed_paths: copy_strings(&proposal.changed_paths),
        changed_organs: copy_strings(&settings.changed_organs),
        checks,
        metadata: proposal.metadata.clone(),
    }
}

} // verus!
