//! The offline verification of a proposal, as a state machine: the caller
//! performs each requested action (reading the patch file, creating the
//! isolated worktree, applying the patch, running a check) and reports what
//! happened; the machine decides what comes next and the verdict.
use vstd::prelude::*;

use crate::checks::{
    all_passed, apply_patch_check, check_allowed, checks_all_passed, copy_check, flake_check,
    is_allowed_check, patch_source, patch_source_of, proposal_problem, validate_proposal,
    PatchSource, PatchSourceView,
};
use crate::records::{
    MutationProposal, MutationVerificationRecord, ProposalCheck, SideEffectDeclaration,
    VerificationCheckResult, VerificationCheckStatus, VerificationStatus,
};
use crate::digest::{file_views, fingerprint_bytes, is_sha256_uri_text, root_fingerprint_of, sha256_uri, sha256_uri_of};
use crate::text::{copy_strings, join2, join3, views};

verus! {

/// What reading a patch file gave.
pub enum PatchRead {
    Read(String),
    /// The file may not be used (it lies outside the proposal directory).
    Rejected(String),
    /// The file could not be read.
    Failed(String),
}

/// What the caller is asked to do next.
pub enum VerifyAction {
    /// Read the patch file at this proposal-relative path.
    ReadPatchFile(String),
    /// Create the isolated worktree.
    CreateWorktree,
    /// Apply this patch text in the worktree.
    ApplyPatch(String),
    /// Run this check in the worktree.
    RunCheck(ProposalCheck),
    /// The verification is over.
    Finish(VerificationStatus, String),
}

pub enum VerifyActionView {
    ReadPatchFile(Seq<char>),
    CreateWorktree,
    ApplyPatch(Seq<char>),
    RunCheck(Seq<char>, Seq<char>, Seq<Seq<char>>),
    Finish(VerificationStatus, Seq<char>),
}

pub open spec fn verify_action_view(a: VerifyAction) -> VerifyActionView {
    match a {
        VerifyAction::ReadPatchFile(p) => VerifyActionView::ReadPatchFile(p@),
        VerifyAction::CreateWorktree => VerifyActionView::CreateWorktree,
        VerifyAction::ApplyPatch(p) => VerifyActionView::ApplyPatch(p@),
        VerifyAction::RunCheck(c) => VerifyActionView::RunCheck(c.name@, c.command@, views(c.args@)),
        VerifyAction::Finish(s, r) => VerifyActionView::Finish(s, r@),
    }
}

/// Where the run stands.
#[derive(Clone, Copy, Debug, PartialEq, Eq, Structural)]
pub enum VerifyStage {
    AwaitPatch,
    AwaitWorktree,
    AwaitApply,
    AwaitCheck,
    Finished,
}

/// A verification in progress.
pub struct VerifyRun {
    stage: VerifyStage,
    patch: String,
    worktree: String,
    planned: Vec<ProposalCheck>,
    next: usize,
    checks: Vec<VerificationCheckResult>,
    skip_default_checks: bool,
    verdict: Option<VerificationStatus>,
    expected: Ghost<Seq<ProposalCheck>>,
}

// ---------------------------------------------------------------------------
// Specification of the decisions
// ---------------------------------------------------------------------------

/// Once the patch text is known: rejected, or on to the worktree.
pub open spec fn after_patch(p: MutationProposal, patch: Seq<char>) -> VerifyActionView {
    match proposal_problem(p, patch) {
        Some(e) => VerifyActionView::Finish(VerificationStatus::Rejected, e),
        None => VerifyActionView::CreateWorktree,
    }
}

/// The first decision for a proposal.
pub open spec fn first_action(p: MutationProposal) -> VerifyActionView {
    match patch_source_of(p.patch, p.patch_path) {
        PatchSourceView::Rejected(r) => VerifyActionView::Finish(VerificationStatus::Rejected, r),
        PatchSourceView::Inline(patch) => after_patch(p, patch),
        PatchSourceView::File(path) => VerifyActionView::ReadPatchFile(path),
    }
}

pub open spec fn not_allowed_message(command: Seq<char>) -> Seq<char> {
    "check command '"@ + command + "' is not allowed in P1 offline verification"@
}

/// With `next` of the planned checks done: the next check, a refusal of a
/// check the offline verifier does not run, or the verdict.
pub open spec fn check_step(
    planned: Seq<ProposalCheck>,
    next: int,
    worktree: Seq<char>,
    checks: Seq<VerificationCheckResult>,
) -> VerifyActionView {
    if next < planned.len() {
        if !check_allowed(planned[next], worktree) {
            VerifyActionView::Finish(VerificationStatus::Rejected, not_allowed_message(planned[next].command@))
        } else {
            VerifyActionView::RunCheck(planned[next].name@, planned[next].command@, views(planned[next].args@))
        }
    } else if all_passed(checks) {
        VerifyActionView::Finish(VerificationStatus::Verified, "all verifier checks passed"@)
    } else {
        VerifyActionView::Finish(VerificationStatus::Rejected, "one or more verifier checks failed"@)
    }
}

/// The checks planned for a worktree: the flake check unless skipped, then
/// the proposal's own checks.
pub open spec fn planned_checks_ok(
    planned: Seq<ProposalCheck>,
    expected: Seq<ProposalCheck>,
    skip: bool,
    worktree: Seq<char>,
) -> bool {
    let lead: int = if skip {
        0
    } else {
        1
    };
    &&& planned.len() == expected.len() + lead
    &&& !skip ==> (planned[0].name@ == "nix-flake-check"@ && planned[0].command@ == "nix"@ && views(
        planned[0].args@,
    ) == crate::checks::flake_check_args(worktree))
    &&& forall|i: int| 0 <= i < expected.len() ==> crate::checks::same_check(#[trigger] planned[i + lead], expected[i])
}

impl VerifyRun {
    /// How the run finished, once it has.
    pub fn verdict(&self) -> (v: Option<VerificationStatus>)
        ensures
            v == self.run_verdict(),
    {
        self.verdict
    }

    /// Where the run stands.
    pub fn stage(&self) -> (s: VerifyStage)
        ensures
            s == self.run_stage(),
    {
        self.stage
    }

    /// The worktree the run works in (empty before it is created).
    pub fn worktree(&self) -> (w: &str)
        ensures
            w@ == self.run_worktree()@,
    {
        self.worktree.as_str()
    }

    /// The check results recorded so far.
    pub fn checks(&self) -> (c: &Vec<VerificationCheckResult>)
        ensures
            c@ == self.run_checks()@,
    {
        &self.checks
    }

    /// Ends the run, handing out its check results.
    pub fn into_checks(self) -> (c: Vec<VerificationCheckResult>)
        ensures
            c == self.run_checks(),
    {
        self.checks
    }

    /// The run's `stage`.
    pub closed spec fn run_stage(&self) -> VerifyStage {
        self.stage
    }

    /// The run's `patch`.
    pub closed spec fn run_patch(&self) -> String {
        self.patch
    }

    /// The run's `worktree`.
    pub closed spec fn run_worktree(&self) -> String {
        self.worktree
    }

    /// The run's `planned`.
    pub closed spec fn run_planned(&self) -> Vec<ProposalCheck> {
        self.planned
    }

    /// The run's `next`.
    pub closed spec fn run_next(&self) -> usize {
        self.next
    }

    /// The run's `checks`.
    pub closed spec fn run_checks(&self) -> Vec<VerificationCheckResult> {
        self.checks
    }

    /// The run's `skip_default_checks`.
    pub closed spec fn run_skip_default_checks(&self) -> bool {
        self.skip_default_checks
    }

    /// How the run finished, once it has.
    pub closed spec fn run_verdict(&self) -> Option<VerificationStatus> {
        self.verdict
    }

    /// The checks the proposal asked for, once its patch was applied.
    pub closed spec fn run_expected(&self) -> Seq<ProposalCheck> {
        self.expected@
    }

    /// After the patch applied: the checks planned for the proposal, the
    /// passed patch application first among the results, then one result
    /// per planned check run so far.
    pub open spec fn checks_follow_plan(&self) -> bool {
        &&& planned_checks_ok(
            self.run_planned()@,
            self.run_expected(),
            self.run_skip_default_checks(),
            self.run_worktree()@,
        )
        &&& self.run_next() <= self.run_planned()@.len()
        &&& self.run_checks()@.len() == self.run_next() + 1
        &&& crate::checks::is_apply_check(self.run_checks()@[0], Ok(()))
    }

    /// The run's bookkeeping agrees with its stage: a verdict exactly when
    /// finished, and a `Verified` verdict only once every planned check ran
    /// and passed.
    pub open spec fn well_formed(&self) -> bool {
        &&& (self.run_verdict() is Some) == (self.run_stage() == VerifyStage::Finished)
        &&& self.run_stage() == VerifyStage::AwaitCheck ==> {
            &&& self.run_next() < self.run_planned()@.len()
            &&& self.checks_follow_plan()
        }
        &&& self.run_verdict() == Some(VerificationStatus::Verified) ==> {
            &&& self.checks_follow_plan()
            &&& self.run_next() == self.run_planned()@.len()
            &&& all_passed(self.run_checks()@)
        }
    }

    fn finish(&mut self, status: VerificationStatus, reason: String) -> (a: VerifyAction)
        ensures
            a == VerifyAction::Finish(status, reason),
            final(self).run_stage() == VerifyStage::Finished,
            final(self).run_verdict() == Some(status),
            final(self).run_expected() == old(self).run_expected(),
            final(self).run_checks() == old(self).run_checks(),
            final(self).run_planned() == old(self).run_planned(),
            final(self).run_next() == old(self).run_next(),
            final(self).run_worktree() == old(self).run_worktree(),
            final(self).run_patch() == old(self).run_patch(),
            final(self).run_skip_default_checks() == old(self).run_skip_default_checks(),
    {
        self.stage = VerifyStage::Finished;
        self.verdict = Some(status);
        VerifyAction::Finish(status, reason)
    }

    fn after_patch_text(&mut self, proposal: &MutationProposal, patch: String) -> (a: VerifyAction)
        requires
            old(self).run_verdict() is None,
        ensures
            final(self).well_formed(),
            verify_action_view(a) == after_patch(*proposal, patch@),
            final(self).run_patch() == patch,
            final(self).run_checks() == old(self).run_checks(),
            final(self).run_skip_default_checks() == old(self).run_skip_default_checks(),
            a is CreateWorktree ==> final(self).run_stage() == VerifyStage::AwaitWorktree,
            a is Finish ==> final(self).run_stage() == VerifyStage::Finished,
    {
        let checked = validate_proposal(proposal, patch.as_str());
        self.patch = patch;
        match checked {
            Ok(()) => {
                self.stage = VerifyStage::AwaitWorktree;
                VerifyAction::CreateWorktree
            },
            Err(e) => self.finish(VerificationStatus::Rejected, e),
        }
    }

    /// The patch file was read (or not).
    pub fn patch_read(&mut self, proposal: &MutationProposal, outcome: PatchRead) -> (a: VerifyAction)
        requires
            old(self).run_stage() == VerifyStage::AwaitPatch,
            old(self).well_formed(),
        ensures
            verify_action_view(a) == match outcome {
                PatchRead::Failed(r) => VerifyActionView::Finish(VerificationStatus::Error, r@),
                PatchRead::Rejected(r) => VerifyActionView::Finish(VerificationStatus::Rejected, r@),
                PatchRead::Read(p) => after_patch(*proposal, p@),
            },
            final(self).run_checks() == old(self).run_checks(),
            a is CreateWorktree ==> final(self).run_stage() == VerifyStage::AwaitWorktree,
            a is Finish ==> final(self).run_stage() == VerifyStage::Finished,
            final(self).well_formed(),
    {
        match outcome {
            PatchRead::Failed(r) => self.finish(VerificationStatus::Error, r),
            PatchRead::Rejected(r) => self.finish(VerificationStatus::Rejected, r),
            PatchRead::Read(p) => self.after_patch_text(proposal, p),
        }
    }

    /// The isolated worktree was created at `path` (or not).
    pub fn worktree_created(&mut self, outcome: Result<String, String>) -> (a: VerifyAction)
        requires
            old(self).run_stage() == VerifyStage::AwaitWorktree,
            old(self).well_formed(),
        ensures
            verify_action_view(a) == match outcome {
                Err(e) => VerifyActionView::Finish(
                    VerificationStatus::Error,
                    "failed to create isolated worktree: "@ + e@,
                ),
                Ok(_) => VerifyActionView::ApplyPatch(old(self).run_patch()@),
            },
            match outcome {
                Ok(w) => final(self).run_worktree() == w && final(self).run_stage() == VerifyStage::AwaitApply,
                Err(_) => final(self).run_stage() == VerifyStage::Finished,
            },
            final(self).run_checks() == old(self).run_checks(),
            final(self).run_skip_default_checks() == old(self).run_skip_default_checks(),
            final(self).well_formed(),
    {
        match outcome {
            Err(e) => {
                let reason = join2("failed to create isolated worktree: ", e.as_str());
                self.finish(VerificationStatus::Error, reason)
            },
            Ok(w) => {
                self.worktree = w;
                self.stage = VerifyStage::AwaitApply;
                VerifyAction::ApplyPatch(self.patch.clone())
            },
        }
    }

    /// Decides what follows once `next` of the planned checks are done.
    fn advance(&mut self) -> (a: VerifyAction)
        requires
            old(self).checks_follow_plan(),
            old(self).run_verdict() is None,
        ensures
            final(self).run_expected() == old(self).run_expected(),
            final(self).run_skip_default_checks() == old(self).run_skip_default_checks(),
            verify_action_view(a) == check_step(
                old(self).run_planned()@,
                old(self).run_next() as int,
                old(self).run_worktree()@,
                old(self).run_checks()@,
            ),
            final(self).run_checks() == old(self).run_checks(),
            final(self).run_planned() == old(self).run_planned(),
            final(self).run_next() == old(self).run_next(),
            final(self).run_worktree() == old(self).run_worktree(),
            a is RunCheck ==> final(self).run_stage() == VerifyStage::AwaitCheck,
            a is Finish ==> final(self).run_stage() == VerifyStage::Finished,
            final(self).well_formed(),
    {
        if self.next < self.planned.len() {
            let check = &self.planned[self.next];
            if !is_allowed_check(check, self.worktree.as_str()) {
                let reason = join3(
                    "check command '",
                    check.command.as_str(),
                    "' is not allowed in P1 offline verification",
                );
                return self.finish(VerificationStatus::Rejected, reason);
            }
            let c = copy_check(check);
            self.stage = VerifyStage::AwaitCheck;
            VerifyAction::RunCheck(c)
        } else if checks_all_passed(&self.checks) {
            self.finish(VerificationStatus::Verified, "all verifier checks passed".to_owned())
        } else {
            self.finish(VerificationStatus::Rejected, "one or more verifier checks failed".to_owned())
        }
    }

    /// The patch was applied in the worktree (or not).
    pub fn patch_applied(&mut self, proposal: &MutationProposal, outcome: Result<(), String>) -> (a: VerifyAction)
        requires
            old(self).run_stage() == VerifyStage::AwaitApply,
            old(self).well_formed(),
            old(self).run_checks()@.len() == 0,
        ensures
            outcome is Ok ==> final(self).run_expected() == proposal.expected_checks@,
            final(self).run_checks()@.len() == 1,
            crate::checks::is_apply_check(final(self).run_checks()@[0], outcome),
            planned_checks_ok(
                final(self).run_planned()@,
                proposal.expected_checks@,
                old(self).run_skip_default_checks(),
                old(self).run_worktree()@,
            ) || outcome is Err,
            verify_action_view(a) == match outcome {
                Err(_) => VerifyActionView::Finish(VerificationStatus::Rejected, "patch application failed"@),
                Ok(()) => check_step(final(self).run_planned()@, 0, old(self).run_worktree()@, final(self).run_checks()@),
            },
            a is RunCheck ==> final(self).run_stage() == VerifyStage::AwaitCheck,
            a is Finish ==> final(self).run_stage() == VerifyStage::Finished,
            final(self).well_formed(),
    {
        let failed = outcome.is_err();
        let apply = apply_patch_check(outcome);
        self.checks.push(apply);
        if failed {
            return self.finish(VerificationStatus::Rejected, "patch application failed".to_owned());
        }
        let mut planned: Vec<ProposalCheck> = Vec::new();
        if !self.skip_default_checks {
            planned.push(flake_check(self.worktree.as_str()));
        }
        let lead: usize = planned.len();
        let mut i: usize = 0;
        while i < proposal.expected_checks.len()
            invariant
                i <= proposal.expected_checks@.len(),
                lead == (if self.skip_default_checks {
                    0usize
                } else {
                    1usize
                }),
                planned@.len() == lead + i,
                !self.skip_default_checks ==> (planned@[0].name@ == "nix-flake-check"@ && planned@[0].command@
                    == "nix"@ && views(planned@[0].args@) == crate::checks::flake_check_args(self.worktree@)),
                forall|j: int|
                    0 <= j < i ==> crate::checks::same_check(
                        #[trigger] planned@[j + lead],
                        proposal.expected_checks@[j],
                    ),
            decreases proposal.expected_checks@.len() - i,
        {
            planned.push(copy_check(&proposal.expected_checks[i]));
            i += 1;
        }
        self.planned = planned;
        self.next = 0;
        self.expected = Ghost(proposal.expected_checks@);
        self.advance()
    }

    /// The check requested last ran, with this result.
    pub fn check_done(&mut self, result: VerificationCheckResult) -> (a: VerifyAction)
        requires
            old(self).run_stage() == VerifyStage::AwaitCheck,
            old(self).well_formed(),
        ensures
            final(self).run_checks()@ == old(self).run_checks()@.push(result),
            final(self).run_next() == old(self).run_next() + 1,
            final(self).run_planned() == old(self).run_planned(),
            verify_action_view(a) == check_step(
                old(self).run_planned()@,
                old(self).run_next() + 1,
                old(self).run_worktree()@,
                old(self).run_checks()@.push(result),
            ),
            a is RunCheck ==> final(self).run_stage() == VerifyStage::AwaitCheck,
            a is Finish ==> final(self).run_stage() == VerifyStage::Finished,
            final(self).well_formed(),
    {
        let total = self.planned.len();
        assert(self.next < total);
        self.checks.push(result);
        self.next = self.next + 1;
        self.advance()
    }
}

/// Starts verifying `proposal`.
pub fn verify_proposal(proposal: &MutationProposal, skip_default_checks: bool) -> (r: (VerifyRun, VerifyAction))
    ensures
        verify_action_view(r.1) == first_action(*proposal),
        r.0.run_checks()@.len() == 0,
        r.0.run_skip_default_checks() == skip_default_checks,
        r.1 is ReadPatchFile ==> r.0.run_stage() == VerifyStage::AwaitPatch,
        r.1 is CreateWorktree ==> r.0.run_stage() == VerifyStage::AwaitWorktree,
        r.1 is Finish ==> r.0.run_stage() == VerifyStage::Finished,
        r.0.well_formed(),
{
    let mut run = VerifyRun {
        stage: VerifyStage::AwaitPatch,
        patch: String::new(),
        worktree: String::new(),
        planned: Vec::new(),
        next: 0,
        checks: Vec::new(),
        skip_default_checks,
        verdict: None,
        expected: Ghost(Seq::empty()),
    };
    let action = match patch_source(proposal) {
        PatchSource::Rejected(r) => run.finish(VerificationStatus::Rejected, r),
        PatchSource::Inline(patch) => run.after_patch_text(proposal, patch),
        PatchSource::File(path) => VerifyAction::ReadPatchFile(path),
    };
    (run, action)
}

/// A step that ends `Verified` does so with the reason "all verifier checks
/// passed", once every planned check ran and every recorded check passed.
pub proof fn lemma_verified_means_all_passed(
    planned: Seq<ProposalCheck>,
    next: int,
    worktree: Seq<char>,
    checks: Seq<VerificationCheckResult>,
    reason: Seq<char>,
)
    requires
        check_step(planned, next, worktree, checks) == VerifyActionView::Finish(VerificationStatus::Verified, reason),
    ensures
        reason == "all verifier checks passed"@,
        all_passed(checks),
        next >= planned.len(),
{
}

/// A verification run that finishes `Verified` recorded first the passed
/// patch application, then one passed result for each planned check: the
/// flake check unless default checks are skipped, then each check the
/// proposal expects (`patch_applied` takes these from the proposal).
pub proof fn lemma_verified_run(run: VerifyRun)
    requires
        run.well_formed(),
        run.run_verdict() == Some(VerificationStatus::Verified),
    ensures
        run.run_checks()@.len() == 1 + run.run_expected().len() + (if run.run_skip_default_checks() {
            0int
        } else {
            1int
        }),
        run.run_checks()@[0].name@ == "apply-patch"@,
        run.run_checks()@[0].status == VerificationCheckStatus::Passed,
        all_passed(run.run_checks()@),
{
}

// ---------------------------------------------------------------------------
// The verification record
// ---------------------------------------------------------------------------

/// A copy of a side-effect declaration.
pub fn copy_side_effect(e: &SideEffectDeclaration) -> (r: SideEffectDeclaration)
    ensures
        r.effect_type@ == e.effect_type@,
        r.target@ == e.target@,
        r.reversible == e.reversible,
        r.compensation@ == e.compensation@,
        r.risk == e.risk,
{
    SideEffectDeclaration {
        effect_type: e.effect_type.clone(),
        target: e.target.clone(),
        reversible: e.reversible,
        compensation: e.compensation.clone(),
        risk: e.risk,
    }
}

pub open spec fn same_side_effects(a: Seq<SideEffectDeclaration>, b: Seq<SideEffectDeclaration>) -> bool {
    &&& a.len() == b.len()
    &&& forall|i: int|
        0 <= i < a.len() ==> {
            &&& (#[trigger] a[i]).effect_type@ == b[i].effect_type@
            &&& a[i].target@ == b[i].target@
            &&& a[i].reversible == b[i].reversible
            &&& a[i].compensation@ == b[i].compensation@
            &&& a[i].risk == b[i].risk
        }
}

/// A copy of a list of side-effect declarations.
pub fn copy_side_effects(v: &Vec<SideEffectDeclaration>) -> (r: Vec<SideEffectDeclaration>)
    ensures
        same_side_effects(r@, v@),
{
    let mut r: Vec<SideEffectDeclaration> = Vec::new();
    let mut i: usize = 0;
    while i < v.len()
        invariant
            i <= v@.len(),
            r@.len() == i,
            forall|j: int|
                0 <= j < i ==> {
                    &&& (#[trigger] r@[j]).effect_type@ == v@[j].effect_type@
                    &&& r@[j].target@ == v@[j].target@
                    &&& r@[j].reversible == v@[j].reversible
                    &&& r@[j].compensation@ == v@[j].compensation@
                    &&& r@[j].risk == v@[j].risk
                },
        decreases v@.len() - i,
    {
        r.push(copy_side_effect(&v[i]));
        i += 1;
    }
    r
}

/// The proposal fingerprint of a verification: the content digest of the
/// serialized proposal with its patch, when the patch text was read.
pub open spec fn proposal_fingerprint_text(proposal_bytes: Option<Seq<u8>>) -> Seq<char> {
    match proposal_bytes {
        Some(b) => sha256_uri_of(b),
        None => "unavailable:patch-input"@,
    }
}

/// The root fingerprint of a verification: the fingerprint of the genome's
/// files, or why they could not be read.
pub open spec fn root_fingerprint_text(root_files: Result<Seq<(Seq<char>, Seq<u8>)>, Seq<char>>) -> Seq<char> {
    match root_files {
        Ok(f) => sha256_uri_of(fingerprint_bytes(f)),
        Err(e) => "unavailable:"@ + e,
    }
}

/// The journal record of a finished verification. `proposal_bytes` is the
/// serialized proposal with its patch (absent when the patch was never
/// read); `root_files` are the genome's files in path order, or why they
/// could not be read.
pub fn verification_record(
    proposal: &MutationProposal,
    status: VerificationStatus,
    reason: String,
    checks: Vec<VerificationCheckResult>,
    verification_id: String,
    timestamp: String,
    proposal_bytes: Option<&[u8]>,
    root_files: &Result<Vec<(String, Vec<u8>)>, String>,
) -> (r: MutationVerificationRecord)
    ensures
        r.verification_id == verification_id,
        r.timestamp == timestamp,
        r.mutation_id@ == proposal.mutation_id@,
        r.goal@ == proposal.goal@,
        r.phase@ == proposal.phase@,
        r.status == status,
        r.reason == reason,
        r.proposal_fingerprint@ == proposal_fingerprint_text(
            match proposal_bytes {
                Some(b) => Some(b@),
                None => None,
            },
        ),
        r.root_fingerprint@ == root_fingerprint_text(
            match root_files {
                Ok(f) => Ok(file_views(f@)),
                Err(e) => Err(e@),
            },
        ),
        proposal_bytes is Some ==> is_sha256_uri_text(r.proposal_fingerprint@),
        root_files is Ok ==> is_sha256_uri_text(r.root_fingerprint@),
        r.changed_paths@ == proposal.changed_paths@,
        r.checks == checks,
        same_side_effects(r.side_effects@, proposal.side_effects@),
        r.metadata@ == proposal.metadata@,
{
    let proposal_fingerprint = match proposal_bytes {
        Some(b) => sha256_uri(b),
        None => "unavailable:patch-input".to_owned(),
    };
    let root_fingerprint = match root_files {
        Ok(files) => root_fingerprint_of(files),
        Err(e) => join2("unavailable:", e.as_str()),
    };
    MutationVerificationRecord {
        verification_id,
        timestamp,
        mutation_id: proposal.mutation_id.clone(),
        goal: proposal.goal.clone(),
        phase: proposal.phase.clone(),
        status,
        reason,
        proposal_fingerprint,
        root_fingerprint,
        changed_paths: copy_strings(&proposal.changed_paths),
        checks,
        side_effects: copy_side_effects(&proposal.side_effects),
        metadata: proposal.metadata.clone(),
    }
}

/// Whether a directory entry named `name` is left out of a worktree copy:
/// version-control data and build outputs.
pub open spec fn skipped_in_copy(name: Seq<char>) -> bool {
    name == ".git"@ || name == "target"@ || name == "result"@ || crate::text::has_prefix(name, "result-"@)
}

/// Whether a directory entry named `name` is left out of a worktree copy.
pub fn skip_in_copy(name: &str) -> (r: bool)
    ensures
        r == skipped_in_copy(name@),
{
    let exact = match crate::text::compare_text(name, ".git") {
        crate::text::TextOrder::Equal => true,
        _ => match crate::text::compare_text(name, "target") {
            crate::text::TextOrder::Equal => true,
            _ => match crate::text::compare_text(name, "result") {
                crate::text::TextOrder::Equal => true,
                _ => false,
            },
        },
    };
    exact || crate::text::text_starts_with(name, "result-")
}

/// Whether `name` ends with `.jsonl`, the suffix of the journals.
pub open spec fn is_journal_name(name: Seq<char>) -> bool {
    name.len() >= 6 && name.skip(name.len() - 6) == ".jsonl"@
}

/// Whether an entry of the genome (at `relative`, the `/`-separated path
/// from the root, named `name`) is left out of worktree copies and of the
/// root fingerprint: version-control data, build outputs, the journals and
/// the evidence sidecars under `memory/evidence`.
pub open spec fn outside_genome(relative: Seq<char>, name: Seq<char>, is_file: bool) -> bool {
    skipped_in_copy(name) || (is_file && is_journal_name(name)) || relative == "memory/evidence"@
}

/// Whether an entry of the genome is left out of worktree copies and of the
/// root fingerprint.
pub fn genome_excludes(relative: &str, name: &str, is_file: bool) -> (r: bool)
    ensures
        r == outside_genome(relative@, name@, is_file),
{
    if skip_in_copy(name) {
        return true;
    }
    let journal = if is_file {
        let cs = crate::text::chars_of(name);
        let n = cs.len();
        if n >= 6 {
            let tail = crate::patch::slice_text(&cs, n - 6, n);
            assert(cs@.subrange(n - 6, n as int) =~= name@.skip(name@.len() - 6));
            match crate::text::compare_text(tail.as_str(), ".jsonl") {
                crate::text::TextOrder::Equal => true,
                _ => false,
            }
        } else {
            false
        }
    } else {
        false
    };
    journal || match crate::text::compare_text(relative, "memory/evidence") {
        crate::text::TextOrder::Equal => true,
        _ => false,
    }
}

} // verus!
