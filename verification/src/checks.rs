//! What a proposal must satisfy before anything runs: where its patch comes
//! from, the proposal's own fields, which files the patch may touch, and
//! which check commands the offline verifier allows.
use vstd::prelude::*;

use crate::organs::occurs;
use crate::patch::{patch_paths, patch_targets};
use crate::paths::{components, components_start_with, path_components, relative_path_problem, starts_with_components, component_views, validate_relative_path};
use crate::records::{
    MutationProposal, ProposalCheck, SideEffectDeclaration, VerificationCheckResult,
    VerificationCheckStatus,
};
use crate::text::{compare_text, copy_strings, is_blank, join2, join3, text_is_blank, views, TextOrder};

verus! {

// ---------------------------------------------------------------------------
// Where the patch comes from
// ---------------------------------------------------------------------------

/// Where a proposal's patch text comes from.
pub enum PatchSource {
    /// The proposal carries the patch.
    Inline(String),
    /// The patch is a file at this path, relative to the proposal's
    /// directory.
    File(String),
    /// The proposal is rejected for this reason.
    Rejected(String),
}

pub enum PatchSourceView {
    Inline(Seq<char>),
    File(Seq<char>),
    Rejected(Seq<char>),
}

pub open spec fn patch_source_view(s: PatchSource) -> PatchSourceView {
    match s {
        PatchSource::Inline(p) => PatchSourceView::Inline(p@),
        PatchSource::File(p) => PatchSourceView::File(p@),
        PatchSource::Rejected(r) => PatchSourceView::Rejected(r@),
    }
}

/// Exactly one of `patch` and `patch_path` must be set; a patch path must be
/// non-blank and stay inside the proposal's directory.
pub open spec fn patch_source_of(patch: Option<String>, patch_path: Option<String>) -> PatchSourceView {
    match (patch, patch_path) {
        (Some(_), Some(_)) => PatchSourceView::Rejected("proposal must set only one of patch or patch_path"@),
        (None, None) => PatchSourceView::Rejected("proposal must set patch or patch_path"@),
        (Some(p), None) => PatchSourceView::Inline(p@),
        (None, Some(path)) => if is_blank(path@) {
            PatchSourceView::Rejected("proposal patch_path is required when patch is absent"@)
        } else {
            match relative_path_problem(path@) {
                Some(e) => PatchSourceView::Rejected(e),
                None => PatchSourceView::File(path@),
            }
        },
    }
}

/// Where the proposal's patch comes from.
pub fn patch_source(proposal: &MutationProposal) -> (r: PatchSource)
    ensures
        patch_source_view(r) == patch_source_of(proposal.patch, proposal.patch_path),
{
    match (&proposal.patch, &proposal.patch_path) {
        (Some(_), Some(_)) => PatchSource::Rejected("proposal must set only one of patch or patch_path".to_owned()),
        (None, None) => PatchSource::Rejected("proposal must set patch or patch_path".to_owned()),
        (Some(patch), None) => PatchSource::Inline(patch.clone()),
        (None, Some(path)) => {
            if text_is_blank(path.as_str()) {
                return PatchSource::Rejected("proposal patch_path is required when patch is absent".to_owned());
            }
            match validate_relative_path(path.as_str()) {
                Ok(()) => PatchSource::File(path.clone()),
                Err(e) => PatchSource::Rejected(e),
            }
        },
    }
}

/// Checks that the resolved patch file lies under the resolved proposal
/// directory.
pub fn guard_patch_location(proposal_dir: &str, patch_file: &str, patch_path: &str) -> (r: Result<(), String>)
    ensures
        r is Ok <==> starts_with_components(path_components(patch_file@), path_components(proposal_dir@)),
        match r {
            Ok(()) => true,
            Err(e) => e@ == "proposal patch_path '"@ + patch_path@ + "' must stay inside the proposal directory"@,
        },
{
    let dir = components(proposal_dir);
    let file = components(patch_file);
    if components_start_with(&file, &dir) {
        Ok(())
    } else {
        Err(join3("proposal patch_path '", patch_path, "' must stay inside the proposal directory"))
    }
}

// ---------------------------------------------------------------------------
// Proposal validation
// ---------------------------------------------------------------------------

/// The first path of `ps` that cannot name a place inside the worktree.
pub open spec fn first_path_problem(ps: Seq<Seq<char>>) -> Option<Seq<char>>
    decreases ps.len(),
{
    if ps.len() == 0 {
        None
    } else {
        match relative_path_problem(ps[0]) {
            Some(e) => Some(e),
            None => first_path_problem(ps.drop_first()),
        }
    }
}

/// Why a file the patch touches may not be touched, if it may not.
pub open spec fn target_problem(t: Seq<char>, changed: Seq<Seq<char>>, declared: Seq<Seq<char>>) -> Option<Seq<char>> {
    if relative_path_problem(t) is Some {
        if occurs(declared, t) {
            Some("patch path '"@ + t + "' is outside the isolated worktree and cannot be applied in P1"@)
        } else {
            Some("patch path '"@ + t + "' requires an explicit side-effect declaration"@)
        }
    } else if !occurs(changed, t) {
        Some("patch path '"@ + t + "' is not listed in changed_paths"@)
    } else {
        None
    }
}

pub open spec fn first_target_problem(ts: Seq<Seq<char>>, changed: Seq<Seq<char>>, declared: Seq<Seq<char>>) -> Option<
    Seq<char>,
>
    decreases ts.len(),
{
    if ts.len() == 0 {
        None
    } else {
        match target_problem(ts[0], changed, declared) {
            Some(e) => Some(e),
            None => first_target_problem(ts.drop_first(), changed, declared),
        }
    }
}

pub open spec fn effect_targets(effects: Seq<SideEffectDeclaration>) -> Seq<Seq<char>> {
    effects.map_values(|e: SideEffectDeclaration| e.target@)
}

/// Why a proposal with patch text `patch` is rejected before anything runs,
/// if it is.
pub open spec fn proposal_problem(p: MutationProposal, patch: Seq<char>) -> Option<Seq<char>> {
    if p.schema_version@ != "0.1.0"@ {
        Some("unsupported proposal schema_version '"@ + p.schema_version@ + "'"@)
    } else if is_blank(p.goal@) {
        Some("proposal goal is required"@)
    } else if is_blank(p.phase@) {
        Some("proposal phase is required"@)
    } else if is_blank(patch) {
        Some("proposal patch is required"@)
    } else {
        match first_path_problem(views(p.changed_paths@)) {
            Some(e) => Some(e),
            None => match patch_targets(patch) {
                Err(e) => Some(e),
                Ok(ts) => first_target_problem(ts, views(p.changed_paths@), effect_targets(p.side_effects@)),
            },
        }
    }
}

/// When no target has a problem, every target is a relative path inside the
/// worktree that the changed paths list.
proof fn lemma_no_target_problem(ts: Seq<Seq<char>>, changed: Seq<Seq<char>>, declared: Seq<Seq<char>>, k: int)
    requires
        first_target_problem(ts, changed, declared) is None,
        0 <= k < ts.len(),
    ensures
        relative_path_problem(ts[k]) is None,
        occurs(changed, ts[k]),
    decreases k,
{
    if k > 0 {
        lemma_no_target_problem(ts.drop_first(), changed, declared, k - 1);
        assert(ts.drop_first()[k - 1] == ts[k]);
    }
}

proof fn lemma_first_path_problem_none(ps: Seq<Seq<char>>)
    ensures
        first_path_problem(ps) is None <==> forall|i: int| 0 <= i < ps.len() ==> relative_path_problem(#[trigger] ps[i]) is None,
    decreases ps.len(),
{
    if ps.len() > 0 {
        let rest = ps.drop_first();
        lemma_first_path_problem_none(rest);
        if first_path_problem(ps) is None {
            assert forall|i: int| 0 <= i < ps.len() implies relative_path_problem(#[trigger] ps[i]) is None by {
                if i > 0 {
                    assert(ps[i] == rest[i - 1]);
                }
            }
        } else if relative_path_problem(ps[0]) is None {
            let j = choose|j: int| 0 <= j < rest.len() && relative_path_problem(#[trigger] rest[j]) is Some;
            assert(ps[j + 1] == rest[j]);
        }
    }
}

proof fn lemma_first_target_problem_none(ts: Seq<Seq<char>>, changed: Seq<Seq<char>>, declared: Seq<Seq<char>>)
    ensures
        first_target_problem(ts, changed, declared) is None <==> forall|i: int|
            0 <= i < ts.len() ==> relative_path_problem(#[trigger] ts[i]) is None && occurs(changed, ts[i]),
    decreases ts.len(),
{
    if ts.len() > 0 {
        let rest = ts.drop_first();
        lemma_first_target_problem_none(rest, changed, declared);
        if first_target_problem(ts, changed, declared) is None {
            assert forall|i: int| 0 <= i < ts.len() implies relative_path_problem(#[trigger] ts[i]) is None && occurs(
                changed,
                ts[i],
            ) by {
                if i > 0 {
                    assert(ts[i] == rest[i - 1]);
                }
            }
        } else if target_problem(ts[0], changed, declared) is None {
            let j = choose|j: int|
                0 <= j < rest.len() && !(relative_path_problem(#[trigger] rest[j]) is None && occurs(changed, rest[j]));
            assert(ts[j + 1] == rest[j]);
        }
    }
}

/// A proposal passes validation exactly when its schema version is
/// `0.1.0`, its goal, phase and patch are not blank, each changed path is
/// a relative path inside the worktree, its patch names its target files,
/// and each of those is a relative path inside the worktree that the
/// changed paths list.
pub proof fn lemma_proposal_accepted(p: MutationProposal, patch: Seq<char>)
    ensures
        proposal_problem(p, patch) is None <==> {
            &&& p.schema_version@ == "0.1.0"@
            &&& !is_blank(p.goal@)
            &&& !is_blank(p.phase@)
            &&& !is_blank(patch)
            &&& forall|i: int|
                0 <= i < p.changed_paths@.len() ==> relative_path_problem(#[trigger] p.changed_paths@[i]@) is None
            &&& patch_targets(patch) is Ok
            &&& forall|i: int|
                0 <= i < patch_targets(patch)->Ok_0.len() ==> relative_path_problem(
                    #[trigger] patch_targets(patch)->Ok_0[i],
                ) is None && occurs(views(p.changed_paths@), patch_targets(patch)->Ok_0[i])
        },
{
    let cp = views(p.changed_paths@);
    lemma_first_path_problem_none(cp);
    assert forall|i: int| 0 <= i < p.changed_paths@.len() implies cp[i] == (#[trigger] p.changed_paths@[i])@ by {}
    if patch_targets(patch) is Ok {
        lemma_first_target_problem_none(patch_targets(patch)->Ok_0, cp, effect_targets(p.side_effects@));
    }
}

/// A proposal that passes validation has only files written that it lists
/// in its changed paths, each a relative path inside the worktree: every
/// file step of applying its patch names such a file.
pub proof fn lemma_validated_patch_writes_declared_paths(p: MutationProposal, patch: Seq<char>, i: int, applied: bool)
    requires
        proposal_problem(p, patch) is None,
        0 <= i,
    ensures
        crate::patch::patch_step(crate::lines::lines_of(patch), i, applied) matches crate::patch::PatchStepView::File {
            target,
            ..
        } ==> occurs(views(p.changed_paths@), target) && relative_path_problem(target) is None,
{
    let ts = patch_targets(patch)->Ok_0;
    crate::patch::lemma_step_targets_listed(patch, i, applied);
    if let crate::patch::PatchStepView::File { target, .. } = crate::patch::patch_step(
        crate::lines::lines_of(patch),
        i,
        applied,
    ) {
        let k = choose|k: int| 0 <= k < ts.len() && #[trigger] ts[k] == target;
        lemma_no_target_problem(ts, views(p.changed_paths@), effect_targets(p.side_effects@), k);
    }
}

fn first_problem_of(paths: &Vec<String>) -> (r: Result<(), String>)
    ensures
        match r {
            Ok(()) => first_path_problem(views(paths@)) is None,
            Err(e) => first_path_problem(views(paths@)) == Some(e@),
        },
{
    let ghost v = views(paths@);
    let mut i: usize = 0;
    assert(v.skip(0) =~= v);
    while i < paths.len()
        invariant
            i <= paths@.len(),
            v == views(paths@),
            first_path_problem(v) == first_path_problem(v.skip(i as int)),
        decreases paths@.len() - i,
    {
        assert(v.skip(i as int)[0] == paths@[i as int]@);
        assert(v.skip(i as int).drop_first() =~= v.skip(i + 1));
        match validate_relative_path(paths[i].as_str()) {
            Ok(()) => {},
            Err(e) => {
                return Err(e);
            },
        }
        i += 1;
    }
    assert(v.skip(i as int) =~= Seq::<Seq<char>>::empty());
    Ok(())
}

fn declared_targets(effects: &Vec<SideEffectDeclaration>) -> (r: Vec<String>)
    ensures
        views(r@) == effect_targets(effects@),
{
    let mut r: Vec<String> = Vec::new();
    let mut i: usize = 0;
    while i < effects.len()
        invariant
            i <= effects@.len(),
            views(r@) == effect_targets(effects@).take(i as int),
        decreases effects@.len() - i,
    {
        let ghost before = views(r@);
        r.push(effects[i].target.clone());
        assert(views(r@) =~= before.push(effects@[i as int].target@));
        assert(effect_targets(effects@).take(i + 1) =~= effect_targets(effects@).take(i as int).push(
            effects@[i as int].target@,
        ));
        i += 1;
    }
    assert(effect_targets(effects@).take(i as int) =~= effect_targets(effects@));
    r
}

/// Checks a proposal and its patch text before anything runs.
pub fn validate_proposal(proposal: &MutationProposal, patch: &str) -> (r: Result<(), String>)
    ensures
        match r {
            Ok(()) => proposal_problem(*proposal, patch@) is None,
            Err(e) => proposal_problem(*proposal, patch@) == Some(e@),
        },
{
    if let TextOrder::Equal = compare_text(proposal.schema_version.as_str(), "0.1.0") {
    } else {
        return Err(join3("unsupported proposal schema_version '", proposal.schema_version.as_str(), "'"));
    }
    if text_is_blank(proposal.goal.as_str()) {
        return Err("proposal goal is required".to_owned());
    }
    if text_is_blank(proposal.phase.as_str()) {
        return Err("proposal phase is required".to_owned());
    }
    if text_is_blank(patch) {
        return Err("proposal patch is required".to_owned());
    }
    match first_problem_of(&proposal.changed_paths) {
        Ok(()) => {},
        Err(e) => {
            return Err(e);
        },
    }
    let targets = match patch_paths(patch) {
        Ok(v) => v,
        Err(e) => {
            return Err(e);
        },
    };
    let declared = declared_targets(&proposal.side_effects);
    let ghost ts = views(targets@);
    let ghost changed = views(proposal.changed_paths@);
    let ghost dec = views(declared@);
    let mut i: usize = 0;
    assert(ts.skip(0) =~= ts);
    assert(proposal_problem(*proposal, patch@) == first_target_problem(ts, changed, dec));
    while i < targets.len()
        invariant
            i <= targets@.len(),
            proposal_problem(*proposal, patch@) == first_target_problem(ts, changed, dec),
            ts == views(targets@),
            changed == views(proposal.changed_paths@),
            dec == views(declared@),
            first_target_problem(ts, changed, dec) == first_target_problem(ts.skip(i as int), changed, dec),
        decreases targets@.len() - i,
    {
        let path = targets[i].as_str();
        assert(ts.skip(i as int)[0] == path@);
        assert(ts.skip(i as int).drop_first() =~= ts.skip(i + 1));
        if validate_relative_path(path).is_err() {
            let is_declared = crate::text::contains_text(&declared, path);
            proof {
                if is_declared {
                    let k = choose|k: int| 0 <= k < declared@.len() && #[trigger] declared@[k]@ == path@;
                    assert(dec[k] == declared@[k]@);
                } else {
                    if occurs(dec, path@) {
                        let k = choose|k: int| 0 <= k < dec.len() && #[trigger] dec[k] == path@;
                        assert(declared@[k]@ == dec[k]);
                    }
                }
            }
            if is_declared {
                return Err(join3("patch path '", path, "' is outside the isolated worktree and cannot be applied in P1"));
            }
            return Err(join3("patch path '", path, "' requires an explicit side-effect declaration"));
        }
        let listed = crate::text::contains_text(&proposal.changed_paths, path);
        proof {
            if listed {
                let k = choose|k: int| 0 <= k < proposal.changed_paths@.len() && #[trigger] proposal.changed_paths@[k]@ == path@;
                assert(changed[k] == proposal.changed_paths@[k]@);
            } else {
                if occurs(changed, path@) {
                    let k = choose|k: int| 0 <= k < changed.len() && #[trigger] changed[k] == path@;
                    assert(proposal.changed_paths@[k]@ == changed[k]);
                }
            }
        }
        if !listed {
            return Err(join3("patch path '", path, "' is not listed in changed_paths"));
        }
        i += 1;
    }
    assert(ts.skip(i as int) =~= Seq::<Seq<char>>::empty());
    Ok(())
}

// ---------------------------------------------------------------------------
// Allowed check commands
// ---------------------------------------------------------------------------

pub open spec fn flake_check_args(worktree: Seq<char>) -> Seq<Seq<char>> {
    seq!["flake"@, "check"@, "--no-write-lock-file"@, "path:"@ + worktree]
}

/// The offline verifier runs only `true` and `false` without arguments,
/// `test` with worktree-relative arguments, and the flake check of the
/// worktree itself.
pub open spec fn check_allowed(c: ProposalCheck, worktree: Seq<char>) -> bool {
    if c.command@ == "true"@ || c.command@ == "false"@ {
        c.args@.len() == 0
    } else if c.command@ == "test"@ {
        forall|i: int| 0 <= i < c.args@.len() ==> relative_path_problem(#[trigger] c.args@[i]@) is None
    } else if c.command@ == "nix"@ {
        c.name@ == "nix-flake-check"@ && views(c.args@) == flake_check_args(worktree)
    } else {
        false
    }
}

/// Whether two lists of strings are equal.
pub fn same_texts(a: &Vec<String>, b: &Vec<String>) -> (r: bool)
    ensures
        r == (views(a@) == views(b@)),
{
    if a.len() != b.len() {
        proof {
            if views(a@) == views(b@) {
                assert(views(a@).len() == views(b@).len());
            }
        }
        return false;
    }
    let mut i: usize = 0;
    while i < a.len()
        invariant
            a@.len() == b@.len(),
            i <= a@.len(),
            forall|j: int| 0 <= j < i ==> #[trigger] a@[j]@ == b@[j]@,
        decreases a@.len() - i,
    {
        if let TextOrder::Equal = compare_text(a[i].as_str(), b[i].as_str()) {
        } else {
            assert(views(a@)[i as int] != views(b@)[i as int]);
            return false;
        }
        i += 1;
    }
    assert(views(a@) =~= views(b@));
    true
}

fn text_is(a: &str, b: &str) -> (r: bool)
    ensures
        r == (a@ == b@),
{
    match compare_text(a, b) {
        TextOrder::Equal => true,
        _ => false,
    }
}

/// The arguments of the flake check of `worktree`.
pub fn flake_check_arguments(worktree: &str) -> (r: Vec<String>)
    ensures
        views(r@) == flake_check_args(worktree@),
{
    let mut r: Vec<String> = Vec::new();
    r.push("flake".to_owned());
    r.push("check".to_owned());
    r.push("--no-write-lock-file".to_owned());
    r.push(join2("path:", worktree));
    assert(views(r@) =~= flake_check_args(worktree@));
    r
}

/// Whether the offline verifier may run `check` in `worktree`.
pub fn is_allowed_check(check: &ProposalCheck, worktree: &str) -> (r: bool)
    ensures
        r == check_allowed(*check, worktree@),
{
    let cmd = check.command.as_str();
    if text_is(cmd, "true") || text_is(cmd, "false") {
        check.args.len() == 0
    } else if text_is(cmd, "test") {
        let mut i: usize = 0;
        while i < check.args.len()
            invariant
                i <= check.args@.len(),
                check.command@ == "test"@,
                !(check.command@ == "true"@ || check.command@ == "false"@),
                forall|j: int| 0 <= j < i ==> relative_path_problem(#[trigger] check.args@[j]@) is None,
            decreases check.args@.len() - i,
        {
            if !is_safe_test_arg(check.args[i].as_str()) {
                assert(relative_path_problem(check.args@[i as int]@) is Some);
                return false;
            }
            i += 1;
        }
        true
    } else if text_is(cmd, "nix") {
        text_is(check.name.as_str(), "nix-flake-check") && same_texts(&check.args, &flake_check_arguments(worktree))
    } else {
        false
    }
}

/// Whether `arg` may be given to `test`: a worktree-relative path.
pub fn is_safe_test_arg(arg: &str) -> (r: bool)
    ensures
        r == (relative_path_problem(arg@) is None),
{
    validate_relative_path(arg).is_ok()
}

/// The flake check every verification runs first unless told otherwise.
pub fn flake_check(worktree: &str) -> (c: ProposalCheck)
    ensures
        c.name@ == "nix-flake-check"@,
        c.command@ == "nix"@,
        views(c.args@) == flake_check_args(worktree@),
        check_allowed(c, worktree@),
{
    proof {
        reveal_strlit("nix");
        reveal_strlit("true");
        reveal_strlit("false");
        reveal_strlit("test");
        assert("nix"@[0] != "true"@[0] && "nix"@[0] != "false"@[0] && "nix"@[0] != "test"@[0]);
        assert("nix"@ != "true"@ && "nix"@ != "false"@ && "nix"@ != "test"@);
    }
    ProposalCheck {
        name: "nix-flake-check".to_owned(),
        command: "nix".to_owned(),
        args: flake_check_arguments(worktree),
    }
}

pub open spec fn same_check(a: ProposalCheck, b: ProposalCheck) -> bool {
    a.name@ == b.name@ && a.command@ == b.command@ && views(a.args@) == views(b.args@)
}

/// A copy of a check.
pub fn copy_check(c: &ProposalCheck) -> (r: ProposalCheck)
    ensures
        r.name@ == c.name@,
        r.command@ == c.command@,
        r.args@ == c.args@,
        same_check(r, *c),
{
    ProposalCheck { name: c.name.clone(), command: c.command.clone(), args: copy_strings(&c.args) }
}

// ---------------------------------------------------------------------------
// Check results
// ---------------------------------------------------------------------------

/// The result of a check whose command ran: passed exactly when it exited
/// successfully.
pub fn check_result(
    check: &ProposalCheck,
    success: bool,
    exit_code: Option<i32>,
    stdout: String,
    stderr: String,
) -> (r: VerificationCheckResult)
    ensures
        r.name@ == check.name@,
        r.command@ == check.command@,
        r.args@ == check.args@,
        r.status == (if success {
            VerificationCheckStatus::Passed
        } else {
            VerificationCheckStatus::Failed
        }),
        r.exit_code == exit_code,
        r.stdout == stdout,
        r.stderr == stderr,
{
    VerificationCheckResult {
        name: check.name.clone(),
        command: check.command.clone(),
        args: copy_strings(&check.args),
        status: if success {
            VerificationCheckStatus::Passed
        } else {
            VerificationCheckStatus::Failed
        },
        exit_code,
        stdout,
        stderr,
    }
}

/// The result of a check whose command could not be started.
pub fn check_error_result(check: &ProposalCheck, error: String) -> (r: VerificationCheckResult)
    ensures
        r.name@ == check.name@,
        r.command@ == check.command@,
        r.args@ == check.args@,
        r.status == VerificationCheckStatus::Error,
        r.exit_code is None,
        r.stdout@ == Seq::<char>::empty(),
        r.stderr == error,
{
    VerificationCheckResult {
        name: check.name.clone(),
        command: check.command.clone(),
        args: copy_strings(&check.args),
        status: VerificationCheckStatus::Error,
        exit_code: None,
        stdout: String::new(),
        stderr: error,
    }
}

/// The check result that records applying a patch with outcome `outcome`.
pub open spec fn is_apply_check(r: VerificationCheckResult, outcome: Result<(), String>) -> bool {
    &&& r.name@ == "apply-patch"@
    &&& r.command@ == "internal-unified-diff"@
    &&& r.args@.len() == 0
    &&& r.stdout@ == Seq::<char>::empty()
    &&& match outcome {
        Ok(()) => r.status == VerificationCheckStatus::Passed && r.exit_code == Some(0i32) && r.stderr@
            == Seq::<char>::empty(),
        Err(e) => r.status == VerificationCheckStatus::Failed && r.exit_code == Some(1i32) && r.stderr == e,
    }
}

/// The check result recording the patch application.
pub fn apply_patch_check(outcome: Result<(), String>) -> (r: VerificationCheckResult)
    ensures
        is_apply_check(r, outcome),
{
    match outcome {
        Ok(()) => VerificationCheckResult {
            name: "apply-patch".to_owned(),
            command: "internal-unified-diff".to_owned(),
            args: Vec::new(),
            status: VerificationCheckStatus::Passed,
            exit_code: Some(0),
            stdout: String::new(),
            stderr: String::new(),
        },
        Err(error) => VerificationCheckResult {
            name: "apply-patch".to_owned(),
            command: "internal-unified-diff".to_owned(),
            args: Vec::new(),
            status: VerificationCheckStatus::Failed,
            exit_code: Some(1),
            stdout: String::new(),
            stderr: error,
        },
    }
}

/// Every check passed.
pub open spec fn all_passed(checks: Seq<VerificationCheckResult>) -> bool {
    forall|i: int| 0 <= i < checks.len() ==> (#[trigger] checks[i]).status == VerificationCheckStatus::Passed
}

/// Whether every check passed.
pub fn checks_all_passed(checks: &Vec<VerificationCheckResult>) -> (r: bool)
    ensures
        r == all_passed(checks@),
{
    let mut i: usize = 0;
    while i < checks.len()
        invariant
            i <= checks@.len(),
            forall|j: int| 0 <= j < i ==> (#[trigger] checks@[j]).status == VerificationCheckStatus::Passed,
        decreases checks@.len() - i,
    {
        match checks[i].status {
            VerificationCheckStatus::Passed => {},
            _ => {
                return false;
            },
        }
        i += 1;
    }
    true
}

} // verus!
