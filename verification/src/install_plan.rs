//! Planning a seed install (P3): selecting the promoted evidence, gating
//! it, and describing the lineage record and the seed files that the
//! install would write, with their content digests and planned effects.
use vstd::prelude::*;

use crate::checks::all_passed;
use crate::digest::{sha256_uri, sha256_uri_of};
use crate::paths::{is_absolute, is_absolute_path, normalized, normalized_starts_with, path_components, starts_with_components};
use crate::records::{
    EffectRecord, EffectRisk, GenerationRecord, InstallSeedFilePlan, InstallSeedManifest,
    LineageStatus, MutationPromotionRecord, MutationVerificationRecord, PlannedEffect,
    PromotionStatus, VerificationCheckResult, VerificationCheckStatus, VerificationStatus,
};
use crate::strmap::{pairs_from, pairs_insert, StringMap, TextPairs};
use crate::text::{
    compare_text, copy_opt, copy_strings, has_prefix, is_blank, join2, join3, opt_view, text_is_blank,
    text_starts_with, views, TextOrder,
};

verus! {

// ---------------------------------------------------------------------------
// Selecting the evidence
// ---------------------------------------------------------------------------

/// The selector, as shown in messages.
pub open spec fn selector_text(promotion_id: Option<String>, mutation_id: Option<String>) -> Seq<char> {
    match (promotion_id, mutation_id) {
        (Some(p), Some(m)) => "promotion_id="@ + p@ + ", mutation_id="@ + m@,
        (Some(p), None) => "promotion_id="@ + p@,
        (None, Some(m)) => "mutation_id="@ + m@,
        (None, None) => "<none>"@,
    }
}

/// The selector, as shown in messages.
pub fn selector_summary(promotion_id: &Option<String>, mutation_id: &Option<String>) -> (r: String)
    ensures
        r@ == selector_text(*promotion_id, *mutation_id),
{
    match (promotion_id, mutation_id) {
        (Some(p), Some(m)) => {
            let head = join3("promotion_id=", p.as_str(), ", mutation_id=");
            join2(head.as_str(), m.as_str())
        },
        (Some(p), None) => join2("promotion_id=", p.as_str()),
        (None, Some(m)) => join2("mutation_id=", m.as_str()),
        (None, None) => "<none>".to_owned(),
    }
}

/// A record matches the selector when it agrees with every id given.
pub open spec fn selects(promotion_id: Option<String>, mutation_id: Option<String>, r: MutationPromotionRecord) -> bool {
    &&& promotion_id matches Some(p) ==> r.promotion_id@ == p@
    &&& mutation_id matches Some(m) ==> r.mutation_id@ == m@
}

/// Whether `record` matches the selector.
pub fn matches_selector(
    promotion_id: &Option<String>,
    mutation_id: &Option<String>,
    record: &MutationPromotionRecord,
) -> (r: bool)
    ensures
        r == selects(*promotion_id, *mutation_id, *record),
{
    let promotion_matches = match promotion_id {
        None => true,
        Some(p) => match compare_text(record.promotion_id.as_str(), p.as_str()) {
            TextOrder::Equal => true,
            _ => false,
        },
    };
    let mutation_matches = match mutation_id {
        None => true,
        Some(m) => match compare_text(record.mutation_id.as_str(), m.as_str()) {
            TextOrder::Equal => true,
            _ => false,
        },
    };
    promotion_matches && mutation_matches
}

/// Install planning needs at least one of the two ids.
pub fn require_selector(promotion_id: &Option<String>, mutation_id: &Option<String>) -> (r: Result<(), String>)
    ensures
        r is Ok <==> (promotion_id is Some || mutation_id is Some),
        match r {
            Ok(()) => true,
            Err(e) => e@ == "install plan requires --promotion-id or --mutation-id"@,
        },
{
    if promotion_id.is_none() && mutation_id.is_none() {
        Err("install plan requires --promotion-id or --mutation-id".to_owned())
    } else {
        Ok(())
    }
}

/// The number of records of `rs` the selector matches.
pub open spec fn match_count(promotion_id: Option<String>, mutation_id: Option<String>, rs: Seq<MutationPromotionRecord>) -> nat
    decreases rs.len(),
{
    if rs.len() == 0 {
        0
    } else {
        match_count(promotion_id, mutation_id, rs.drop_last()) + if selects(promotion_id, mutation_id, rs.last()) {
            1nat
        } else {
            0nat
        }
    }
}

/// Picks the one promotion record the selector matches: an error when none
/// or several match.
pub fn select_promotion(
    records: &Vec<MutationPromotionRecord>,
    promotion_id: &Option<String>,
    mutation_id: &Option<String>,
) -> (r: Result<usize, String>)
    ensures
        match r {
            Ok(i) => i < records@.len() && match_count(*promotion_id, *mutation_id, records@) == 1 && selects(
                *promotion_id,
                *mutation_id,
                records@[i as int],
            ),
            Err(e) => (match_count(*promotion_id, *mutation_id, records@) == 0 && e@
                == "no matching promotion evidence found"@) || (match_count(*promotion_id, *mutation_id, records@) > 1
                && e@ == "multiple promotion records matched selector "@ + selector_text(*promotion_id, *mutation_id)
                + "; rerun with a unique --promotion-id"@),
        },
{
    let mut selected: Option<usize> = None;
    let mut matched: usize = 0;
    let mut i: usize = 0;
    assert(records@.take(0) =~= Seq::<MutationPromotionRecord>::empty());
    while i < records.len()
        invariant
            i <= records@.len(),
            matched == match_count(*promotion_id, *mutation_id, records@.take(i as int)),
            matched <= i,
            match selected {
                Some(k) => k < i && matched >= 1 && selects(*promotion_id, *mutation_id, records@[k as int]),
                None => matched == 0,
            },
        decreases records@.len() - i,
    {
        assert(records@.take(i + 1).drop_last() =~= records@.take(i as int));
        assert(records@.take(i + 1).last() == records@[i as int]);
        if matches_selector(promotion_id, mutation_id, &records[i]) {
            matched += 1;
            selected = Some(i);
        }
        i += 1;
    }
    assert(records@.take(i as int) =~= records@);
    if matched > 1 {
        let summary = selector_summary(promotion_id, mutation_id);
        return Err(join3("multiple promotion records matched selector ", summary.as_str(), "; rerun with a unique --promotion-id"));
    }
    match selected {
        Some(k) => Ok(k),
        None => Err("no matching promotion evidence found".to_owned()),
    }
}

/// Whether `r` is the verification `verification_id` of `mutation_id`.
pub open spec fn is_seed_verification(r: MutationVerificationRecord, verification_id: Seq<char>, mutation_id: Seq<char>) -> bool {
    r.verification_id@ == verification_id && r.mutation_id@ == mutation_id
}

/// Whether two of `rs` are the verification `verification_id` of `mutation_id`.
pub open spec fn two_seed_verifications(rs: Seq<MutationVerificationRecord>, verification_id: Seq<char>, mutation_id: Seq<char>) -> bool {
    exists|a: int, b: int|
        0 <= a < b < rs.len() && #[trigger] is_seed_verification(rs[a], verification_id, mutation_id)
            && #[trigger] is_seed_verification(rs[b], verification_id, mutation_id)
}

/// Picks the one verification record with `verification_id` of
/// `mutation_id` among the records read before the first unreadable line
/// (`parse_error` is that line's error, if there was one): a second match
/// among them is an error, then the line's error, then no match.
pub fn select_verification(
    records: &Vec<MutationVerificationRecord>,
    parse_error: Option<String>,
    verification_id: &str,
    mutation_id: &str,
) -> (r: Result<usize, String>)
    ensures
        match r {
            Ok(i) => i < records@.len() && parse_error is None && is_seed_verification(records@[i as int], verification_id@, mutation_id@)
                && forall|j: int|
                0 <= j < records@.len() && j != i ==> !#[trigger] is_seed_verification(records@[j], verification_id@, mutation_id@),
            Err(e) => if two_seed_verifications(records@, verification_id@, mutation_id@) {
                e@ == "multiple verification records matched promotion evidence"@
            } else if parse_error is Some {
                parse_error == Some(e)
            } else {
                &&& e@ == "no matching P1 verification evidence found"@
                &&& forall|j: int| 0 <= j < records@.len() ==> !#[trigger] is_seed_verification(records@[j], verification_id@, mutation_id@)
            },
        },
{
    let mut selected: Option<usize> = None;
    let mut i: usize = 0;
    while i < records.len()
        invariant
            i <= records@.len(),
            match selected {
                Some(k) => k < i && is_seed_verification(records@[k as int], verification_id@, mutation_id@) && forall|j: int|
                    0 <= j < i && j != k ==> !#[trigger] is_seed_verification(records@[j], verification_id@, mutation_id@),
                None => forall|j: int|
                    0 <= j < i ==> !#[trigger] is_seed_verification(records@[j], verification_id@, mutation_id@),
            },
        decreases records@.len() - i,
    {
        let same_id = match compare_text(records[i].verification_id.as_str(), verification_id) {
            TextOrder::Equal => true,
            _ => false,
        };
        let same_mutation = match compare_text(records[i].mutation_id.as_str(), mutation_id) {
            TextOrder::Equal => true,
            _ => false,
        };
        if same_id && same_mutation {
            if let Some(k) = selected {
                assert(is_seed_verification(records@[k as int], verification_id@, mutation_id@));
                assert(is_seed_verification(records@[i as int], verification_id@, mutation_id@));
                return Err("multiple verification records matched promotion evidence".to_owned());
            }
            selected = Some(i);
        }
        i += 1;
    }
    assert(!two_seed_verifications(records@, verification_id@, mutation_id@)) by {
        if two_seed_verifications(records@, verification_id@, mutation_id@) {
            let (a, b) = choose|a: int, b: int|
                0 <= a < b < records@.len() && #[trigger] is_seed_verification(records@[a], verification_id@, mutation_id@)
                    && #[trigger] is_seed_verification(records@[b], verification_id@, mutation_id@);
            match selected {
                Some(k) => {
                    if a != k {
                        assert(!is_seed_verification(records@[a], verification_id@, mutation_id@));
                    } else {
                        assert(!is_seed_verification(records@[b], verification_id@, mutation_id@));
                    }
                },
                None => {
                    assert(!is_seed_verification(records@[a], verification_id@, mutation_id@));
                },
            }
        }
    }
    if let Some(e) = parse_error {
        return Err(e);
    }
    match selected {
        Some(k) => Ok(k),
        None => Err("no matching P1 verification evidence found".to_owned()),
    }
}

// ---------------------------------------------------------------------------
// Gating the evidence
// ---------------------------------------------------------------------------

/// How an install plan is made.
pub struct InstallPlanSettings {
    pub promotion_id: Option<String>,
    pub mutation_id: Option<String>,
    pub target_root: String,
    pub parent_generation: String,
    pub resulting_generation: String,
    pub record: bool,
}

/// What the file system says about the paths `--record` writes through,
/// each as found or as the error that finding it gave.
pub struct RecordPathFacts {
    /// The generation journal as an absolute path.
    pub journal_absolute: Result<String, String>,
    pub journal_uses_symlink: Result<bool, String>,
    pub target_root_uses_symlink: Result<bool, String>,
}

pub open spec fn promotion_status_debug(s: PromotionStatus) -> Seq<char> {
    match s {
        PromotionStatus::Promoted => "Promoted"@,
        PromotionStatus::Rejected => "Rejected"@,
        PromotionStatus::Error => "Error"@,
    }
}

pub open spec fn has_vm_check(checks: Seq<VerificationCheckResult>) -> bool {
    exists|i: int| 0 <= i < checks.len() && has_prefix(#[trigger] checks[i].name@, "vm-check:"@)
}

/// Why promoted evidence cannot seed an install, if it cannot (before the
/// paths of `--record` are looked at).
pub open spec fn promotion_gate_problem(p: MutationPromotionRecord) -> Option<Seq<char>> {
    if p.status != PromotionStatus::Promoted {
        Some("P3 install plan requires promoted P2 evidence, got "@ + promotion_status_debug(p.status))
    } else if p.verification_id is None {
        Some("promoted P2 evidence is missing verification_id"@)
    } else if p.verified_root_fingerprint is None {
        Some("promoted P2 evidence is missing verified_root_fingerprint"@)
    } else if p.checks@.len() == 0 || !has_vm_check(p.checks@) {
        Some("promoted P2 evidence is missing VM check evidence"@)
    } else if !all_passed(p.checks@) {
        Some("promoted P2 evidence contains non-passing checks"@)
    } else {
        None
    }
}

/// Why `--record` may not write the generation journal, if it may not.
pub open spec fn record_paths_problem(target_root: Seq<char>, f: RecordPathFacts) -> Option<Seq<char>> {
    match f.journal_absolute {
        Err(e) => Some(e@),
        Ok(j) => if starts_with_components(
            normalized(path_components(j@)),
            normalized(path_components(target_root)),
        ) {
            Some("generation journal for --record must not be inside the install target root"@)
        } else {
            match f.journal_uses_symlink {
                Err(e) => Some(e@),
                Ok(true) => Some("generation journal for --record must not traverse symlinks"@),
                Ok(false) => match f.target_root_uses_symlink {
                    Err(e) => Some(e@),
                    Ok(true) => Some("target root for --record must not traverse symlinks"@),
                    Ok(false) => None,
                },
            }
        },
    }
}

/// Why an install plan may not be made from promotion `p`, if it may not.
pub open spec fn install_plan_problem(s: InstallPlanSettings, p: MutationPromotionRecord, f: RecordPathFacts) -> Option<
    Seq<char>,
> {
    match promotion_gate_problem(p) {
        Some(e) => Some(e),
        None => if !is_absolute(s.target_root@) {
            Some("install plan target root must be an absolute path"@)
        } else {
            match (if s.record {
                record_paths_problem(s.target_root@, f)
            } else {
                None
            }) {
                Some(e) => Some(e),
                None => if is_blank(s.parent_generation@) {
                    Some("install plan requires a non-empty parent generation"@)
                } else if is_blank(s.resulting_generation@) {
                    Some("install plan requires a non-empty resulting generation"@)
                } else {
                    None
                },
            }
        },
    }
}

fn status_debug(s: PromotionStatus) -> (r: String)
    ensures
        r@ == promotion_status_debug(s),
{
    match s {
        PromotionStatus::Promoted => "Promoted".to_owned(),
        PromotionStatus::Rejected => "Rejected".to_owned(),
        PromotionStatus::Error => "Error".to_owned(),
    }
}

fn promotion_gate(p: &MutationPromotionRecord) -> (r: Result<(), String>)
    ensures
        match r {
            Ok(()) => promotion_gate_problem(*p) is None,
            Err(e) => promotion_gate_problem(*p) == Some(e@),
        },
{
    match p.status {
        PromotionStatus::Promoted => {},
        s => {
            let d = status_debug(s);
            return Err(join2("P3 install plan requires promoted P2 evidence, got ", d.as_str()));
        },
    }
    if p.verification_id.is_none() {
        return Err("promoted P2 evidence is missing verification_id".to_owned());
    }
    if p.verified_root_fingerprint.is_none() {
        return Err("promoted P2 evidence is missing verified_root_fingerprint".to_owned());
    }
    if p.checks.len() == 0 {
        return Err("promoted P2 evidence is missing VM check evidence".to_owned());
    }
    let mut found = false;
    let mut i: usize = 0;
    while i < p.checks.len()
        invariant
            i <= p.checks@.len(),
            found == exists|j: int| 0 <= j < i && has_prefix(#[trigger] p.checks@[j].name@, "vm-check:"@),
        decreases p.checks@.len() - i,
    {
        if text_starts_with(p.checks[i].name.as_str(), "vm-check:") {
            found = true;
        }
        i += 1;
    }
    if !found {
        return Err("promoted P2 evidence is missing VM check evidence".to_owned());
    }
    if !crate::checks::checks_all_passed(&p.checks) {
        return Err("promoted P2 evidence contains non-passing checks".to_owned());
    }
    Ok(())
}

/// Whether the generation journal, made absolute, lies inside the target
/// root.
pub fn generation_journal_is_inside_target_root(journal_absolute: &str, target_root: &str) -> (r: bool)
    ensures
        r == starts_with_components(
            normalized(path_components(journal_absolute@)),
            normalized(path_components(target_root@)),
        ),
{
    normalized_starts_with(journal_absolute, target_root)
}

/// Whether an evidence bundle path, made absolute, lies inside the target
/// root, made absolute.
pub fn evidence_bundle_is_inside_target_root(path_absolute: &str, target_root_absolute: &str) -> (r: bool)
    ensures
        r == starts_with_components(
            normalized(path_components(path_absolute@)),
            normalized(path_components(target_root_absolute@)),
        ),
{
    normalized_starts_with(path_absolute, target_root_absolute)
}

/// Checks that promotion `promotion` may seed an install made with
/// `settings`.
pub fn validate_install_plan_input(
    settings: &InstallPlanSettings,
    promotion: &MutationPromotionRecord,
    facts: &RecordPathFacts,
) -> (r: Result<(), String>)
    ensures
        match r {
            Ok(()) => install_plan_problem(*settings, *promotion, *facts) is None,
            Err(e) => install_plan_problem(*settings, *promotion, *facts) == Some(e@),
        },
{
    match promotion_gate(promotion) {
        Ok(()) => {},
        Err(e) => {
            return Err(e);
        },
    }
    if !is_absolute_path(settings.target_root.as_str()) {
        return Err("install plan target root must be an absolute path".to_owned());
    }
    if settings.record {
        match &facts.journal_absolute {
            Err(e) => {
                return Err(e.clone());
            },
            Ok(j) => {
                if generation_journal_is_inside_target_root(j.as_str(), settings.target_root.as_str()) {
                    return Err("generation journal for --record must not be inside the install target root".to_owned());
                }
            },
        }
        match &facts.journal_uses_symlink {
            Err(e) => {
                return Err(e.clone());
            },
            Ok(true) => {
                return Err("generation journal for --record must not traverse symlinks".to_owned());
            },
            Ok(false) => {},
        }
        match &facts.target_root_uses_symlink {
            Err(e) => {
                return Err(e.clone());
            },
            Ok(true) => {
                return Err("target root for --record must not traverse symlinks".to_owned());
            },
            Ok(false) => {},
        }
    }
    if text_is_blank(settings.parent_generation.as_str()) {
        return Err("install plan requires a non-empty parent generation".to_owned());
    }
    if text_is_blank(settings.resulting_generation.as_str()) {
        return Err("install plan requires a non-empty resulting generation".to_owned());
    }
    Ok(())
}

/// Why the P1 verification cannot seed the install of promotion `p`, if it
/// cannot.
pub open spec fn verification_seed_problem(p: MutationPromotionRecord, v: MutationVerificationRecord) -> Option<Seq<char>> {
    if v.status != VerificationStatus::Verified {
        Some("seeded P1 verification evidence is not verified"@)
    } else if !all_passed(v.checks@) {
        Some("seeded P1 verification evidence contains non-passing checks"@)
    } else if v.proposal_fingerprint@ != p.proposal_fingerprint@ {
        Some("seeded P1 verification proposal fingerprint does not match P2 promotion"@)
    } else if opt_view(p.verified_root_fingerprint) != Some(v.root_fingerprint@) {
        Some("seeded P1 verification root fingerprint does not match P2 promotion"@)
    } else {
        None
    }
}

/// Checks that the P1 verification agrees with the promotion it seeds.
pub fn validate_verification_seed(
    promotion: &MutationPromotionRecord,
    verification: &MutationVerificationRecord,
) -> (r: Result<(), String>)
    ensures
        match r {
            Ok(()) => verification_seed_problem(*promotion, *verification) is None,
            Err(e) => verification_seed_problem(*promotion, *verification) == Some(e@),
        },
{
    match verification.status {
        VerificationStatus::Verified => {},
        _ => {
            return Err("seeded P1 verification evidence is not verified".to_owned());
        },
    }
    if !crate::checks::checks_all_passed(&verification.checks) {
        return Err("seeded P1 verification evidence contains non-passing checks".to_owned());
    }
    if let TextOrder::Equal = compare_text(
        verification.proposal_fingerprint.as_str(),
        promotion.proposal_fingerprint.as_str(),
    ) {
    } else {
        return Err("seeded P1 verification proposal fingerprint does not match P2 promotion".to_owned());
    }
    let root_matches = match &promotion.verified_root_fingerprint {
        None => false,
        Some(f) => match compare_text(f.as_str(), verification.root_fingerprint.as_str()) {
            TextOrder::Equal => true,
            _ => false,
        },
    };
    if !root_matches {
        return Err("seeded P1 verification root fingerprint does not match P2 promotion".to_owned());
    }
    Ok(())
}

// ---------------------------------------------------------------------------
// The planned lineage record
// ---------------------------------------------------------------------------

/// The metadata of a planned generation: the promotion's genome and
/// fingerprints.
pub open spec fn generation_metadata(p: MutationPromotionRecord) -> TextPairs {
    let base = seq![
        ("parent_genome"@, p.parent_genome@),
        ("proposal_fingerprint"@, p.proposal_fingerprint@),
        ("promotion_root_fingerprint"@, p.promotion_root_fingerprint@),
    ];
    pairs_from(
        match p.verified_root_fingerprint {
            Some(f) => base.push(("verified_root_fingerprint"@, f@)),
            None => base,
        },
    )
}

/// The metadata of a planned generation maps each name to the promotion
/// field of that name: its parent genome, its proposal fingerprint, its
/// promotion root fingerprint, and its verified root fingerprint where it
/// has one; no other name has a value.
pub proof fn lemma_generation_metadata_fields(p: MutationPromotionRecord, q: Seq<char>)
    ensures
        crate::strmap::pairs_get(generation_metadata(p), "parent_genome"@) == Some(p.parent_genome@),
        crate::strmap::pairs_get(generation_metadata(p), "proposal_fingerprint"@) == Some(p.proposal_fingerprint@),
        crate::strmap::pairs_get(generation_metadata(p), "promotion_root_fingerprint"@) == Some(
            p.promotion_root_fingerprint@,
        ),
        crate::strmap::pairs_get(generation_metadata(p), "verified_root_fingerprint"@) == opt_view(
            p.verified_root_fingerprint,
        ),
        q != "parent_genome"@ && q != "proposal_fingerprint"@ && q != "promotion_root_fingerprint"@ && q
            != "verified_root_fingerprint"@ ==> crate::strmap::pairs_get(generation_metadata(p), q) is None,
{
    reveal_strlit("parent_genome");
    reveal_strlit("proposal_fingerprint");
    reveal_strlit("promotion_root_fingerprint");
    reveal_strlit("verified_root_fingerprint");
    reveal_with_fuel(crate::strmap::last_value, 5);
    let base = seq![
        ("parent_genome"@, p.parent_genome@),
        ("proposal_fingerprint"@, p.proposal_fingerprint@),
        ("promotion_root_fingerprint"@, p.promotion_root_fingerprint@),
    ];
    let e = match p.verified_root_fingerprint {
        Some(f) => base.push(("verified_root_fingerprint"@, f@)),
        None => base,
    };
    assert("parent_genome"@.len() == 13 && "proposal_fingerprint"@.len() == 20 && "promotion_root_fingerprint"@.len()
        == 26 && "verified_root_fingerprint"@.len() == 25);
    assert(base.drop_last().drop_last().drop_last() =~= Seq::<(Seq<char>, Seq<char>)>::empty());
    assert(base.drop_last() =~= seq![("parent_genome"@, p.parent_genome@), ("proposal_fingerprint"@, p.proposal_fingerprint@)]);
    assert(base.drop_last().drop_last() =~= seq![("parent_genome"@, p.parent_genome@)]);
    assert(base.push(("verified_root_fingerprint"@, Seq::<char>::empty())).drop_last() =~= base);
    let qs = seq!["parent_genome"@, "proposal_fingerprint"@, "promotion_root_fingerprint"@, "verified_root_fingerprint"@, q];
    assert forall|j: int| 0 <= j < qs.len() implies crate::strmap::pairs_get(pairs_from(e), #[trigger] qs[j])
        == crate::strmap::last_value(e, qs[j]) by {
        crate::strmap::lemma_pairs_from_get(e, qs[j]);
    }
    assert(qs[0] == "parent_genome"@ && qs[1] == "proposal_fingerprint"@ && qs[2] == "promotion_root_fingerprint"@
        && qs[3] == "verified_root_fingerprint"@ && qs[4] == q);
    if let Some(f) = p.verified_root_fingerprint {
        assert(e.drop_last() =~= base);
    }
}

/// `g` is the lineage record of the generation planned from `promotion`:
/// planned at `timestamp`, named and parented as the settings say, with the
/// promotion's mutation, goal, organs, verification, promotion and target
/// configuration, the settings' target root, and the promotion's genome and
/// fingerprints as metadata.
pub open spec fn planned_generation_is(
    g: GenerationRecord,
    settings: InstallPlanSettings,
    promotion: MutationPromotionRecord,
    timestamp: Seq<char>,
) -> bool {
    &&& g.timestamp@ == timestamp
    &&& g.lineage_status == LineageStatus::Planned
    &&& g.generation@ == settings.resulting_generation@
    &&& g.mutation_id@ == promotion.mutation_id@
    &&& g.goal@ == promotion.goal@
    &&& views(g.changed_organs@) == views(promotion.changed_organs@)
    &&& opt_view(g.parent_generation) == Some(settings.parent_generation@)
    &&& g.activation_result@ == "planned-install"@
    &&& opt_view(g.verification_id) == opt_view(promotion.verification_id)
    &&& opt_view(g.promotion_id) == Some(promotion.promotion_id@)
    &&& opt_view(g.target_root) == Some(settings.target_root@)
    &&& opt_view(g.target_configuration) == Some(promotion.target_configuration@)
    &&& g.metadata@ == generation_metadata(promotion)
}

/// The lineage record of the planned generation.
pub fn generation_record(
    settings: &InstallPlanSettings,
    promotion: &MutationPromotionRecord,
    timestamp: String,
) -> (g: GenerationRecord)
    ensures
        planned_generation_is(g, *settings, *promotion, timestamp@),
{
    let mut metadata = StringMap::new();
    let ghost e0: TextPairs = Seq::empty();
    metadata.insert("parent_genome".to_owned(), promotion.parent_genome.clone());
    metadata.insert("proposal_fingerprint".to_owned(), promotion.proposal_fingerprint.clone());
    metadata.insert("promotion_root_fingerprint".to_owned(), promotion.promotion_root_fingerprint.clone());
    let ghost base = seq![
        ("parent_genome"@, promotion.parent_genome@),
        ("proposal_fingerprint"@, promotion.proposal_fingerprint@),
        ("promotion_root_fingerprint"@, promotion.promotion_root_fingerprint@),
    ];
    proof {
        assert(base.take(1).drop_last() =~= e0);
        assert(base.take(2).drop_last() =~= base.take(1));
        assert(base.drop_last() =~= base.take(2));
        assert(pairs_from(e0) =~= Seq::<(Seq<char>, Seq<char>)>::empty());
        assert(pairs_from(base.take(1)) == pairs_insert(pairs_from(e0), base[0].0, base[0].1));
        assert(pairs_from(base.take(2)) == pairs_insert(pairs_from(base.take(1)), base[1].0, base[1].1));
        assert(metadata@ == pairs_from(base));
    }
    if let Some(f) = &promotion.verified_root_fingerprint {
        metadata.insert("verified_root_fingerprint".to_owned(), f.clone());
        assert(base.push(("verified_root_fingerprint"@, f@)).drop_last() =~= base);
    }
    GenerationRecord {
        timestamp,
        lineage_status: LineageStatus::Planned,
        generation: settings.resulting_generation.clone(),
        mutation_id: promotion.mutation_id.clone(),
        goal: promotion.goal.clone(),
        changed_organs: copy_strings(&promotion.changed_organs),
        parent_generation: Some(settings.parent_generation.clone()),
        activation_result: "planned-install".to_owned(),
        verification_id: copy_opt(&promotion.verification_id),
        promotion_id: Some(promotion.promotion_id.clone()),
        target_root: Some(settings.target_root.clone()),
        target_configuration: Some(promotion.target_configuration.clone()),
        metadata,
    }
}

// ---------------------------------------------------------------------------
// Seed files
// ---------------------------------------------------------------------------

pub open spec fn seed_paths() -> Seq<Seq<char>> {
    seq![
        "/etc/autopoietic/identity.json"@,
        "/var/lib/autopoietic/mutation-results.jsonl"@,
        "/var/lib/autopoietic/mutation-promotions.jsonl"@,
        "/var/lib/autopoietic/generations.jsonl"@,
        "/var/lib/autopoietic/effects.jsonl"@,
    ]
}

pub open spec fn seed_sources() -> Seq<Seq<char>> {
    seq![
        "synthetic:p3-install-plan:identity"@,
        "evidence:p1-verification-record"@,
        "evidence:p2-promotion-record"@,
        "evidence:p3-generation-lineage-record"@,
        "synthetic:p3-planned-effect-ledger"@,
    ]
}

/// The paths an install seeds, in the order the manifest lists them.
pub fn planned_seed_installed_paths() -> (r: Vec<String>)
    ensures
        views(r@) == seed_paths(),
{
    let mut r: Vec<String> = Vec::new();
    r.push("/etc/autopoietic/identity.json".to_owned());
    r.push("/var/lib/autopoietic/mutation-results.jsonl".to_owned());
    r.push("/var/lib/autopoietic/mutation-promotions.jsonl".to_owned());
    r.push("/var/lib/autopoietic/generations.jsonl".to_owned());
    r.push("/var/lib/autopoietic/effects.jsonl".to_owned());
    assert(views(r@) =~= seed_paths());
    r
}

fn seed_sources_list() -> (r: Vec<String>)
    ensures
        views(r@) == seed_sources(),
{
    let mut r: Vec<String> = Vec::new();
    r.push("synthetic:p3-install-plan:identity".to_owned());
    r.push("evidence:p1-verification-record".to_owned());
    r.push("evidence:p2-promotion-record".to_owned());
    r.push("evidence:p3-generation-lineage-record".to_owned());
    r.push("synthetic:p3-planned-effect-ledger".to_owned());
    assert(views(r@) =~= seed_sources());
    r
}

/// `root` joined with the relative path `rel`, as `PathBuf::push` writes it.
pub open spec fn join_path(root: Seq<char>, rel: Seq<char>) -> Seq<char> {
    if has_prefix(rel, "/"@) {
        rel
    } else if root.len() > 0 && root.last() != '/' {
        root + "/"@ + rel
    } else {
        root + rel
    }
}

/// Where an absolute installed path lands under `target_root`.
pub open spec fn target_path_text(target_root: Seq<char>, installed_path: Seq<char>) -> Result<Seq<char>, Seq<char>> {
    if !has_prefix(installed_path, "/"@) {
        Err("installed seed path must be absolute: "@ + installed_path)
    } else {
        Ok(join_path(target_root, installed_path.skip(1)))
    }
}

/// Where an absolute installed path lands under `target_root`.
pub fn target_path_for_installed_path(target_root: &str, installed_path: &str) -> (r: Result<String, String>)
    ensures
        match r {
            Ok(p) => target_path_text(target_root@, installed_path@) == Ok::<Seq<char>, Seq<char>>(p@),
            Err(e) => target_path_text(target_root@, installed_path@) == Err::<Seq<char>, Seq<char>>(e@),
        },
{
    if !text_starts_with(installed_path, "/") {
        return Err(join2("installed seed path must be absolute: ", installed_path));
    }
    proof {
        reveal_strlit("/");
    }
    let cs = crate::text::chars_of(installed_path);
    let rel = crate::text::string_from(vstd::slice::slice_subrange(cs.as_slice(), 1, cs.len()));
    assert(rel@ =~= installed_path@.skip(1));
    if text_starts_with(rel.as_str(), "/") {
        return Ok(rel);
    }
    let rs = crate::text::chars_of(target_root);
    if rs.len() > 0 && rs[rs.len() - 1] != '/' {
        Ok(join3(target_root, "/", rel.as_str()))
    } else {
        Ok(join2(target_root, rel.as_str()))
    }
}

/// Joining a relative path onto an absolute root appends its components.
pub proof fn lemma_join_path_components(root: Seq<char>, rel: Seq<char>)
    requires
        is_absolute(root),
        !has_prefix(rel, "/"@),
    ensures
        is_absolute(join_path(root, rel)),
        path_components(join_path(root, rel)) == path_components(root) + crate::paths::piece_components(
            crate::lines::segments(rel, '/'),
        ),
{
    reveal_strlit("/");
    let j = join_path(root, rel);
    let sr = crate::lines::segments(root, '/');
    let sl = crate::lines::segments(rel, '/');
    crate::lines::lemma_segments_len(rel, '/');
    crate::paths::lemma_absolute_segments(root);
    assert(sr.len() >= 2) by {
        crate::lines::lemma_segments_len(root.skip(1), '/');
    }
    if root.last() != '/' {
        let y = seq!['/'] + rel;
        assert(j =~= root + y);
        assert(y.skip(1) =~= rel);
        crate::paths::lemma_absolute_segments(y);
        crate::lines::lemma_segments_concat(root, y, '/');
        let sy = crate::lines::segments(y, '/');
        assert(sy == seq![Seq::<char>::empty()] + sl);
        assert(sy[0] == Seq::<char>::empty());
        assert(sr.last() + Seq::<char>::empty() =~= sr.last());
        assert(sy.drop_first() =~= sl);
        let sj = crate::lines::segments(j, '/');
        assert(sj =~= sr + sl);
        assert(j[0] == root[0]);
        assert(sj.drop_first() =~= sr.drop_first() + sl);
        crate::paths::lemma_piece_components_concat(sr.drop_first(), sl);
        assert(path_components(j) =~= path_components(root) + crate::paths::piece_components(sl));
    } else {
        assert(j =~= root + rel);
        assert(sr == crate::lines::segments(root.drop_last(), '/').push(Seq::<char>::empty())) by {
            assert(root.drop_last().push(root.last()) =~= root);
        }
        assert(sr.last() == Seq::<char>::empty());
        crate::lines::lemma_segments_concat(root, rel, '/');
        assert(Seq::<char>::empty() + sl[0] =~= sl[0]);
        let sj = crate::lines::segments(j, '/');
        assert(sj =~= sr.drop_last() + sl);
        assert(j[0] == root[0]);
        let core = sr.drop_last().drop_first();
        assert(sj.drop_first() =~= core + sl);
        assert(sr.drop_first() =~= core.push(Seq::<char>::empty()));
        crate::paths::lemma_piece_components_concat(core, sl);
        assert(core.push(Seq::<char>::empty()).drop_last() =~= core);
        assert(crate::paths::piece_components(sr.drop_first()) == crate::paths::piece_components(core));
        assert(path_components(j) =~= path_components(root) + crate::paths::piece_components(sl));
    }
}

/// A seed file planned under an absolute target root, for an absolute
/// installed path without `..`, passes every check of install
/// verification.
pub proof fn lemma_planned_file_passes(root: Seq<char>, f: InstallSeedFilePlan)
    requires
        is_absolute(root),
        is_absolute(f.installed_path@),
        !has_prefix(f.installed_path@.skip(1), "/"@),
        !crate::paths::has_parent_component(f.installed_path@),
        target_path_text(root, f.installed_path@) == Ok::<Seq<char>, Seq<char>>(f.target_path@),
        crate::digest::is_sha256_uri_text(f.content_sha256@),
    ensures
        crate::install_verify::seed_file_problem(root, f) is None,
{
    reveal_strlit("/");
    let inst = f.installed_path@;
    let rel = inst.skip(1);
    assert(inst.subrange(0, 1) =~= "/"@);
    assert(has_prefix(inst, "/"@));
    assert(f.target_path@ == join_path(root, rel));
    lemma_join_path_components(root, rel);
    crate::paths::lemma_absolute_segments(inst);
    let sl = crate::lines::segments(rel, '/');
    let tail = crate::paths::piece_components(sl);
    assert(crate::lines::segments(inst, '/').drop_first() =~= sl);
    assert(path_components(inst) =~= seq![crate::paths::ComponentView::Root] + tail);
    assert(path_components(inst).drop_first() =~= tail);
    crate::paths::lemma_piece_components_kinds(sl);
    assert forall|i: int| 0 <= i < tail.len() implies #[trigger] tail[i] is Normal by {
        assert(path_components(inst)[i + 1] == tail[i]);
        if tail[i] is Parent {
            assert(path_components(inst)[i + 1] is Parent);
        }
    }
    crate::paths::lemma_normalized_plain_suffix(path_components(root), tail);
    let nr = normalized(path_components(root));
    assert((nr + tail).take(nr.len() as int) =~= nr);
}

/// A seed path written as `/` followed by words joined with `/`.
pub proof fn lemma_seed_path(p: Seq<char>, words: Seq<Seq<char>>)
    requires
        words.len() >= 1,
        p == crate::text::join_with(seq![Seq::<char>::empty()] + words, seq!['/']),
        forall|k: int| 0 <= k < words.len() ==> (#[trigger] words[k]).len() > 0 && words[k] != "."@ && words[k] != ".."@,
        forall|k: int, i: int| 0 <= k < words.len() && 0 <= i < words[k].len() ==> #[trigger] words[k][i] != '/',
    ensures
        is_absolute(p),
        !has_prefix(p.skip(1), "/"@),
        !crate::paths::has_parent_component(p),
{
    reveal_strlit("/");
    let w = seq![Seq::<char>::empty()] + words;
    assert forall|k: int, i: int| 0 <= k < w.len() && 0 <= i < w[k].len() implies #[trigger] w[k][i] != '/' by {
        assert(w[k] == words[k - 1]);
    }
    crate::lines::lemma_segments_join(w, '/');
    let s = crate::lines::segments(p, '/');
    assert(s == w);
    assert(s[0] == Seq::<char>::empty());
    // the first piece is empty, so the path starts with the separator
    crate::lines::lemma_segments_len(p, '/');
    assert(p.len() > 0 && p[0] == '/') by {
        lemma_join_starts(words);
    }
    assert(is_absolute(p));
    crate::paths::lemma_absolute_segments(p);
    assert(w.drop_first() =~= words);
    assert((seq![Seq::<char>::empty()] + crate::lines::segments(p.skip(1), '/')).drop_first() =~= crate::lines::segments(
        p.skip(1),
        '/',
    ));
    assert(crate::lines::segments(p.skip(1), '/') =~= words);
    assert(s.drop_first() =~= words);
    lemma_words_are_plain(words);
    let pc = crate::paths::piece_components(words);
    assert(path_components(p) == seq![crate::paths::ComponentView::Root] + pc);
    assert forall|i: int| 0 <= i < path_components(p).len() implies !(#[trigger] path_components(p)[i] is Parent) by {
        if i > 0 {
            assert(path_components(p)[i] == pc[i - 1]);
        }
    }
    crate::lines::lemma_segments_len(p.skip(1), '/');
    assert(words[0].len() > 0);
    assert(p.skip(1)[0] == words[0][0]) by {
        lemma_join_second(words);
    }
    assert(words[0][0] != '/');
    if has_prefix(p.skip(1), "/"@) {
        assert(p.skip(1).subrange(0, 1)[0] == p.skip(1)[0]);
        assert("/"@[0] == '/');
    }
}

proof fn lemma_join_starts(words: Seq<Seq<char>>)
    requires
        words.len() >= 1,
    ensures
        ({
            let j = crate::text::join_with(seq![Seq::<char>::empty()] + words, seq!['/']);
            j.len() > 0 && j[0] == '/' && j.skip(1) == crate::text::join_with(words, seq!['/'])
        }),
    decreases words.len(),
{
    let w = seq![Seq::<char>::empty()] + words;
    if words.len() == 1 {
        assert(w.drop_last() =~= seq![Seq::<char>::empty()]);
        assert(w.last() == words[0]);
        let j = crate::text::join_with(w, seq!['/']);
        assert(j == Seq::<char>::empty() + seq!['/'] + words[0]);
        assert(j.skip(1) =~= words[0]);
    } else {
        lemma_join_starts(words.drop_last());
        assert(w.drop_last() =~= seq![Seq::<char>::empty()] + words.drop_last());
        assert(w.last() == words.last());
        let j0 = crate::text::join_with(seq![Seq::<char>::empty()] + words.drop_last(), seq!['/']);
        let j = crate::text::join_with(w, seq!['/']);
        assert(j == j0 + seq!['/'] + words.last());
        assert(j.skip(1) =~= j0.skip(1) + seq!['/'] + words.last());
    }
}

proof fn lemma_join_second(words: Seq<Seq<char>>)
    requires
        words.len() >= 1,
        words[0].len() > 0,
    ensures
        ({
            let j = crate::text::join_with(seq![Seq::<char>::empty()] + words, seq!['/']);
            j.len() > 1 && j.skip(1)[0] == words[0][0]
        }),
    decreases words.len(),
{
    lemma_join_starts(words);
    lemma_join_first(words);
}

proof fn lemma_join_first(words: Seq<Seq<char>>)
    requires
        words.len() >= 1,
        words[0].len() > 0,
    ensures
        crate::text::join_with(words, seq!['/']).len() > 0,
        crate::text::join_with(words, seq!['/'])[0] == words[0][0],
    decreases words.len(),
{
    if words.len() > 1 {
        lemma_join_first(words.drop_last());
        let j0 = crate::text::join_with(words.drop_last(), seq!['/']);
        assert(crate::text::join_with(words, seq!['/']) == j0 + seq!['/'] + words.last());
    }
}

proof fn lemma_words_are_plain(words: Seq<Seq<char>>)
    requires
        forall|k: int| 0 <= k < words.len() ==> (#[trigger] words[k]).len() > 0 && words[k] != "."@ && words[k] != ".."@,
    ensures
        forall|i: int| 0 <= i < crate::paths::piece_components(words).len() ==> !(#[trigger] crate::paths::piece_components(words)[i] is Parent),
    decreases words.len(),
{
    if words.len() > 0 {
        let w1 = words.drop_last();
        assert forall|k: int| 0 <= k < w1.len() implies (#[trigger] w1[k]).len() > 0 && w1[k] != "."@ && w1[k] != ".."@ by {
            assert(w1[k] == words[k]);
        }
        lemma_words_are_plain(w1);
    }
}

/// Every seeded path is absolute, starts with a single `/`, and has no `..`.
pub proof fn lemma_seed_paths_plain()
    ensures
        forall|k: int|
            0 <= k < 5 ==> is_absolute(#[trigger] seed_paths()[k]) && !has_prefix(seed_paths()[k].skip(1), "/"@)
                && !crate::paths::has_parent_component(seed_paths()[k]),
{
    reveal_with_fuel(crate::text::join_with, 6);
    reveal_strlit(".");
    reveal_strlit("..");
    reveal_strlit("/etc/autopoietic/identity.json");
    reveal_strlit("/var/lib/autopoietic/effects.jsonl");
    reveal_strlit("/var/lib/autopoietic/generations.jsonl");
    reveal_strlit("/var/lib/autopoietic/mutation-promotions.jsonl");
    reveal_strlit("/var/lib/autopoietic/mutation-results.jsonl");
    reveal_strlit("autopoietic");
    reveal_strlit("effects.jsonl");
    reveal_strlit("etc");
    reveal_strlit("generations.jsonl");
    reveal_strlit("identity.json");
    reveal_strlit("lib");
    reveal_strlit("mutation-promotions.jsonl");
    reveal_strlit("mutation-results.jsonl");
    reveal_strlit("var");
    {
        let words = seq!["etc"@, "autopoietic"@, "identity.json"@];
        assert("/etc/autopoietic/identity.json"@ =~= crate::text::join_with(seq![Seq::<char>::empty()] + words, seq!['/']));
        assert forall|k: int| 0 <= k < words.len() implies (#[trigger] words[k]).len() > 0 && words[k] != "."@
            && words[k] != ".."@ by {
            assert(words[k].len() > 2);
        }
        lemma_seed_path("/etc/autopoietic/identity.json"@, words);
    }
    {
        let words = seq!["var"@, "lib"@, "autopoietic"@, "mutation-results.jsonl"@];
        assert("/var/lib/autopoietic/mutation-results.jsonl"@ =~= crate::text::join_with(seq![Seq::<char>::empty()] + words, seq!['/']));
        assert forall|k: int| 0 <= k < words.len() implies (#[trigger] words[k]).len() > 0 && words[k] != "."@
            && words[k] != ".."@ by {
            assert(words[k].len() > 2);
        }
        lemma_seed_path("/var/lib/autopoietic/mutation-results.jsonl"@, words);
    }
    {
        let words = seq!["var"@, "lib"@, "autopoietic"@, "mutation-promotions.jsonl"@];
        assert("/var/lib/autopoietic/mutation-promotions.jsonl"@ =~= crate::text::join_with(seq![Seq::<char>::empty()] + words, seq!['/']));
        assert forall|k: int| 0 <= k < words.len() implies (#[trigger] words[k]).len() > 0 && words[k] != "."@
            && words[k] != ".."@ by {
            assert(words[k].len() > 2);
        }
        lemma_seed_path("/var/lib/autopoietic/mutation-promotions.jsonl"@, words);
    }
    {
        let words = seq!["var"@, "lib"@, "autopoietic"@, "generations.jsonl"@];
        assert("/var/lib/autopoietic/generations.jsonl"@ =~= crate::text::join_with(seq![Seq::<char>::empty()] + words, seq!['/']));
        assert forall|k: int| 0 <= k < words.len() implies (#[trigger] words[k]).len() > 0 && words[k] != "."@
            && words[k] != ".."@ by {
            assert(words[k].len() > 2);
        }
        lemma_seed_path("/var/lib/autopoietic/generations.jsonl"@, words);
    }
    {
        let words = seq!["var"@, "lib"@, "autopoietic"@, "effects.jsonl"@];
        assert("/var/lib/autopoietic/effects.jsonl"@ =~= crate::text::join_with(seq![Seq::<char>::empty()] + words, seq!['/']));
        assert forall|k: int| 0 <= k < words.len() implies (#[trigger] words[k]).len() > 0 && words[k] != "."@
            && words[k] != ".."@ by {
            assert(words[k].len() > 2);
        }
        lemma_seed_path("/var/lib/autopoietic/effects.jsonl"@, words);
    }
    assert forall|k: int|
        0 <= k < 5 implies is_absolute(#[trigger] seed_paths()[k]) && !has_prefix(seed_paths()[k].skip(1), "/"@)
            && !crate::paths::has_parent_component(seed_paths()[k]) by {
    }
}

pub open spec fn compensation_text() -> Seq<char> {
    "inspect target state before applying; do not remove blindly"@
}

/// The seed file at `installed_path`, from `source`, with contents
/// `content`.
pub fn seed_file(target_root: &str, installed_path: &str, source: &str, content: &[u8]) -> (r: Result<
    InstallSeedFilePlan,
    String,
>)
    ensures
        match r {
            Ok(f) => {
                &&& target_path_text(target_root@, installed_path@) == Ok::<Seq<char>, Seq<char>>(f.target_path@)
                &&& f.installed_path@ == installed_path@
                &&& f.source@ == source@
                &&& f.content_sha256@ == sha256_uri_of(content@)
                &&& crate::digest::is_sha256_uri_text(f.content_sha256@)
                &&& f.effect.effect_type@ == "planned-seed-file-write"@
                &&& f.effect.target@ == f.target_path@
                &&& !f.effect.reversible
                &&& f.effect.compensation@ == compensation_text()
                &&& f.effect.verified_by@ == "mutation-runner install-plan"@
                &&& f.effect.risk == EffectRisk::Medium
                &&& f.effect.metadata@ == pairs_from(seq![("installed_path"@, installed_path@)])
            },
            Err(e) => target_path_text(target_root@, installed_path@) == Err::<Seq<char>, Seq<char>>(e@),
        },
{
    let target = match target_path_for_installed_path(target_root, installed_path) {
        Ok(t) => t,
        Err(e) => {
            return Err(e);
        },
    };
    let mut metadata = StringMap::new();
    metadata.insert("installed_path".to_owned(), installed_path.to_owned());
    proof {
        let e = seq![("installed_path"@, installed_path@)];
        assert(e.drop_last() =~= Seq::<(Seq<char>, Seq<char>)>::empty());
        assert(pairs_from(e.drop_last()) =~= Seq::<(Seq<char>, Seq<char>)>::empty());
    }
    Ok(InstallSeedFilePlan {
        installed_path: installed_path.to_owned(),
        target_path: target.clone(),
        source: source.to_owned(),
        content_sha256: sha256_uri(content),
        effect: PlannedEffect {
            effect_type: "planned-seed-file-write".to_owned(),
            target,
            reversible: false,
            compensation: "inspect target state before applying; do not remove blindly".to_owned(),
            verified_by: "mutation-runner install-plan".to_owned(),
            risk: EffectRisk::Medium,
            metadata,
        },
    })
}

/// Each serialized entry followed by a newline, as a JSON-lines file.
pub fn jsonl_bytes(entries: &Vec<Vec<u8>>) -> (r: Vec<u8>)
    ensures
        r@ == jsonl_of(entries@),
{
    let mut r: Vec<u8> = Vec::new();
    let mut i: usize = 0;
    assert(entries@.take(0) =~= Seq::<Vec<u8>>::empty());
    while i < entries.len()
        invariant
            i <= entries@.len(),
            r@ == jsonl_of(entries@.take(i as int)),
        decreases entries@.len() - i,
    {
        let mut j: usize = 0;
        let ghost start = r@;
        let e = &entries[i];
        while j < e.len()
            invariant
                j <= e@.len(),
                r@ == start + e@.take(j as int),
            decreases e@.len() - j,
        {
            r.push(e[j]);
            assert(e@.take(j + 1) =~= e@.take(j as int).push(e@[j as int]));
            j += 1;
        }
        r.push(10u8);
        proof {
            assert(e@.take(j as int) =~= e@);
            assert(entries@.take(i + 1).drop_last() =~= entries@.take(i as int));
            assert(entries@.take(i + 1).last() == entries@[i as int]);
        }
        i += 1;
    }
    assert(entries@.take(i as int) =~= entries@);
    r
}

/// The bytes of a JSON-lines file of serialized entries.
pub open spec fn jsonl_of(entries: Seq<Vec<u8>>) -> Seq<u8>
    decreases entries.len(),
{
    if entries.len() == 0 {
        Seq::empty()
    } else {
        jsonl_of(entries.drop_last()) + entries.last()@.push(10u8)
    }
}

/// The seed files of an install, from the serialized contents of each, in
/// the order of `seed_paths`.
pub fn seed_files(target_root: &str, contents: &Vec<Vec<u8>>) -> (r: Result<Vec<InstallSeedFilePlan>, String>)
    requires
        contents@.len() == 5,
    ensures
        match r {
            Ok(fs) => fs@.len() == 5 && (is_absolute(target_root@) ==> crate::install_verify::first_seed_file_problem(
                target_root@,
                fs@,
            ) is None) && forall|i: int|
                0 <= i < 5 ==> {
                    &&& (#[trigger] fs@[i]).installed_path@ == seed_paths()[i]
                    &&& fs@[i].source@ == seed_sources()[i]
                    &&& fs@[i].content_sha256@ == sha256_uri_of(contents@[i]@)
                    &&& target_path_text(target_root@, seed_paths()[i]) == Ok::<Seq<char>, Seq<char>>(fs@[i].target_path@)
                },
            Err(_) => false,
        },
{
    let paths = planned_seed_installed_paths();
    let sources = seed_sources_list();
    assert(views(paths@).len() == paths@.len());
    assert(views(sources@).len() == sources@.len());
    let mut files: Vec<InstallSeedFilePlan> = Vec::new();
    let mut i: usize = 0;
    proof {
        reveal_strlit("/etc/autopoietic/identity.json");
        reveal_strlit("/var/lib/autopoietic/mutation-results.jsonl");
        reveal_strlit("/var/lib/autopoietic/mutation-promotions.jsonl");
        reveal_strlit("/var/lib/autopoietic/generations.jsonl");
        reveal_strlit("/var/lib/autopoietic/effects.jsonl");
        reveal_strlit("/");
        assert forall|k: int| 0 <= k < 5 implies has_prefix(#[trigger] seed_paths()[k], "/"@) by {
            assert(seed_paths()[k][0] == '/');
            assert(seed_paths()[k].subrange(0, 1) =~= "/"@);
        }
        lemma_seed_paths_plain();
    }
    while i < 5
        invariant
            i <= 5,
            views(paths@) == seed_paths(),
            views(sources@) == seed_sources(),
            paths@.len() == 5,
            sources@.len() == 5,
            contents@.len() == 5,
            forall|k: int| 0 <= k < 5 ==> has_prefix(#[trigger] seed_paths()[k], "/"@),
            forall|k: int|
                0 <= k < 5 ==> is_absolute(#[trigger] seed_paths()[k]) && !has_prefix(seed_paths()[k].skip(1), "/"@)
                    && !crate::paths::has_parent_component(seed_paths()[k]),
            is_absolute(target_root@) ==> forall|k: int|
                0 <= k < i ==> crate::install_verify::seed_file_problem(target_root@, #[trigger] files@[k]) is None,
            files@.len() == i,
            forall|k: int|
                0 <= k < i ==> {
                    &&& (#[trigger] files@[k]).installed_path@ == seed_paths()[k]
                    &&& files@[k].source@ == seed_sources()[k]
                    &&& files@[k].content_sha256@ == sha256_uri_of(contents@[k]@)
                    &&& target_path_text(target_root@, seed_paths()[k]) == Ok::<Seq<char>, Seq<char>>(files@[k].target_path@)
                },
        decreases 5 - i,
    {
        assert(views(paths@)[i as int] == paths@[i as int]@);
        assert(views(sources@)[i as int] == sources@[i as int]@);
        let f = match seed_file(target_root, paths[i].as_str(), sources[i].as_str(), contents[i].as_slice()) {
            Ok(f) => f,
            Err(e) => {
                return Err(e);
            },
        };
        proof {
            if is_absolute(target_root@) {
                lemma_planned_file_passes(target_root@, f);
            }
        }
        files.push(f);
        i += 1;
    }
    proof {
        if is_absolute(target_root@) {
            crate::install_verify::lemma_no_seed_file_problem(target_root@, files@);
        }
    }
    Ok(files)
}

/// The seed manifest of an install planned for `generation`.
pub fn seed_manifest(
    target_root: &str,
    promotion: &MutationPromotionRecord,
    generation: &GenerationRecord,
    contents: &Vec<Vec<u8>>,
    generated_at: String,
) -> (r: Result<InstallSeedManifest, String>)
    requires
        contents@.len() == 5,
    ensures
        match r {
            Ok(m) => {
                &&& generation.promotion_id is Some
                &&& m.schema_version@ == "0.1.0"@
                &&& m.generated_at == generated_at
                &&& m.target_root@ == target_root@
                &&& m.mutation_id@ == promotion.mutation_id@
                &&& m.promotion_id@ == generation.promotion_id->0@
                &&& m.lineage_status == generation.lineage_status
                &&& m.files@.len() == 5
                &&& is_absolute(target_root@) ==> crate::install_verify::manifest_problem(m) is None
                &&& forall|i: int|
                    0 <= i < 5 ==> {
                        &&& (#[trigger] m.files@[i]).installed_path@ == seed_paths()[i]
                        &&& m.files@[i].source@ == seed_sources()[i]
                        &&& m.files@[i].content_sha256@ == sha256_uri_of(contents@[i]@)
                        &&& target_path_text(target_root@, seed_paths()[i]) == Ok::<Seq<char>, Seq<char>>(
                            m.files@[i].target_path@,
                        )
                    }
            },
            Err(e) => generation.promotion_id is None && e@ == "generation record is missing promotion_id"@,
        },
{
    let promotion_id = match &generation.promotion_id {
        Some(p) => p.clone(),
        None => {
            return Err("generation record is missing promotion_id".to_owned());
        },
    };
    let files = match seed_files(target_root, contents) {
        Ok(fs) => fs,
        Err(e) => {
            return Err(e);
        },
    };
    Ok(InstallSeedManifest {
        schema_version: "0.1.0".to_owned(),
        generated_at,
        target_root: target_root.to_owned(),
        mutation_id: promotion.mutation_id.clone(),
        promotion_id,
        lineage_status: generation.lineage_status,
        files,
    })
}

// ---------------------------------------------------------------------------
// Planned effects
// ---------------------------------------------------------------------------

/// The id of the planned effect on `target` of promotion `promotion_id`.
pub open spec fn planned_effect_id(promotion_id: Seq<char>, target: Seq<char>) -> Seq<char> {
    "eff-plan-"@ + sha256_uri_of(vstd::utf8::encode_utf8(promotion_id + ":"@ + target))
}

/// The effect ledger of an install: one planned write per seeded path.
pub fn planned_effect_records(
    target_root: &str,
    promotion: &MutationPromotionRecord,
    now: &str,
) -> (r: Vec<EffectRecord>)
    ensures
        r@.len() == 5,
        forall|i: int|
            0 <= i < 5 ==> {
                &&& target_path_text(target_root@, seed_paths()[i]) == Ok::<Seq<char>, Seq<char>>(
                    (#[trigger] r@[i]).target@,
                )
                &&& r@[i].effect_id@ == planned_effect_id(promotion.promotion_id@, r@[i].target@)
                &&& r@[i].timestamp@ == now@
                &&& r@[i].mutation_id@ == promotion.mutation_id@
                &&& r@[i].effect_type@ == "planned-seed-file-write"@
                &&& !r@[i].reversible
                &&& r@[i].compensation@ == compensation_text()
                &&& r@[i].verified_by@ == "mutation-runner install-plan"@
                &&& r@[i].risk == EffectRisk::Medium
                &&& r@[i].metadata@ == pairs_from(seq![("installed_path"@, seed_paths()[i])])
            },
{
    let paths = planned_seed_installed_paths();
    assert(views(paths@).len() == paths@.len());
    let mut r: Vec<EffectRecord> = Vec::new();
    let mut i: usize = 0;
    proof {
        reveal_strlit("/etc/autopoietic/identity.json");
        reveal_strlit("/var/lib/autopoietic/mutation-results.jsonl");
        reveal_strlit("/var/lib/autopoietic/mutation-promotions.jsonl");
        reveal_strlit("/var/lib/autopoietic/generations.jsonl");
        reveal_strlit("/var/lib/autopoietic/effects.jsonl");
        reveal_strlit("/");
        assert forall|k: int| 0 <= k < 5 implies has_prefix(#[trigger] seed_paths()[k], "/"@) by {
            assert(seed_paths()[k][0] == '/');
            assert(seed_paths()[k].subrange(0, 1) =~= "/"@);
        }
    }
    while i < 5
        invariant
            i <= 5,
            views(paths@) == seed_paths(),
            paths@.len() == 5,
            forall|k: int| 0 <= k < 5 ==> has_prefix(#[trigger] seed_paths()[k], "/"@),
            r@.len() == i,
            forall|k: int|
                0 <= k < i ==> {
                    &&& target_path_text(target_root@, seed_paths()[k]) == Ok::<Seq<char>, Seq<char>>(
                        (#[trigger] r@[k]).target@,
                    )
                    &&& r@[k].effect_id@ == planned_effect_id(promotion.promotion_id@, r@[k].target@)
                    &&& r@[k].timestamp@ == now@
                    &&& r@[k].mutation_id@ == promotion.mutation_id@
                    &&& r@[k].effect_type@ == "planned-seed-file-write"@
                    &&& !r@[k].reversible
                    &&& r@[k].compensation@ == compensation_text()
                    &&& r@[k].verified_by@ == "mutation-runner install-plan"@
                    &&& r@[k].risk == EffectRisk::Medium
                    &&& r@[k].metadata@ == pairs_from(seq![("installed_path"@, seed_paths()[k])])
                },
        decreases 5 - i,
    {
        let installed = paths[i].as_str();
        assert(views(paths@)[i as int] == paths@[i as int]@);
        let target = match target_path_for_installed_path(target_root, installed) {
            Ok(t) => t,
            Err(_) => {
                assert(false);
                return r;
            },
        };
        let key = join3(promotion.promotion_id.as_str(), ":", target.as_str());
        let digest = sha256_uri(key.as_str().as_bytes());
        let mut metadata = StringMap::new();
        metadata.insert("installed_path".to_owned(), installed.to_owned());
        proof {
            let e = seq![("installed_path"@, installed@)];
            assert(e.drop_last() =~= Seq::<(Seq<char>, Seq<char>)>::empty());
            assert(pairs_from(e.drop_last()) =~= Seq::<(Seq<char>, Seq<char>)>::empty());
        }
        r.push(EffectRecord {
            effect_id: join2("eff-plan-", digest.as_str()),
            timestamp: now.to_owned(),
            mutation_id: promotion.mutation_id.clone(),
            effect_type: "planned-seed-file-write".to_owned(),
            target,
            reversible: false,
            compensation: "inspect target state before applying; do not remove blindly".to_owned(),
            verified_by: "mutation-runner install-plan".to_owned(),
            risk: EffectRisk::Medium,
            metadata,
        });
        i += 1;
    }
    r
}

/// Selects the one promotion record the settings' selector matches, gates
/// it, and plans its generation: the plan exists exactly when the selector
/// is given, exactly one record matches it, and that record passes the
/// install gate; the planned generation names that record's promotion.
pub fn planned_generation(
    records: &Vec<MutationPromotionRecord>,
    settings: &InstallPlanSettings,
    facts: &RecordPathFacts,
    timestamp: String,
) -> (r: Result<(usize, GenerationRecord), String>)
    ensures
        match r {
            Ok((i, g)) => {
                &&& i < records@.len()
                &&& (settings.promotion_id is Some || settings.mutation_id is Some)
                &&& match_count(settings.promotion_id, settings.mutation_id, records@) == 1
                &&& selects(settings.promotion_id, settings.mutation_id, records@[i as int])
                &&& install_plan_problem(*settings, records@[i as int], *facts) is None
                &&& planned_generation_is(g, *settings, records@[i as int], timestamp@)
            },
            Err(e) => if settings.promotion_id is None && settings.mutation_id is None {
                e@ == "install plan requires --promotion-id or --mutation-id"@
            } else if match_count(settings.promotion_id, settings.mutation_id, records@) == 0 {
                e@ == "no matching promotion evidence found"@
            } else if match_count(settings.promotion_id, settings.mutation_id, records@) > 1 {
                e@ == "multiple promotion records matched selector "@ + selector_text(
                    settings.promotion_id,
                    settings.mutation_id,
                ) + "; rerun with a unique --promotion-id"@
            } else {
                exists|i: int|
                    0 <= i < records@.len() && selects(settings.promotion_id, settings.mutation_id, #[trigger] records@[i])
                        && install_plan_problem(*settings, records@[i], *facts) == Some(e@)
            },
        },
{
    match require_selector(&settings.promotion_id, &settings.mutation_id) {
        Ok(()) => {},
        Err(e) => {
            return Err(e);
        },
    }
    let i = match select_promotion(records, &settings.promotion_id, &settings.mutation_id) {
        Ok(i) => i,
        Err(e) => {
            return Err(e);
        },
    };
    match validate_install_plan_input(settings, &records[i], facts) {
        Ok(()) => {},
        Err(e) => {
            return Err(e);
        },
    }
    let g = generation_record(settings, &records[i], timestamp);
    Ok((i, g))
}

} // verus!
