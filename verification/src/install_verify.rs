//! Checking an installed seed against its install plan: the plan's manifest
//! must be well formed before any file is read, and each target file's
//! content digest is compared with the manifest.
use vstd::prelude::*;

use crate::digest::{is_sha256_uri, is_sha256_uri_text, sha256_uri, sha256_uri_of};
use crate::paths::{
    component_views, components, has_parent_component, is_absolute, is_absolute_path, normalize,
    normalize_components, normalized, path_components, path_has_parent_component, same_components,
    starts_with_components, components_start_with, ComponentView, PathComponent,
};
use crate::records::{
    InstallPlanOutput, InstallSeedFilePlan, InstallSeedFileStatus, InstallSeedFileVerification,
    InstallSeedManifest, InstallVerifyOutput,
};
use crate::text::{compare_text, join2, TextOrder};

verus! {

/// The components of `target_root` joined with `installed_path` taken
/// relative to the root directory.
pub open spec fn expected_components(target_root: Seq<char>, installed_path: Seq<char>) -> Seq<ComponentView> {
    path_components(target_root) + path_components(installed_path).drop_first()
}

/// Where an installed path lands under `target_root`, as path components;
/// the installed path must be absolute.
pub fn expected_target_path(target_root: &str, installed_path: &str) -> (r: Result<Vec<PathComponent>, String>)
    ensures
        match r {
            Ok(cs) => is_absolute(installed_path@) && component_views(cs@) == expected_components(
                target_root@,
                installed_path@,
            ),
            Err(e) => !is_absolute(installed_path@) && e@ == "failed to relativize installed_path "@
                + installed_path@,
        },
{
    if !is_absolute_path(installed_path) {
        return Err(join2("failed to relativize installed_path ", installed_path));
    }
    let mut r = components(target_root);
    let tail = components(installed_path);
    let ghost start = component_views(r@);
    let ghost t = component_views(tail@);
    assert(t.len() >= 1);
    let mut i: usize = 1;
    while i < tail.len()
        invariant
            1 <= i <= tail@.len(),
            t == component_views(tail@),
            component_views(r@) == start + t.subrange(1, i as int),
        decreases tail@.len() - i,
    {
        let ghost before = component_views(r@);
        let c = match &tail[i] {
            PathComponent::Root => PathComponent::Root,
            PathComponent::Current => PathComponent::Current,
            PathComponent::Parent => PathComponent::Parent,
            PathComponent::Normal(s) => PathComponent::Normal(s.clone()),
        };
        r.push(c);
        assert(component_views(r@) =~= before.push(t[i as int]));
        assert(t.subrange(1, i + 1) =~= t.subrange(1, i as int).push(t[i as int]));
        i += 1;
    }
    assert(t.subrange(1, i as int) =~= t.drop_first());
    Ok(r)
}

/// Why a seed file entry of a manifest rooted at `root` is unusable, if it
/// is.
pub open spec fn seed_file_problem(root: Seq<char>, f: InstallSeedFilePlan) -> Option<Seq<char>> {
    if !is_absolute(f.installed_path@) {
        Some("install seed installed_path must be absolute: "@ + f.installed_path@)
    } else if has_parent_component(f.installed_path@) {
        Some("install seed installed_path must not contain parent components: "@ + f.installed_path@)
    } else if !is_sha256_uri_text(f.content_sha256@) {
        Some("install seed content_sha256 must match sha256:<64 lowercase hex>: "@ + f.content_sha256@)
    } else if !is_absolute(f.target_path@) {
        Some("install seed target_path must be absolute: "@ + f.target_path@)
    } else if !starts_with_components(
        normalized(path_components(f.target_path@)),
        normalized(path_components(root)),
    ) {
        Some("install seed target_path is outside target_root: "@ + f.target_path@)
    } else if normalized(path_components(f.target_path@)) != normalized(
        expected_components(root, f.installed_path@),
    ) {
        Some("install seed target_path does not match target_root plus installed_path: "@ + f.target_path@)
    } else {
        None
    }
}

pub open spec fn first_seed_file_problem(root: Seq<char>, files: Seq<InstallSeedFilePlan>) -> Option<Seq<char>>
    decreases files.len(),
{
    if files.len() == 0 {
        None
    } else {
        match seed_file_problem(root, files[0]) {
            Some(e) => Some(e),
            None => first_seed_file_problem(root, files.drop_first()),
        }
    }
}

/// Why a seed manifest cannot be verified against the disk, if it cannot.
pub open spec fn manifest_problem(m: InstallSeedManifest) -> Option<Seq<char>> {
    if m.schema_version@ != "0.1.0"@ {
        Some("unsupported install seed manifest schema_version: "@ + m.schema_version@)
    } else if m.files@.len() == 0 {
        Some("install seed manifest contains no files to verify"@)
    } else if !is_absolute(m.target_root@) {
        Some("install seed manifest target_root must be absolute"@)
    } else {
        first_seed_file_problem(m.target_root@, m.files@)
    }
}

/// Why an install plan cannot be verified against the disk, if it cannot.
pub open spec fn install_verify_plan_problem(plan: InstallPlanOutput) -> Option<Seq<char>> {
    manifest_problem(plan.seed_manifest)
}

/// No file of `files` has a problem, so the manifest's files pass.
pub proof fn lemma_no_seed_file_problem(root: Seq<char>, files: Seq<InstallSeedFilePlan>)
    requires
        forall|i: int| 0 <= i < files.len() ==> seed_file_problem(root, #[trigger] files[i]) is None,
    ensures
        first_seed_file_problem(root, files) is None,
    decreases files.len(),
{
    if files.len() > 0 {
        let rest = files.drop_first();
        assert forall|i: int| 0 <= i < rest.len() implies seed_file_problem(root, #[trigger] rest[i]) is None by {
            assert(rest[i] == files[i + 1]);
        }
        lemma_no_seed_file_problem(root, rest);
        assert(seed_file_problem(root, files[0]) is None);
    }
}

/// A seed file entry is usable: its installed path is absolute without a
/// `..` component, its digest reads `sha256:<64 lowercase hex>`, and its
/// target path is absolute, lies under the target root and is, once
/// normalized, the target root joined with the installed path.
pub open spec fn seed_file_usable(root: Seq<char>, f: InstallSeedFilePlan) -> bool {
    &&& is_absolute(f.installed_path@)
    &&& !has_parent_component(f.installed_path@)
    &&& is_sha256_uri_text(f.content_sha256@)
    &&& is_absolute(f.target_path@)
    &&& starts_with_components(normalized(path_components(f.target_path@)), normalized(path_components(root)))
    &&& normalized(path_components(f.target_path@)) == normalized(expected_components(root, f.installed_path@))
}

proof fn lemma_first_seed_file_problem_none(root: Seq<char>, files: Seq<InstallSeedFilePlan>)
    ensures
        first_seed_file_problem(root, files) is None <==> forall|i: int|
            0 <= i < files.len() ==> seed_file_problem(root, #[trigger] files[i]) is None,
    decreases files.len(),
{
    if files.len() > 0 {
        let rest = files.drop_first();
        lemma_first_seed_file_problem_none(root, rest);
        if first_seed_file_problem(root, files) is None {
            assert forall|i: int| 0 <= i < files.len() implies seed_file_problem(root, #[trigger] files[i]) is None by {
                if i > 0 {
                    assert(files[i] == rest[i - 1]);
                }
            }
        } else {
            lemma_no_seed_file_problem_converse(root, files);
        }
    }
}

proof fn lemma_no_seed_file_problem_converse(root: Seq<char>, files: Seq<InstallSeedFilePlan>)
    requires
        files.len() > 0,
        first_seed_file_problem(root, files) is Some,
        first_seed_file_problem(root, files.drop_first()) is None <==> forall|i: int|
            0 <= i < files.drop_first().len() ==> seed_file_problem(root, #[trigger] files.drop_first()[i]) is None,
    ensures
        !(forall|i: int| 0 <= i < files.len() ==> seed_file_problem(root, #[trigger] files[i]) is None),
{
    if seed_file_problem(root, files[0]) is None {
        let rest = files.drop_first();
        let j = choose|j: int| 0 <= j < rest.len() && !(seed_file_problem(root, #[trigger] rest[j]) is None);
        assert(files[j + 1] == rest[j]);
    }
}

/// An install plan can be verified against the disk exactly when its seed
/// manifest has schema version `0.1.0`, lists at least one file, has an
/// absolute target root, and every file entry of it is usable.
pub proof fn lemma_install_verify_plan_accepted(plan: InstallPlanOutput)
    ensures
        install_verify_plan_problem(plan) is None <==> {
            let m = plan.seed_manifest;
            &&& m.schema_version@ == "0.1.0"@
            &&& m.files@.len() > 0
            &&& is_absolute(m.target_root@)
            &&& forall|i: int| 0 <= i < m.files@.len() ==> seed_file_usable(m.target_root@, #[trigger] m.files@[i])
        },
{
    let m = plan.seed_manifest;
    lemma_first_seed_file_problem_none(m.target_root@, m.files@);
    assert forall|i: int| 0 <= i < m.files@.len() implies (seed_file_problem(m.target_root@, #[trigger] m.files@[i]) is None
        <==> seed_file_usable(m.target_root@, m.files@[i])) by {}
}

fn check_seed_file(root: &str, file: &InstallSeedFilePlan) -> (r: Result<(), String>)
    ensures
        match r {
            Ok(()) => seed_file_problem(root@, *file) is None,
            Err(e) => seed_file_problem(root@, *file) == Some(e@),
        },
{
    let installed = file.installed_path.as_str();
    if !is_absolute_path(installed) {
        return Err(join2("install seed installed_path must be absolute: ", installed));
    }
    if path_has_parent_component(installed) {
        return Err(join2("install seed installed_path must not contain parent components: ", installed));
    }
    if !is_sha256_uri(file.content_sha256.as_str()) {
        return Err(
            join2(
                "install seed content_sha256 must match sha256:<64 lowercase hex>: ",
                file.content_sha256.as_str(),
            ),
        );
    }
    let target = file.target_path.as_str();
    if !is_absolute_path(target) {
        return Err(join2("install seed target_path must be absolute: ", target));
    }
    let target_norm = normalize_components(target);
    let root_norm = normalize_components(root);
    if !components_start_with(&target_norm, &root_norm) {
        return Err(join2("install seed target_path is outside target_root: ", target));
    }
    let expected = match expected_target_path(root, installed) {
        Ok(cs) => cs,
        Err(e) => {
            return Err(e);
        },
    };
    let expected_norm = normalize(&expected);
    if !same_components(&target_norm, &expected_norm) {
        return Err(join2("install seed target_path does not match target_root plus installed_path: ", target));
    }
    Ok(())
}

/// Checks that an install plan's seed manifest can be verified: the known
/// schema, at least one file, an absolute target root, and for every file
/// an absolute installed path without `..`, a well-formed digest, and a
/// target path that is exactly the target root plus the installed path.
pub fn validate_install_verify_plan(plan: &InstallPlanOutput) -> (r: Result<(), String>)
    ensures
        match r {
            Ok(()) => install_verify_plan_problem(*plan) is None,
            Err(e) => install_verify_plan_problem(*plan) == Some(e@),
        },
{
    let m = &plan.seed_manifest;
    if let TextOrder::Equal = compare_text(m.schema_version.as_str(), "0.1.0") {
    } else {
        return Err(join2("unsupported install seed manifest schema_version: ", m.schema_version.as_str()));
    }
    if m.files.len() == 0 {
        return Err("install seed manifest contains no files to verify".to_owned());
    }
    let root = m.target_root.as_str();
    if !is_absolute_path(root) {
        return Err("install seed manifest target_root must be absolute".to_owned());
    }
    let ghost fs = m.files@;
    let mut i: usize = 0;
    assert(fs.skip(0) =~= fs);
    while i < m.files.len()
        invariant
            i <= fs.len(),
            fs == m.files@,
            install_verify_plan_problem(*plan) == first_seed_file_problem(root@, fs.skip(i as int)),
        decreases fs.len() - i,
    {
        assert(fs.skip(i as int)[0] == fs[i as int]);
        assert(fs.skip(i as int).drop_first() =~= fs.skip(i + 1));
        match check_seed_file(root, &m.files[i]) {
            Ok(()) => {},
            Err(e) => {
                return Err(e);
            },
        }
        i += 1;
    }
    assert(fs.skip(i as int) =~= Seq::<InstallSeedFilePlan>::empty());
    Ok(())
}

// ---------------------------------------------------------------------------
// Checking seed files
// ---------------------------------------------------------------------------

/// What reading a seed's target file gave.
pub enum SeedRead {
    Bytes(Vec<u8>),
    NotFound,
    Failed(String),
}

/// The verification entry of a seed file.
pub fn seed_verification(
    file: &InstallSeedFilePlan,
    actual_sha256: Option<String>,
    status: InstallSeedFileStatus,
    reason: String,
) -> (r: InstallSeedFileVerification)
    ensures
        r.installed_path@ == file.installed_path@,
        r.target_path@ == file.target_path@,
        r.expected_sha256@ == file.content_sha256@,
        r.actual_sha256 == actual_sha256,
        r.status == status,
        r.reason == reason,
{
    InstallSeedFileVerification {
        installed_path: file.installed_path.clone(),
        target_path: file.target_path.clone(),
        expected_sha256: file.content_sha256.clone(),
        actual_sha256,
        status,
        reason,
    }
}

/// The verification entry `r` is what reading `read` at the target of the
/// seed `file` shows: the file matches exactly when the digest of its bytes
/// is the manifest's.
pub open spec fn seed_checked(r: InstallSeedFileVerification, file: InstallSeedFilePlan, read: SeedRead) -> bool {
    &&& r.installed_path@ == file.installed_path@
    &&& r.target_path@ == file.target_path@
    &&& r.expected_sha256@ == file.content_sha256@
    &&& match read {
        SeedRead::Bytes(b) => {
            &&& r.actual_sha256 is Some
            &&& r.actual_sha256->0@ == sha256_uri_of(b@)
            &&& if sha256_uri_of(b@) == file.content_sha256@ {
                r.status == InstallSeedFileStatus::Matched && r.reason@ == "content hash matched"@
            } else {
                r.status == InstallSeedFileStatus::Mismatched && r.reason@
                    == "content hash did not match install seed manifest"@
            }
        },
        SeedRead::NotFound => r.actual_sha256 is None && r.status == InstallSeedFileStatus::Missing && r.reason@
            == "target file is missing"@,
        SeedRead::Failed(e) => r.actual_sha256 is None && r.status == InstallSeedFileStatus::Error && r.reason@
            == "failed to read target file: "@ + e@,
    }
}

/// Compares what was read at a seed's target path with the manifest: the
/// file matches exactly when the digest of its bytes is the manifest's.
pub fn verify_seed_file(file: &InstallSeedFilePlan, read: &SeedRead) -> (r: InstallSeedFileVerification)
    ensures
        seed_checked(r, *file, *read),
{
    match read {
        SeedRead::Bytes(bytes) => {
            let actual = sha256_uri(bytes.as_slice());
            let same = match compare_text(actual.as_str(), file.content_sha256.as_str()) {
                TextOrder::Equal => true,
                _ => false,
            };
            if same {
                seed_verification(file, Some(actual), InstallSeedFileStatus::Matched, "content hash matched".to_owned())
            } else {
                seed_verification(
                    file,
                    Some(actual),
                    InstallSeedFileStatus::Mismatched,
                    "content hash did not match install seed manifest".to_owned(),
                )
            }
        },
        SeedRead::NotFound => seed_verification(
            file,
            None,
            InstallSeedFileStatus::Missing,
            "target file is missing".to_owned(),
        ),
        SeedRead::Failed(e) => {
            let reason = join2("failed to read target file: ", e.as_str());
            seed_verification(file, None, InstallSeedFileStatus::Error, reason)
        },
    }
}

/// Checks every seed file of `plan` against what was read at its target:
/// `reads[i]` is the read of the `i`-th file of the manifest.
pub fn verify_seed_files(plan: &InstallPlanOutput, reads: &Vec<SeedRead>) -> (r: Vec<InstallSeedFileVerification>)
    requires
        reads@.len() == plan.seed_manifest.files@.len(),
    ensures
        r@.len() == reads@.len(),
        forall|i: int|
            0 <= i < r@.len() ==> seed_checked(#[trigger] r@[i], plan.seed_manifest.files@[i], reads@[i]),
{
    let mut r: Vec<InstallSeedFileVerification> = Vec::new();
    let mut i: usize = 0;
    while i < reads.len()
        invariant
            i <= reads@.len(),
            reads@.len() == plan.seed_manifest.files@.len(),
            r@.len() == i,
            forall|k: int| 0 <= k < i ==> seed_checked(#[trigger] r@[k], plan.seed_manifest.files@[k], reads@[k]),
        decreases reads@.len() - i,
    {
        r.push(verify_seed_file(&plan.seed_manifest.files[i], &reads[i]));
        i += 1;
    }
    r
}

pub open spec fn all_matched(files: Seq<InstallSeedFileVerification>) -> bool {
    forall|i: int| 0 <= i < files.len() ==> (#[trigger] files[i]).status == InstallSeedFileStatus::Matched
}

/// The install verification report: it says all files matched exactly when
/// every file's status is `Matched`.
pub fn install_verify_output(
    plan: &InstallPlanOutput,
    files: Vec<InstallSeedFileVerification>,
    verified_at: String,
) -> (r: InstallVerifyOutput)
    ensures
        r.verified_at == verified_at,
        r.target_root@ == plan.seed_manifest.target_root@,
        r.mutation_id@ == plan.seed_manifest.mutation_id@,
        r.promotion_id@ == plan.seed_manifest.promotion_id@,
        r.files == files,
        r.all_matched == all_matched(files@),
{
    let mut matched = true;
    let mut i: usize = 0;
    while i < files.len()
        invariant
            i <= files@.len(),
            matched == forall|j: int| 0 <= j < i ==> (#[trigger] files@[j]).status == InstallSeedFileStatus::Matched,
        decreases files@.len() - i,
    {
        match files[i].status {
            InstallSeedFileStatus::Matched => {},
            _ => {
                matched = false;
            },
        }
        i += 1;
    }
    InstallVerifyOutput {
        verified_at,
        target_root: plan.seed_manifest.target_root.clone(),
        mutation_id: plan.seed_manifest.mutation_id.clone(),
        promotion_id: plan.seed_manifest.promotion_id.clone(),
        all_matched: matched,
        files,
    }
}

} // verus!
