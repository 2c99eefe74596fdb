//! The records that the tools read, write and hand between phases.
//!
//! Text fields are `String`s; key/value tables are [`StringMap`]s, whose
//! iteration order is the key order.
use vstd::prelude::*;

use crate::strmap::StringMap;

verus! {

// ---------------------------------------------------------------------------
// Self-state observation
// ---------------------------------------------------------------------------

#[derive(Debug, PartialEq, Eq)]
pub struct Identity {
    pub host: String,
    pub roles: Vec<String>,
}

#[derive(Debug, PartialEq, Eq)]
pub struct NixFile {
    pub path: String,
    pub bytes: u64,
    pub modified: String,
}

#[derive(Debug, PartialEq, Eq)]
pub struct GenomeState {
    pub has_flake: bool,
    pub has_lock: bool,
    pub inputs: Vec<String>,
    pub nix_files: Vec<NixFile>,
}

#[derive(Debug, PartialEq, Eq)]
pub struct PlatformState {
    pub system: String,
    pub release: String,
    pub machine: String,
}

#[derive(Debug, PartialEq, Eq)]
pub struct UnitState {
    pub name: String,
    pub load: String,
    pub active: String,
    pub sub: String,
}

#[derive(Debug, PartialEq, Eq)]
pub struct SystemdState {
    pub available: bool,
    pub error: Option<String>,
    pub units: Vec<UnitState>,
}

#[derive(Debug, PartialEq, Eq)]
pub struct InstalledPackages {
    pub available: bool,
    pub source: Option<String>,
    pub packages: Vec<String>,
}

#[derive(Debug, PartialEq, Eq)]
pub struct SystemGeneration {
    pub generation: String,
    pub path: String,
}

#[derive(Debug, PartialEq, Eq)]
pub struct GenerationsState {
    pub current_system: Option<String>,
    pub system_generations: Vec<SystemGeneration>,
}

#[derive(Debug, PartialEq, Eq)]
pub struct JournalState {
    pub included: bool,
    pub error: Option<String>,
    pub entries: Vec<String>,
}

#[derive(Debug, PartialEq, Eq)]
pub struct ProjectSummary {
    pub path: String,
    pub exists: bool,
    pub sampled_files: Option<usize>,
    pub top_suffixes: Vec<(String, usize)>,
}

#[derive(Debug, PartialEq, Eq)]
pub struct ShellHistoryState {
    pub included: bool,
    pub reason: Option<String>,
    pub entries: Vec<String>,
}

#[derive(Debug, PartialEq, Eq)]
pub struct BodyState {
    pub platform: PlatformState,
    pub systemd: SystemdState,
    pub installed_packages: InstalledPackages,
    pub generations: GenerationsState,
    pub journal: JournalState,
    pub projects: Vec<ProjectSummary>,
    pub shell_history: ShellHistoryState,
}

#[derive(Debug, PartialEq, Eq)]
pub struct MemoryState {
    pub root: String,
    pub mutation_log: String,
    pub effect_log: String,
    pub generation_log: String,
}

#[derive(Debug, PartialEq, Eq)]
pub struct PainPoint {
    pub signal: String,
    pub evidence: Vec<String>,
    pub candidate: String,
}

#[derive(Debug, PartialEq, Eq)]
pub struct SelfState {
    pub schema_version: String,
    pub observed_at: String,
    pub identity: Identity,
    pub genome: GenomeState,
    pub body: BodyState,
    pub memory: MemoryState,
    pub pain_points: Vec<PainPoint>,
}

// ---------------------------------------------------------------------------
// Journals
// ---------------------------------------------------------------------------

#[derive(Clone, Copy, Debug, PartialEq, Eq, Structural)]
pub enum MutationStatus {
    Pending,
    Accepted,
    Failed,
    Reverted,
}

#[derive(Clone, Copy, Debug, PartialEq, Eq, Structural)]
pub enum EffectRisk {
    Low,
    Medium,
    High,
    Irreversible,
}

#[derive(Debug, PartialEq, Eq)]
pub struct MutationRecord {
    pub mutation_id: String,
    pub timestamp: String,
    pub goal: String,
    pub status: MutationStatus,
    pub phase: String,
    pub reason: String,
    pub changed_paths: Vec<String>,
    pub next_hypothesis: String,
    pub metadata: StringMap,
}

#[derive(Debug, PartialEq, Eq)]
pub struct EffectRecord {
    pub effect_id: String,
    pub timestamp: String,
    pub mutation_id: String,
    pub effect_type: String,
    pub target: String,
    pub reversible: bool,
    pub compensation: String,
    pub verified_by: String,
    pub risk: EffectRisk,
    pub metadata: StringMap,
}

// ---------------------------------------------------------------------------
// Proposals, verification and promotion
// ---------------------------------------------------------------------------

#[derive(Debug, PartialEq, Eq)]
pub struct ProposalCheck {
    pub name: String,
    pub command: String,
    pub args: Vec<String>,
}

#[derive(Debug, PartialEq, Eq)]
pub struct SideEffectDeclaration {
    pub effect_type: String,
    pub target: String,
    pub reversible: bool,
    pub compensation: String,
    pub risk: EffectRisk,
}

#[derive(Debug, PartialEq, Eq)]
pub struct MutationProposal {
    pub schema_version: String,
    pub mutation_id: String,
    pub goal: String,
    pub phase: String,
    pub changed_paths: Vec<String>,
    pub expected_checks: Vec<ProposalCheck>,
    pub patch: Option<String>,
    pub patch_path: Option<String>,
    pub side_effects: Vec<SideEffectDeclaration>,
    pub metadata: StringMap,
}

#[derive(Clone, Copy, Debug, PartialEq, Eq, Structural)]
pub enum VerificationStatus {
    Verified,
    Rejected,
    Error,
}

#[derive(Clone, Copy, Debug, PartialEq, Eq, Structural)]
pub enum VerificationCheckStatus {
    Passed,
    Failed,
    Error,
}

#[derive(Debug, PartialEq, Eq)]
pub struct VerificationCheckResult {
    pub name: String,
    pub command: String,
    pub args: Vec<String>,
    pub status: VerificationCheckStatus,
    pub exit_code: Option<i32>,
    pub stdout: String,
    pub stderr: String,
}

#[derive(Debug, PartialEq, Eq)]
pub struct MutationVerificationRecord {
    pub verification_id: String,
    pub timestamp: String,
    pub mutation_id: String,
    pub goal: String,
    pub phase: String,
    pub status: VerificationStatus,
    pub reason: String,
    pub proposal_fingerprint: String,
    pub root_fingerprint: String,
    pub changed_paths: Vec<String>,
    pub checks: Vec<VerificationCheckResult>,
    pub side_effects: Vec<SideEffectDeclaration>,
    pub metadata: StringMap,
}

#[derive(Clone, Copy, Debug, PartialEq, Eq, Structural)]
pub enum PromotionStatus {
    Promoted,
    Rejected,
    Error,
}

#[derive(Debug, PartialEq, Eq)]
pub struct MutationPromotionRecord {
    pub promotion_id: String,
    pub timestamp: String,
    pub mutation_id: String,
    pub goal: String,
    pub phase: String,
    pub status: PromotionStatus,
    pub reason: String,
    pub verification_id: Option<String>,
    pub proposal_fingerprint: String,
    pub verified_root_fingerprint: Option<String>,
    pub promotion_root_fingerprint: String,
    pub parent_genome: String,
    pub target_configuration: String,
    pub changed_paths: Vec<String>,
    pub changed_organs: Vec<String>,
    pub checks: Vec<VerificationCheckResult>,
    pub metadata: StringMap,
}

// ---------------------------------------------------------------------------
// Generation lineage and install planning
// ---------------------------------------------------------------------------

#[derive(Clone, Copy, Debug, PartialEq, Eq, Structural)]
pub enum LineageStatus {
    Planned,
    Installed,
    Failed,
}

/// The lineage status a generation record has when its journal entry
/// does not state one.
pub fn default_lineage_status() -> (s: LineageStatus)
    ensures
        s == LineageStatus::Installed,
{
    LineageStatus::Installed
}

#[derive(Debug, PartialEq, Eq)]
pub struct GenerationRecord {
    pub timestamp: String,
    pub lineage_status: LineageStatus,
    pub generation: String,
    pub mutation_id: String,
    pub goal: String,
    pub changed_organs: Vec<String>,
    pub parent_generation: Option<String>,
    pub activation_result: String,
    pub verification_id: Option<String>,
    pub promotion_id: Option<String>,
    pub target_root: Option<String>,
    pub target_configuration: Option<String>,
    pub metadata: StringMap,
}

#[derive(Debug, PartialEq, Eq)]
pub struct PlannedEffect {
    pub effect_type: String,
    pub target: String,
    pub reversible: bool,
    pub compensation: String,
    pub verified_by: String,
    pub risk: EffectRisk,
    pub metadata: StringMap,
}

#[derive(Debug, PartialEq, Eq)]
pub struct InstallSeedFilePlan {
    pub installed_path: String,
    pub target_path: String,
    pub source: String,
    pub content_sha256: String,
    pub effect: PlannedEffect,
}

#[derive(Debug, PartialEq, Eq)]
pub struct InstallSeedManifest {
    pub schema_version: String,
    pub generated_at: String,
    pub target_root: String,
    pub mutation_id: String,
    pub promotion_id: String,
    pub lineage_status: LineageStatus,
    pub files: Vec<InstallSeedFilePlan>,
}

#[derive(Debug, PartialEq, Eq)]
pub struct InstallPlanOutput {
    pub generation: GenerationRecord,
    pub seed_manifest: InstallSeedManifest,
}

#[derive(Clone, Copy, Debug, PartialEq, Eq, Structural)]
pub enum InstallSeedFileStatus {
    Matched,
    Missing,
    Mismatched,
    Error,
}

#[derive(Debug, PartialEq, Eq)]
pub struct InstallSeedFileVerification {
    pub installed_path: String,
    pub target_path: String,
    pub expected_sha256: String,
    pub actual_sha256: Option<String>,
    pub status: InstallSeedFileStatus,
    pub reason: String,
}

#[derive(Debug, PartialEq, Eq)]
pub struct InstallVerifyOutput {
    pub verified_at: String,
    pub target_root: String,
    pub mutation_id: String,
    pub promotion_id: String,
    pub all_matched: bool,
    pub files: Vec<InstallSeedFileVerification>,
}

// ---------------------------------------------------------------------------
// Evidence bundles
// ---------------------------------------------------------------------------

#[derive(Clone, Copy, Debug, PartialEq, Eq, Structural)]
pub enum ComparisonStatus {
    Matched,
    Mismatched,
    Missing,
    Incomparable,
    Stale,
    Ambiguous,
    Error,
}

#[derive(Clone, Copy, Debug, PartialEq, Eq, Structural)]
pub enum DataQuality {
    Raw,
    Observed,
    Canonicalized,
    Verified,
    Derived,
    Stale,
    Ambiguous,
    Unknown,
}

#[derive(Debug, PartialEq, Eq)]
pub struct DigestRef {
    pub algorithm: String,
    pub value: String,
}

#[derive(Debug, PartialEq, Eq)]
pub struct ProvenanceRef {
    pub kind: String,
    pub source: String,
    pub digest: DigestRef,
    pub schema_version: String,
    pub metadata: StringMap,
}

#[derive(Debug, PartialEq, Eq)]
pub struct EvidenceSubject {
    pub mutation_id: String,
    pub proposal_fingerprint: String,
    pub root_fingerprint: Option<String>,
    pub generation_id: Option<String>,
    pub metadata: StringMap,
}

#[derive(Debug, PartialEq, Eq)]
pub struct EvidenceInputRef {
    pub input_id: String,
    pub kind: String,
    pub provenance: ProvenanceRef,
    pub quality: DataQuality,
    pub metadata: StringMap,
}

#[derive(Debug, PartialEq, Eq)]
pub struct EvidenceObservation {
    pub observation_id: String,
    pub kind: String,
    pub summary: String,
    pub quality: DataQuality,
    pub observed_at: Option<String>,
    pub raw_ref: ProvenanceRef,
    pub metadata: StringMap,
}

/// The normalized value of a canonical fact, in the shape its JSON takes:
/// absent (`null`), a text, a number, a flag, a list of texts, or a table
/// of texts.
#[derive(Debug, PartialEq, Eq)]
pub enum FactValue {
    Absent,
    Text(String),
    Number(u64),
    Flag(bool),
    Texts(Vec<String>),
    Table(StringMap),
}

#[derive(Debug, PartialEq, Eq)]
pub struct CanonicalFact {
    pub fact_id: String,
    pub kind: String,
    pub value: FactValue,
    pub quality: DataQuality,
    pub derived_from: Vec<String>,
    pub metadata: StringMap,
}

#[derive(Debug, PartialEq, Eq)]
pub struct ComparisonReport {
    pub comparison_id: String,
    pub left_ref: String,
    pub right_ref: String,
    pub status: ComparisonStatus,
    pub reason: String,
    pub quality: DataQuality,
    pub metadata: StringMap,
}

#[derive(Debug, PartialEq, Eq)]
pub struct EvidenceClaim {
    pub claim_id: String,
    pub claim: String,
    pub quality: DataQuality,
    pub backing: Vec<String>,
    pub limits: Vec<String>,
    pub metadata: StringMap,
}

#[derive(Debug, PartialEq, Eq)]
pub struct EvidenceBundle {
    pub schema_version: String,
    pub bundle_id: String,
    pub phase: String,
    pub subject: EvidenceSubject,
    pub inputs: Vec<EvidenceInputRef>,
    pub observations: Vec<EvidenceObservation>,
    pub canonical_facts: Vec<CanonicalFact>,
    pub comparisons: Vec<ComparisonReport>,
    pub claims: Vec<EvidenceClaim>,
    pub metadata: StringMap,
}

// ---------------------------------------------------------------------------
// Organ registry
// ---------------------------------------------------------------------------

#[derive(Clone, Copy, Debug, PartialEq, Eq, Structural)]
pub enum OrganType {
    TmpTool,
    Cli,
    DevShell,
    Package,
    HomeManagerModule,
    NixosModule,
    SystemdService,
    SystemdTimer,
    Overlay,
}

#[derive(Clone, Copy, Debug, PartialEq, Eq, Structural)]
pub enum DecayStatus {
    Active,
    Candidate,
    Stale,
    Duplicate,
    Failed,
}

#[derive(Debug, PartialEq, Eq)]
pub struct OrganRecord {
    pub name: String,
    pub organ_type: OrganType,
    pub source: String,
    pub purpose: String,
    pub created_by: Option<String>,
    pub usage_count: Option<u64>,
    pub failure_count: Option<u64>,
    pub related_goals: Vec<String>,
    pub decay_status: Option<DecayStatus>,
}

#[derive(Clone, Copy, Debug, PartialEq, Eq, Structural)]
pub enum OrganReviewStatus {
    Active,
    Candidate,
    Stale,
    Duplicate,
    Failed,
    Unknown,
}

#[derive(Debug, PartialEq, Eq)]
pub struct OrganReviewFinding {
    pub name: String,
    pub status: OrganReviewStatus,
    pub reason: String,
    pub evidence: StringMap,
}

#[derive(Debug, PartialEq, Eq)]
pub struct OrganReviewOutput {
    pub schema_version: String,
    pub reviewed_at: String,
    pub source: String,
    pub total_organs: usize,
    pub findings: Vec<OrganReviewFinding>,
    pub active: Vec<String>,
    pub candidates: Vec<String>,
    pub stale: Vec<String>,
    pub duplicate: Vec<String>,
    pub failed: Vec<String>,
    pub unknown: Vec<String>,
}

#[derive(Debug, PartialEq, Eq)]
pub struct OrganRegistrySuggestion {
    pub name: String,
    pub reason: String,
    pub observed_in: Vec<String>,
    pub evidence: StringMap,
}

#[derive(Debug, PartialEq, Eq)]
pub struct OrganRegistrySuggestionOutput {
    pub schema_version: String,
    pub reviewed_at: String,
    pub registry_source: String,
    pub promotion_source: String,
    pub generation_source: String,
    pub source_statuses: StringMap,
    pub registered_organs: Vec<String>,
    pub observed_changed_organs: Vec<String>,
    pub candidates: Vec<OrganRegistrySuggestion>,
    pub limits: Vec<String>,
}

} // verus!
