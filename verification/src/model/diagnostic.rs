//! Diagnostic contexts, assertions, historical candidates and packets.

use vstd::prelude::*;

use super::flow::{ContextFlow, EntryEvidence, EntryManifest, FlowRef, RelatedTestEvidence};
use super::graph::{ContextRef, GraphEdge, GraphNode};
use super::last_known_good::LastKnownGoodBinding;
use super::lkg_protocol::{LastKnownGoodApplicability, LastKnownGoodCandidate, LastKnownGoodState};
use super::schemas::SourceFile;
use super::temporal::ContextReconciliation;
use super::temporal_delta::EvidenceContract;
use super::typescript::{
    ModuleResolutionBasis, ModuleResolutionConfigFile, ResolutionEvidence,
};

verus! {

/// Bounds that keep a diagnosis and its packet small.
#[derive(Debug, Clone, PartialEq, Eq)]
pub struct DiagnosticLimits {
    pub max_commits: usize,
    pub max_candidates: usize,
    pub max_paths: usize,
    pub max_context_refs: usize,
    pub max_assertions: usize,
    pub max_snapshot_bytes: usize,
    pub max_packet_bytes: usize,
}

impl Default for DiagnosticLimits {
    fn default() -> (r: Self)
        ensures
            r.max_commits == 128,
            r.max_candidates == 64,
            r.max_paths == 256,
            r.max_context_refs == 256,
            r.max_assertions == 256,
            r.max_snapshot_bytes == 4 * 1024 * 1024,
            r.max_packet_bytes == 128 * 1024,
    {
        DiagnosticLimits {
            max_commits: 128,
            max_candidates: 64,
            max_paths: 256,
            max_context_refs: 256,
            max_assertions: 256,
            max_snapshot_bytes: 4 * 1024 * 1024,
            max_packet_bytes: 128 * 1024,
        }
    }
}

/// The exact graph observation a record was derived from.
#[derive(Debug, PartialEq, Eq)]
pub struct GraphBasis {
    pub project_id: String,
    pub graph_id: String,
    pub graph_version: u64,
    pub source_revision: String,
    pub observation_id: String,
}

impl Clone for GraphBasis {
    fn clone(&self) -> (r: Self)
        ensures
            r == *self,
    {
        GraphBasis {
            project_id: self.project_id.clone(),
            graph_id: self.graph_id.clone(),
            graph_version: self.graph_version,
            source_revision: self.source_revision.clone(),
            observation_id: self.observation_id.clone(),
        }
    }
}

/// A recorded scan of the repository at one revision.
#[derive(Debug, Clone, PartialEq, Eq)]
pub struct GraphObservation {
    pub observation_id: String,
    pub project_id: String,
    pub graph_version: u64,
    pub git_revision: String,
    pub source_fingerprint: String,
    pub source_manifest: Vec<SourceFile>,
    pub dirty: bool,
    pub module_resolution_status: String,
    pub module_resolution_fingerprint: String,
    pub module_resolution_effective_fingerprint: String,
    pub module_resolution_manifest: Vec<ModuleResolutionConfigFile>,
    pub entry_manifest_status: String,
    pub entry_manifest_fingerprint: String,
    pub entry_effective_fingerprint: String,
    pub entry_manifest: Option<EntryManifest>,
    pub observed_at: u64,
}

/// A git revision used as a basis.
#[derive(Debug, Clone, PartialEq, Eq)]
pub struct GitBasis {
    pub revision: String,
}

/// A versioned description of what is being diagnosed.
#[derive(Debug, Clone, PartialEq, Eq)]
pub struct DiagnosticContext {
    pub schema_version: String,
    pub id: String,
    pub project_id: String,
    pub revision: u64,
    pub intent: String,
    pub symptom: String,
    pub expected_behavior: String,
    pub focus_context_refs: Vec<String>,
    pub focus_flow_refs: Vec<String>,
    pub current_graph_basis: GraphBasis,
    pub last_known_good_basis: Option<GitBasis>,
    pub last_known_good_binding_id: Option<String>,
    pub last_known_good_candidate_id: Option<String>,
    pub constraints: Vec<String>,
    pub acceptance_criteria: Vec<String>,
    pub unresolved_questions: Vec<String>,
    pub actor: String,
    pub created_at: u64,
    pub status: String,
    pub supersedes: Option<String>,
}

/// A reference to a piece of evidence, tagged with its evidence class.
#[derive(Debug, PartialEq, Eq)]
pub struct EvidenceReference {
    pub evidence_class: String,
    pub kind: String,
    pub reference: String,
}

impl Clone for EvidenceReference {
    fn clone(&self) -> (r: Self)
        ensures
            r == *self,
    {
        EvidenceReference {
            evidence_class: self.evidence_class.clone(),
            kind: self.kind.clone(),
            reference: self.reference.clone(),
        }
    }
}

/// A human or agent statement about a diagnostic context.
#[derive(Debug, Clone, PartialEq, Eq)]
pub struct DiagnosticAssertion {
    pub schema_version: String,
    pub id: String,
    pub context_id: String,
    pub revision: u64,
    pub kind: String,
    pub status: String,
    pub actor: String,
    pub statement: String,
    pub evidence: Vec<EvidenceReference>,
    pub supersedes: Option<String>,
    pub created_at: u64,
}

/// A commit between the last known good revision and the current basis.
#[derive(Debug, Clone, PartialEq, Eq)]
pub struct HistoricalCandidate {
    pub schema_version: String,
    pub id: String,
    pub project_id: String,
    pub context_id: String,
    pub current_graph_basis: GraphBasis,
    pub last_known_good_revision: String,
    pub commit: String,
    pub parents: Vec<String>,
    pub summary: String,
    pub changed_paths: Vec<String>,
    pub changed_paths_truncated: bool,
    pub relevance_reasons: Vec<String>,
    pub score: u32,
    pub retention_status: String,
}

/// The structural evidence of one historical revision.
#[derive(Debug, Clone, PartialEq, Eq)]
pub struct HistoricalSnapshot {
    pub schema_version: String,
    pub project_id: String,
    pub source_revision: String,
    pub repository_identity_id: Option<String>,
    pub evidence_contract: Option<EvidenceContract>,
    pub files: Vec<SourceFile>,
    pub nodes: Vec<GraphNode>,
    pub edges: Vec<GraphEdge>,
    pub resolution_evidence: ResolutionEvidence,
    pub module_resolution: ModuleResolutionBasis,
    pub entry_evidence: EntryEvidence,
    pub related_test_evidence: RelatedTestEvidence,
    pub flows: Vec<ContextFlow>,
    pub truncated: bool,
    pub omissions: Vec<String>,
}

/// Ranked historical candidates for a context.
#[derive(Debug, Clone, PartialEq, Eq)]
pub struct HistoricalDiagnosis {
    pub schema_version: String,
    pub context_id: String,
    pub current_graph_basis: GraphBasis,
    pub last_known_good_basis: Option<GitBasis>,
    pub last_known_good_binding: Option<LastKnownGoodBinding>,
    pub last_known_good_candidate: Option<LastKnownGoodCandidate>,
    pub last_known_good_state: Option<LastKnownGoodState>,
    pub last_known_good_applicability: Option<LastKnownGoodApplicability>,
    pub last_known_good_status: String,
    pub range: Option<String>,
    pub commits_inspected: usize,
    pub candidates: Vec<HistoricalCandidate>,
    pub truncated: bool,
    pub omissions: Vec<String>,
    pub limitations: Vec<String>,
}

/// The bounded hand-off packet for one diagnostic context.
#[derive(Debug, Clone, PartialEq, Eq)]
pub struct DiagnosticPacket {
    pub schema_version: String,
    pub context: DiagnosticContext,
    pub current_graph_basis: GraphBasis,
    pub last_known_good_basis: Option<GitBasis>,
    pub last_known_good_binding: Option<LastKnownGoodBinding>,
    pub last_known_good_candidate: Option<LastKnownGoodCandidate>,
    pub last_known_good_state: Option<LastKnownGoodState>,
    pub last_known_good_applicability: Option<LastKnownGoodApplicability>,
    pub focus_context_refs: Vec<ContextRef>,
    pub focus_flow_refs: Vec<FlowRef>,
    pub focus_nodes: Vec<GraphNode>,
    pub focus_flows: Vec<ContextFlow>,
    pub related_tests: RelatedTestEvidence,
    pub context_reconciliation: Vec<ContextReconciliation>,
    pub assertions: Vec<DiagnosticAssertion>,
    pub historical: HistoricalDiagnosis,
    pub limitations: Vec<String>,
    pub omissions: Vec<String>,
    pub truncated: bool,
}

} // verus!
