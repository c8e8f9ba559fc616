//! Graph nodes, edges, snapshots and Context Refs.

use vstd::prelude::*;

use super::diagnostic::GraphBasis;
use super::flow::{ContextFlow, EntryEvidence, FlowRef, RelatedTestEvidence};
use super::schemas::SourceFile;
use super::typescript::{ModuleResolutionBasis, ResolutionEvidence};
use crate::identity::IdentityBasis;

verus! {

/// A file, symbol, entry or external module of the structural graph.
#[derive(Debug, PartialEq, Eq)]
pub struct GraphNode {
    pub id: String,
    pub kind: String,
    pub path: Option<String>,
    pub name: Option<String>,
    pub language: Option<String>,
    pub evidence_fingerprint: String,
}

impl Clone for GraphNode {
    fn clone(&self) -> (r: Self)
        ensures
            r == *self,
    {
        GraphNode {
            id: self.id.clone(),
            kind: self.kind.clone(),
            path: self.path.clone(),
            name: self.name.clone(),
            language: self.language.clone(),
            evidence_fingerprint: self.evidence_fingerprint.clone(),
        }
    }
}

/// A proven, directed relation between two graph nodes.
#[derive(Debug, PartialEq, Eq, PartialOrd, Ord)]
pub struct GraphEdge {
    pub from: String,
    pub to: String,
    pub kind: String,
    pub evidence: String,
}

impl Clone for GraphEdge {
    fn clone(&self) -> (r: Self)
        ensures
            r == *self,
    {
        GraphEdge {
            from: self.from.clone(),
            to: self.to.clone(),
            kind: self.kind.clone(),
            evidence: self.evidence.clone(),
        }
    }
}

/// The complete structural evidence of one observation.
#[derive(Debug, Clone, PartialEq, Eq)]
pub struct GraphSnapshot {
    pub schema_version: String,
    pub product: String,
    pub project_id: String,
    pub graph_id: String,
    pub graph_version: u64,
    pub source_revision: String,
    pub source_fingerprint: String,
    pub observation_id: String,
    pub identity_basis: IdentityBasis,
    pub files: Vec<SourceFile>,
    pub nodes: Vec<GraphNode>,
    pub edges: Vec<GraphEdge>,
    pub resolution_evidence: ResolutionEvidence,
    pub module_resolution: ModuleResolutionBasis,
    pub entry_evidence: EntryEvidence,
    pub related_test_evidence: RelatedTestEvidence,
    pub flows: Vec<ContextFlow>,
    pub truncated: bool,
    pub omissions: Vec<String>,
}

/// A stable reference to a graph node and its freshness.
#[derive(Debug, PartialEq, Eq)]
pub struct ContextRef {
    pub schema_version: String,
    pub uri: String,
    pub project_id: String,
    pub graph_id: String,
    pub graph_version: u64,
    pub node_id: String,
    pub status: String,
    pub origin_observation_id: String,
    pub origin_source_revision: String,
    pub origin_fingerprint: String,
    pub fingerprint_scope: String,
    pub fingerprint_contract: String,
    pub freshness_reason: String,
    pub origin_basis: Option<GraphBasis>,
    pub current_basis: Option<GraphBasis>,
    pub current_event_id: String,
    pub successor_uri: Option<String>,
}

impl Clone for ContextRef {
    fn clone(&self) -> (r: Self)
        ensures
            r == *self,
    {
        ContextRef {
            schema_version: self.schema_version.clone(),
            uri: self.uri.clone(),
            project_id: self.project_id.clone(),
            graph_id: self.graph_id.clone(),
            graph_version: self.graph_version,
            node_id: self.node_id.clone(),
            status: self.status.clone(),
            origin_observation_id: self.origin_observation_id.clone(),
            origin_source_revision: self.origin_source_revision.clone(),
            origin_fingerprint: self.origin_fingerprint.clone(),
            fingerprint_scope: self.fingerprint_scope.clone(),
            fingerprint_contract: self.fingerprint_contract.clone(),
            freshness_reason: self.freshness_reason.clone(),
            origin_basis: self.origin_basis.clone(),
            current_basis: self.current_basis.clone(),
            current_event_id: self.current_event_id.clone(),
            successor_uri: self.successor_uri.clone(),
        }
    }
}

/// The persisted state of a project store.
#[derive(Debug, Clone, PartialEq, Eq)]
pub struct StoreStatus {
    pub schema_version: String,
    pub path: String,
    pub project_id: String,
    pub current_graph_id: Option<String>,
    pub current_graph_version: Option<u64>,
    pub graph_count: u64,
    pub node_count: u64,
    pub edge_count: u64,
    pub current_observation_id: Option<String>,
    pub identity_basis: Option<IdentityBasis>,
}

/// The result of scanning a project.
#[derive(Debug, Clone, PartialEq, Eq)]
pub struct ScanResult {
    pub schema_version: String,
    pub product: String,
    pub project_id: String,
    pub graph: GraphSnapshot,
    pub identity_basis: IdentityBasis,
    pub context_refs: Vec<ContextRef>,
    pub flow_refs: Vec<FlowRef>,
    pub limitations: Vec<String>,
}

} // verus!
