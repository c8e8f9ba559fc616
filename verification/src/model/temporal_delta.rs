//! Bounded, source-body-free structural differences between adjacent observations.

use vstd::prelude::*;

use super::diagnostic::GraphBasis;
use super::graph::{GraphEdge, GraphNode};

verus! {

pub const OBSERVATION_DELTA_SCHEMA: &'static str = "flopeek-observation-delta/v2";

/// The contract under which graph evidence was derived.
#[derive(Debug, PartialEq, Eq)]
pub struct EvidenceContract {
    pub graph_schema_version: String,
    pub graph_derivation_id: String,
    pub node_fingerprint_contract: String,
}

impl Clone for EvidenceContract {
    fn clone(&self) -> (r: Self)
        ensures
            r == *self,
    {
        EvidenceContract {
            graph_schema_version: self.graph_schema_version.clone(),
            graph_derivation_id: self.graph_derivation_id.clone(),
            node_fingerprint_contract: self.node_fingerprint_contract.clone(),
        }
    }
}

/// How each basis component relates between two observations.
#[derive(Debug, Clone, PartialEq, Eq)]
pub struct ObservationBasisRelations {
    pub typescript_source: String,
    pub module_resolution_exact: String,
    pub module_resolution_effective: String,
    pub entry_manifest_exact: String,
    pub entry_manifest_effective: String,
}

/// A change of one source file.
#[derive(Debug, Clone, PartialEq, Eq)]
pub struct SourceChange {
    pub path: String,
    pub status: String,
    pub before_hash: Option<String>,
    pub after_hash: Option<String>,
    pub before_bytes: Option<u64>,
    pub after_bytes: Option<u64>,
}

/// A change of one graph node.
#[derive(Debug, Clone, PartialEq, Eq)]
pub struct NodeChange {
    pub node_id: String,
    pub status: String,
    pub before: Option<GraphNode>,
    pub after: Option<GraphNode>,
}

/// A change of one graph edge.
#[derive(Debug, Clone, PartialEq, Eq)]
pub struct EdgeChange {
    pub status: String,
    pub edge: GraphEdge,
}

/// A change of one flow.
#[derive(Debug, Clone, PartialEq, Eq)]
pub struct FlowChange {
    pub flow_id: String,
    pub status: String,
    pub before_fingerprint: Option<String>,
    pub after_fingerprint: Option<String>,
}

/// Counts of the changes in an observation delta.
#[derive(Debug, Clone, PartialEq, Eq, Default)]
pub struct ObservationDeltaCounts {
    pub source_added: usize,
    pub source_changed: usize,
    pub source_removed: usize,
    pub node_added: usize,
    pub node_changed: usize,
    pub node_removed: usize,
    pub edge_added: usize,
    pub edge_removed: usize,
    pub flow_added: usize,
    pub flow_changed: usize,
    pub flow_removed: usize,
}

/// The structural difference between two adjacent observations.
#[derive(Debug, Clone, PartialEq, Eq)]
pub struct ObservationDelta {
    pub schema_version: String,
    pub project_id: String,
    pub status: String,
    pub reason: String,
    pub from_event_id: Option<String>,
    pub to_event_id: Option<String>,
    pub relation: String,
    pub from_basis: Option<GraphBasis>,
    pub to_basis: Option<GraphBasis>,
    pub from_contract: Option<EvidenceContract>,
    pub to_contract: Option<EvidenceContract>,
    pub contract_compatible: bool,
    pub graph_relation: String,
    pub basis_relations: ObservationBasisRelations,
    pub counts: ObservationDeltaCounts,
    pub source_changes: Vec<SourceChange>,
    pub node_changes: Vec<NodeChange>,
    pub edge_changes: Vec<EdgeChange>,
    pub flow_changes: Vec<FlowChange>,
    pub truncated: bool,
    pub omissions: Vec<String>,
    pub limitations: Vec<String>,
}

} // verus!
