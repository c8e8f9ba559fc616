//! Temporal observation and Context Ref reconciliation records.

use vstd::prelude::*;

use super::diagnostic::GraphBasis;
use super::graph::{ContextRef, GraphEdge, GraphNode};
use super::temporal_delta::ObservationBasisRelations;

verus! {

/// One link in a project's chain of observations.
#[derive(Debug, Clone, PartialEq, Eq)]
pub struct ObservationContinuityEvent {
    pub event_id: String,
    pub project_id: String,
    pub observation_id: String,
    pub predecessor_event_id: Option<String>,
    pub relation: String,
    pub observed_at: u64,
}

/// The observation chain of a project.
#[derive(Debug, Clone, PartialEq, Eq)]
pub struct ObservationContinuity {
    pub schema_version: String,
    pub project_id: String,
    pub current_observation_id: Option<String>,
    pub current_event_id: Option<String>,
    pub current_basis: Option<GraphBasis>,
    pub events: Vec<ObservationContinuityEvent>,
    pub graph_relation: String,
    pub truncated: bool,
    pub omissions: Vec<String>,
    pub limitations: Vec<String>,
}

/// How a Context Ref relates to the current observation.
#[derive(Debug, Clone, PartialEq, Eq)]
pub struct ContextReconciliation {
    pub schema_version: String,
    pub reference: ContextRef,
    pub evaluation_event_id: Option<String>,
    pub status: String,
    pub reason: String,
    pub successor: Option<String>,
    pub candidates: Vec<String>,
    pub truncated: bool,
    pub omissions: Vec<String>,
    pub limitations: Vec<String>,
}

/// A change of one path between two historical revisions.
#[derive(Debug, Clone, PartialEq, Eq)]
pub struct HistoricalPathChange {
    pub path: String,
    pub status: String,
    pub before_hash: Option<String>,
    pub after_hash: Option<String>,
}

/// A change of one node between two historical revisions.
#[derive(Debug, Clone, PartialEq, Eq)]
pub struct HistoricalNodeChange {
    pub node_id: String,
    pub status: String,
    pub before: Option<GraphNode>,
    pub after: Option<GraphNode>,
    pub reason: String,
}

/// A change of one edge between two historical revisions.
#[derive(Debug, Clone, PartialEq, Eq)]
pub struct HistoricalEdgeChange {
    pub status: String,
    pub edge: GraphEdge,
}

/// A change of one flow between two historical revisions.
#[derive(Debug, Clone, PartialEq, Eq)]
pub struct HistoricalFlowChange {
    pub flow_id: String,
    pub status: String,
    pub before_fingerprint: Option<String>,
    pub after_fingerprint: Option<String>,
}

/// Counts of the changes in a historical continuity record.
#[derive(Debug, Clone, PartialEq, Eq, Default)]
pub struct HistoricalContinuityCounts {
    pub path_changes: usize,
    pub node_changes: usize,
    pub edge_changes: usize,
    pub flow_changes: usize,
    pub lineage_candidates: usize,
}

/// How a Context Ref's node evolved between two historical revisions.
#[derive(Debug, Clone, PartialEq, Eq)]
pub struct HistoricalContextContinuity {
    pub schema_version: String,
    pub project_id: String,
    pub reference_uri: String,
    pub status: String,
    pub reason: String,
    pub relation: String,
    pub from_revision: Option<String>,
    pub to_revision: Option<String>,
    pub origin_basis: Option<GraphBasis>,
    pub from_basis: Option<GraphBasis>,
    pub to_basis: Option<GraphBasis>,
    pub basis_relations: ObservationBasisRelations,
    pub node_status: String,
    pub fingerprint_relation: String,
    pub path_changes: Vec<HistoricalPathChange>,
    pub node_changes: Vec<HistoricalNodeChange>,
    pub edge_changes: Vec<HistoricalEdgeChange>,
    pub flow_changes: Vec<HistoricalFlowChange>,
    pub lineage_candidates: Vec<String>,
    pub counts: HistoricalContinuityCounts,
    pub truncated: bool,
    pub omissions: Vec<String>,
    pub limitations: Vec<String>,
}

} // verus!
