//! Stable, source-body-free records shared by the core domains.

pub mod context_basis;
pub mod diagnostic;
pub mod flow;
pub mod graph;
pub mod last_known_good;
pub mod lkg_protocol;
pub mod schemas;
pub mod temporal;
pub mod temporal_delta;
pub mod typescript;

pub use self::schemas::{
    SourceFile, SourcePosition, CONTEXT_FLOW_SCHEMA, CONTEXT_RECONCILIATION_SCHEMA,
    CONTEXT_REF_SCHEMA, DIAGNOSTIC_ASSERTION_SCHEMA, DIAGNOSTIC_CONTEXT_SCHEMA,
    DIAGNOSTIC_PACKET_SCHEMA, ENTRY_EVIDENCE_SCHEMA, FLOW_REF_SCHEMA, GRAPH_SCHEMA,
    HISTORICAL_CANDIDATE_SCHEMA, HISTORICAL_CONTEXT_CONTINUITY_SCHEMA, HISTORICAL_DIAGNOSIS_SCHEMA,
    HISTORICAL_SNAPSHOT_SCHEMA, LAST_KNOWN_GOOD_SCHEMA, OBSERVATION_CONTINUITY_SCHEMA,
    PRODUCT_CONTRACT_SCHEMA, PRODUCT_IDENTITY, PROTOCOL_SCHEMA, RELATED_TEST_EVIDENCE_SCHEMA,
    STORE_SCHEMA, TYPESCRIPT_FACTS_SCHEMA, TYPESCRIPT_RESOLUTION_SCHEMA,
};
pub use self::context_basis::{diagnostic_context_basis_fingerprint, DIAGNOSTIC_CONTEXT_BASIS_SCHEMA};
pub use self::diagnostic::{
    DiagnosticAssertion, DiagnosticContext, DiagnosticLimits, DiagnosticPacket, EvidenceReference,
    GitBasis, GraphBasis, GraphObservation, HistoricalCandidate, HistoricalDiagnosis,
    HistoricalSnapshot,
};
pub use self::flow::{
    ContextFlow, EntryEvidence, EntryManifest, EntryRecord, FlowEdge, FlowRef, FlowStep,
    RelatedTestEvidence, RelatedTestRecord,
};
pub use self::graph::{ContextRef, GraphEdge, GraphNode, GraphSnapshot, ScanResult, StoreStatus};
pub use self::last_known_good::{
    LastKnownGoodBinding, LastKnownGoodResolution, LastKnownGoodValidation,
};
pub use self::lkg_protocol::{
    reduce_last_known_good, LastKnownGoodApplicability, LastKnownGoodCandidate, LastKnownGoodReviewPacket,
    LastKnownGoodEvent, LastKnownGoodIntegrity, LastKnownGoodProposalRequest,
    LastKnownGoodState, LastKnownGoodTransitionRequest, ReducedLkg, LKG_CANDIDATE_SCHEMA,
    LKG_EVENT_SCHEMA, LKG_INTEGRITY_COMPLETE, LKG_INTEGRITY_INVALID, LKG_INTEGRITY_PARTIAL,
    LKG_PROTOCOL_SCHEMA, LKG_REVIEW_PACKET_SCHEMA, LKG_STATE_SCHEMA,
};
pub use self::temporal::{
    ContextReconciliation, HistoricalContextContinuity, HistoricalContinuityCounts,
    HistoricalEdgeChange, HistoricalFlowChange, HistoricalNodeChange, HistoricalPathChange,
    ObservationContinuity, ObservationContinuityEvent,
};
pub use self::temporal_delta::{
    EdgeChange, EvidenceContract, FlowChange, NodeChange, ObservationBasisRelations,
    ObservationDelta, ObservationDeltaCounts, SourceChange, OBSERVATION_DELTA_SCHEMA,
};
pub use self::typescript::{
    ModuleResolutionBasis, ModuleResolutionConfigFile, ResolutionEvidence, SymbolResolution,
    TypeScriptCall, TypeScriptDeclaration, TypeScriptExport, TypeScriptFacts, TypeScriptHeritage,
    TypeScriptImport,
};
