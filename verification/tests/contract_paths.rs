use flopeek_core::context::uri;
use flopeek_core::discovery::normalize_relative_path;
use flopeek_core::identity::IdentityBasis;
use flopeek_core::model::{
    EntryEvidence, GraphSnapshot, ModuleResolutionBasis, RelatedTestEvidence, ResolutionEvidence,
};

#[test]
fn context_uri_is_deterministic_and_explicitly_branded() {
    assert_eq!(
        uri("project_a", "graph_b", "node_c"),
        "fp://local/project_a/graph_b/node_c"
    );
    let _ = GraphSnapshot {
        schema_version: "graph".to_string(),
        product: "product".to_string(),
        project_id: "project".to_string(),
        graph_id: "graph".to_string(),
        graph_version: 1,
        source_revision: "unavailable".to_string(),
        source_fingerprint: String::new(),
        observation_id: String::new(),
        identity_basis: IdentityBasis::default(),
        files: Vec::new(),
        nodes: Vec::new(),
        edges: Vec::new(),
        resolution_evidence: ResolutionEvidence::default(),
        module_resolution: ModuleResolutionBasis::default(),
        entry_evidence: EntryEvidence::default(),
        related_test_evidence: RelatedTestEvidence::default(),
        flows: Vec::new(),
        truncated: false,
        omissions: Vec::new(),
    };
}

#[test]
fn rejects_escaping_source_paths() {
    assert!(normalize_relative_path("../outside.ts").is_err());
}

#[test]
fn public_core_contract_paths_remain_stable() {
    assert_eq!(flopeek_core::model::GRAPH_SCHEMA, "flopeek-graph/v7");
    assert_eq!(flopeek_core::model::PROTOCOL_SCHEMA, "flopeek-protocol/v14");
}

#[test]
fn typescript_evidence_identity_and_flow_ids_remain_stable() {
    assert_eq!(
        flopeek_core::typescript::PARSER_IDENTITY,
        "tree-sitter-typescript/0.23.2"
    );
    assert_eq!(
        flopeek_core::graph::GRAPH_DERIVATION_ID,
        "typescript-structural-evidence-v7"
    );
    assert_eq!(
        flopeek_core::flow::flow_id("project", "script", "start"),
        flopeek_core::flow::flow_id("project", "script", "start")
    );
    assert!(flopeek_core::flow::flow_id("project", "script", "start").starts_with("flow_"));
}

#[test]
fn persistence_and_diagnostic_contract_paths_remain_stable() {
    assert_eq!(flopeek_core::store::CURRENT_USER_VERSION, 12);
    assert_eq!(
        flopeek_core::model::PRODUCT_CONTRACT_SCHEMA,
        "flopeek-product-contract/v10"
    );
    assert_eq!(
        flopeek_core::model::LKG_CANDIDATE_SCHEMA,
        "flopeek-last-known-good-candidate/v1"
    );
    assert_eq!(
        flopeek_core::model::LKG_EVENT_SCHEMA,
        "flopeek-last-known-good-event/v1"
    );
    assert_eq!(
        flopeek_core::model::LKG_STATE_SCHEMA,
        "flopeek-last-known-good-state/v1"
    );
    assert_eq!(
        flopeek_core::model::LKG_REVIEW_PACKET_SCHEMA,
        "flopeek-last-known-good-review-packet/v1"
    );
    assert_eq!(
        flopeek_core::model::LAST_KNOWN_GOOD_SCHEMA,
        "flopeek-last-known-good/v2"
    );
    assert_eq!(flopeek_core::model::CONTEXT_REF_SCHEMA, "flopeek-context-ref/v4");
    assert_eq!(flopeek_core::model::FLOW_REF_SCHEMA, "flopeek-flow-ref/v2");
    assert_eq!(
        flopeek_core::model::DIAGNOSTIC_PACKET_SCHEMA,
        "flopeek-diagnostic-packet/v9"
    );
    assert_eq!(
        flopeek_core::model::HISTORICAL_SNAPSHOT_SCHEMA,
        "flopeek-historical-snapshot/v7"
    );
}

#[test]
fn temporal_contract_identity_is_deterministic() {
    assert_eq!(
        flopeek_core::model::OBSERVATION_CONTINUITY_SCHEMA,
        "flopeek-observation-continuity/v2"
    );
    assert_eq!(
        flopeek_core::model::CONTEXT_RECONCILIATION_SCHEMA,
        "flopeek-context-reconciliation/v2"
    );
    assert_eq!(
        flopeek_core::model::OBSERVATION_DELTA_SCHEMA,
        "flopeek-observation-delta/v2"
    );
    assert_eq!(
        flopeek_core::model::HISTORICAL_CONTEXT_CONTINUITY_SCHEMA,
        "flopeek-historical-context-continuity/v1"
    );
    assert_eq!(
        flopeek_core::temporal::observation_event_id("project", None, "observation"),
        flopeek_core::temporal::observation_event_id("project", None, "observation")
    );
    assert_eq!(
        flopeek_core::temporal::fingerprint_contract("ast-and-direct-edges"),
        "node-ast-and-direct-edges/v1"
    );
}

#[test]
fn context_context_uri_is_deterministic_and_explicitly_branded() {
    assert_eq!(
        uri("project_a", "graph_b", "node_c"),
        "fp://local/project_a/graph_b/node_c"
    );
    assert_eq!(uri("project_a", "graph_b", "node_c"), uri("project_a", "graph_b", "node_c"));
}
