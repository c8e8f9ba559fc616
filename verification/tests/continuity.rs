use flopeek_core::diagnostic::continuity::{bound_flows, focused_flow_changes, focused_node_changes};
use flopeek_core::diagnostic::continuity_evidence::{
    bound_path_lineage, bound_paths, fingerprint_relation, path_changes, path_lineage_candidates,
    unavailable_basis_relations,
};
use flopeek_core::model::{
    ContextFlow, EntryEvidence, FlowStep, GraphNode, HistoricalSnapshot, ModuleResolutionBasis,
    RelatedTestEvidence, ResolutionEvidence, SourceFile, HISTORICAL_SNAPSHOT_SCHEMA,
};
use flopeek_core::diagnostic::continuity::{continuity_from_snapshots, continuity_precheck, continuity_range, historical_continuity};

fn source(path: &str, hash: &str) -> SourceFile {
    SourceFile {
        path: path.to_string(),
        language: "typescript".to_string(),
        bytes: 1,
        hash: hash.to_string(),
    }
}

fn flow(id: &str, fingerprint: &str, through: &str) -> ContextFlow {
    ContextFlow {
        schema_version: "flow".to_string(),
        flow_id: id.to_string(),
        entry_node_id: "entry".to_string(),
        entry_kind: "script".to_string(),
        entry_key: "start".to_string(),
        steps: vec![FlowStep {
            index: 0,
            node_id: through.to_string(),
            path: None,
            name: None,
            role: "step".to_string(),
            evidence_fingerprint: String::new(),
        }],
        traversed_edges: Vec::new(),
        related_tests: Vec::new(),
        fingerprint: fingerprint.to_string(),
        status: "complete".to_string(),
        truncated: false,
        omissions: Vec::new(),
        limitations: Vec::new(),
    }
}

fn snapshot(files: Vec<SourceFile>, flows: Vec<ContextFlow>) -> HistoricalSnapshot {
    HistoricalSnapshot {
        schema_version: HISTORICAL_SNAPSHOT_SCHEMA.to_string(),
        project_id: "project".to_string(),
        source_revision: "rev".to_string(),
        repository_identity_id: None,
        evidence_contract: None,
        files,
        nodes: Vec::new(),
        edges: Vec::new(),
        resolution_evidence: ResolutionEvidence::default(),
        module_resolution: ModuleResolutionBasis::default(),
        entry_evidence: EntryEvidence::default(),
        related_test_evidence: RelatedTestEvidence::default(),
        flows,
        truncated: false,
        omissions: Vec::new(),
    }
}

fn node(id: &str, kind: &str, fingerprint: &str) -> GraphNode {
    GraphNode {
        id: id.to_string(),
        kind: kind.to_string(),
        path: Some("src/a.ts".to_string()),
        name: None,
        language: None,
        evidence_fingerprint: fingerprint.to_string(),
    }
}

#[test]
fn path_changes_report_added_removed_and_changed_files_in_order() {
    let before = snapshot(
        vec![source("src/b.ts", "b1"), source("src/a.ts", "a1"), source("src/old.ts", "x")],
        Vec::new(),
    );
    let after = snapshot(
        vec![source("src/a.ts", "a2"), source("src/b.ts", "b1"), source("src/new.ts", "x")],
        Vec::new(),
    );
    let changes = path_changes(&before, &after);
    let summary = changes
        .iter()
        .map(|change| (change.path.as_str(), change.status.as_str()))
        .collect::<Vec<_>>();
    assert_eq!(
        summary,
        vec![("src/a.ts", "changed"), ("src/new.ts", "added"), ("src/old.ts", "removed")]
    );
    assert_eq!(
        path_lineage_candidates(&changes),
        vec!["rename-or-copy-candidate:src/old.ts->src/new.ts:fingerprint=x".to_string()]
    );
    let mut truncated = false;
    let mut omissions = Vec::new();
    let kept = bound_paths(changes, 2, &mut truncated, &mut omissions);
    assert_eq!(kept.len(), 2);
    assert!(truncated);
    assert_eq!(omissions, vec!["historical path changes capped at 2".to_string()]);
    let lineage = bound_path_lineage(vec!["a".to_string()], 5, &mut truncated, &mut omissions);
    assert_eq!(lineage, vec!["a".to_string()]);
    assert_eq!(omissions.len(), 1);
}

#[test]
fn relations_and_unavailable_bases() {
    assert_eq!(fingerprint_relation("", "x"), "unavailable");
    assert_eq!(fingerprint_relation("x", "x"), "same");
    assert_eq!(fingerprint_relation("x", "y"), "changed");
    let relations = unavailable_basis_relations();
    assert_eq!(relations.typescript_source, "unavailable");
    assert_eq!(relations.entry_manifest_effective, "unavailable");
}

#[test]
fn focused_node_changes_classify_and_find_continuations() {
    let before = node("n1", "function", "fp");
    let after = node("n1", "function", "fp");
    let (status, relation, changes, candidates) =
        focused_node_changes("n1", Some(&before), Some(&after), &[], Some("function"));
    assert_eq!((status.as_str(), relation.as_str()), ("retained", "identical"));
    assert!(changes.is_empty());
    assert!(candidates.is_empty());

    let after_nodes = vec![
        node("n3", "function", "fp"),
        node("n2", "function", "fp"),
        node("n4", "class", "fp"),
        node("n5", "function", "other"),
        node("n2", "function", "fp"),
    ];
    let (status, relation, changes, candidates) =
        focused_node_changes("n1", Some(&before), None, &after_nodes, Some("function"));
    assert_eq!((status.as_str(), relation.as_str()), ("removed", "unavailable"));
    assert_eq!(changes.len(), 1);
    assert_eq!(changes[0].reason, "node-identity-missing");
    assert_eq!(candidates, vec!["n2".to_string(), "n3".to_string()]);

    let changed = node("n1", "function", "fp2");
    let (status, _, changes, _) = focused_node_changes("n1", Some(&before), Some(&changed), &[], None);
    assert_eq!(status, "changed");
    assert_eq!(changes[0].after.as_ref().map(|n| n.evidence_fingerprint.as_str()), Some("fp2"));
}

#[test]
fn focused_flow_changes_follow_flows_through_the_node() {
    let before = snapshot(Vec::new(), vec![flow("f1", "a", "n1"), flow("f2", "b", "n1"), flow("f3", "c", "other")]);
    let after = snapshot(Vec::new(), vec![flow("f1", "a2", "n1"), flow("f3", "c2", "other"), flow("f4", "d", "n1")]);
    let changes = focused_flow_changes(&before, &after, "n1");
    let summary = changes
        .iter()
        .map(|change| (change.flow_id.as_str(), change.status.as_str()))
        .collect::<Vec<_>>();
    assert_eq!(summary, vec![("f1", "changed"), ("f2", "removed"), ("f4", "added")]);
    let mut truncated = false;
    let mut omissions = Vec::new();
    let kept = bound_flows(changes, 0, &mut truncated, &mut omissions);
    assert!(kept.is_empty());
    assert_eq!(omissions, vec!["historical flow changes capped at 0".to_string()]);
}

#[test]
fn expected_behavior_fingerprint_is_a_labelled_sha256() {
    assert_eq!(
        flopeek_core::model::lkg_protocol::expected_behavior_fingerprint("completes"),
        "sha256:edcd88d8cca7dbf0455945a02e5f612239b1f19b8bd876572a913bcb71794f7d"
    );
}

fn comparable(nodes: Vec<GraphNode>, edges: Vec<flopeek_core::model::GraphEdge>) -> HistoricalSnapshot {
    let mut s = snapshot(Vec::new(), Vec::new());
    s.repository_identity_id = Some("repo".to_string());
    s.evidence_contract = Some(flopeek_core::model::EvidenceContract {
        graph_schema_version: "g".to_string(),
        graph_derivation_id: "d".to_string(),
        node_fingerprint_contract: "n".to_string(),
    });
    s.nodes = nodes;
    s.edges = edges;
    s
}

fn current_graph(nodes: Vec<GraphNode>) -> flopeek_core::model::GraphSnapshot {
    flopeek_core::model::GraphSnapshot {
        schema_version: "graph".to_string(),
        product: "product".to_string(),
        project_id: "project".to_string(),
        graph_id: "graph".to_string(),
        graph_version: 1,
        source_revision: "head".to_string(),
        source_fingerprint: String::new(),
        observation_id: "obs".to_string(),
        identity_basis: flopeek_core::identity::IdentityBasis::default(),
        files: Vec::new(),
        nodes,
        edges: Vec::new(),
        resolution_evidence: ResolutionEvidence::default(),
        module_resolution: ModuleResolutionBasis::default(),
        entry_evidence: EntryEvidence::default(),
        related_test_evidence: RelatedTestEvidence::default(),
        flows: Vec::new(),
        truncated: false,
        omissions: Vec::new(),
    }
}

fn reference(node_id: &str, status: &str) -> flopeek_core::model::ContextRef {
    flopeek_core::model::ContextRef {
        schema_version: "ref".to_string(),
        uri: "fp://local/project/graph/n".to_string(),
        project_id: "project".to_string(),
        graph_id: "graph".to_string(),
        graph_version: 1,
        node_id: node_id.to_string(),
        status: status.to_string(),
        origin_observation_id: "obs0".to_string(),
        origin_source_revision: "rev0".to_string(),
        origin_fingerprint: "f".to_string(),
        fingerprint_scope: "node".to_string(),
        fingerprint_contract: "c".to_string(),
        freshness_reason: "fresh".to_string(),
        origin_basis: None,
        current_basis: None,
        current_event_id: "e".to_string(),
        successor_uri: None,
    }
}

fn basis(revision: &str) -> flopeek_core::model::GraphBasis {
    flopeek_core::model::GraphBasis {
        project_id: "project".to_string(),
        graph_id: "graph".to_string(),
        graph_version: 1,
        source_revision: revision.to_string(),
        observation_id: format!("obs-{revision}"),
    }
}

fn limits(max: usize) -> flopeek_core::diagnostic::continuity::HistoricalContinuityLimits {
    flopeek_core::diagnostic::continuity::HistoricalContinuityLimits {
        max_paths: max,
        max_nodes: max,
        max_edges: max,
        max_flows: max,
    }
}

#[test]
fn continuity_refuses_snapshots_it_cannot_compare() {
    let graph = current_graph(vec![node("n", "function", "f1")]);
    let good = comparable(Vec::new(), Vec::new());
    let run = |before: &HistoricalSnapshot, after: &HistoricalSnapshot, repo: Option<&str>| {
        continuity_from_snapshots(
            "fp://local/project/graph/n", &graph, &reference("n", "current"), repo, "p", "h",
            basis("p"), basis("h"), before, after, limits(8),
        )
    };
    let mut other_project = good.clone();
    other_project.project_id = "other".to_string();
    assert_eq!(run(&other_project, &good, Some("repo")).reason, "historical-snapshot-project-mismatch");
    assert_eq!(run(&good, &good, None).reason, "historical-repository-identity-unavailable");
    let mut legacy = good.clone();
    legacy.repository_identity_id = None;
    assert_eq!(run(&good, &legacy, Some("repo")).reason, "legacy-repository-identity-unavailable");
    assert_eq!(run(&good, &good, Some("elsewhere")).reason, "historical-repository-identity-mismatch");
    let mut no_contract = good.clone();
    no_contract.evidence_contract = None;
    assert_eq!(run(&no_contract, &good, Some("repo")).reason, "legacy-evidence-contract-unavailable");
    let mut other_contract = good.clone();
    other_contract.evidence_contract.as_mut().unwrap().graph_derivation_id = "other".to_string();
    let refused = run(&good, &other_contract, Some("repo"));
    assert_eq!(refused.reason, "incompatible-evidence-contract");
    assert_eq!(refused.status, "unavailable");
    assert_eq!(refused.node_status, "unavailable");
    assert_eq!(refused.limitations, vec!["incompatible-evidence-contract".to_string()]);
    assert_eq!(refused.from_revision, None);
}

#[test]
fn continuity_compares_the_focused_node_across_adjacent_snapshots() {
    let graph = current_graph(vec![node("n", "function", "f1")]);
    let edge = flopeek_core::model::GraphEdge {
        from: "n".to_string(),
        to: "m".to_string(),
        kind: "calls".to_string(),
        evidence: "e".to_string(),
    };
    let mut before = comparable(vec![node("n", "function", "f1")], vec![edge]);
    before.files = vec![source("src/old.ts", "h1")];
    let mut after = comparable(vec![node("moved", "function", "f1"), node("twin", "function", "f1")], Vec::new());
    after.files = vec![source("src/new.ts", "h1")];

    let r = continuity_from_snapshots(
        "fp://local/project/graph/n", &graph, &reference("n", "current"), Some("repo"), "p", "h",
        basis("p"), basis("h"), &before, &after, limits(8),
    );
    assert_eq!(r.status, "available");
    assert_eq!(r.reason, "adjacent-first-parent-snapshot-compared");
    assert_eq!(r.from_revision.as_deref(), Some("p"));
    assert_eq!(r.origin_basis.as_ref().unwrap().source_revision, "rev0");
    assert_eq!(r.node_status, "removed");
    assert_eq!(r.node_changes.len(), 1);
    assert_eq!(r.node_changes[0].reason, "node-identity-missing");
    assert_eq!(r.lineage_candidates, vec!["moved".to_string(), "twin".to_string()]);
    assert_eq!(r.edge_changes.len(), 1);
    assert_eq!(r.edge_changes[0].status, "removed");
    assert_eq!(r.path_changes.len(), 2);
    assert_eq!(r.counts.path_changes, 2);
    assert!(!r.truncated);
    assert!(r.omissions.is_empty());
    assert_eq!(r.limitations.len(), 2);

    let capped = continuity_from_snapshots(
        "fp://local/project/graph/n", &graph, &reference("n", "stale"), Some("repo"), "p", "h",
        basis("p"), basis("h"), &before, &after, limits(0),
    );
    assert_eq!(capped.status, "stale");
    assert_eq!(capped.reason, "origin-context-ref-is-stale");
    assert!(capped.truncated);
    assert!(capped.node_changes.is_empty());
    assert!(capped.lineage_candidates.is_empty());
    assert_eq!(capped.counts.lineage_candidates, 2);
    assert_eq!(
        capped.omissions,
        vec![
            "historical edge changes capped at 0".to_string(),
            "historical node changes capped at 0".to_string(),
            "historical path changes capped at 0".to_string(),
            "historical path lineage candidates capped at 0".to_string(),
            "lineage candidates capped at 0".to_string(),
            "lineage candidates capped at zero".to_string(),
        ]
    );
}

#[test]
fn continuity_checks_project_cleanliness_and_adjacency_first() {
    let uri = "fp://local/project/graph/n";
    let wrong = continuity_precheck("project", uri, "other", true).unwrap();
    assert_eq!(wrong.status, "wrong-project");
    assert_eq!(wrong.reason, "context-ref-project-does-not-match-current-repository");
    let dirty = continuity_precheck("project", uri, "project", true).unwrap();
    assert_eq!(dirty.reason, "historical-continuity-unavailable-for-dirty-source");
    assert!(continuity_precheck("project", uri, "project", false).is_none());

    assert_eq!(continuity_range("project", uri, "h", Some("p"), None).unwrap(), ("p".to_string(), "h".to_string()));
    assert_eq!(continuity_range("project", uri, "h", Some("p"), Some("p")).unwrap(), ("p".to_string(), "h".to_string()));
    let root = continuity_range("project", uri, "h", None, None).unwrap_err();
    assert_eq!(root.reason, "predecessor-revision-unavailable");
    let far = continuity_range("project", uri, "h", Some("p"), Some("q")).unwrap_err();
    assert_eq!(far.reason, "non-adjacent-first-parent-range");
    assert_eq!(far.from_revision.as_deref(), Some("q"));
    assert_eq!(far.to_revision.as_deref(), Some("h"));
}

#[test]
fn historical_continuity_decides_in_order_then_compares() {
    let graph = current_graph(vec![node("n", "function", "f1")]);
    let before = comparable(vec![node("n", "function", "f1")], Vec::new());
    let after = comparable(vec![node("n", "function", "f2")], Vec::new());
    let uri = "fp://local/project/graph/n";
    let run = |dirty: bool, parent: Option<&str>, requested: Option<&str>| {
        historical_continuity(
            uri, &graph, &reference("n", "current"), dirty, Some("repo"), "h", parent, requested,
            basis("p"), basis("h"), &before, &after, limits(8),
        )
    };
    assert_eq!(run(true, Some("p"), None).reason, "historical-continuity-unavailable-for-dirty-source");
    assert_eq!(run(false, None, None).reason, "predecessor-revision-unavailable");
    assert_eq!(run(false, Some("p"), Some("q")).reason, "non-adjacent-first-parent-range");
    let compared = run(false, Some("p"), None);
    assert_eq!(compared.status, "available");
    assert_eq!(compared.from_revision.as_deref(), Some("p"));
    assert_eq!(compared.node_status, "changed");
    let mut other = reference("n", "current");
    other.project_id = "elsewhere".to_string();
    let wrong = historical_continuity(
        uri, &graph, &other, false, Some("repo"), "h", Some("p"), None,
        basis("p"), basis("h"), &before, &after, limits(8),
    );
    assert_eq!(wrong.status, "wrong-project");
}
