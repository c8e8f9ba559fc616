use flopeek_core::diagnostic::inspection::{inspect_commits, CommitEvidence};
use flopeek_core::diagnostic::diagnosis::{
    cap_candidates, cap_omissions, candidate_id, commit_evidence_paths, commit_relevance,
    rank_candidates, retention_status,
};
use flopeek_core::diagnostic::ranking::historical_delta_reasons;
use flopeek_core::model::{
    ContextFlow, EntryEvidence, GraphBasis, GraphEdge, GraphNode, HistoricalCandidate,
    HistoricalSnapshot, ModuleResolutionBasis, RelatedTestEvidence, ResolutionEvidence,
    SourceFile, HISTORICAL_SNAPSHOT_SCHEMA,
};
use flopeek_core::diagnostic::diagnosis::retention_of;
use flopeek_core::flow_ref::{parse_uri, uri};
use flopeek_core::diagnostic::diagnosis::diagnosis_prelude;
use flopeek_core::model::DiagnosticLimits;
use flopeek_core::diagnostic::packet::{assemble_packet, bound_packet};
use flopeek_core::diagnostic::diagnosis::{commit_candidate, conclude_diagnosis};
use flopeek_core::model::{reduce_last_known_good, LastKnownGoodEvent, LKG_CANDIDATE_SCHEMA, LKG_EVENT_SCHEMA};

fn strings(items: &[&str]) -> Vec<String> {
    items.iter().map(|item| item.to_string()).collect()
}

fn source(path: &str, hash: &str) -> SourceFile {
    SourceFile {
        path: path.to_string(),
        language: "typescript".to_string(),
        bytes: 1,
        hash: hash.to_string(),
    }
}

fn node(id: &str, path: &str) -> GraphNode {
    GraphNode {
        id: id.to_string(),
        kind: "function".to_string(),
        path: Some(path.to_string()),
        name: Some(id.to_string()),
        language: Some("typescript".to_string()),
        evidence_fingerprint: format!("fp:{id}"),
    }
}

fn edge(from: &str, to: &str, kind: &str) -> GraphEdge {
    GraphEdge {
        from: from.to_string(),
        to: to.to_string(),
        kind: kind.to_string(),
        evidence: "direct".to_string(),
    }
}

fn flow(id: &str, fingerprint: &str, key: &str) -> ContextFlow {
    ContextFlow {
        schema_version: "flow".to_string(),
        flow_id: id.to_string(),
        entry_node_id: "entry".to_string(),
        entry_kind: "script".to_string(),
        entry_key: key.to_string(),
        steps: Vec::new(),
        traversed_edges: Vec::new(),
        related_tests: Vec::new(),
        fingerprint: fingerprint.to_string(),
        status: "complete".to_string(),
        truncated: false,
        omissions: Vec::new(),
        limitations: Vec::new(),
    }
}

fn snapshot(files: Vec<SourceFile>, nodes: Vec<GraphNode>, edges: Vec<GraphEdge>, flows: Vec<ContextFlow>) -> HistoricalSnapshot {
    HistoricalSnapshot {
        schema_version: HISTORICAL_SNAPSHOT_SCHEMA.to_string(),
        project_id: "project".to_string(),
        source_revision: "rev".to_string(),
        repository_identity_id: None,
        evidence_contract: None,
        files,
        nodes,
        edges,
        resolution_evidence: ResolutionEvidence::default(),
        module_resolution: ModuleResolutionBasis::default(),
        entry_evidence: EntryEvidence::default(),
        related_test_evidence: RelatedTestEvidence::default(),
        flows,
        truncated: false,
        omissions: Vec::new(),
    }
}

fn base() -> HistoricalSnapshot {
    snapshot(
        vec![source("src/a.ts", "a1"), source("src/b.ts", "b1"), source("src/c.ts", "c1")],
        vec![node("a", "src/a.ts"), node("b", "src/b.ts"), node("c", "src/c.ts")],
        vec![edge("a", "b", "calls")],
        vec![flow("flow_1", "f1", "start")],
    )
}

#[test]
fn identical_snapshots_give_no_reasons() {
    let s = base();
    let (reasons, score, notes) = historical_delta_reasons(
        &s,
        &s.clone(),
        &strings(&["src/a.ts"]),
        &strings(&["src/b.ts"]),
        &strings(&["flow_1"]),
    );
    assert!(reasons.is_empty());
    assert_eq!(score, 0);
    assert!(notes.is_empty());
}

#[test]
fn changed_files_flows_and_edges_give_ranked_reasons() {
    let parent = base();
    let mut current = base();
    current.files[0].hash = "a2".to_string();
    current.files[1].hash = "b2".to_string();
    current.files[2].hash = "c2".to_string();
    current.flows[0].fingerprint = "f2".to_string();
    current.edges.push(edge("b", "c", "imports"));
    current.edges.push(edge("a", "c", "constructs"));
    current.truncated = true;
    let (reasons, score, notes) = historical_delta_reasons(
        &current,
        &parent,
        &strings(&["src/a.ts"]),
        &strings(&["src/b.ts"]),
        &strings(&["flow_1"]),
    );
    assert_eq!(
        reasons,
        strings(&[
            "focused-flow-changed",
            "focused-node-changed",
            "dependency-cone-node-changed",
            "focused-edge-changed",
            "dependency-cone-edge-changed",
        ])
    );
    assert_eq!(score, 75 + 35 + 20 + 45 + 25);
    assert_eq!(notes, strings(&["historical graph snapshot was truncated by declared bounds"]));
}

#[test]
fn cone_edge_before_focus_edge_is_reported_first() {
    let parent = base();
    let mut current = base();
    current.edges.push(edge("b", "c", "calls"));
    current.edges.push(edge("c", "a", "calls"));
    let (reasons, score, _) = historical_delta_reasons(
        &current,
        &parent,
        &strings(&["src/a.ts"]),
        &strings(&["src/b.ts"]),
        &Vec::new(),
    );
    assert_eq!(
        reasons,
        strings(&["dependency-cone-edge-changed", "focused-edge-changed"])
    );
    assert_eq!(score, 70);
}

#[test]
fn vanished_flow_changes_its_entry() {
    let parent = base();
    let mut current = base();
    current.flows.clear();
    let (reasons, score, _) = historical_delta_reasons(
        &current,
        &parent,
        &Vec::new(),
        &Vec::new(),
        &strings(&["flow_1"]),
    );
    assert_eq!(reasons, strings(&["focused-flow-changed", "focused-entry-changed"]));
    assert_eq!(score, 135);
}

#[test]
fn commit_paths_are_sorted_distinct_and_typescript() {
    let changed = strings(&["src/b.ts", "src/a.tsx", "README.md", "src/b.ts", "package.json"]);
    let (paths, distinct) = commit_evidence_paths(changed.clone(), true);
    assert_eq!(paths, strings(&["package.json", "src/a.tsx", "src/b.ts"]));
    assert_eq!(distinct, 4);
    let (paths, _) = commit_evidence_paths(changed, false);
    assert_eq!(paths, strings(&["src/a.tsx", "src/b.ts"]));
}

#[test]
fn commit_relevance_merges_reasons_once() {
    let paths = strings(&["src/a.ts", "src/b.ts"]);
    let (reasons, score) = commit_relevance(
        &paths,
        &strings(&["src/a.ts"]),
        &strings(&["src/b.ts"]),
        Some((strings(&["focused-node-changed", "focused-node-changed", "dependency-cone-node-changed"]), 90)),
    );
    assert_eq!(
        reasons,
        strings(&[
            "changed-path-in-focus-context",
            "changed-path-in-dependency-cone",
            "focused-node-changed",
            "dependency-cone-node-changed",
        ])
    );
    assert_eq!(score, 10 + 100 + 60 + 90);
    let (reasons, score) = commit_relevance(&paths, &Vec::new(), &Vec::new(), None);
    assert!(reasons.is_empty());
    assert_eq!(score, 10);
}

#[test]
fn retention_status_reports_removed_changed_or_retained() {
    assert_eq!(retention_status(false, true, true), "removed");
    assert_eq!(retention_status(true, true, false), "changed");
    assert_eq!(retention_status(true, false, true), "changed");
    assert_eq!(retention_status(true, false, false), "retained");
}

fn candidate(commit: &str, score: u32) -> HistoricalCandidate {
    HistoricalCandidate {
        schema_version: "candidate".to_string(),
        id: candidate_id("context", "graph", commit),
        project_id: "project".to_string(),
        context_id: "context".to_string(),
        current_graph_basis: GraphBasis {
            project_id: "project".to_string(),
            graph_id: "graph".to_string(),
            graph_version: 1,
            source_revision: "rev".to_string(),
            observation_id: "obs".to_string(),
        },
        last_known_good_revision: "lkg".to_string(),
        commit: commit.to_string(),
        parents: Vec::new(),
        summary: String::new(),
        changed_paths: Vec::new(),
        changed_paths_truncated: false,
        relevance_reasons: Vec::new(),
        score,
        retention_status: "retained".to_string(),
    }
}

#[test]
fn candidates_rank_by_score_then_commit_and_are_capped() {
    let ranked = rank_candidates(vec![
        candidate("c3", 10),
        candidate("c1", 50),
        candidate("c2", 50),
        candidate("c0", 5),
    ]);
    let order = ranked.iter().map(|c| c.commit.as_str()).collect::<Vec<_>>();
    assert_eq!(order, vec!["c1", "c2", "c3", "c0"]);
    let (kept, omission) = cap_candidates(ranked, 2);
    assert_eq!(kept.len(), 2);
    assert_eq!(omission, Some("historical candidates capped at 2".to_string()));
    let (kept, omission) = cap_candidates(kept, 5);
    assert_eq!(kept.len(), 2);
    assert_eq!(omission, None);
    assert_eq!(cap_omissions(strings(&["a", "b"]), 0), (strings(&["a"]), true));
    assert_eq!(cap_omissions(strings(&["a", "b"]), 2), (strings(&["a", "b"]), false));
}

#[test]
fn candidate_ids_are_deterministic_and_distinct_per_commit() {
    let first = candidate_id("context", "graph", "abc");
    assert_eq!(first, candidate_id("context", "graph", "abc"));
    assert_ne!(first, candidate_id("context", "graph", "abd"));
    assert!(first.starts_with("candidate_"));
    assert_eq!(first.len(), "candidate_".len() + 64);
}

fn hashed_file(path: &str, content: &[u8]) -> flopeek_core::model::SourceFile {
    flopeek_core::model::SourceFile {
        path: path.to_string(),
        language: "typescript".to_string(),
        bytes: content.len() as u64,
        hash: blake3::hash(content).to_hex().to_string(),
    }
}

#[test]
fn retention_compares_shown_content_with_current_hashes() {
    let files = vec![hashed_file("src/a.ts", b"a"), hashed_file("src/b.ts", b"b")];
    let manifest = blake3::hash(b"{}").to_hex().to_string();
    let paths = vec!["src/a.ts".to_string(), "package.json".to_string()];
    assert_eq!(
        retention_of(&paths, &files, Some(&manifest), &[Some(b"a".to_vec()), Some(b"{}".to_vec())]),
        "retained"
    );
    assert_eq!(
        retention_of(&paths, &files, Some(&manifest), &[Some(b"old".to_vec()), Some(b"{}".to_vec())]),
        "changed"
    );
    assert_eq!(
        retention_of(&paths, &files, None, &[Some(b"a".to_vec()), Some(b"{}".to_vec())]),
        "changed"
    );
    let gone = vec!["src/gone.ts".to_string()];
    assert_eq!(retention_of(&gone, &files, None, &[None]), "removed");
    let unreadable = vec!["src/b.ts".to_string()];
    assert_eq!(retention_of(&unreadable, &files, None, &[None]), "changed");
}

#[test]
fn parsing_a_built_flow_uri_gives_back_its_parts() {
    let built = uri("project_a", "graph_b", "flow_c");
    assert_eq!(
        parse_uri(&built),
        Ok(("project_a".to_string(), "graph_b".to_string(), "flow_c".to_string()))
    );
    assert_eq!(parse_uri("fp://other/x"), Err("Flow Ref URI must use fp://local/.".to_string()));
}

fn diagnosed_context(legacy: bool) -> flopeek_core::model::DiagnosticContext {
    flopeek_core::model::DiagnosticContext {
        schema_version: flopeek_core::model::DIAGNOSTIC_CONTEXT_SCHEMA.to_string(),
        id: "context-h".to_string(),
        project_id: "project-h".to_string(),
        revision: 1,
        intent: "diagnose".to_string(),
        symptom: "timeout".to_string(),
        expected_behavior: "completes".to_string(),
        focus_context_refs: Vec::new(),
        focus_flow_refs: Vec::new(),
        current_graph_basis: graph_basis(),
        last_known_good_basis: if legacy {
            Some(flopeek_core::model::GitBasis { revision: "old".to_string() })
        } else {
            None
        },
        last_known_good_binding_id: None,
        last_known_good_candidate_id: None,
        constraints: Vec::new(),
        acceptance_criteria: Vec::new(),
        unresolved_questions: Vec::new(),
        actor: "alice".to_string(),
        created_at: 1,
        status: "open".to_string(),
        supersedes: None,
    }
}

fn graph_basis() -> GraphBasis {
    GraphBasis {
        project_id: "project-h".to_string(),
        graph_id: "graph-h".to_string(),
        graph_version: 1,
        source_revision: "head".to_string(),
        observation_id: "observation-h".to_string(),
    }
}

fn confirmed_candidate() -> flopeek_core::model::LastKnownGoodCandidate {
    flopeek_core::model::LastKnownGoodCandidate {
        schema_version: flopeek_core::model::LAST_KNOWN_GOOD_SCHEMA.to_string(),
        candidate_id: "candidate-h".to_string(),
        repository_id: "repo-h".to_string(),
        project_id: "project-h".to_string(),
        context_id: "context-h".to_string(),
        context_revision: 1,
        expected_behavior_fingerprint: "sha256:x".to_string(),
        git_revision: "good".to_string(),
        observation_id: None,
        graph_basis: None,
        evidence_contract: None,
        proposed_by: "alice".to_string(),
        proposed_at: 7,
        evidence: Vec::new(),
        reason: "worked".to_string(),
        integrity: flopeek_core::model::LastKnownGoodIntegrity {
            status: "valid".to_string(),
            revision_available: true,
            observation_available: false,
            graph_basis_available: false,
            evidence_contract_compatible: true,
            limitations: Vec::new(),
        },
    }
}

#[test]
fn diagnosis_prelude_reports_each_outcome_that_inspects_no_commit() {
    let limits = DiagnosticLimits::default();
    let mut zero = DiagnosticLimits::default();
    zero.max_commits = 0;

    let unavailable = diagnosis_prelude(&diagnosed_context(false), graph_basis(), None, None, "a", "b", "b", false, &limits).unwrap();
    assert_eq!(unavailable.last_known_good_status, "unavailable");
    assert_eq!(unavailable.range, None);
    assert_eq!(unavailable.limitations.len(), 3);
    assert_eq!(unavailable.limitations[2], "last-known-good basis is unavailable; no historical range was inspected.");

    let legacy = diagnosis_prelude(&diagnosed_context(true), graph_basis(), None, None, "a", "b", "b", false, &limits).unwrap();
    assert_eq!(legacy.last_known_good_status, "legacy-unbound");
    assert_eq!(legacy.limitations[2], "legacy last-known-good basis is legacy-unbound; no historical range was inspected.");
    assert!(legacy.last_known_good_binding.is_none());

    let candidate = Some(confirmed_candidate());
    let mismatch = diagnosis_prelude(&diagnosed_context(false), graph_basis(), candidate.clone(), None, "good1", "head2", "head1", true, &zero).unwrap();
    assert_eq!(mismatch.last_known_good_status, "confirmed");
    assert_eq!(mismatch.range.as_deref(), Some("good1..head2"));
    assert!(mismatch.truncated);
    assert_eq!(
        mismatch.omissions,
        strings(&[
            "historical candidates unavailable for dirty or mismatched source state",
            "history commits omitted because max_commits is zero",
        ])
    );
    assert_eq!(mismatch.limitations[3], "source revision mismatch: graph=head1 current=head2");
    assert_eq!(mismatch.limitations[4], "Git working tree is dirty; historical candidates were not computed.");
    let binding = mismatch.last_known_good_binding.unwrap();
    assert_eq!(binding.binding_id, "candidate-h");
    assert_eq!(binding.status, "confirmed");
    assert_eq!(binding.actor_kind, "human");
    assert_eq!(mismatch.last_known_good_basis.unwrap().revision, "good1");

    let dirty_only = diagnosis_prelude(&diagnosed_context(false), graph_basis(), candidate.clone(), None, "good1", "head", "head", true, &limits).unwrap();
    assert!(!dirty_only.truncated);
    assert_eq!(dirty_only.omissions.len(), 1);
    assert_eq!(dirty_only.limitations.len(), 4);

    let same = diagnosis_prelude(&diagnosed_context(false), graph_basis(), candidate.clone(), None, "head", "head", "head", false, &limits).unwrap();
    assert!(!same.truncated);
    assert!(same.omissions.is_empty());
    assert_eq!(same.limitations[2], "last-known-good and current revisions are identical; the inspected range is empty.");

    let none_allowed = diagnosis_prelude(&diagnosed_context(false), graph_basis(), candidate.clone(), None, "good", "head", "head", false, &zero).unwrap();
    assert!(none_allowed.truncated);
    assert_eq!(none_allowed.omissions, strings(&["history commits omitted because max_commits is zero"]));
    assert_eq!(none_allowed.limitations[2], "history limit max_commits is zero; no commits were inspected.");

    assert!(diagnosis_prelude(&diagnosed_context(false), graph_basis(), candidate, None, "good", "head", "head", false, &limits).is_none());
}

fn related(test: &str, target: &str) -> flopeek_core::model::RelatedTestRecord {
    flopeek_core::model::RelatedTestRecord {
        test_path: format!("test/{test}.test.ts"),
        test_node_id: test.to_string(),
        target_node_id: target.to_string(),
        relation: "imports".to_string(),
        strength: "direct".to_string(),
        status: "proven".to_string(),
        reason: "import".to_string(),
    }
}

fn resolved_ref(node_id: &str) -> flopeek_core::model::ContextRef {
    flopeek_core::model::ContextRef {
        schema_version: "ref".to_string(),
        uri: format!("fp://local/project-h/graph-h/{node_id}"),
        project_id: "project-h".to_string(),
        graph_id: "graph-h".to_string(),
        graph_version: 1,
        node_id: node_id.to_string(),
        status: "current".to_string(),
        origin_observation_id: "observation-h".to_string(),
        origin_source_revision: "head".to_string(),
        origin_fingerprint: "f".to_string(),
        fingerprint_scope: "node".to_string(),
        fingerprint_contract: "c".to_string(),
        freshness_reason: "fresh".to_string(),
        origin_basis: None,
        current_basis: None,
        current_event_id: "e".to_string(),
        successor_uri: None,
    }
}

fn resolved_flow_ref(flow_id: &str) -> flopeek_core::model::FlowRef {
    flopeek_core::model::FlowRef {
        schema_version: "flow-ref".to_string(),
        uri: format!("fp://local/project-h/graph-h/flow/{flow_id}"),
        project_id: "project-h".to_string(),
        graph_id: "graph-h".to_string(),
        graph_version: 1,
        flow_id: flow_id.to_string(),
        status: "current".to_string(),
        origin_observation_id: "observation-h".to_string(),
        origin_source_revision: "head".to_string(),
        origin_fingerprint: "f".to_string(),
        fingerprint_scope: "flow".to_string(),
        freshness_reason: "fresh".to_string(),
        origin_basis: None,
        current_basis: None,
    }
}

fn assertion(id: &str) -> flopeek_core::model::DiagnosticAssertion {
    flopeek_core::model::DiagnosticAssertion {
        schema_version: "assertion".to_string(),
        id: id.to_string(),
        context_id: "context-h".to_string(),
        revision: 1,
        kind: "observation".to_string(),
        status: "active".to_string(),
        actor: "alice".to_string(),
        statement: "seen".to_string(),
        evidence: Vec::new(),
        supersedes: None,
        created_at: 1,
    }
}

#[test]
fn packets_gather_focus_nodes_flows_tests_and_bounded_assertions() {
    let mut limits = DiagnosticLimits::default();
    limits.max_context_refs = 2;
    limits.max_assertions = 1;
    let mut context = diagnosed_context(false);
    context.focus_context_refs = strings(&["fp://a", "fp://b", "fp://missing"]);
    context.focus_flow_refs = strings(&["fp://flow/f1", "fp://flow/gone"]);
    let mut with_tests = flow("f1", "ff", "key");
    with_tests.related_tests = vec![related("t2", "n1")];
    let graph = flopeek_core::model::GraphSnapshot {
        schema_version: "graph".to_string(),
        product: "product".to_string(),
        project_id: "project-h".to_string(),
        graph_id: "graph-h".to_string(),
        graph_version: 3,
        source_revision: "head".to_string(),
        source_fingerprint: String::new(),
        observation_id: "observation-h".to_string(),
        identity_basis: flopeek_core::identity::IdentityBasis::default(),
        files: Vec::new(),
        nodes: vec![node("n1", "src/a.ts"), node("n2", "src/b.ts")],
        edges: Vec::new(),
        resolution_evidence: ResolutionEvidence::default(),
        module_resolution: ModuleResolutionBasis::default(),
        entry_evidence: EntryEvidence::default(),
        related_test_evidence: flopeek_core::model::RelatedTestEvidence {
            schema_version: "related".to_string(),
            status: "complete".to_string(),
            records: vec![related("t1", "n1"), related("t9", "n2"), related("t2", "n1")],
            truncated: false,
            omissions: Vec::new(),
        },
        flows: vec![with_tests],
        truncated: false,
        omissions: Vec::new(),
    };
    let historical = diagnosis_prelude(&context, graph_basis(), None, None, "a", "b", "b", false, &limits).unwrap();
    let packet = assemble_packet(
        context.clone(),
        &graph,
        vec![resolved_ref("n1"), resolved_ref("zz")],
        vec![resolved_flow_ref("f1"), resolved_flow_ref("gone")],
        Vec::new(),
        vec![assertion("a1"), assertion("a2")],
        historical,
        &limits,
    );
    assert_eq!(packet.focus_nodes.len(), 1);
    assert_eq!(packet.focus_nodes[0].id, "n1");
    assert_eq!(packet.focus_flows.len(), 1);
    assert_eq!(packet.focus_flows[0].flow_id, "f1");
    let tests: Vec<&str> = packet.related_tests.records.iter().map(|r| r.test_node_id.as_str()).collect();
    assert_eq!(tests, vec!["t1", "t2"]);
    assert_eq!(packet.assertions.len(), 1);
    assert_eq!(packet.assertions[0].id, "a1");
    assert_eq!(
        packet.omissions,
        strings(&[
            "focus node unavailable for fp://b",
            "focus Context Refs capped at 2",
            "focus flow unavailable for fp://flow/gone",
            "assertions capped at 1",
        ])
    );
    assert!(packet.truncated);
    assert_eq!(packet.current_graph_basis.graph_version, 3);
    assert_eq!(packet.limitations.last().unwrap(), "Assertions retain their declared evidence class and attribution; they are not parser facts.");
    assert_eq!(packet.limitations.len(), 4);
}

fn protocol_candidate(id: &str) -> flopeek_core::model::LastKnownGoodCandidate {
    let mut c = confirmed_candidate();
    c.schema_version = LKG_CANDIDATE_SCHEMA.to_string();
    c.candidate_id = id.to_string();
    c
}

fn protocol_event(id: &str, kind: &str, candidate: &str, predecessor: Option<&str>) -> LastKnownGoodEvent {
    LastKnownGoodEvent {
        schema_version: LKG_EVENT_SCHEMA.to_string(),
        event_id: id.to_string(),
        repository_id: "repo-h".to_string(),
        project_id: "project-h".to_string(),
        context_id: "context-h".to_string(),
        event_type: kind.to_string(),
        candidate_id: candidate.to_string(),
        replaces_candidate_id: None,
        predecessor_event_id: predecessor.map(|p| p.to_string()),
        actor: "alice".to_string(),
        actor_kind: "human".to_string(),
        actor_trust: "trusted".to_string(),
        reason: "checked".to_string(),
        evidence: Vec::new(),
        created_at: 1,
        idempotency_key: id.to_string(),
    }
}

#[test]
fn reordered_candidates_and_events_reduce_alike() {
    let candidates = vec![protocol_candidate("c1"), protocol_candidate("c2")];
    let events = vec![
        protocol_event("e1", "PROPOSE", "c1", None),
        protocol_event("e2", "CONFIRM", "c1", Some("e1")),
        protocol_event("e3", "PROPOSE", "c2", Some("e2")),
    ];
    let first = reduce_last_known_good("context-h", &candidates, &events).unwrap();
    let reordered_candidates = vec![candidates[1].clone(), candidates[0].clone()];
    let reordered_events = vec![events[2].clone(), events[0].clone(), events[1].clone()];
    let second = reduce_last_known_good("context-h", &reordered_candidates, &reordered_events).unwrap();
    assert_eq!(first, second);
    let ids: Vec<&str> = second.events.iter().map(|e| e.event_id.as_str()).collect();
    assert_eq!(ids, vec!["e1", "e2", "e3"]);
    assert_eq!(second.state.active_candidate_id.as_deref(), Some("c1"));
    assert_eq!(second.state.pending_candidate_id.as_deref(), Some("c2"));
    assert_eq!(second.state.tip_event_id.as_deref(), Some("e3"));
}

#[test]
fn concluded_diagnosis_ranks_caps_and_records_its_bounds() {
    let mut limits = DiagnosticLimits::default();
    limits.max_commits = 3;
    limits.max_candidates = 2;
    limits.max_paths = 2;
    let found = vec![candidate("c1", 10), candidate("c3", 50), candidate("c2", 50)];
    let diagnosis = conclude_diagnosis(
        &diagnosed_context(false),
        graph_basis(),
        confirmed_candidate(),
        None,
        "good",
        "head",
        4,
        found,
        strings(&["commit c9 paths capped at 2"]),
        strings(&["limitation"]),
        &limits,
    );
    let commits: Vec<&str> = diagnosis.candidates.iter().map(|c| c.commit.as_str()).collect();
    assert_eq!(commits, vec!["c2", "c3"]);
    assert_eq!(diagnosis.commits_inspected, 3);
    assert_eq!(diagnosis.omissions, strings(&["commit c9 paths capped at 2", "history commits capped at 3"]));
    assert!(diagnosis.truncated);
    assert_eq!(diagnosis.range.as_deref(), Some("good..head"));
    assert_eq!(diagnosis.last_known_good_status, "confirmed");
    assert_eq!(diagnosis.limitations, strings(&["limitation"]));

    limits.max_commits = 10;
    limits.max_candidates = 10;
    let calm = conclude_diagnosis(
        &diagnosed_context(false),
        graph_basis(),
        confirmed_candidate(),
        None,
        "good",
        "head",
        1,
        vec![candidate("c1", 10)],
        Vec::new(),
        Vec::new(),
        &limits,
    );
    assert!(!calm.truncated);
    assert!(calm.omissions.is_empty());
    assert_eq!(calm.commits_inspected, 1);
}

#[test]
fn commit_candidates_rank_relevant_paths_and_cap_them() {
    let basis = graph_basis();
    let paths = strings(&["src/a.ts", "src/b.ts", "src/c.ts"]);
    let files = vec![hashed_file("src/a.ts", b"A")];
    let shown = vec![Some(b"A".to_vec()), Some(b"B".to_vec()), None];
    let (candidate, notes) = commit_candidate(
        "context-h",
        &basis,
        "project-h",
        "good",
        "abc",
        strings(&["parent"]),
        "change".to_string(),
        paths.clone(),
        4,
        &strings(&["src/a.ts"]),
        &Vec::new(),
        None,
        &files,
        None,
        &shown,
        2,
    )
    .unwrap();
    assert_eq!(candidate.changed_paths, strings(&["src/a.ts", "src/b.ts"]));
    assert!(candidate.changed_paths_truncated);
    assert_eq!(
        candidate.relevance_reasons,
        strings(&["changed-path-in-focus-context", "introduced-after-last-known-good"])
    );
    assert_eq!(candidate.score, 110);
    assert_eq!(candidate.retention_status, "changed");
    assert_eq!(candidate.id, candidate_id("context-h", "graph-h", "abc"));
    assert_eq!(notes, strings(&["commit abc paths capped at 2"]));

    let unrelated = commit_candidate(
        "context-h", &basis, "project-h", "good", "abc", Vec::new(), String::new(), paths.clone(), 3,
        &Vec::new(), &Vec::new(), None, &files, None, &shown, 8,
    );
    assert!(unrelated.is_none());
    let unbounded = commit_candidate(
        "context-h", &basis, "project-h", "good", "abc", Vec::new(), String::new(), paths, 3,
        &strings(&["src/a.ts"]), &Vec::new(), None, &files, None, &shown, 0,
    );
    assert!(unbounded.is_none());
}

fn weight(reason: &str) -> u32 {
    match reason {
        "focused-flow-changed" => 75,
        "focused-entry-changed" => 60,
        "related-test-structure-changed" => 25,
        "focused-node-changed" => 35,
        "dependency-cone-node-changed" => 20,
        "focused-edge-changed" => 45,
        "dependency-cone-edge-changed" => 25,
        _ => 0,
    }
}

#[test]
fn delta_score_is_the_weight_of_its_reasons() {
    let parent = base();
    let mut current = base();
    current.files[1].hash = "b2".to_string();
    current.flows[0].fingerprint = "f9".to_string();
    current.edges.push(edge("a", "c", "calls"));
    let (reasons, score, _) = historical_delta_reasons(
        &current,
        &parent,
        &strings(&["src/a.ts"]),
        &strings(&["src/b.ts"]),
        &strings(&["flow_1"]),
    );
    assert!(!reasons.is_empty());
    assert_eq!(score, reasons.iter().map(|r| weight(r)).sum::<u32>());
}

#[test]
fn packets_are_trimmed_item_by_item_until_they_fit() {
    let mut limits = DiagnosticLimits::default();
    limits.max_assertions = 10;
    let context = diagnosed_context(false);
    let graph = flopeek_core::model::GraphSnapshot {
        schema_version: "graph".to_string(),
        product: "product".to_string(),
        project_id: "project-h".to_string(),
        graph_id: "graph-h".to_string(),
        graph_version: 1,
        source_revision: "head".to_string(),
        source_fingerprint: String::new(),
        observation_id: "observation-h".to_string(),
        identity_basis: flopeek_core::identity::IdentityBasis::default(),
        files: Vec::new(),
        nodes: Vec::new(),
        edges: Vec::new(),
        resolution_evidence: ResolutionEvidence::default(),
        module_resolution: ModuleResolutionBasis::default(),
        entry_evidence: EntryEvidence::default(),
        related_test_evidence: RelatedTestEvidence::default(),
        flows: Vec::new(),
        truncated: false,
        omissions: Vec::new(),
    };
    let historical = diagnosis_prelude(&context, graph_basis(), None, None, "a", "b", "b", false, &limits).unwrap();
    let build = || {
        assemble_packet(
            context.clone(),
            &graph,
            Vec::new(),
            Vec::new(),
            Vec::new(),
            vec![assertion("a1"), assertion("a2"), assertion("a3")],
            historical.clone(),
            &limits,
        )
    };
    let size = |p: &flopeek_core::model::DiagnosticPacket| -> Result<usize, String> { Ok(100 + 10 * p.assertions.len()) };

    let mut roomy = build();
    assert_eq!(bound_packet(&mut roomy, 500, size), Ok(()));
    assert_eq!(roomy.assertions.len(), 3);
    assert!(!roomy.truncated);

    let mut tight = build();
    assert_eq!(bound_packet(&mut tight, 115, size), Ok(()));
    assert_eq!(tight.assertions.len(), 1);
    assert!(tight.truncated);
    assert_eq!(
        tight.omissions,
        strings(&[
            "diagnostic packet exceeded max_packet_bytes",
            "assertions omitted by packet bound",
            "assertions omitted by packet bound",
        ])
    );

    let mut hopeless = build();
    assert_eq!(
        bound_packet(&mut hopeless, 50, size),
        Err("diagnostic packet envelope exceeds max_packet_bytes even after bounded omissions.".to_string())
    );
    let mut zero = build();
    assert_eq!(bound_packet(&mut zero, 0, size), Err("max_packet_bytes must be greater than zero.".to_string()));

    let unchanged = build();
    let mut fits = build();
    assert_eq!(bound_packet(&mut fits, 130, size), Ok(()));
    assert_eq!(fits, unchanged);

    let failing = |p: &flopeek_core::model::DiagnosticPacket| -> Result<usize, String> {
        if p.assertions.len() < 3 { Err("cannot measure".to_string()) } else { Ok(1000) }
    };
    let mut unmeasured = build();
    assert_eq!(bound_packet(&mut unmeasured, 500, failing), Err("cannot measure".to_string()));
    assert_eq!(unmeasured.assertions.len(), 2);
}

#[test]
fn inspected_commits_give_candidates_notes_and_snapshot_limitations() {
    let parent = base();
    let mut current = base();
    current.files[0].hash = "a2".to_string();
    current.truncated = true;
    let evidence = vec![
        CommitEvidence {
            sha: "c1".to_string(),
            parents: strings(&["p1"]),
            summary: "touch a".to_string(),
            changed: strings(&["src/a.ts", "README.md"]),
            shown: vec![Some(b"A".to_vec())],
            snapshots: Ok((current, parent)),
        },
        CommitEvidence {
            sha: "c2".to_string(),
            parents: strings(&["c1"]),
            summary: "docs".to_string(),
            changed: strings(&["docs/x.md"]),
            shown: Vec::new(),
            snapshots: Err("not read".to_string()),
        },
        CommitEvidence {
            sha: "c3".to_string(),
            parents: strings(&["c2"]),
            summary: "touch z".to_string(),
            changed: strings(&["src/z.ts"]),
            shown: vec![None],
            snapshots: Err("missing".to_string()),
        },
    ];
    let basis = graph_basis();
    let files = vec![hashed_file("src/a.ts", b"A")];
    let limits = DiagnosticLimits::default();
    let (candidates, omissions, limitations) = inspect_commits(
        "context-h",
        &basis,
        "project-h",
        "good",
        evidence,
        &strings(&["src/a.ts"]),
        &Vec::new(),
        &Vec::new(),
        false,
        &files,
        None,
        &limits,
    );
    assert_eq!(candidates.len(), 1);
    let c = &candidates[0];
    assert_eq!(c.commit, "c1");
    assert_eq!(c.parents, strings(&["p1"]));
    assert_eq!(c.changed_paths, strings(&["src/a.ts"]));
    assert_eq!(
        c.relevance_reasons,
        strings(&["changed-path-in-focus-context", "focused-node-changed", "introduced-after-last-known-good"])
    );
    assert_eq!(c.score, 110 + 35);
    assert_eq!(c.retention_status, "retained");
    assert_eq!(omissions, strings(&["commit c1 contained non-TypeScript paths omitted from candidate evidence"]));
    assert_eq!(
        limitations,
        strings(&[
            "commit c1: historical graph snapshot was truncated by declared bounds",
            "historical graph snapshot unavailable for c3: missing",
        ])
    );

    let mut zero = DiagnosticLimits::default();
    zero.max_paths = 0;
    zero.max_snapshot_bytes = 0;
    let single = vec![CommitEvidence {
        sha: "c1".to_string(),
        parents: strings(&["p1"]),
        summary: "touch a".to_string(),
        changed: strings(&["src/a.ts"]),
        shown: vec![None],
        snapshots: Err("unused".to_string()),
    }];
    let (none, notes, lims) = inspect_commits(
        "context-h", &basis, "project-h", "good", single, &strings(&["src/a.ts"]), &Vec::new(),
        &Vec::new(), false, &files, None, &zero,
    );
    assert!(none.is_empty());
    assert_eq!(
        notes,
        strings(&["historical candidate paths capped at zero", "historical snapshot bytes capped at zero"])
    );
    assert!(lims.is_empty());
}

#[test]
fn lifecycle_status_names_active_pending_inactive_and_none() {
    let candidates = vec![protocol_candidate("c1"), protocol_candidate("c2")];
    let none = reduce_last_known_good("context-h", &candidates, &[]).unwrap();
    assert_eq!(none.state.lifecycle_status, "none");
    assert_eq!(none.state.applicability_status, "unavailable");

    let proposed = vec![protocol_event("e1", "PROPOSE", "c1", None)];
    let pending = reduce_last_known_good("context-h", &candidates, &proposed).unwrap();
    assert_eq!(pending.state.lifecycle_status, "pending");
    assert_eq!(pending.state.pending_candidate_id.as_deref(), Some("c1"));
    assert!(pending.state.active_candidate_id.is_none());

    let rejected = vec![
        protocol_event("e1", "PROPOSE", "c1", None),
        protocol_event("e2", "REJECT", "c1", Some("e1")),
    ];
    let inactive = reduce_last_known_good("context-h", &candidates, &rejected).unwrap();
    assert_eq!(inactive.state.lifecycle_status, "inactive");
    assert!(inactive.state.active_candidate_id.is_none());
    assert!(inactive.state.pending_candidate_id.is_none());

    let confirmed = vec![
        protocol_event("e1", "PROPOSE", "c1", None),
        protocol_event("e2", "CONFIRM", "c1", Some("e1")),
    ];
    let active = reduce_last_known_good("context-h", &candidates, &confirmed).unwrap();
    assert_eq!(active.state.lifecycle_status, "active");
    assert_eq!(active.state.active_candidate_id.as_deref(), Some("c1"));

    let unknown = vec![protocol_event("e1", "PROPOSE", "c9", None)];
    assert!(reduce_last_known_good("context-h", &candidates, &unknown).is_err());
}
