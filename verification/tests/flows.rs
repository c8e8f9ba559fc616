use flopeek_core::flow::{derive_related_tests, ManifestJson, PackageFields};
use flopeek_core::graph::node_id;
use flopeek_core::model::{GraphEdge, GraphNode, SourceFile};

fn source(path: &str) -> SourceFile {
    SourceFile {
        path: path.to_string(),
        language: if path.ends_with(".tsx") {
            "tsx".to_string()
        } else {
            "typescript".to_string()
        },
        bytes: 1,
        hash: format!("hash:{path}"),
    }
}

fn file_node(path: &str) -> GraphNode {
    GraphNode {
        id: node_id("file", path, ""),
        kind: "file".to_string(),
        path: Some(path.to_string()),
        name: None,
        language: Some(if path.ends_with(".tsx") {
            "tsx".to_string()
        } else {
            "typescript".to_string()
        }),
        evidence_fingerprint: format!("file-fp:{path}"),
    }
}

fn symbol_node(path: &str, name: &str) -> GraphNode {
    GraphNode {
        id: node_id("function", path, &format!("function:{name}")),
        kind: "function".to_string(),
        path: Some(path.to_string()),
        name: Some(name.to_string()),
        language: Some("typescript".to_string()),
        evidence_fingerprint: format!("symbol-fp:{path}:{name}"),
    }
}

/// `{"scripts":{"start":"tsx src/main.ts"}}`, as its JSON object reads.
fn start_manifest() -> ManifestJson {
    ManifestJson::Object(PackageFields {
        scripts: Some(vec![(
            "start".to_string(),
            Some("tsx src/main.ts".to_string()),
        )]),
        bin: None,
        main: None,
        module: None,
    })
}

const START_MANIFEST: &[u8] = br#"{"scripts":{"start":"tsx src/main.ts"}}"#;

fn calls(from: &str, to: &str) -> GraphEdge {
    GraphEdge {
        from: from.to_string(),
        to: to.to_string(),
        kind: "calls".to_string(),
        evidence: "direct-call".to_string(),
    }
}

#[test]
fn unsupported_manifest_is_explicitly_unavailable() {
    let bytes = b"{ invalid".as_slice();
    let parsed = flopeek_core::flow::package_json::manifest_json(bytes);
    assert!(matches!(parsed, ManifestJson::Invalid));
    let result = flopeek_core::flow::derivation::derive(
        Some(bytes),
        parsed,
        "project_test",
        &[],
        &[],
        &[],
    )
    .expect("derive");
    assert_eq!(result.entry_evidence.status, "unavailable");
    assert!(result
        .entry_evidence
        .omissions
        .iter()
        .any(|reason| reason == "package-json-invalid"));
}

#[test]
fn flow_caps_and_cycles_are_deterministic_with_categorical_omissions() {
    let main = file_node("src/main.ts");

    let mut chain_files = vec![source("src/main.ts")];
    let mut chain_nodes = vec![main.clone()];
    let mut chain_edges = Vec::new();
    let mut previous = main.id.clone();
    for index in 0..70 {
        let path = format!("src/chain-{index}.ts");
        let node = symbol_node(&path, &format!("chain{index}"));
        chain_files.push(source(&path));
        chain_edges.push(calls(&previous, &node.id));
        previous = node.id.clone();
        chain_nodes.push(node);
    }
    let chain = flopeek_core::flow::derivation::derive(
        Some(START_MANIFEST),
        start_manifest(),
        "project_test",
        &chain_files,
        &chain_nodes,
        &chain_edges,
    )
    .expect("chain");
    let chain_flow = chain.flows.first().expect("chain flow");
    assert!(chain_flow.truncated);
    assert!(chain_flow
        .omissions
        .iter()
        .any(|reason| reason.contains("depth capped")));

    let mut fan_files = vec![source("src/main.ts")];
    let mut fan_nodes = vec![main.clone()];
    let mut fan_edges = Vec::new();
    for index in 0..300 {
        let path = format!("src/fan-{index}.ts");
        let node = symbol_node(&path, &format!("fan{index}"));
        fan_files.push(source(&path));
        fan_edges.push(calls(&main.id, &node.id));
        fan_nodes.push(node);
    }
    let fan = flopeek_core::flow::derivation::derive(
        Some(START_MANIFEST),
        start_manifest(),
        "project_test",
        &fan_files,
        &fan_nodes,
        &fan_edges,
    )
    .expect("fan");
    let fan_flow = fan.flows.first().expect("fan flow");
    assert!(fan_flow.truncated);
    assert!(fan_flow
        .omissions
        .iter()
        .any(|reason| reason.contains("steps capped")));

    let mut edge_files = vec![source("src/main.ts")];
    let mut edge_nodes = vec![main.clone()];
    let mut edge_edges = Vec::new();
    for index in 0..600 {
        let path = format!("src/edge-{index}.ts");
        let node = symbol_node(&path, &format!("edge{index}"));
        edge_files.push(source(&path));
        edge_edges.push(calls(&main.id, &node.id));
        edge_nodes.push(node);
    }
    let edge = flopeek_core::flow::derivation::derive(
        Some(START_MANIFEST),
        start_manifest(),
        "project_test",
        &edge_files,
        &edge_nodes,
        &edge_edges,
    )
    .expect("edge");
    let edge_flow = edge.flows.first().expect("edge flow");
    assert!(edge_flow.truncated);
    assert!(edge_flow
        .omissions
        .iter()
        .any(|reason| reason.contains("edges capped")));

    let cycle_a = symbol_node("src/cycle-a.ts", "cycleA");
    let cycle_b = symbol_node("src/cycle-b.ts", "cycleB");
    let cycle_edges = vec![
        calls(&main.id, &cycle_a.id),
        calls(&cycle_a.id, &cycle_b.id),
        calls(&cycle_b.id, &cycle_a.id),
    ];
    let cycle_nodes = vec![main.clone(), cycle_a, cycle_b];
    let cycle_files = vec![
        source("src/main.ts"),
        source("src/cycle-a.ts"),
        source("src/cycle-b.ts"),
    ];
    let first = flopeek_core::flow::derivation::derive(
        Some(START_MANIFEST),
        start_manifest(),
        "project_test",
        &cycle_files,
        &cycle_nodes,
        &cycle_edges,
    )
    .expect("cycle");
    let second = flopeek_core::flow::derivation::derive(
        Some(START_MANIFEST),
        start_manifest(),
        "project_test",
        &cycle_files,
        &cycle_nodes,
        &cycle_edges,
    )
    .expect("cycle again");
    assert_eq!(first.flows, second.flows);
    let mut ids = first.flows[0]
        .steps
        .iter()
        .map(|step| step.node_id.clone())
        .collect::<Vec<_>>();
    ids.sort();
    ids.dedup();
    assert_eq!(ids.len(), first.flows[0].steps.len());
    assert!(first.flows[0]
        .traversed_edges
        .iter()
        .all(|edge| matches!(edge.kind.as_str(), "calls" | "constructs")));
}

fn node(id: &str, kind: &str, path: &str, name: Option<&str>) -> GraphNode {
    GraphNode {
        id: id.to_string(),
        kind: kind.to_string(),
        path: Some(path.to_string()),
        name: name.map(str::to_string),
        language: Some("typescript".to_string()),
        evidence_fingerprint: id.to_string(),
    }
}

fn edge(from: &str, to: &str, kind: &str, evidence: &str) -> GraphEdge {
    GraphEdge {
        from: from.to_string(),
        to: to.to_string(),
        kind: kind.to_string(),
        evidence: evidence.to_string(),
    }
}

#[test]
fn related_tests_keep_only_proven_relations_and_strengths() {
    let nodes = vec![
        node("test-calls", "function", "tests/calls.test.ts", Some("calls")),
        node("test-import", "file", "tests/import.spec.ts", None),
        node("test-type", "file", "tests/type.test.ts", None),
        node("test-to-test", "file", "tests/other.test.ts", None),
        node("prod", "function", "src/payment.ts", Some("charge")),
        node("prod-2", "function", "src/checkout.ts", Some("checkout")),
    ];
    let edges = vec![
        edge("test-calls", "prod", "calls", "direct-call"),
        edge("test-import", "prod", "imports", "named-import"),
        edge("test-type", "prod", "imports", "type-only-import"),
        edge("test-to-test", "test-calls", "imports", "named-import"),
        edge("test-calls", "prod-2", "constructs", "direct-construct"),
    ];
    let related = derive_related_tests(&nodes, &edges);
    assert_eq!(related.status, "complete");
    assert_eq!(related.records.len(), 3);
    assert!(related
        .records
        .iter()
        .any(|record| record.relation == "direct-call" && record.strength == "strong"));
    assert!(related
        .records
        .iter()
        .any(|record| record.relation == "direct-construct" && record.strength == "strong"));
    assert!(related
        .records
        .iter()
        .any(|record| record.relation == "direct-import" && record.strength == "weak"));
    assert!(related
        .records
        .iter()
        .all(|record| record.test_path != "tests/type.test.ts"));
    assert!(related
        .records
        .iter()
        .all(|record| record.test_path != "tests/other.test.ts"));
}

#[test]
fn derivation_reads_the_manifest_it_is_given() {
    let invalid = flopeek_core::flow::derivation::derive_from_manifest(Some(b"{ invalid".as_slice()), "project_test", &[], &[], &[])
        .expect("derive");
    assert_eq!(invalid.entry_evidence.status, "unavailable");
    let absent = flopeek_core::flow::derivation::derive_from_manifest(None, "project_test", &[], &[], &[]).expect("derive");
    assert_eq!(absent.entry_evidence.status, "complete");
    assert!(absent
        .entry_evidence
        .limitations
        .iter()
        .any(|l| l == "root-package-json-absent-no-entry-evidence"));
    let files = vec![source("src/main.ts")];
    let nodes = vec![file_node("src/main.ts")];
    let started = flopeek_core::flow::derivation::derive_from_manifest(
        Some(br#"{"scripts":{"start":"tsx src/main.ts"}}"#.as_slice()),
        "project_test",
        &files,
        &nodes,
        &[],
    )
    .expect("derive");
    assert_eq!(started.entry_evidence.records.len(), 1);
    assert_eq!(started.entry_evidence.records[0].key, "start");
}
