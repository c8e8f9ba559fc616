use flopeek_core::graph::assembly::{
    apply_module_basis, BASIS_UNAVAILABLE_OMISSION, cap_graph, cap_source_files, file_nodes, order_graph, GRAPH_EDGES_CAPPED, NODES_CAPPED,
    SOURCE_FILES_CAPPED,
};
use flopeek_core::graph::declarations::declaration_structure;
use flopeek_core::graph::edge_order::direct_edge_changes;
use flopeek_core::graph::{node_id, MAX_GRAPH_EDGES, MAX_GRAPH_NODES, MAX_SOURCE_FILES};
use flopeek_core::model::typescript::{
    ModuleResolutionBasis, ResolutionEvidence, TypeScriptDeclaration, TypeScriptFacts,
};
use flopeek_core::model::{GraphEdge, GraphNode, SourceFile, SourcePosition};
use flopeek_core::discovery::source_file;
use flopeek_core::graph::snapshot::assemble_graph;
use flopeek_core::graph::identity_json::identity_text;
use flopeek_core::module_resolution::ModuleResolver;
use flopeek_core::identity::IdentityBasis;

fn s(text: &str) -> String {
    text.to_string()
}

fn edge(from: &str, to: &str, kind: &str, evidence: &str) -> GraphEdge {
    GraphEdge {
        from: s(from),
        to: s(to),
        kind: s(kind),
        evidence: s(evidence),
    }
}

fn node(id: &str) -> GraphNode {
    GraphNode {
        id: s(id),
        kind: s("file"),
        path: None,
        name: None,
        language: None,
        evidence_fingerprint: String::new(),
    }
}

fn declaration(name: &str, kind: &str, qualified: &str, owner: Option<&str>) -> TypeScriptDeclaration {
    TypeScriptDeclaration {
        name: s(name),
        kind: s(kind),
        exported: true,
        position: SourcePosition {
            start_line: 1,
            start_column: 1,
            end_line: 2,
            end_column: 1,
        },
        qualified_name: s(qualified),
        ast_fingerprint: s("ast"),
        owner: owner.map(s),
        static_member: false,
        visibility: s("public"),
        abstract_member: false,
        declaration_only: false,
    }
}

fn facts(path: &str, declarations: Vec<TypeScriptDeclaration>) -> TypeScriptFacts {
    TypeScriptFacts {
        schema_version: s("facts"),
        path: s(path),
        language: s("typescript"),
        source_hash: s("hash"),
        parser: s("parser"),
        parse_status: s("parsed"),
        imports: Vec::new(),
        declarations,
        exports: Vec::new(),
        calls: Vec::new(),
        unsupported: Vec::new(),
        resolution_records: Vec::new(),
        canonical_fingerprint: String::new(),
        heritage: Vec::new(),
    }
}

#[test]
fn file_nodes_name_each_source_file() {
    let files = vec![SourceFile {
        path: s("src/a.ts"),
        language: s("typescript"),
        bytes: 3,
        hash: s("h"),
    }];
    let (nodes, ids) = file_nodes(&files);
    let id = node_id("file", "src/a.ts", "");
    assert_eq!(ids, vec![(s("src/a.ts"), id.clone())]);
    assert_eq!(nodes.len(), 1);
    assert_eq!(nodes[0].id, id);
    assert_eq!(nodes[0].kind, "file");
    assert_eq!(nodes[0].path, Some(s("src/a.ts")));
    assert_eq!(nodes[0].language, Some(s("typescript")));
}

#[test]
fn declarations_become_symbol_nodes_edges_and_indexes() {
    let all = vec![facts(
        "src/app.ts",
        vec![
            declaration("helper", " Function ", "", None),
            declaration("Widget", "class", "class:Widget", None),
            declaration("render", "method", "method:Widget.render", Some("class:Widget")),
            declaration("helper", "function", "", None),
        ],
    )];
    let file_ids = vec![(s("src/app.ts"), s("file_app"))];
    let mut nodes: Vec<GraphNode> = Vec::new();
    let mut edges: Vec<GraphEdge> = Vec::new();
    let index = declaration_structure(&all, &file_ids, &mut nodes, &mut edges).expect("index");
    let helper = node_id("symbol", "src/app.ts", "function:helper");
    let widget = node_id("symbol", "src/app.ts", "class:Widget");
    let render = node_id("symbol", "src/app.ts", "method:Widget.render");
    assert_eq!(
        nodes.iter().map(|n| n.id.clone()).collect::<Vec<_>>(),
        vec![helper.clone(), widget.clone(), render.clone()]
    );
    assert_eq!(nodes[0].kind, "function");
    assert_eq!(nodes[0].name, Some(s("helper")));
    assert_eq!(nodes[2].name, Some(s("method:Widget.render")));
    assert_eq!(
        edges,
        vec![
            edge("file_app", &helper, "declares", "top-level-typescript-declaration"),
            edge("file_app", &widget, "declares", "top-level-typescript-declaration"),
            edge(&widget, &render, "declares-member", "typescript-class-member"),
            edge("file_app", &helper, "declares", "top-level-typescript-declaration"),
        ]
    );
    assert_eq!(
        index.symbols_by_path,
        vec![(
            s("src/app.ts"),
            vec![(s("helper"), vec![helper.clone()]), (s("Widget"), vec![widget.clone()])]
        )]
    );
    assert_eq!(
        index.members_by_owner,
        vec![(widget.clone(), vec![(s("render"), vec![render.clone()])])]
    );
    assert_eq!(index.symbol_kinds.len(), 3);
    assert_eq!(index.symbol_kinds[0], (helper.clone(), s("function")));
    assert_eq!(index.declarations_by_id.len(), 3);
    assert_eq!(index.declarations_by_id[0].1.kind, " Function ");
}

#[test]
fn declarations_of_a_file_without_a_node_fail() {
    let all = vec![facts("src/x.ts", vec![declaration("a", "function", "", None)])];
    let mut nodes: Vec<GraphNode> = Vec::new();
    let mut edges: Vec<GraphEdge> = Vec::new();
    let result = declaration_structure(&all, &Vec::new(), &mut nodes, &mut edges);
    assert_eq!(result.err(), Some(s("Missing file node for src/x.ts")));
}

#[test]
fn graphs_are_ordered_by_node_id_and_canonical_edges() {
    let (nodes, edges) = order_graph(
        vec![node("b"), node("a"), node("c")],
        vec![
            edge("b", "a", "calls", "x"),
            edge("a", "b", "imports", "y"),
            edge("b", "a", "calls", "x"),
            edge("a", "b", "calls", "z"),
        ],
    );
    assert_eq!(nodes.iter().map(|n| n.id.as_str()).collect::<Vec<_>>(), vec!["a", "b", "c"]);
    assert_eq!(
        edges,
        vec![
            edge("a", "b", "calls", "z"),
            edge("a", "b", "imports", "y"),
            edge("b", "a", "calls", "x"),
        ]
    );
}

#[test]
fn edge_changes_list_removed_then_added_edges_of_the_node() {
    let before = vec![
        edge("a", "n", "calls", "x"),
        edge("n", "b", "declares", "d"),
        edge("x", "y", "calls", "z"),
        edge("n", "b", "declares", "d"),
    ];
    let after = vec![edge("n", "c", "declares", "d"), edge("a", "n", "calls", "x")];
    let changes = direct_edge_changes(&before, &after, "n");
    let summary = changes
        .iter()
        .map(|c| (c.status.clone(), c.edge.to.clone()))
        .collect::<Vec<_>>();
    assert_eq!(summary, vec![(s("removed"), s("b")), (s("added"), s("c"))]);
}

#[test]
fn graph_caps_keep_the_first_items_and_record_omissions() {
    let mut nodes: Vec<GraphNode> = (0..MAX_GRAPH_NODES + 1).map(|i| node(&i.to_string())).collect();
    let mut edges: Vec<GraphEdge> = (0..MAX_GRAPH_EDGES + 1)
        .map(|i| edge(&i.to_string(), "t", "calls", "e"))
        .collect();
    let mut truncated = false;
    let mut omissions = Vec::new();
    cap_graph(&mut nodes, &mut edges, &mut truncated, &mut omissions);
    assert_eq!(nodes.len(), MAX_GRAPH_NODES);
    assert_eq!(edges.len(), MAX_GRAPH_EDGES);
    assert_eq!(nodes[0].id, "0");
    assert!(truncated);
    assert_eq!(omissions, vec![s(NODES_CAPPED), s(GRAPH_EDGES_CAPPED)]);
    assert_eq!(NODES_CAPPED, format!("graph nodes capped at {MAX_GRAPH_NODES}"));
    assert_eq!(GRAPH_EDGES_CAPPED, format!("graph edges capped at {MAX_GRAPH_EDGES}"));

    let mut files: Vec<SourceFile> = (0..MAX_SOURCE_FILES + 2)
        .map(|i| SourceFile {
            path: format!("src/{i}.ts"),
            language: s("typescript"),
            bytes: 1,
            hash: s("h"),
        })
        .collect();
    let mut truncated = false;
    let mut omissions = Vec::new();
    cap_source_files(&mut files, &mut truncated, &mut omissions);
    assert_eq!(files.len(), MAX_SOURCE_FILES);
    assert!(truncated);
    assert_eq!(omissions, vec![s(SOURCE_FILES_CAPPED)]);
    assert_eq!(SOURCE_FILES_CAPPED, format!("source files capped at {MAX_SOURCE_FILES}"));

    let mut small = vec![node("a")];
    let mut few = vec![edge("a", "b", "c", "d")];
    let mut truncated = false;
    let mut omissions: Vec<String> = Vec::new();
    cap_graph(&mut small, &mut few, &mut truncated, &mut omissions);
    assert!(!truncated);
    assert!(omissions.is_empty());
}

#[test]
fn nodes_with_equal_ids_keep_their_order() {
    let mut first = node("a");
    first.kind = s("first");
    let mut second = node("a");
    second.kind = s("second");
    let (nodes, _) = order_graph(vec![node("b"), first, second], Vec::new());
    assert_eq!(
        nodes.iter().map(|n| (n.id.as_str(), n.kind.as_str())).collect::<Vec<_>>(),
        vec![("a", "first"), ("a", "second"), ("b", "file")]
    );
}

fn basis(status: &str) -> ModuleResolutionBasis {
    ModuleResolutionBasis {
        schema_version: s("basis"),
        status: s(status),
        root_config: None,
        config_files: Vec::new(),
        exact_fingerprint: s("e"),
        effective_fingerprint: s("f"),
        limitations: vec![s("config limit")],
        omissions: Vec::new(),
    }
}

fn evidence(truncated: bool) -> ResolutionEvidence {
    ResolutionEvidence {
        schema_version: s("resolution"),
        status: s("complete"),
        records: Vec::new(),
        truncated,
        omissions: vec![s("records capped")],
    }
}

#[test]
fn module_basis_status_reaches_the_resolution_evidence() {
    let mut e = evidence(true);
    let mut truncated = false;
    let mut omissions = Vec::new();
    apply_module_basis(&mut e, &basis("complete"), &mut truncated, &mut omissions);
    assert!(truncated);
    assert_eq!(e.status, "complete");
    assert_eq!(omissions, vec![s("records capped")]);

    let mut e = evidence(false);
    let mut truncated = false;
    let mut omissions = Vec::new();
    apply_module_basis(&mut e, &basis("truncated"), &mut truncated, &mut omissions);
    assert!(truncated && e.truncated);
    assert_eq!(e.status, "truncated");
    assert_eq!(e.omissions, vec![s("records capped"), s("config limit")]);
    assert_eq!(omissions, vec![s("config limit")]);

    let mut e = evidence(false);
    let mut truncated = false;
    let mut omissions = Vec::new();
    apply_module_basis(&mut e, &basis("unavailable"), &mut truncated, &mut omissions);
    assert!(!truncated && !e.truncated);
    assert_eq!(e.status, "unavailable");
    assert_eq!(
        e.omissions,
        vec![s("records capped"), s(BASIS_UNAVAILABLE_OMISSION), s("config limit")]
    );
    assert_eq!(omissions, vec![s("config limit")]);
}

#[test]
fn project_ids_hash_the_canonical_root() {
    let expected = format!(
        "project_{}",
        blake3::hash("flopeek-project-v1\0/work/repo".as_bytes()).to_hex()
    );
    assert_eq!(flopeek_core::graph::fingerprints::project_id("/work/repo"), expected);
    assert_ne!(
        flopeek_core::graph::fingerprints::project_id("/work/repo"),
        flopeek_core::graph::fingerprints::project_id("/work/other")
    );
}

#[test]
fn source_files_hash_their_bytes() {
    let file = source_file("./src/a.ts", b"export const a = 1;").expect("file");
    assert_eq!(file.path, "src/a.ts");
    assert_eq!(file.language, "typescript");
    assert_eq!(file.bytes, 19);
    assert_eq!(file.hash, blake3::hash(b"export const a = 1;").to_hex().to_string());
    assert_eq!(
        source_file("src/a.js", b"").err(),
        Some("Unsupported analyzed file: src/a.js".to_string())
    );
    assert!(source_file("../a.ts", b"").is_err());
}

fn source(path: &str, hash: &str) -> SourceFile {
    SourceFile {
        path: s(path),
        language: s("typescript"),
        bytes: 10,
        hash: s(hash),
    }
}

#[test]
fn assembled_graphs_carry_their_structure_and_a_reproducible_id() {
    let files = vec![source("src/a.ts", "ha"), source("src/b.ts", "hb")];
    let facts_of = || {
        vec![
            facts("src/a.ts", vec![declaration("run", "function", "function:run", None)]),
            facts("src/b.ts", Vec::new()),
        ]
    };
    let manifest = br#"{"scripts":{"start":"tsx src/a.ts"}}"#;
    let (graph, out) = assemble_graph(
        "project_x",
        s("rev1"),
        IdentityBasis::default(),
        files.clone(),
        facts_of(),
        ModuleResolver::without_config(),
        Some(manifest.as_slice()),
    )
    .expect("graph");
    assert_eq!(out.len(), 2);
    assert_eq!(graph.project_id, "project_x");
    assert_eq!(graph.source_revision, "rev1");
    assert_eq!(graph.graph_version, 0);
    assert!(graph.nodes.iter().any(|n| n.id == node_id("file", "src/a.ts", "")));
    assert!(graph.nodes.iter().any(|n| n.id == node_id("symbol", "src/a.ts", "function:run")));
    assert!(graph.edges.iter().any(|e| e.kind == "declares"));
    assert_eq!(graph.entry_evidence.records.len(), 1);
    assert!(graph.nodes.iter().all(|n| !n.evidence_fingerprint.is_empty() || n.kind != "file"));
    assert_eq!(graph.graph_id.len(), 64);
    assert_eq!(graph.graph_id, blake3::hash(identity_text(&graph).as_bytes()).to_hex().to_string());

    let (again, _) = assemble_graph(
        "project_x",
        s("rev2"),
        IdentityBasis::default(),
        files.clone(),
        facts_of(),
        ModuleResolver::without_config(),
        Some(manifest.as_slice()),
    )
    .expect("graph");
    assert_eq!(again.graph_id, graph.graph_id);
    let (other, _) = assemble_graph(
        "project_y",
        s("rev1"),
        IdentityBasis::default(),
        files,
        facts_of(),
        ModuleResolver::without_config(),
        None,
    )
    .expect("graph");
    assert_ne!(other.graph_id, graph.graph_id);
}

#[test]
fn facts_without_a_file_node_fail_assembly() {
    let failed = assemble_graph(
        "project_x",
        s("rev1"),
        IdentityBasis::default(),
        vec![source("src/a.ts", "ha")],
        vec![facts("src/missing.ts", vec![declaration("run", "function", "function:run", None)])],
        ModuleResolver::without_config(),
        None,
    );
    assert!(failed.is_err());
}
