use flopeek_core::graph::node_id;
use flopeek_core::graph::structure::import_structure;
use flopeek_core::model::typescript::{TypeScriptFacts, TypeScriptImport};
use flopeek_core::model::{GraphEdge, GraphNode, SourcePosition};
use flopeek_core::module_resolution::ModuleResolver;

fn import(specifier: &str) -> TypeScriptImport {
    TypeScriptImport {
        specifier: specifier.to_string(),
        kind: "import".to_string(),
        position: SourcePosition {
            start_line: 1,
            start_column: 1,
            end_line: 1,
            end_column: 20,
        },
        local_name: None,
        imported_name: None,
        type_only: false,
    }
}

fn facts(path: &str, specifiers: &[&str]) -> TypeScriptFacts {
    TypeScriptFacts {
        schema_version: "flopeek.typescript-facts.v1".to_string(),
        path: path.to_string(),
        language: "typescript".to_string(),
        source_hash: "hash".to_string(),
        parser: "parser".to_string(),
        parse_status: "parsed".to_string(),
        imports: specifiers.iter().map(|specifier| import(specifier)).collect(),
        declarations: Vec::new(),
        exports: Vec::new(),
        calls: Vec::new(),
        unsupported: Vec::new(),
        resolution_records: Vec::new(),
        canonical_fingerprint: String::new(),
        heritage: Vec::new(),
    }
}

fn edge(from: &str, to: &str, kind: &str, evidence: &str) -> GraphEdge {
    GraphEdge {
        from: from.to_string(),
        to: to.to_string(),
        kind: kind.to_string(),
        evidence: evidence.to_string(),
    }
}

fn file_ids() -> Vec<(String, String)> {
    vec![
        ("src/a.ts".to_string(), "file-a".to_string()),
        ("src/b.ts".to_string(), "file-b".to_string()),
    ]
}

#[test]
fn import_structure_links_files_modules_and_packages_once() {
    let known = vec!["src/a.ts".to_string(), "src/b.ts".to_string()];
    let mut nodes: Vec<GraphNode> = Vec::new();
    let mut edges: Vec<GraphEdge> = Vec::new();
    let all = vec![facts("src/a.ts", &["./b", "./missing", "react", "react"])];
    let result = import_structure(
        &all,
        &known,
        &ModuleResolver::without_config(),
        &file_ids(),
        &mut nodes,
        &mut edges,
    );
    assert_eq!(result, Ok(()));
    let unresolved = node_id("unresolved-module", "./missing", "");
    let external = node_id("external-module", "react", "");
    assert_eq!(
        edges,
        vec![
            edge("file-a", "file-b", "imports", "import"),
            edge("file-a", &unresolved, "imports-unresolved", "missing-relative-module"),
            edge("file-a", &external, "imports-external", "import"),
            edge("file-a", &external, "imports-external", "import"),
        ]
    );
    assert_eq!(nodes.len(), 2);
    assert_eq!(nodes[0].id, unresolved);
    assert_eq!(nodes[0].kind, "unresolved-module");
    assert_eq!(nodes[0].name, Some("./missing".to_string()));
    assert_eq!(nodes[1].id, external);
    assert_eq!(nodes[1].kind, "external-module");
    assert_eq!(nodes[1].path, None);
}

#[test]
fn import_structure_reports_missing_file_nodes() {
    let known = vec![
        "src/a.ts".to_string(),
        "src/b.ts".to_string(),
        "src/c.ts".to_string(),
    ];
    let mut nodes: Vec<GraphNode> = Vec::new();
    let mut edges: Vec<GraphEdge> = Vec::new();
    let result = import_structure(
        &[facts("src/a.ts", &["./c"])],
        &known,
        &ModuleResolver::without_config(),
        &file_ids(),
        &mut nodes,
        &mut edges,
    );
    assert_eq!(result, Err("Missing imported file node for src/c.ts".to_string()));

    let result = import_structure(
        &[facts("src/x.ts", &["./a"])],
        &known,
        &ModuleResolver::without_config(),
        &file_ids(),
        &mut nodes,
        &mut edges,
    );
    assert_eq!(result, Err("Missing file node for src/x.ts".to_string()));
}
