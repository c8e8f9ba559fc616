use flopeek_core::graph::resolution_records::coalesce_resolutions;
use flopeek_core::graph::call_edges::{caller_node_id, resolve_calls};
use flopeek_core::graph::exports::ExportBinding;
use flopeek_core::graph::heritage::{heritage_target_kinds, resolve_heritage};
use flopeek_core::graph::imports::ResolutionContext;
use flopeek_core::graph::node_id;
use flopeek_core::model::typescript::{
    SymbolResolution, TypeScriptCall, TypeScriptFacts, TypeScriptHeritage, TypeScriptImport,
};
use flopeek_core::model::{GraphEdge, SourcePosition};
use flopeek_core::module_resolution::ModuleResolver;

fn s(text: &str) -> String {
    text.to_string()
}

fn position() -> SourcePosition {
    SourcePosition {
        start_line: 1,
        start_column: 1,
        end_line: 1,
        end_column: 10,
    }
}

fn run_id() -> String {
    node_id("symbol", "src/app.ts", "function:run")
}

fn local_class() -> String {
    node_id("symbol", "src/app.ts", "class:Local")
}

fn context() -> ResolutionContext {
    ResolutionContext {
        known_paths: vec![s("src/app.ts"), s("src/lib.ts"), s("src/other.ts")],
        external_ids: Vec::new(),
        module_resolver: ModuleResolver::without_config(),
        file_ids: vec![(s("src/app.ts"), s("file_app"))],
        symbols_by_path: vec![(
            s("src/app.ts"),
            vec![
                (s("helper"), vec![s("id_helper")]),
                (s("run"), vec![s("id_other_run"), run_id()]),
                (s("Local"), vec![local_class()]),
            ],
        )],
        members_by_owner: Vec::new(),
        declarations_by_id: Vec::new(),
        symbol_kinds: vec![
            (s("id_helper"), s("function")),
            (local_class(), s("class")),
            (s("id_widget"), s("class")),
            (s("id_api"), s("function")),
        ],
        module_exports: vec![(
            s("src/lib.ts"),
            vec![
                (s("Widget"), vec![ExportBinding::Local(vec![s("id_widget")])]),
                (s("api"), vec![ExportBinding::Local(vec![s("id_api")])]),
            ],
        )],
    }
}

fn import(specifier: &str, kind: &str, local: &str, imported: Option<&str>) -> TypeScriptImport {
    TypeScriptImport {
        specifier: s(specifier),
        kind: s(kind),
        position: position(),
        local_name: Some(s(local)),
        imported_name: imported.map(s),
        type_only: false,
    }
}

fn call(callee: &str, caller: Option<&str>) -> TypeScriptCall {
    TypeScriptCall {
        callee: Some(s(callee)),
        dynamic: false,
        position: position(),
        caller: caller.map(s),
        callee_form: s("identifier"),
        receiver: None,
        shadowed: false,
        enclosing_type: None,
    }
}

fn heritage(relation: &str, reference: &str, form: &str) -> TypeScriptHeritage {
    TypeScriptHeritage {
        owner: s("class:Local"),
        relation: s(relation),
        reference: s(reference),
        form: s(form),
        position: position(),
        type_only: false,
    }
}

fn facts(path: &str, calls: Vec<TypeScriptCall>, heritage: Vec<TypeScriptHeritage>) -> TypeScriptFacts {
    TypeScriptFacts {
        schema_version: s("facts"),
        path: s(path),
        language: s("typescript"),
        source_hash: s("hash"),
        parser: s("parser"),
        parse_status: s("parsed"),
        imports: vec![
            import("./lib", "named-import", "Widget", Some("Widget")),
            import("./lib", "namespace-import", "lib", None),
        ],
        declarations: Vec::new(),
        exports: Vec::new(),
        calls,
        unsupported: Vec::new(),
        resolution_records: Vec::new(),
        canonical_fingerprint: String::new(),
        heritage,
    }
}

fn record(reference: &str, caller: &str, form: &str, status: &str, reason: &str, candidates: &[&str], count: u64) -> SymbolResolution {
    SymbolResolution {
        path: s("src/app.ts"),
        caller_node_id: s(caller),
        reference: s(reference),
        form: s(form),
        status: s(status),
        reason: s(reason),
        candidate_node_ids: candidates.iter().map(|c| s(c)).collect(),
        occurrence_count: count,
    }
}

#[test]
fn callers_are_their_symbols_or_the_file() {
    let resolution = context();
    assert_eq!(caller_node_id("src/app.ts", &None, "file_app", &resolution), "file_app");
    assert_eq!(
        caller_node_id("src/app.ts", &Some(s("class:Local")), "file_app", &resolution),
        local_class()
    );
    assert_eq!(
        caller_node_id("src/app.ts", &Some(s("function:run")), "file_app", &resolution),
        run_id()
    );
    assert_eq!(
        caller_node_id("src/app.ts", &Some(s("variable:run")), "file_app", &resolution),
        "id_other_run"
    );
    assert_eq!(
        caller_node_id("src/app.ts", &Some(s("plain")), "file_app", &resolution),
        "file_app"
    );
    assert_eq!(
        caller_node_id("src/other.ts", &Some(s("function:run")), "file_other", &resolution),
        "file_other"
    );
}

#[test]
fn call_resolution_adds_edges_and_coalesced_records() {
    let resolution = context();
    let mut all = vec![
        facts(
            "src/app.ts",
            vec![
                call("helper", Some("function:run")),
                call("nothing", None),
                call("helper", Some("function:run")),
            ],
            Vec::new(),
        ),
        facts("src/other.ts", vec![call("helper", None)], Vec::new()),
    ];
    all[1].resolution_records = vec![record("kept", "file_other", "identifier", "unresolved", "x", &[], 1)];
    let mut edges: Vec<GraphEdge> = Vec::new();
    resolve_calls(&mut all, &resolution, &mut edges);
    let edge = GraphEdge {
        from: run_id(),
        to: s("id_helper"),
        kind: s("calls"),
        evidence: s("same-module-declaration"),
    };
    assert_eq!(edges, vec![edge.clone(), edge]);
    let mut expected = vec![
        record("helper", &run_id(), "identifier", "resolved", "same-module-declaration", &["id_helper"], 2),
        record("nothing", "file_app", "identifier", "unresolved", "unresolved-identifier", &[], 1),
    ];
    expected.sort_by(|a, b| a.caller_node_id.cmp(&b.caller_node_id));
    assert_eq!(all[0].resolution_records, expected);
    assert_eq!(all[1].resolution_records.len(), 1);
    assert_eq!(all[1].resolution_records[0].reference, "kept");
}

#[test]
fn heritage_resolution_links_owners_to_allowed_targets() {
    let resolution = context();
    let mut all = vec![facts(
        "src/app.ts",
        Vec::new(),
        vec![
            heritage("extends", "Widget", "identifier"),
            heritage("implements", "lib.Missing", "property-access"),
            heritage("extends", "lib.api", "property-access"),
            heritage("extends", "Dynamic", "dynamic"),
        ],
    )];
    let mut edges: Vec<GraphEdge> = Vec::new();
    resolve_heritage(&mut all, &resolution, &mut edges);
    assert_eq!(
        edges,
        vec![GraphEdge {
            from: local_class(),
            to: s("id_widget"),
            kind: s("extends"),
            evidence: s("typescript-heritage-extends"),
        }]
    );
    let records = &all[0].resolution_records;
    assert_eq!(records.len(), 4);
    let widget = records.iter().find(|r| r.reference == "Widget").expect("widget");
    assert_eq!(widget.status, "resolved");
    assert_eq!(widget.form, "heritage-extends-identifier");
    let missing = records.iter().find(|r| r.reference == "lib.Missing").expect("missing");
    assert_eq!((missing.status.as_str(), missing.reason.as_str()), ("unresolved", "missing-export"));
    let api = records.iter().find(|r| r.reference == "lib.api").expect("api");
    assert_eq!(
        (api.status.as_str(), api.reason.as_str()),
        ("unresolved", "unsupported-heritage-target-kind")
    );
    let dynamic = records.iter().find(|r| r.reference == "Dynamic").expect("dynamic");
    assert_eq!(dynamic.reason, "dynamic-heritage-unsupported");
}

#[test]
fn heritage_targets_depend_on_owner_and_relation() {
    assert_eq!(heritage_target_kinds(&heritage("extends", "X", "identifier")), vec!["class"]);
    let mut interface = heritage("extends", "X", "identifier");
    interface.owner = s("interface:Shape");
    assert_eq!(heritage_target_kinds(&interface), vec!["class", "interface"]);
    assert_eq!(
        heritage_target_kinds(&heritage("implements", "X", "identifier")),
        vec!["class", "interface"]
    );
    assert!(heritage_target_kinds(&heritage("mixes", "X", "identifier")).is_empty());
}

#[test]
fn coalescing_twice_changes_nothing_more() {
    let mut records = vec![
        record("b", "file_app", "call", "resolved", "local", &["n1"], 2),
        record("a", "file_app", "call", "unresolved", "missing", &[], 1),
        record("b", "file_app", "call", "resolved", "local", &["n1"], 3),
        record("a", "file_app", "call", "unresolved", "missing", &[], u64::MAX),
    ];
    coalesce_resolutions(&mut records);
    assert_eq!(records.len(), 2);
    assert_eq!(records[0].reference, "a");
    assert_eq!(records[0].occurrence_count, u64::MAX);
    assert_eq!(records[1].reference, "b");
    assert_eq!(records[1].occurrence_count, 5);
    let fields = |rs: &Vec<SymbolResolution>| {
        rs.iter()
            .map(|r| (r.reference.clone(), r.status.clone(), r.candidate_node_ids.clone(), r.occurrence_count))
            .collect::<Vec<_>>()
    };
    let once = fields(&records);
    coalesce_resolutions(&mut records);
    assert_eq!(fields(&records), once);
}
