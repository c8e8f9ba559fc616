use flopeek_core::graph::export_table::build_module_exports;
use flopeek_core::graph::exports::ExportBinding;
use flopeek_core::model::typescript::{TypeScriptExport, TypeScriptFacts, TypeScriptImport};
use flopeek_core::model::SourcePosition;

fn s(text: &str) -> String {
    text.to_string()
}

fn export(name: &str, local: Option<&str>, kind: &str, source: Option<&str>, type_only: bool) -> TypeScriptExport {
    TypeScriptExport {
        exported_name: s(name),
        local_name: local.map(s),
        kind: s(kind),
        source: source.map(s),
        type_only,
    }
}

fn facts(path: &str, imports: Vec<TypeScriptImport>, exports: Vec<TypeScriptExport>) -> TypeScriptFacts {
    TypeScriptFacts {
        schema_version: s("facts"),
        path: s(path),
        language: s("typescript"),
        source_hash: s("hash"),
        parser: s("parser"),
        parse_status: s("parsed"),
        imports,
        declarations: Vec::new(),
        exports,
        calls: Vec::new(),
        unsupported: Vec::new(),
        resolution_records: Vec::new(),
        canonical_fingerprint: String::new(),
        heritage: Vec::new(),
    }
}

fn bindings<'a>(
    table: &'a [(String, Vec<(String, Vec<ExportBinding>)>)],
    path: &str,
    name: &str,
) -> Vec<String> {
    let exports = &table.iter().find(|entry| entry.0 == path).expect("path").1;
    exports
        .iter()
        .find(|entry| entry.0 == name)
        .map(|entry| entry.1.iter().map(|b| format!("{b:?}")).collect())
        .unwrap_or_default()
}

#[test]
fn export_tables_bind_local_reexported_and_imported_names() {
    let import = TypeScriptImport {
        specifier: s("./dep"),
        kind: s("named-import"),
        position: SourcePosition {
            start_line: 1,
            start_column: 1,
            end_line: 1,
            end_column: 5,
        },
        local_name: Some(s("imp")),
        imported_name: Some(s("thing")),
        type_only: false,
    };
    let all = vec![
        facts(
            "src/lib.ts",
            vec![import],
            vec![
                export("charge", Some("charge"), "named-export", None, false),
                export("Shape", Some("Shape"), "named-export", None, true),
                export("*", None, "star-re-export", Some("./more"), false),
                export("api", None, "namespace-re-export", Some("./api"), false),
                export("renamed", Some("x"), "named-re-export", Some("./x"), false),
                export("fromImport", Some("imp"), "named-export", None, false),
                export("multi", Some("m"), "named-re-export", Some("./b"), false),
                export("multi", Some("m"), "named-re-export", Some("./a"), false),
                export("charge", Some("charge"), "named-export", None, false),
                export("ghost", Some("nothing"), "named-export", None, false),
            ],
        ),
        facts("src/empty.ts", Vec::new(), Vec::new()),
    ];
    let symbols = vec![(
        s("src/lib.ts"),
        vec![(s("charge"), vec![s("id_charge")]), (s("Shape"), vec![s("id_shape")])],
    )];
    let table = build_module_exports(&all, &symbols);
    assert_eq!(bindings(&table, "src/lib.ts", "charge"), vec![s("Local([\"id_charge\"])")]);
    assert_eq!(bindings(&table, "src/lib.ts", "Shape"), vec![s("TypeOnly { ids: [\"id_shape\"] }")]);
    assert_eq!(
        bindings(&table, "src/lib.ts", "*"),
        vec![s("Star { source: \"./more\", type_only: false }")]
    );
    assert_eq!(
        bindings(&table, "src/lib.ts", "api"),
        vec![s("Namespace { source: \"./api\", type_only: false }")]
    );
    assert_eq!(
        bindings(&table, "src/lib.ts", "renamed"),
        vec![s("Forward { source: \"./x\", name: \"x\", type_only: false }")]
    );
    assert_eq!(
        bindings(&table, "src/lib.ts", "fromImport"),
        vec![s("Forward { source: \"./dep\", name: \"thing\", type_only: false }")]
    );
    assert_eq!(
        bindings(&table, "src/lib.ts", "multi"),
        vec![
            s("Forward { source: \"./a\", name: \"m\", type_only: false }"),
            s("Forward { source: \"./b\", name: \"m\", type_only: false }"),
        ]
    );
    assert!(bindings(&table, "src/lib.ts", "ghost").is_empty());
    assert!(table.iter().any(|entry| entry.0 == "src/empty.ts" && entry.1.is_empty()));
}
