use flopeek_core::graph::{resolution_evidence, MAX_RESOLUTION_RECORDS};
use flopeek_core::model::{SymbolResolution, TypeScriptFacts, TYPESCRIPT_FACTS_SCHEMA};
use flopeek_core::module_resolution::paths::resolve_relative;

fn known(paths: &[&str]) -> Vec<String> {
    let mut known = paths.iter().map(|path| path.to_string()).collect::<Vec<_>>();
    known.sort();
    known
}

#[test]
fn resolves_only_relative_typescript_modules() {
    let paths = known(&["src/a.ts", "src/lib.ts", "src/index.tsx"]);
    assert_eq!(
        resolve_relative("src/a.ts", "./lib", &paths),
        Some("src/lib.ts".to_string())
    );
    assert_eq!(resolve_relative("src/a.ts", "react", &paths), None);
}

#[test]
fn resolves_relative_modules_in_deterministic_order() {
    let paths = known(&[
        "src/a.ts",
        "src/lib.tsx",
        "shared.ts",
        "src/index.d.ts",
        "src/types.d.ts",
        "src/nested/index.ts",
    ]);
    assert_eq!(
        resolve_relative("src/a.ts", "./lib", &paths),
        Some("src/lib.tsx".to_string())
    );
    assert_eq!(
        resolve_relative("src/a.ts", "../shared", &paths),
        Some("shared.ts".to_string())
    );
    assert_eq!(
        resolve_relative("src/a.ts", "./types", &paths),
        Some("src/types.d.ts".to_string())
    );
    assert_eq!(
        resolve_relative("src/a.ts", "./nested", &paths),
        Some("src/nested/index.ts".to_string())
    );
    assert_eq!(resolve_relative("src/a.ts", "../../outside", &paths), None);
    assert_eq!(resolve_relative("src/a.ts", "react", &paths), None);
}

#[test]
fn resolution_evidence_is_bounded_and_reports_categorical_omission() {
    let records = (0..=MAX_RESOLUTION_RECORDS)
        .map(|index| SymbolResolution {
            path: "src/entry.ts".to_string(),
            caller_node_id: "node-caller".to_string(),
            reference: format!("call{index}"),
            form: "identifier".to_string(),
            status: "unresolved".to_string(),
            reason: "dynamic-callee".to_string(),
            candidate_node_ids: Vec::new(),
            occurrence_count: 1,
        })
        .collect();
    let facts = vec![TypeScriptFacts {
        schema_version: TYPESCRIPT_FACTS_SCHEMA.to_string(),
        path: "src/entry.ts".to_string(),
        language: "ts".to_string(),
        source_hash: "hash".to_string(),
        parser: flopeek_core::typescript::PARSER_IDENTITY.to_string(),
        parse_status: "parsed".to_string(),
        imports: Vec::new(),
        declarations: Vec::new(),
        exports: Vec::new(),
        calls: Vec::new(),
        unsupported: Vec::new(),
        resolution_records: records,
        canonical_fingerprint: "fingerprint".to_string(),
        heritage: Vec::new(),
    }];
    let evidence = resolution_evidence(&facts, false);
    assert_eq!(evidence.status, "truncated");
    assert_eq!(evidence.records.len(), MAX_RESOLUTION_RECORDS);
    assert!(evidence.truncated);
    assert!(evidence
        .omissions
        .iter()
        .any(|omission| omission.contains("resolution records capped")));
}
