use flopeek_core::graph::exports::{resolve_export, ExportBinding, MAX_REEXPORT_DEPTH};
use flopeek_core::graph::import_targets::resolve_import_target;
use flopeek_core::graph::imports::ResolutionContext;
use flopeek_core::graph::targets::ResolutionOutcome;
use flopeek_core::model::typescript::TypeScriptImport;
use flopeek_core::model::SourcePosition;
use flopeek_core::module_resolution::ModuleResolver;

fn s(text: &str) -> String {
    text.to_string()
}

fn local(ids: &[&str]) -> ExportBinding {
    ExportBinding::Local(ids.iter().map(|id| s(id)).collect())
}

fn forward(source: &str, name: &str) -> ExportBinding {
    ExportBinding::Forward {
        source: s(source),
        name: s(name),
        type_only: false,
    }
}

fn module(path: &str, names: Vec<(&str, Vec<ExportBinding>)>) -> (String, Vec<(String, Vec<ExportBinding>)>) {
    (
        s(path),
        names
            .into_iter()
            .map(|(name, bindings)| (s(name), bindings))
            .collect(),
    )
}

fn context() -> ResolutionContext {
    let mut module_exports = vec![
        module(
            "src/lib.ts",
            vec![
                ("charge", vec![local(&["node_charge"])]),
                ("Shape", vec![local(&["node_shape"])]),
                (
                    "*",
                    vec![ExportBinding::Star {
                        source: s("./more"),
                        type_only: false,
                    }],
                ),
            ],
        ),
        module("src/more.ts", vec![("extra", vec![local(&["node_extra"])])]),
        module("src/barrel.ts", vec![("charge", vec![forward("./lib", "charge")])]),
        module("src/cycle_a.ts", vec![("x", vec![forward("./cycle_b", "x")])]),
        module("src/cycle_b.ts", vec![("x", vec![forward("./cycle_a", "x")])]),
        module(
            "src/types.ts",
            vec![(
                "T",
                vec![ExportBinding::TypeOnly {
                    ids: vec![s("node_t")],
                }],
            )],
        ),
        module(
            "src/ns.ts",
            vec![(
                "api",
                vec![ExportBinding::Namespace {
                    source: s("./lib"),
                    type_only: false,
                }],
            )],
        ),
        module(
            "src/both.ts",
            vec![("charge", vec![forward("./lib", "charge"), forward("./more", "extra")])],
        ),
    ];
    let mut known_paths: Vec<String> = module_exports.iter().map(|entry| entry.0.clone()).collect();
    for index in 0..MAX_REEXPORT_DEPTH + 2 {
        let path = format!("src/chain{index}.ts");
        let next = format!("./chain{}", index + 1);
        module_exports.push(module(&path, vec![("leaf", vec![forward(&next, "leaf")])]));
        known_paths.push(path);
    }
    let last = format!("src/chain{}.ts", MAX_REEXPORT_DEPTH + 2);
    module_exports.push(module(&last, vec![("leaf", vec![local(&["node_leaf"])])]));
    known_paths.push(last);
    known_paths.push(s("src/missing_exports.ts"));
    ResolutionContext {
        known_paths,
        external_ids: vec![(s("react"), s("node_react"))],
        module_resolver: ModuleResolver::without_config(),
        file_ids: Vec::new(),
        symbols_by_path: Vec::new(),
        members_by_owner: Vec::new(),
        declarations_by_id: Vec::new(),
        symbol_kinds: vec![
            (s("node_charge"), s("function")),
            (s("node_extra"), s("function")),
            (s("node_shape"), s("interface")),
        ],
        module_exports,
    }
}

fn export(path: &str, name: &str, resolution: &ResolutionContext) -> ResolutionOutcome {
    let mut stack = Vec::new();
    let mut cache = Vec::new();
    let outcome = resolve_export(path, name, resolution, &mut stack, &mut cache);
    assert!(stack.is_empty());
    outcome
}

fn summary(outcome: &ResolutionOutcome) -> (String, String, Vec<String>, Vec<String>, bool) {
    (
        outcome.status.clone(),
        outcome.reason.clone(),
        outcome.candidates.clone(),
        outcome.namespace_modules.clone(),
        outcome.type_only,
    )
}

fn expected(status: &str, reason: &str, candidates: &[&str], namespaces: &[&str], type_only: bool) -> (String, String, Vec<String>, Vec<String>, bool) {
    (
        s(status),
        s(reason),
        candidates.iter().map(|c| s(c)).collect(),
        namespaces.iter().map(|c| s(c)).collect(),
        type_only,
    )
}

#[test]
fn local_and_forwarded_exports_resolve_with_their_reason() {
    let resolution = context();
    assert_eq!(
        summary(&export("src/lib.ts", "charge", &resolution)),
        expected("resolved", "local-export-binding", &["node_charge"], &[], false)
    );
    assert_eq!(
        summary(&export("src/barrel.ts", "charge", &resolution)),
        expected("resolved", "re-export-binding", &["node_charge"], &[], false)
    );
    assert_eq!(
        summary(&export("src/lib.ts", "extra", &resolution)),
        expected("resolved", "re-export-binding", &["node_extra"], &[], false)
    );
    assert_eq!(
        summary(&export("src/both.ts", "charge", &resolution)),
        expected("ambiguous", "ambiguous-reexport", &["node_charge", "node_extra"], &[], false)
    );
    assert_eq!(
        summary(&export("src/types.ts", "T", &resolution)),
        expected("resolved", "local-export-binding", &["node_t"], &[], true)
    );
    assert_eq!(
        summary(&export("src/ns.ts", "api", &resolution)),
        expected("resolved", "namespace-reexport", &[], &["src/lib.ts"], false)
    );
}

#[test]
fn missing_cyclic_and_deep_exports_stay_unresolved() {
    let resolution = context();
    assert_eq!(
        summary(&export("src/nowhere.ts", "a", &resolution)),
        expected("unresolved", "missing-relative-module", &[], &[], false)
    );
    assert_eq!(
        summary(&export("src/more.ts", "nope", &resolution)),
        expected("unresolved", "missing-export", &[], &[], false)
    );
    assert_eq!(
        summary(&export("src/lib.ts", "nope", &resolution)),
        expected("unresolved", "missing-reexport", &[], &[], false)
    );
    assert_eq!(
        summary(&export("src/cycle_a.ts", "x", &resolution)),
        expected("unresolved", "re-export-cycle", &[], &[], false)
    );
    assert_eq!(
        summary(&export("src/chain0.ts", "leaf", &resolution)),
        expected("unresolved", "re-export-depth-capped", &[], &[], false)
    );
    assert_eq!(
        summary(&export("src/chain4.ts", "leaf", &resolution)),
        expected("resolved", "re-export-binding", &["node_leaf"], &[], false)
    );
}

#[test]
fn export_cache_records_each_resolved_key_once() {
    let resolution = context();
    let mut stack = Vec::new();
    let mut cache = Vec::new();
    let first = resolve_export("src/barrel.ts", "charge", &resolution, &mut stack, &mut cache);
    assert_eq!(cache.len(), 2);
    assert_eq!(cache[0].0, (s("src/lib.ts"), s("charge")));
    assert_eq!(cache[1].0, (s("src/barrel.ts"), s("charge")));
    let second = resolve_export("src/barrel.ts", "charge", &resolution, &mut stack, &mut cache);
    assert_eq!(cache.len(), 2);
    assert_eq!(summary(&first), summary(&second));
}

fn import(specifier: &str, kind: &str, imported_name: Option<&str>) -> TypeScriptImport {
    TypeScriptImport {
        specifier: s(specifier),
        kind: s(kind),
        position: SourcePosition {
            start_line: 1,
            start_column: 1,
            end_line: 1,
            end_column: 30,
        },
        local_name: imported_name.map(s),
        imported_name: imported_name.map(s),
        type_only: false,
    }
}

fn target(specifier: &str, kind: &str, imported_name: Option<&str>, name: &str, member_call: bool) -> (String, String, Vec<String>, Vec<String>, bool) {
    let resolution = context();
    let mut cache = Vec::new();
    summary(&resolve_import_target(
        "src/app.ts",
        &import(specifier, kind, imported_name),
        name,
        member_call,
        &resolution,
        &mut cache,
    ))
}

#[test]
fn import_targets_name_the_binding_kind() {
    assert_eq!(
        target("./lib", "named-import", Some("charge"), "charge", false),
        expected("resolved", "named-import-binding", &["node_charge"], &[], false)
    );
    assert_eq!(
        target("./barrel", "named-import", Some("charge"), "charge", false),
        expected("resolved", "named-import-through-reexport", &["node_charge"], &[], false)
    );
    assert_eq!(
        target("./lib", "namespace-import", None, "charge", true),
        expected("resolved", "namespace-import-binding", &["node_charge"], &[], false)
    );
    assert_eq!(
        target("./ns", "named-import", Some("api"), "charge", true),
        expected("resolved", "namespace-member-binding", &["node_charge"], &[], false)
    );
}

#[test]
fn import_targets_reject_what_cannot_be_called() {
    assert_eq!(
        target("./lib", "named-import", Some("Shape"), "Shape", false),
        expected("unresolved", "non-callable-export", &[], &[], false)
    );
    assert_eq!(
        target("./types", "named-import", Some("T"), "T", false),
        expected("unresolved", "type-only-binding", &[], &[], false)
    );
    assert_eq!(
        target("./ns", "named-import", Some("api"), "api", false),
        expected("unresolved", "namespace-called-as-function", &[], &[], false)
    );
    assert_eq!(
        target("./lib", "named-import", Some("charge"), "charge", true),
        expected("unresolved", "unsupported-member-call", &[], &[], false)
    );
    assert_eq!(
        target("react", "named-import", Some("useState"), "useState", false),
        expected("external", "external-module", &["node_react"], &[], false)
    );
    assert_eq!(
        target("./gone", "named-import", Some("a"), "a", false),
        expected("unresolved", "missing-relative-module", &[], &[], false)
    );
}
