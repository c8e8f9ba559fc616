use flopeek_core::graph::imports::{
    resolve_external_or_unresolved, resolve_import_module, ResolutionContext,
};
use flopeek_core::model::ModuleResolutionConfigFile;
use flopeek_core::module_resolution::config::{merge_document, EffectiveConfig, RawCompilerOptions};
use flopeek_core::module_resolution::ModuleResolver;

fn strings(items: &[&str]) -> Vec<String> {
    items.iter().map(|item| item.to_string()).collect()
}

fn context(resolver: ModuleResolver) -> ResolutionContext {
    ResolutionContext {
        known_paths: strings(&["src/a.ts", "src/lib.ts", "src/app/main.ts"]),
        external_ids: vec![("react".to_string(), "external:react".to_string())],
        module_resolver: resolver,
        file_ids: Vec::new(),
        symbols_by_path: Vec::new(),
        members_by_owner: Vec::new(),
        declarations_by_id: Vec::new(),
        symbol_kinds: Vec::new(),
        module_exports: Vec::new(),
    }
}

fn configured() -> ModuleResolver {
    let mut effective = EffectiveConfig {
        base_url: None,
        paths: Vec::new(),
    };
    merge_document(
        "tsconfig.json",
        &RawCompilerOptions {
            base_url: None,
            paths: Some(vec![("@app/*".to_string(), strings(&["src/app/*"]))]),
        },
        &mut effective,
    )
    .expect("merge");
    ModuleResolver::with_config(
        vec![ModuleResolutionConfigFile {
            path: "tsconfig.json".to_string(),
            bytes: 1,
            hash: "h".to_string(),
        }],
        effective,
    )
}

#[test]
fn import_modules_resolve_relative_and_configured_paths() {
    let resolution = context(configured());
    assert_eq!(
        resolve_import_module("src/a.ts", "./lib", &resolution),
        Some("src/lib.ts".to_string())
    );
    assert_eq!(
        resolve_import_module("src/a.ts", "@app/main", &resolution),
        Some("src/app/main.ts".to_string())
    );
    assert_eq!(resolve_import_module("src/a.ts", "react", &resolution), None);
    assert_eq!(resolve_import_module("src/a.ts", "./missing", &resolution), None);
}

#[test]
fn unresolved_imports_name_external_packages_or_their_reason() {
    let resolution = context(configured());
    let external = resolve_external_or_unresolved("react", &resolution);
    assert_eq!(external.status, "external");
    assert_eq!(external.reason, "external-module");
    assert_eq!(external.candidates, strings(&["external:react"]));
    let unknown = resolve_external_or_unresolved("lodash", &resolution);
    assert_eq!(unknown.status, "external");
    assert!(unknown.candidates.is_empty());
    let relative = resolve_external_or_unresolved("./missing", &resolution);
    assert_eq!(relative.status, "unresolved");
    assert_eq!(relative.reason, "missing-relative-module");
    let missing = resolve_external_or_unresolved("@app/gone", &resolution);
    assert_eq!(missing.status, "unresolved");
    assert_eq!(missing.reason, "missing-tsconfig-path-target");

    let plain = context(ModuleResolver::without_config());
    let alias = resolve_external_or_unresolved("@/lib", &plain);
    assert_eq!(alias.status, "unresolved");
    assert_eq!(alias.reason, "non-relative-path-alias");

    let unavailable = context(ModuleResolver::unavailable(Vec::new(), "tsconfig-not-utf8:tsconfig.json".to_string()));
    let package = resolve_external_or_unresolved("react", &unavailable);
    assert_eq!(package.status, "external");
    let aliased = resolve_external_or_unresolved("#internal", &unavailable);
    assert_eq!(aliased.status, "unresolved");
    assert_eq!(aliased.reason, "tsconfig-resolution-unavailable");
}
