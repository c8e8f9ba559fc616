use flopeek_core::module_resolution::loading::{config_parsed, config_read, resolver_from_documents, ConfigRead};
use flopeek_core::model::ModuleResolutionConfigFile;
use flopeek_core::module_resolution::config::{
    add_config_bytes, chain_step, extends_order, merge_document, resolve_extends_path, ChainStep,
    ConfigDocument, EffectiveConfig, RawCompilerOptions,
};
use flopeek_core::module_resolution::paths::resolve_known_path;
use flopeek_core::module_resolution::{ModuleResolver, NonRelativeResolution, MODULE_RESOLUTION_SCHEMA};
use flopeek_core::module_resolution::config::config_document;

fn strings(items: &[&str]) -> Vec<String> {
    items.iter().map(|item| item.to_string()).collect()
}

fn options(base_url: Option<&str>, paths: &[(&str, &[&str])]) -> RawCompilerOptions {
    RawCompilerOptions {
        base_url: base_url.map(str::to_string),
        paths: if paths.is_empty() {
            None
        } else {
            Some(
                paths
                    .iter()
                    .map(|(pattern, targets)| (pattern.to_string(), strings(targets)))
                    .collect(),
            )
        },
    }
}

fn file(path: &str) -> ModuleResolutionConfigFile {
    ModuleResolutionConfigFile {
        path: path.to_string(),
        bytes: 10,
        hash: format!("hash:{path}"),
    }
}

fn empty() -> EffectiveConfig {
    EffectiveConfig {
        base_url: None,
        paths: Vec::new(),
    }
}

#[test]
fn resolves_jsonc_paths_and_base_url_with_deterministic_precedence() {
    let mut effective = empty();
    merge_document(
        "tsconfig.json",
        &options(
            Some("."),
            &[
                ("@app/*", &["src/*"]),
                ("@app/components/*", &["missing/*", "src/components/*"]),
            ],
        ),
        &mut effective,
    )
    .expect("merge");
    let resolver = ModuleResolver::with_config(vec![file("tsconfig.json")], effective);
    let known = strings(&["src/components/Button.tsx"]);
    assert_eq!(
        resolver.resolve_non_relative("@app/components/Button", &known),
        NonRelativeResolution::Local("src/components/Button.tsx".to_string())
    );
    assert_eq!(resolver.basis.status, "complete");
    assert_eq!(resolver.basis.schema_version, MODULE_RESOLUTION_SCHEMA);
    assert_eq!(resolver.basis.root_config.as_deref(), Some("tsconfig.json"));
}

#[test]
fn local_extends_preserves_base_paths_and_rejects_cycles() {
    let documents = vec![
        ConfigDocument {
            path: "base.json".to_string(),
            bytes: 1,
            hash: "a".to_string(),
            extends: None,
            compiler_options: options(Some("."), &[("@base/*", &["src/*"])]),
        },
        ConfigDocument {
            path: "tsconfig.json".to_string(),
            bytes: 1,
            hash: "b".to_string(),
            extends: Some("./base".to_string()),
            compiler_options: options(None, &[("@local/*", &["src/*"])]),
        },
    ];
    let order = extends_order("tsconfig.json", &documents).expect("order");
    assert_eq!(order, strings(&["base.json", "tsconfig.json"]));
    let mut effective = empty();
    for path in &order {
        let document = documents.iter().find(|d| &d.path == path).expect("document");
        merge_document(&document.path, &document.compiler_options, &mut effective).expect("merge");
    }
    let resolver = ModuleResolver::with_config(vec![file("base.json"), file("tsconfig.json")], effective);
    let known = strings(&["src/item.ts"]);
    assert_eq!(
        resolver.resolve_non_relative("@local/item", &known),
        NonRelativeResolution::Local("src/item.ts".to_string())
    );
    assert_eq!(
        resolver.resolve_non_relative("@base/item", &known),
        NonRelativeResolution::External
    );

    let cycle = vec![
        ConfigDocument {
            path: "base.json".to_string(),
            bytes: 1,
            hash: "a".to_string(),
            extends: Some("./tsconfig".to_string()),
            compiler_options: options(None, &[]),
        },
        ConfigDocument {
            path: "tsconfig.json".to_string(),
            bytes: 1,
            hash: "b".to_string(),
            extends: Some("./base".to_string()),
            compiler_options: options(None, &[]),
        },
    ];
    let error = extends_order("tsconfig.json", &cycle).expect_err("cycle");
    assert!(error.contains("tsconfig-extends-cycle"));
    let unavailable = ModuleResolver::unavailable(vec![file("base.json"), file("tsconfig.json")], error);
    assert_eq!(unavailable.basis.status, "unavailable");
    assert!(unavailable.basis.limitations[0].contains("tsconfig-extends-cycle"));
    assert_eq!(
        unavailable.resolve_non_relative("@local/item", &known),
        NonRelativeResolution::Unresolved("tsconfig-resolution-unavailable".to_string())
    );
}

#[test]
fn rejects_repository_escape_and_package_extends() {
    assert_eq!(
        resolve_extends_path("tsconfig.json", "../outside"),
        Err("tsconfig-extends-escapes-repository".to_string())
    );
    assert_eq!(
        resolve_extends_path("tsconfig.json", "shared-config"),
        Err("tsconfig-package-extends-unsupported".to_string())
    );
    assert_eq!(
        resolve_extends_path("config/tsconfig.json", "./base"),
        Ok("config/base.json".to_string())
    );
    assert_eq!(
        resolve_extends_path("config/tsconfig.json", "../shared/base.json"),
        Ok("shared/base.json".to_string())
    );
}

#[test]
fn enforces_config_file_bound_and_all_known_module_extensions() {
    let read = (0..16).map(|index| format!("base{index}.json")).collect::<Vec<_>>();
    assert_eq!(
        chain_step("tsconfig.json", &Vec::new(), &read),
        ChainStep::Capped("tsconfig-files-capped-at-16".to_string())
    );
    assert_eq!(
        chain_step("base3.json", &strings(&["base3.json"]), &read),
        ChainStep::Cycle("tsconfig-extends-cycle:base3.json".to_string())
    );
    assert_eq!(chain_step("base3.json", &Vec::new(), &read), ChainStep::AlreadyRead);
    assert_eq!(chain_step("tsconfig.json", &Vec::new(), &Vec::new()), ChainStep::Read);
    let capped = ModuleResolver::unavailable(Vec::new(), "tsconfig-files-capped-at-16".to_string());
    assert_eq!(capped.basis.status, "truncated");
    assert_eq!(
        capped.resolve_non_relative("@x/y", &Vec::new()),
        NonRelativeResolution::Unresolved("tsconfig-resolution-truncated".to_string())
    );

    assert_eq!(
        resolve_known_path("src/types", &strings(&["src/types.d.ts"])),
        Some("src/types.d.ts".to_string())
    );
    assert_eq!(
        resolve_known_path("src/components", &strings(&["src/components/index.tsx"])),
        Some("src/components/index.tsx".to_string())
    );
}

#[test]
fn config_bytes_are_capped() {
    assert_eq!(add_config_bytes(10, 20), (30, None));
    assert_eq!(
        add_config_bytes(1_048_570, 7),
        (1_048_577, Some("tsconfig-bytes-capped-at-1048576".to_string()))
    );
    assert_eq!(
        add_config_bytes(usize::MAX, 1),
        (usize::MAX, Some("tsconfig-bytes-capped-at-1048576".to_string()))
    );
}

#[test]
fn mapping_errors_name_the_first_violation() {
    let mut effective = empty();
    assert_eq!(
        merge_document("tsconfig.json", &options(None, &[("@a/*/*", &["src/*"])]), &mut effective),
        Err("tsconfig-path-pattern-unsupported:@a/*/*".to_string())
    );
    let mut effective = empty();
    assert_eq!(
        merge_document("tsconfig.json", &options(None, &[("@a/*", &[])]), &mut effective),
        Err("tsconfig-path-targets-empty:@a/*".to_string())
    );
    let mut effective = empty();
    assert_eq!(
        merge_document("tsconfig.json", &options(None, &[("@a/*", &["../outside/*"])]), &mut effective),
        Err("tsconfig-path-escapes-repository".to_string())
    );
    let mut effective = empty();
    assert_eq!(
        merge_document("tsconfig.json", &options(Some("/abs"), &[]), &mut effective),
        Err("tsconfig-path-absolute-or-machine-path".to_string())
    );
}

#[test]
fn longest_wildcard_prefix_wins_and_exact_patterns_win_first() {
    let mut effective = empty();
    merge_document(
        "tsconfig.json",
        &options(
            None,
            &[
                ("@app/*", &["src/*"]),
                ("@app/ui/*", &["ui/*"]),
                ("@exact", &["lib/exact"]),
            ],
        ),
        &mut effective,
    )
    .expect("merge");
    let resolver = ModuleResolver::with_config(vec![file("tsconfig.json")], effective);
    let known = strings(&["ui/button.ts", "src/ui/button.ts", "lib/exact.ts"]);
    assert_eq!(
        resolver.resolve_non_relative("@app/ui/button", &known),
        NonRelativeResolution::Local("ui/button.ts".to_string())
    );
    assert_eq!(
        resolver.resolve_non_relative("@exact", &known),
        NonRelativeResolution::Local("lib/exact.ts".to_string())
    );
    assert_eq!(
        resolver.resolve_non_relative("@app/missing", &known),
        NonRelativeResolution::Unresolved("missing-tsconfig-path-target".to_string())
    );
    assert_eq!(
        resolver.resolve_non_relative("react", &known),
        NonRelativeResolution::External
    );
    let without = ModuleResolver::without_config();
    assert_eq!(without.basis.status, "complete");
    assert_eq!(without.basis.root_config, None);
    assert_eq!(without.resolve_non_relative("react", &known), NonRelativeResolution::External);
}

#[test]
fn config_documents_hash_their_bytes() {
    let bytes = br#"{ "extends": "./base.json" }"#;
    let document = config_document(
        "tsconfig.json",
        bytes,
        Some("./base.json".to_string()),
        RawCompilerOptions { base_url: None, paths: None },
    );
    assert_eq!(document.path, "tsconfig.json");
    assert_eq!(document.bytes, bytes.len() as u64);
    assert_eq!(document.hash, blake3::hash(bytes).to_hex().to_string());
    assert_eq!(document.extends, Some("./base.json".to_string()));
}

#[test]
fn loading_steps_record_refuse_and_resolve_the_chain() {
    let (total, unreadable) = config_read("tsconfig.json", Err("denied".to_string()), 7);
    assert_eq!(total, 7);
    assert!(matches!(unreadable, ConfigRead::Unreadable(ref e) if e == "tsconfig-read-failed:denied"));

    let (total, not_utf8) = config_read("tsconfig.json", Ok(vec![0xff, 0xfe]), 3);
    assert_eq!(total, 5);
    match not_utf8 {
        ConfigRead::Refused(document, error) => {
            assert_eq!(error, "tsconfig-not-utf8:tsconfig.json");
            assert_eq!(document.bytes, 2);
            assert!(document.extends.is_none());
        }
        _ => panic!("expected a refusal"),
    }

    let (_, capped) = config_read("tsconfig.json", Ok(b"{}".to_vec()), 1_048_575);
    assert!(matches!(capped, ConfigRead::Refused(_, ref e) if e == "tsconfig-bytes-capped-at-1048576"));

    let (total, text) = config_read("tsconfig.json", Ok(b"{\"extends\":\"./base\"}".to_vec()), 0);
    assert_eq!(total, 20);
    assert!(matches!(text, ConfigRead::Text(_, ref t) if t == "{\"extends\":\"./base\"}"));

    let (document, next) = config_parsed("tsconfig.json", b"{}", Err("unexpected token".to_string()));
    assert_eq!(next, Err("tsconfig-invalid-jsonc:tsconfig.json:unexpected token".to_string()));
    assert!(document.compiler_options.paths.is_none());

    let (document, next) = config_parsed(
        "tsconfig.json",
        b"{}",
        Ok((Some("./base".to_string()), options(None, &[("@local/*", &["src/*"])]))),
    );
    assert_eq!(next, Ok(Some("base.json".to_string())));
    assert_eq!(document.extends.as_deref(), Some("./base"));
    let (_, package) = config_parsed("tsconfig.json", b"{}", Ok((Some("pkg/config".to_string()), options(None, &[]))));
    assert_eq!(package, Err("tsconfig-package-extends-unsupported".to_string()));

    let documents = || {
        vec![
            ConfigDocument {
                path: "base.json".to_string(),
                bytes: 1,
                hash: "a".to_string(),
                extends: None,
                compiler_options: options(Some("."), &[("@base/*", &["src/*"])]),
            },
            ConfigDocument {
                path: "tsconfig.json".to_string(),
                bytes: 1,
                hash: "b".to_string(),
                extends: Some("./base".to_string()),
                compiler_options: options(None, &[("@local/*", &["src/*"])]),
            },
        ]
    };
    let resolver = resolver_from_documents(documents(), Ok(()));
    assert_eq!(resolver.basis.status, "complete");
    assert_eq!(resolver.basis.config_files.len(), 2);
    assert_eq!(resolver.basis.config_files[0].path, "base.json");
    let known = strings(&["src/item.ts"]);
    assert_eq!(
        resolver.resolve_non_relative("@local/item", &known),
        NonRelativeResolution::Local("src/item.ts".to_string())
    );
    let refused = resolver_from_documents(documents(), Err("tsconfig-files-capped-at-16".to_string()));
    assert_eq!(refused.basis.status, "truncated");
    assert_eq!(refused.basis.limitations, strings(&["tsconfig-files-capped-at-16"]));
}
