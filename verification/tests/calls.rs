use flopeek_core::graph::calls::resolve_call;
use flopeek_core::graph::exports::ExportBinding;
use flopeek_core::graph::imports::ResolutionContext;
use flopeek_core::graph::node_id;
use flopeek_core::graph::targets::ResolutionOutcome;
use flopeek_core::model::typescript::{TypeScriptCall, TypeScriptDeclaration, TypeScriptImport};
use flopeek_core::model::SourcePosition;
use flopeek_core::module_resolution::ModuleResolver;

fn s(text: &str) -> String {
    text.to_string()
}

fn position() -> SourcePosition {
    SourcePosition {
        start_line: 1,
        start_column: 1,
        end_line: 1,
        end_column: 10,
    }
}

fn declaration(name: &str, kind: &str, static_member: bool, visibility: &str) -> TypeScriptDeclaration {
    TypeScriptDeclaration {
        name: s(name),
        kind: s(kind),
        exported: false,
        position: position(),
        qualified_name: s(name),
        ast_fingerprint: s("ast"),
        owner: Some(s("Local")),
        static_member,
        visibility: s(visibility),
        abstract_member: false,
        declaration_only: false,
    }
}

fn import(specifier: &str, kind: &str, local: &str, imported: Option<&str>) -> TypeScriptImport {
    TypeScriptImport {
        specifier: s(specifier),
        kind: s(kind),
        position: position(),
        local_name: Some(s(local)),
        imported_name: imported.map(s),
        type_only: false,
    }
}

fn local_class() -> String {
    node_id("symbol", "src/app.ts", "class:Local")
}

fn context() -> ResolutionContext {
    let local = local_class();
    ResolutionContext {
        known_paths: vec![s("src/app.ts"), s("src/lib.ts")],
        external_ids: Vec::new(),
        module_resolver: ModuleResolver::without_config(),
        file_ids: vec![(s("src/app.ts"), s("file_app"))],
        symbols_by_path: vec![(
            s("src/app.ts"),
            vec![
                (s("helper"), vec![s("id_helper")]),
                (s("Local"), vec![local.clone()]),
                (s("dup"), vec![s("id_dup2"), s("id_dup1")]),
            ],
        )],
        members_by_owner: vec![(
            local.clone(),
            vec![
                (s("make"), vec![s("id_make")]),
                (s("constructor"), vec![s("id_ctor")]),
                (s("secret"), vec![s("id_secret")]),
            ],
        )],
        declarations_by_id: vec![
            (s("id_make"), declaration("make", "method", true, "public")),
            (s("id_ctor"), declaration("constructor", "constructor", false, "public")),
            (s("id_secret"), declaration("secret", "method", false, "private")),
        ],
        symbol_kinds: vec![
            (s("id_helper"), s("function")),
            (local, s("class")),
            (s("id_dup1"), s("function")),
            (s("id_dup2"), s("function")),
            (s("id_widget"), s("class")),
            (s("node_charge"), s("function")),
        ],
        module_exports: vec![(
            s("src/lib.ts"),
            vec![
                (s("charge"), vec![ExportBinding::Local(vec![s("node_charge")])]),
                (s("Widget"), vec![ExportBinding::Local(vec![s("id_widget")])]),
            ],
        )],
    }
}

fn imports() -> Vec<TypeScriptImport> {
    vec![
        import("./lib", "named-import", "charge", Some("charge")),
        import("./lib", "named-import", "Widget", Some("Widget")),
        import("./lib", "namespace-import", "lib", None),
    ]
}

fn call(callee: Option<&str>, form: &str, receiver: Option<&str>, enclosing: Option<&str>, dynamic: bool) -> TypeScriptCall {
    TypeScriptCall {
        callee: callee.map(s),
        dynamic,
        position: position(),
        caller: None,
        callee_form: s(form),
        receiver: receiver.map(s),
        shadowed: false,
        enclosing_type: enclosing.map(s),
    }
}

fn resolve(site: &TypeScriptCall) -> (String, String, Vec<String>) {
    let resolution = context();
    let mut cache = Vec::new();
    let outcome: ResolutionOutcome = resolve_call("src/app.ts", site, &imports(), &resolution, &mut cache);
    (outcome.status, outcome.reason, outcome.candidates)
}

fn expected(status: &str, reason: &str, candidates: &[&str]) -> (String, String, Vec<String>) {
    (s(status), s(reason), candidates.iter().map(|c| s(c)).collect())
}

#[test]
fn identifier_calls_bind_imports_before_module_declarations() {
    assert_eq!(
        resolve(&call(Some("helper"), "identifier", None, None, false)),
        expected("resolved", "same-module-declaration", &["id_helper"])
    );
    assert_eq!(
        resolve(&call(Some("charge"), "identifier", None, None, false)),
        expected("resolved", "named-import-binding", &["node_charge"])
    );
    assert_eq!(
        resolve(&call(Some("dup"), "identifier", None, None, false)),
        expected("ambiguous", "ambiguous-symbol", &["id_dup1", "id_dup2"])
    );
    assert_eq!(
        resolve(&call(Some("nothing"), "identifier", None, None, false)),
        expected("unresolved", "unresolved-identifier", &[])
    );
    assert_eq!(
        resolve(&call(Some("lib"), "identifier", None, None, false)),
        expected("unresolved", "namespace-called-as-function", &[])
    );
}

#[test]
fn constructions_reach_explicit_or_implicit_constructors() {
    assert_eq!(
        resolve(&call(Some("Local"), "constructor", None, None, false)),
        expected("resolved", "explicit-constructor", &["id_ctor"])
    );
    assert_eq!(
        resolve(&call(Some("Widget"), "constructor", None, None, false)),
        expected("resolved", "implicit-default-constructor", &["id_widget"])
    );
    assert_eq!(
        resolve(&call(Some("Missing"), "constructor", None, None, false)),
        expected("unresolved", "missing-class-binding", &[])
    );
}

#[test]
fn member_calls_reach_static_private_and_namespace_members() {
    let local = local_class();
    assert_eq!(
        resolve(&call(Some("Local.make"), "member", Some("Local"), None, false)),
        expected("resolved", "static-class-method", &["id_make"])
    );
    assert_eq!(
        resolve(&call(Some("Local.other"), "member", Some("Local"), None, false)),
        expected("unresolved", "missing-class-member", &[])
    );
    assert_eq!(
        resolve(&call(Some("Local.secret"), "member", Some("Local"), None, false)),
        expected("unresolved", "static-member-not-found", &[])
    );
    assert_eq!(
        resolve(&call(Some("lib.charge"), "member", Some("lib"), None, false)),
        expected("resolved", "namespace-import-binding", &["node_charge"])
    );
    assert_eq!(
        resolve(&call(Some("this.secret"), "this-member", Some("this"), Some("Local"), false)),
        expected("resolved", "same-class-private-method", &["id_secret"])
    );
    assert_eq!(
        resolve(&call(Some("this.make"), "this-member", Some("this"), Some("Local"), false)),
        expected("unresolved", "potentially-polymorphic-this-call", &[])
    );
    assert_eq!(
        resolve(&call(Some("this.secret"), "this-member", Some("this"), None, false)),
        expected("unresolved", "this-member-outside-class", &[])
    );
    assert!(!local.is_empty());
}

#[test]
fn dynamic_and_unknown_forms_stay_unresolved() {
    assert_eq!(
        resolve(&call(None, "dynamic-constructor", None, None, true)),
        expected("unresolved", "dynamic-constructor", &[])
    );
    assert_eq!(
        resolve(&call(Some("f"), "identifier", None, None, true)),
        expected("unresolved", "dynamic-callee", &[])
    );
    assert_eq!(
        resolve(&call(Some("x"), "tagged-template", None, None, false)),
        expected("unresolved", "unsupported-callee-form", &[])
    );
    assert_eq!(
        resolve(&call(Some("thing"), "this-member", Some("this"), Some("Local"), false)),
        expected("unresolved", "computed-member-unsupported", &[])
    );
}
