//! Module targets of imports: repository modules, outside packages, or why neither.

use vstd::prelude::*;

use super::fingerprints::{is_non_relative_alias, resolve_relative, spec_is_non_relative_alias};
use super::exports::ExportBinding;
use crate::model::typescript::TypeScriptDeclaration;
use super::targets::{bare_outcome, outcome_view, unresolved, ResolutionOutcome};
use crate::module_resolution::paths::spec_resolve_relative;
use crate::module_resolution::{spec_resolve_non_relative, ModuleResolver, NonRelativeResolution};
use crate::text::{seq_starts_with, starts_with, str_eq, views};

verus! {

broadcast use vstd::string::group_string_axioms;

/// What import resolution reads: the known module paths, the external module node of
/// each package specifier, and the module resolver.
#[derive(Debug)]
pub struct ResolutionContext {
    pub known_paths: Vec<String>,
    pub external_ids: Vec<(String, String)>,
    pub module_resolver: ModuleResolver,
    /// The node id of each file.
    pub file_ids: Vec<(String, String)>,
    /// The top-level symbol ids of each file, by declared name.
    pub symbols_by_path: Vec<(String, Vec<(String, Vec<String>)>)>,
    /// The member ids of each class or interface node, by member name.
    pub members_by_owner: Vec<(String, Vec<(String, Vec<String>)>)>,
    /// The declaration behind each symbol node id.
    pub declarations_by_id: Vec<(String, TypeScriptDeclaration)>,
    /// The kind recorded for each symbol node id.
    pub symbol_kinds: Vec<(String, String)>,
    /// The export table of each module: its path, and the bindings of each exported name.
    pub module_exports: Vec<(String, Vec<(String, Vec<ExportBinding>)>)>,
}

/// The external module node recorded first for a specifier.
pub open spec fn external_id(ids: Seq<(String, String)>, specifier: Seq<char>) -> Option<Seq<char>>
    decreases ids.len(),
{
    if ids.len() == 0 {
        None
    } else if ids[0].0@ == specifier {
        Some(ids[0].1@)
    } else {
        external_id(ids.drop_first(), specifier)
    }
}

/// How the module resolver answers a non-relative specifier.
pub open spec fn non_relative_of(r: ResolutionContext, specifier: Seq<char>) -> Result<Option<Seq<char>>, Seq<char>> {
    spec_resolve_non_relative(
        r.module_resolver.effective,
        r.module_resolver.basis.status@,
        specifier,
        r.known_paths@,
    )
}

/// The repository module an import names: a relative module that is known, or a local
/// target of the module resolver.
pub open spec fn spec_resolve_import_module(current: Seq<char>, specifier: Seq<char>, r: ResolutionContext) -> Option<Seq<char>> {
    if seq_starts_with(specifier, "."@) {
        spec_resolve_relative(current, specifier, r.known_paths@)
    } else {
        match non_relative_of(r, specifier) {
            Ok(Some(p)) => Some(p),
            _ => None,
        }
    }
}

/// The outcome of an import that names no repository module: an external package with
/// its module node, or why it stays unresolved.
pub open spec fn external_or_unresolved(specifier: Seq<char>, r: ResolutionContext) -> (Seq<char>, Seq<char>, Seq<Seq<char>>, Seq<Seq<char>>, bool) {
    let unresolved_with = |reason: Seq<char>| (
        "unresolved"@,
        reason,
        Seq::<Seq<char>>::empty(),
        Seq::<Seq<char>>::empty(),
        false,
    );
    let external = (
        "external"@,
        "external-module"@,
        match external_id(r.external_ids@, specifier) {
            Some(id) => seq![id],
            None => Seq::empty(),
        },
        Seq::<Seq<char>>::empty(),
        false,
    );
    let alias = spec_is_non_relative_alias(specifier, r.known_paths@);
    if seq_starts_with(specifier, "."@) {
        unresolved_with("missing-relative-module"@)
    } else if r.module_resolver.basis.root_config is None && alias {
        unresolved_with("non-relative-path-alias"@)
    } else {
        match non_relative_of(r, specifier) {
            Ok(None) => external,
            Err(reason) => if alias || !seq_starts_with(reason, "tsconfig-resolution-"@) {
                unresolved_with(reason)
            } else {
                external
            },
            Ok(Some(_)) => unresolved_with("module-resolution-inconsistent"@),
        }
    }
}

/// The repository module that `specifier`, imported by `current_path`, names.
pub fn resolve_import_module(current_path: &str, specifier: &str, resolution: &ResolutionContext) -> (r: Option<String>)
    requires
        resolution.module_resolver.wf(),
    ensures
        match r {
            Some(p) => spec_resolve_import_module(current_path@, specifier@, *resolution) == Some(p@),
            None => spec_resolve_import_module(current_path@, specifier@, *resolution) is None,
        },
{
    if starts_with(specifier, ".") {
        return resolve_relative(current_path, specifier, &resolution.known_paths);
    }
    match resolution.module_resolver.resolve_non_relative(specifier, &resolution.known_paths) {
        NonRelativeResolution::Local(path) => Some(path),
        _ => None,
    }
}

fn find_external_id(ids: &Vec<(String, String)>, specifier: &str) -> (r: Vec<String>)
    ensures
        views(r@) == match external_id(ids@, specifier@) {
            Some(id) => seq![id],
            None => Seq::<Seq<char>>::empty(),
        },
{
    let mut i: usize = 0;
    assert(ids@.skip(0) =~= ids@);
    while i < ids.len()
        invariant
            i <= ids@.len(),
            external_id(ids@, specifier@) == external_id(ids@.skip(i as int), specifier@),
        decreases ids@.len() - i,
    {
        assert(ids@.skip(i as int)[0] == ids@[i as int]);
        assert(ids@.skip(i as int).drop_first() =~= ids@.skip(i as int + 1));
        if str_eq(ids[i].0.as_str(), specifier) {
            let mut r: Vec<String> = Vec::new();
            r.push(ids[i].1.clone());
            assert(views(r@) =~= seq![ids@[i as int].1@]);
            return r;
        }
        i = i + 1;
    }
    let r: Vec<String> = Vec::new();
    assert(views(r@) =~= Seq::<Seq<char>>::empty());
    r
}

fn external_outcome(specifier: &str, resolution: &ResolutionContext) -> (r: ResolutionOutcome)
    ensures
        outcome_view(r) == (
            "external"@,
            "external-module"@,
            match external_id(resolution.external_ids@, specifier@) {
                Some(id) => seq![id],
                None => Seq::<Seq<char>>::empty(),
            },
            Seq::<Seq<char>>::empty(),
            false,
        ),
{
    let namespace_modules: Vec<String> = Vec::new();
    assert(views(namespace_modules@) =~= Seq::<Seq<char>>::empty());
    ResolutionOutcome {
        status: "external".to_string(),
        reason: "external-module".to_string(),
        candidates: find_external_id(&resolution.external_ids, specifier),
        namespace_modules,
        type_only: false,
    }
}

/// The outcome of an import whose specifier names no repository module: an external
/// package with its module node, or the reason it stays unresolved.
pub fn resolve_external_or_unresolved(specifier: &str, resolution: &ResolutionContext) -> (r: ResolutionOutcome)
    requires
        resolution.module_resolver.wf(),
    ensures
        outcome_view(r) == external_or_unresolved(specifier@, *resolution),
{
    if starts_with(specifier, ".") {
        return unresolved("missing-relative-module");
    }
    let alias = is_non_relative_alias(specifier, &resolution.known_paths);
    if resolution.module_resolver.basis.root_config.is_none() && alias {
        return unresolved("non-relative-path-alias");
    }
    match resolution.module_resolver.resolve_non_relative(specifier, &resolution.known_paths) {
        NonRelativeResolution::External => external_outcome(specifier, resolution),
        NonRelativeResolution::Unresolved(reason) => {
            if alias || !starts_with(reason.as_str(), "tsconfig-resolution-") {
                unresolved(reason.as_str())
            } else {
                external_outcome(specifier, resolution)
            }
        },
        NonRelativeResolution::Local(_) => unresolved("module-resolution-inconsistent"),
    }
}

} // verus!
