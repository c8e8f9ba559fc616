//! The declaration an imported binding stands for, as a call target.

use vstd::prelude::*;

use super::exports::{
    cache_views, export_outcome, key_views, resolve_export, set_sorted, unresolved_view, CacheView,
    OutcomeView,
};
use super::fingerprints::{is_non_relative_alias, spec_is_non_relative_alias};
use super::imports::{
    external_or_unresolved, resolve_external_or_unresolved, resolve_import_module,
    spec_resolve_import_module, ResolutionContext,
};
use super::targets::{
    all_candidates, all_namespaces, callable_candidates, combine_outcomes, combined,
    first_unresolved_reason, is_callable, outcome_view, unresolved, unresolved_with_status,
    ResolutionOutcome,
};
use crate::model::typescript::TypeScriptImport;
use crate::order::{lemma_strictly_sorted_unique, strictly_sorted};
use crate::text::{seq_starts_with, starts_with, str_eq, views};

verus! {

broadcast use vstd::string::group_string_axioms;

/// The candidates of the outcomes, in order.
pub open spec fn flat_candidates(os: Seq<OutcomeView>) -> Seq<Seq<char>>
    decreases os.len(),
{
    if os.len() == 0 {
        Seq::empty()
    } else {
        flat_candidates(os.drop_last()) + os.last().2
    }
}

/// The namespace modules of the outcomes, in order.
pub open spec fn flat_namespaces(os: Seq<OutcomeView>) -> Seq<Seq<char>>
    decreases os.len(),
{
    if os.len() == 0 {
        Seq::empty()
    } else {
        flat_namespaces(os.drop_last()) + os.last().3
    }
}

/// The reason of the first unresolved outcome, or `missing-export`.
pub open spec fn first_unresolved(os: Seq<OutcomeView>) -> Seq<char>
    decreases os.len(),
{
    if os.len() == 0 {
        "missing-export"@
    } else if os[0].0 == "unresolved"@ {
        os[0].1
    } else {
        first_unresolved(os.drop_first())
    }
}

/// What the outcomes of one member in each module of a namespace combine into.
pub open spec fn combined_view(os: Seq<OutcomeView>) -> OutcomeView {
    let cands = flat_candidates(os).to_set();
    let type_only = exists|i: int| 0 <= i < os.len() && (#[trigger] os[i]).4;
    let external = exists|i: int| 0 <= i < os.len() && (#[trigger] os[i]).0 == "external"@;
    if cands.len() > 1 {
        ("ambiguous"@, "ambiguous-namespace-member"@, set_sorted(flat_candidates(os)), set_sorted(flat_namespaces(os)), type_only)
    } else if cands.len() == 1 {
        ("resolved"@, "namespace-member-binding"@, set_sorted(flat_candidates(os)), set_sorted(flat_namespaces(os)), type_only)
    } else if external {
        ("external"@, "external-reexport"@, Seq::empty(), set_sorted(flat_namespaces(os)), type_only)
    } else {
        unresolved_view(first_unresolved(os))
    }
}

/// The outcomes by their plain values.
pub open spec fn outcome_views(os: Seq<ResolutionOutcome>) -> Seq<OutcomeView> {
    os.map_values(|o: ResolutionOutcome| outcome_view(o))
}

proof fn lemma_flat(os: Seq<ResolutionOutcome>)
    ensures
        all_candidates(os) == flat_candidates(outcome_views(os)),
        all_namespaces(os) == flat_namespaces(outcome_views(os)),
        first_unresolved_reason(os) == first_unresolved(outcome_views(os)),
    decreases os.len(),
{
    if os.len() > 0 {
        lemma_flat(os.drop_last());
        lemma_flat(os.drop_first());
        assert(outcome_views(os.drop_last()) =~= outcome_views(os).drop_last());
        assert(outcome_views(os.drop_first()) =~= outcome_views(os).drop_first());
    }
}

/// A strictly sorted sequence with the values of `s` is `set_sorted(s)`.
pub proof fn lemma_sorted_is_set_sorted(t: Seq<Seq<char>>, s: Seq<Seq<char>>)
    requires
        strictly_sorted(t),
        t.to_set() == s.to_set(),
    ensures
        t == set_sorted(s),
{
    let c = set_sorted(s);
    assert(strictly_sorted(c) && c.to_set() == s.to_set());
    lemma_strictly_sorted_unique(t, c);
}

/// The combined outcome of `combine_outcomes`, by its plain values.
proof fn lemma_combined_view(r: ResolutionOutcome, os: Seq<ResolutionOutcome>)
    requires
        combined(r, os),
    ensures
        outcome_view(r) == combined_view(outcome_views(os)),
{
    lemma_flat(os);
    let vs = outcome_views(os);
    assert((exists|i: int| 0 <= i < os.len() && (#[trigger] os[i]).type_only) == (exists|i: int|
        0 <= i < vs.len() && (#[trigger] vs[i]).4)) by {
        if exists|i: int| 0 <= i < os.len() && (#[trigger] os[i]).type_only {
            let i = choose|i: int| 0 <= i < os.len() && (#[trigger] os[i]).type_only;
            assert(vs[i].4);
        }
        if exists|i: int| 0 <= i < vs.len() && (#[trigger] vs[i]).4 {
            let i = choose|i: int| 0 <= i < vs.len() && (#[trigger] vs[i]).4;
            assert(os[i].type_only);
        }
    }
    assert((exists|i: int| 0 <= i < os.len() && (#[trigger] os[i]).status@ == "external"@) == (exists|i: int|
        0 <= i < vs.len() && (#[trigger] vs[i]).0 == "external"@)) by {
        if exists|i: int| 0 <= i < os.len() && (#[trigger] os[i]).status@ == "external"@ {
            let i = choose|i: int| 0 <= i < os.len() && (#[trigger] os[i]).status@ == "external"@;
            assert(vs[i].0 == "external"@);
        }
        if exists|i: int| 0 <= i < vs.len() && (#[trigger] vs[i]).0 == "external"@ {
            let i = choose|i: int| 0 <= i < vs.len() && (#[trigger] vs[i]).0 == "external"@;
            assert(os[i].status@ == "external"@);
        }
    }
    let cands = all_candidates(os).to_set();
    if cands.len() > 1 || cands.len() == 1 {
        lemma_sorted_is_set_sorted(views(r.candidates@), all_candidates(os));
        lemma_sorted_is_set_sorted(views(r.namespace_modules@), all_namespaces(os));
    } else if exists|i: int| 0 <= i < os.len() && (#[trigger] os[i]).status@ == "external"@ {
        lemma_sorted_is_set_sorted(views(r.namespace_modules@), all_namespaces(os));
        assert(views(r.candidates@) =~= Seq::<Seq<char>>::empty());
    }
}

/// The outcomes of one member in each module, in order, with the cache after them.
pub open spec fn member_outcomes(
    r: ResolutionContext,
    modules: Seq<Seq<char>>,
    name: Seq<char>,
    cache: CacheView,
) -> (Seq<OutcomeView>, CacheView)
    decreases modules.len(),
{
    if modules.len() == 0 {
        (Seq::empty(), cache)
    } else {
        let prev = member_outcomes(r, modules.drop_last(), name, cache);
        let o = export_outcome(r, modules.last(), name, Seq::empty(), prev.1);
        (prev.0.push(o.0), o.1)
    }
}

/// The distinct candidates recorded with a callable kind, in ascending order.
pub open spec fn callable_view(cands: Seq<Seq<char>>, kinds: Seq<(String, String)>) -> Seq<Seq<char>> {
    choose|t: Seq<Seq<char>>|
        strictly_sorted(t) && t.to_set() == cands.to_set().filter(|c: Seq<char>| is_callable(kinds, c))
}

/// The reason of an import binding, by the import's kind and whether a re-export was
/// followed.
pub open spec fn import_reason(kind: Seq<char>, through: bool) -> Seq<char> {
    if kind == "named-import"@ {
        if through { "named-import-through-reexport"@ } else { "named-import-binding"@ }
    } else if kind == "default-import"@ {
        if through { "default-import-through-reexport"@ } else { "default-import-binding"@ }
    } else if kind == "namespace-import"@ {
        if through { "namespace-import-through-reexport"@ } else { "namespace-import-binding"@ }
    } else if through {
        "direct-import-through-reexport"@
    } else {
        "direct-import-binding"@
    }
}

/// An export outcome made a call target: a namespace is no callee, a type-only binding
/// is none, only callable candidates stay, and the reason names the import's kind.
pub open spec fn refine_target(kinds: Seq<(String, String)>, import_kind: Seq<char>, o: OutcomeView) -> OutcomeView {
    let o1 = if o.3.len() > 0 && o.2.len() == 0 {
        unresolved_view("namespace-called-as-function"@)
    } else {
        o
    };
    if o1.4 {
        unresolved_view("type-only-binding"@)
    } else {
        let cands = callable_view(o1.2, kinds);
        if o1.0 == "resolved"@ && cands.len() == 0 {
            unresolved_view("non-callable-export"@)
        } else if o1.0 == "ambiguous"@ && cands.len() == 0 {
            ("ambiguous"@, "non-callable-export"@, Seq::empty(), Seq::empty(), false)
        } else if o1.0 == "resolved"@ && (o1.1 == "re-export-binding"@ || o1.1 == "local-export-binding"@) {
            (o1.0, import_reason(import_kind, o1.1 == "re-export-binding"@), cands, o1.3, o1.4)
        } else {
            (o1.0, o1.1, cands, o1.3, o1.4)
        }
    }
}

/// The declaration that `imported_name`, reached through `import` of the file at
/// `current`, stands for as a call target (a member of the imported namespace where
/// `member_call`), with the cache after it.
pub open spec fn import_target(
    r: ResolutionContext,
    current: Seq<char>,
    import: TypeScriptImport,
    imported_name: Seq<char>,
    member_call: bool,
    cache: CacheView,
) -> (OutcomeView, CacheView) {
    let s = import.specifier@;
    if !seq_starts_with(s, "."@) && r.module_resolver.basis.root_config is None && spec_is_non_relative_alias(
        s,
        r.known_paths@,
    ) {
        (unresolved_view("non-relative-path-alias"@), cache)
    } else {
        match spec_resolve_import_module(current, s, r) {
            None => (external_or_unresolved(s, r), cache),
            Some(target) => {
                let first = if !member_call || import.kind@ == "namespace-import"@ {
                    export_outcome(r, target, imported_name, Seq::empty(), cache)
                } else {
                    let bound_name = match import.imported_name {
                        Some(n) => n@,
                        None => "default"@,
                    };
                    let binding = export_outcome(r, target, bound_name, Seq::empty(), cache);
                    if binding.0.3.len() == 0 {
                        (unresolved_view("unsupported-member-call"@), binding.1)
                    } else {
                        let members = member_outcomes(r, binding.0.3, imported_name, binding.1);
                        (combined_view(members.0), members.1)
                    }
                };
                (refine_target(r.symbol_kinds@, import.kind@, first.0), first.1)
            },
        }
    }
}

fn import_reason_text(kind: &str, through: bool) -> (r: &'static str)
    ensures
        r@ == import_reason(kind@, through),
{
    if str_eq(kind, "named-import") {
        if through { "named-import-through-reexport" } else { "named-import-binding" }
    } else if str_eq(kind, "default-import") {
        if through { "default-import-through-reexport" } else { "default-import-binding" }
    } else if str_eq(kind, "namespace-import") {
        if through { "namespace-import-through-reexport" } else { "namespace-import-binding" }
    } else if through {
        "direct-import-through-reexport"
    } else {
        "direct-import-binding"
    }
}

fn refine(kinds: &Vec<(String, String)>, import_kind: &str, o: ResolutionOutcome) -> (r: ResolutionOutcome)
    ensures
        outcome_view(r) == refine_target(kinds@, import_kind@, outcome_view(o)),
{
    let o = if o.namespace_modules.len() > 0 && o.candidates.len() == 0 {
        unresolved("namespace-called-as-function")
    } else {
        o
    };
    if o.type_only {
        return unresolved("type-only-binding");
    }
    let ResolutionOutcome { status, reason, candidates, namespace_modules, type_only } = o;
    let ghost cv = views(candidates@);
    let cands = callable_candidates(candidates, kinds);
    proof {
        let c = callable_view(cv, kinds@);
        assert(strictly_sorted(c) && c.to_set() == cv.to_set().filter(|x: Seq<char>| is_callable(kinds@, x)));
        lemma_strictly_sorted_unique(views(cands@), c);
    }
    if str_eq(status.as_str(), "resolved") && cands.len() == 0 {
        return unresolved("non-callable-export");
    }
    if str_eq(status.as_str(), "ambiguous") && cands.len() == 0 {
        return unresolved_with_status("non-callable-export", "ambiguous");
    }
    let reason = if str_eq(status.as_str(), "resolved") && (str_eq(reason.as_str(), "re-export-binding") || str_eq(
        reason.as_str(),
        "local-export-binding",
    )) {
        import_reason_text(import_kind, str_eq(reason.as_str(), "re-export-binding")).to_string()
    } else {
        reason
    };
    ResolutionOutcome { status, reason, candidates: cands, namespace_modules, type_only }
}

/// Resolves `name` in each of `modules` and combines the outcomes, reading and filling
/// the export cache.
pub fn namespace_members(
    modules: &Vec<String>,
    imported_name: &str,
    resolution: &ResolutionContext,
    export_cache: &mut Vec<((String, String), ResolutionOutcome)>,
) -> (r: ResolutionOutcome)
    requires
        resolution.module_resolver.wf(),
    ensures
        ({
            let m = member_outcomes(*resolution, views(modules@), imported_name@, cache_views(old(export_cache)@));
            (outcome_view(r), cache_views(final(export_cache)@)) == (combined_view(m.0), m.1)
        }),
{
    let ghost c1 = cache_views(export_cache@);
    let ghost mods = views(modules@);
    let mut outcomes: Vec<ResolutionOutcome> = Vec::new();
    let mut i: usize = 0;
    assert(mods.take(0) =~= Seq::<Seq<char>>::empty());
    assert(outcome_views(outcomes@) =~= Seq::<OutcomeView>::empty());
    while i < modules.len()
        invariant
            i <= modules@.len(),
            mods == views(modules@),
            resolution.module_resolver.wf(),
            (outcome_views(outcomes@), cache_views(export_cache@)) == member_outcomes(
                *resolution,
                mods.take(i as int),
                imported_name@,
                c1,
            ),
        decreases modules@.len() - i,
    {
        assert(mods.take(i as int + 1).drop_last() =~= mods.take(i as int));
        let mut member_stack: Vec<(String, String)> = Vec::new();
        assert(key_views(member_stack@) =~= Seq::empty());
        let o = resolve_export(
            modules[i].as_str(),
            imported_name,
            resolution,
            &mut member_stack,
            export_cache,
        );
        let ghost before = outcome_views(outcomes@);
        let ghost ov = outcome_view(o);
        outcomes.push(o);
        assert(outcome_views(outcomes@) =~= before.push(ov));
        i = i + 1;
    }
    assert(mods.take(mods.len() as int) =~= mods);
    let combined_outcome = combine_outcomes(outcomes.as_slice());
    proof {
        lemma_combined_view(combined_outcome, outcomes@);
    }
    combined_outcome
}

/// Resolves what `imported_name`, reached through `import` of the file at `current_path`,
/// stands for as a call target; where `member_call`, as a member of the namespace the
/// import binds. Reads and fills the export cache.
pub fn resolve_import_target(
    current_path: &str,
    import: &TypeScriptImport,
    imported_name: &str,
    member_call: bool,
    resolution: &ResolutionContext,
    export_cache: &mut Vec<((String, String), ResolutionOutcome)>,
) -> (r: ResolutionOutcome)
    requires
        resolution.module_resolver.wf(),
    ensures
        (outcome_view(r), cache_views(final(export_cache)@)) == import_target(
            *resolution,
            current_path@,
            *import,
            imported_name@,
            member_call,
            cache_views(old(export_cache)@),
        ),
{
    let s = import.specifier.as_str();
    if !starts_with(s, ".") && resolution.module_resolver.basis.root_config.is_none() && is_non_relative_alias(
        s,
        resolution.known_paths.as_slice(),
    ) {
        return unresolved("non-relative-path-alias");
    }
    let target = match resolve_import_module(current_path, s, resolution) {
        None => {
            return resolve_external_or_unresolved(s, resolution);
        },
        Some(t) => t,
    };
    let mut stack: Vec<(String, String)> = Vec::new();
    assert(key_views(stack@) =~= Seq::empty());
    let first = if !member_call || str_eq(import.kind.as_str(), "namespace-import") {
        resolve_export(target.as_str(), imported_name, resolution, &mut stack, export_cache)
    } else {
        let bound_name = match &import.imported_name {
            Some(n) => n.as_str(),
            None => "default",
        };
        let binding = resolve_export(target.as_str(), bound_name, resolution, &mut stack, export_cache);
        if binding.namespace_modules.len() == 0 {
            unresolved("unsupported-member-call")
        } else {
            namespace_members(&binding.namespace_modules, imported_name, resolution, export_cache)
        }
    };
    refine(&resolution.symbol_kinds, import.kind.as_str(), first)
}

} // verus!
