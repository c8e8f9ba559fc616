//! The export table of each module and the resolution of an exported name through it,
//! following re-exports with a bounded depth, a cycle check and a bounded cache.

use vstd::prelude::*;

use super::imports::{
    external_or_unresolved, resolve_external_or_unresolved, resolve_import_module,
    spec_resolve_import_module, ResolutionContext,
};
use super::resolution_records::MAX_RESOLUTION_RECORDS;
use super::targets::{outcome_view, unresolved, ResolutionOutcome};
use crate::order::{contains_str, lemma_strictly_sorted_unique, sorted_unique, strictly_sorted};
use crate::text::{str_eq, views};

verus! {

broadcast use vstd::string::group_string_axioms;

/// How deep a chain of re-exports is followed before resolution gives up.
pub const MAX_REEXPORT_DEPTH: usize = 16;

/// What a module binds under one exported name.
#[derive(Debug)]
pub enum ExportBinding {
    /// Declarations of the module itself.
    Local(Vec<String>),
    /// A name of another module, exported under this one.
    Forward { source: String, name: String, type_only: bool },
    /// Every name of another module.
    Star { source: String, type_only: bool },
    /// Another module as a whole.
    Namespace { source: String, type_only: bool },
    /// Declarations of the module itself, exported as types only.
    TypeOnly { ids: Vec<String> },
}

/// The plain values of an outcome: status, reason, candidates, namespace modules, and
/// whether only types were bound.
pub type OutcomeView = (Seq<char>, Seq<char>, Seq<Seq<char>>, Seq<Seq<char>>, bool);

/// A module path and an exported name.
pub type ExportKey = (Seq<char>, Seq<char>);

/// The export cache: each key with the outcome recorded for it, in the order recorded.
pub type CacheView = Seq<(ExportKey, OutcomeView)>;

/// What the bindings of one name gathered so far: candidates, namespace modules, whether
/// an external module was reached, the reasons met, whether a re-export was followed,
/// and whether a binding was type-only.
pub type Gathered = (Seq<Seq<char>>, Seq<Seq<char>>, bool, Seq<Seq<char>>, bool, bool);

/// The keys of a resolution stack.
pub open spec fn key_views(stack: Seq<(String, String)>) -> Seq<ExportKey> {
    stack.map_values(|k: (String, String)| (k.0@, k.1@))
}

/// The export cache by its plain values.
pub open spec fn cache_views(cache: Seq<((String, String), ResolutionOutcome)>) -> CacheView {
    cache.map_values(|e: ((String, String), ResolutionOutcome)| ((e.0.0@, e.0.1@), outcome_view(e.1)))
}

/// An unresolved outcome with the given reason.
pub open spec fn unresolved_view(reason: Seq<char>) -> OutcomeView {
    ("unresolved"@, reason, Seq::empty(), Seq::empty(), false)
}

/// The outcome recorded for `key`, if any.
pub open spec fn cache_get(cache: CacheView, key: ExportKey) -> Option<OutcomeView>
    decreases cache.len(),
{
    if cache.len() == 0 {
        None
    } else if cache[0].0 == key {
        Some(cache[0].1)
    } else {
        cache_get(cache.drop_first(), key)
    }
}

/// The cache with `value` recorded for `key`: in place of the entry for `key`, or last.
pub open spec fn cache_insert(cache: CacheView, key: ExportKey, value: OutcomeView) -> CacheView
    decreases cache.len(),
{
    if cache.len() == 0 {
        seq![(key, value)]
    } else if cache[0].0 == key {
        cache.update(0, (key, value))
    } else {
        seq![cache[0]] + cache_insert(cache.drop_first(), key, value)
    }
}

/// The cache after an outcome is offered to it: recorded while the cache holds fewer
/// than the record limit, dropped otherwise.
pub open spec fn cache_record(cache: CacheView, key: ExportKey, value: OutcomeView) -> CacheView {
    if cache.len() < MAX_RESOLUTION_RECORDS {
        cache_insert(cache, key, value)
    } else {
        cache
    }
}

/// The export table of the module at `path`.
pub open spec fn exports_of(
    table: Seq<(String, Vec<(String, Vec<ExportBinding>)>)>,
    path: Seq<char>,
) -> Option<Vec<(String, Vec<ExportBinding>)>>
    decreases table.len(),
{
    if table.len() == 0 {
        None
    } else if table[0].0@ == path {
        Some(table[0].1)
    } else {
        exports_of(table.drop_first(), path)
    }
}

/// The bindings of `name` in an export table; none where the name is not exported.
pub open spec fn bindings_for(exports: Seq<(String, Vec<ExportBinding>)>, name: Seq<char>) -> Seq<ExportBinding>
    decreases exports.len(),
{
    if exports.len() == 0 {
        Seq::empty()
    } else if exports[0].0@ == name {
        exports[0].1@
    } else {
        bindings_for(exports.drop_first(), name)
    }
}

/// How far the stack is from the depth limit.
pub open spec fn depth_measure(stack: Seq<ExportKey>) -> nat {
    if stack.len() < MAX_REEXPORT_DEPTH {
        (MAX_REEXPORT_DEPTH - stack.len()) as nat
    } else {
        0
    }
}

/// The distinct values of `s` in ascending order.
pub open spec fn set_sorted(s: Seq<Seq<char>>) -> Seq<Seq<char>> {
    choose|t: Seq<Seq<char>>| strictly_sorted(t) && t.to_set() == s.to_set()
}

/// Nothing gathered yet.
pub open spec fn nothing_gathered() -> Gathered {
    (Seq::empty(), Seq::empty(), false, Seq::empty(), false, false)
}

/// After a binding to a module that is not in the repository: its reason, and whether it
/// is external.
pub open spec fn gather_unreached(g: Gathered, type_only: bool, o: OutcomeView) -> Gathered {
    (g.0, g.1, g.2 || o.0 == "external"@, g.3.push(o.1), true, g.5 || type_only)
}

/// After a binding followed to another module's export, whose outcome is `o`.
pub open spec fn gather_followed(g: Gathered, type_only: bool, o: OutcomeView) -> Gathered {
    (g.0 + o.2, g.1 + o.3, g.2, g.3.push(o.1), true, g.5 || type_only || o.4)
}

/// After a binding of a whole module.
pub open spec fn gather_namespace(r: ResolutionContext, path: Seq<char>, source: Seq<char>, type_only: bool, g: Gathered) -> Gathered {
    match spec_resolve_import_module(path, source, r) {
        Some(target) => (g.0, g.1.push(target), g.2, g.3, true, g.5 || type_only),
        None => gather_unreached(g, type_only, external_or_unresolved(source, r)),
    }
}

/// What the first `n` bindings of `name` in the module at `path` gather, with the cache
/// after them; `stack` already holds the key being resolved.
pub open spec fn fold_bindings(
    r: ResolutionContext,
    path: Seq<char>,
    name: Seq<char>,
    bindings: Seq<ExportBinding>,
    n: nat,
    stack: Seq<ExportKey>,
    cache: CacheView,
) -> (Gathered, CacheView)
    decreases depth_measure(stack), n,
{
    if n == 0 {
        (nothing_gathered(), cache)
    } else {
        let prev = fold_bindings(r, path, name, bindings, (n - 1) as nat, stack, cache);
        let g = prev.0;
        let c = prev.1;
        match bindings[n - 1] {
            ExportBinding::Local(ids) => ((g.0 + views(ids@), g.1, g.2, g.3, g.4, g.5), c),
            ExportBinding::TypeOnly { ids } => (
                (g.0 + views(ids@), g.1, g.2, g.3.push("type-only-export"@), g.4, true),
                c,
            ),
            ExportBinding::Namespace { source, type_only } => (gather_namespace(r, path, source@, type_only, g), c),
            ExportBinding::Forward { source, name: target_name, type_only } => match spec_resolve_import_module(
                path,
                source@,
                r,
            ) {
                Some(target) => {
                    let followed = export_outcome(r, target, target_name@, stack, c);
                    (gather_followed(g, type_only, followed.0), followed.1)
                },
                None => (gather_unreached(g, type_only, external_or_unresolved(source@, r)), c),
            },
            ExportBinding::Star { source, type_only } => if name == "default"@ {
                ((g.0, g.1, g.2, g.3, true, g.5 || type_only), c)
            } else {
                match spec_resolve_import_module(path, source@, r) {
                    Some(target) => {
                        let followed = export_outcome(r, target, name, stack, c);
                        (gather_followed(g, type_only, followed.0), followed.1)
                    },
                    None => (gather_unreached(g, type_only, external_or_unresolved(source@, r)), c),
                }
            },
        }
    }
}

/// Why nothing was bound: a type-only export, the depth limit, a cycle, or a missing
/// (re-)export.
pub open spec fn empty_reason(reasons: Seq<Seq<char>>, has_star: bool) -> Seq<char> {
    if reasons.contains("type-only-export"@) {
        "type-only-export"@
    } else if reasons.contains("re-export-depth-capped"@) {
        "re-export-depth-capped"@
    } else if reasons.contains("re-export-cycle"@) {
        "re-export-cycle"@
    } else if has_star {
        "missing-reexport"@
    } else {
        "missing-export"@
    }
}

/// The outcome of what the bindings of a name gathered.
pub open spec fn finish(g: Gathered, has_star: bool) -> OutcomeView {
    let cands = set_sorted(g.0);
    let ns = set_sorted(g.1);
    if g.0.len() == 0 && g.1.len() == 0 {
        if g.2 {
            ("external"@, "external-reexport"@, Seq::empty(), Seq::empty(), g.5)
        } else {
            unresolved_view(empty_reason(g.3, has_star))
        }
    } else if cands.len() > 1 {
        (
            "ambiguous"@,
            if has_star {
                "ambiguous-star-reexport"@
            } else {
                "ambiguous-reexport"@
            },
            cands,
            ns,
            g.5,
        )
    } else if cands.len() == 1 {
        (
            "resolved"@,
            if g.4 || g.3.contains("re-export-binding"@) || has_star {
                "re-export-binding"@
            } else {
                "local-export-binding"@
            },
            cands,
            ns,
            g.5,
        )
    } else {
        ("resolved"@, "namespace-reexport"@, Seq::empty(), ns, g.5)
    }
}

/// The outcome of resolving `name` exported by the module at `path`, with the cache
/// after it: a cycle or the depth limit where the stack says so, the cached outcome where
/// there is one, and otherwise what the bindings of the name (or of `*`, where the name
/// has none) yield.
pub open spec fn export_outcome(
    r: ResolutionContext,
    path: Seq<char>,
    name: Seq<char>,
    stack: Seq<ExportKey>,
    cache: CacheView,
) -> (OutcomeView, CacheView)
    decreases depth_measure(stack), 0nat,
{
    let key = (path, name);
    if stack.contains(key) {
        (unresolved_view("re-export-cycle"@), cache)
    } else if stack.len() >= MAX_REEXPORT_DEPTH {
        (unresolved_view("re-export-depth-capped"@), cache)
    } else {
        match cache_get(cache, key) {
            Some(o) => (o, cache),
            None => match exports_of(r.module_exports@, path) {
                None => {
                    let o = unresolved_view("missing-relative-module"@);
                    (o, cache_record(cache, key, o))
                },
                Some(exports) => {
                    let explicit = bindings_for(exports@, name);
                    let bindings = if explicit.len() == 0 {
                        bindings_for(exports@, "*"@)
                    } else {
                        explicit
                    };
                    let has_star = explicit.len() == 0 && bindings.len() > 0;
                    let folded = fold_bindings(r, path, name, bindings, bindings.len(), stack.push(key), cache);
                    let o = finish(folded.0, has_star);
                    (o, cache_record(folded.1, key, o))
                },
            },
        }
    }
}

fn stack_contains(stack: &Vec<(String, String)>, path: &str, name: &str) -> (r: bool)
    ensures
        r == key_views(stack@).contains((path@, name@)),
{
    let mut i: usize = 0;
    while i < stack.len()
        invariant
            i <= stack@.len(),
            forall|k: int| 0 <= k < i ==> #[trigger] key_views(stack@)[k] != (path@, name@),
        decreases stack@.len() - i,
    {
        if str_eq(stack[i].0.as_str(), path) && str_eq(stack[i].1.as_str(), name) {
            assert(key_views(stack@)[i as int] == (path@, name@));
            return true;
        }
        i = i + 1;
    }
    false
}

fn cache_lookup(cache: &Vec<((String, String), ResolutionOutcome)>, path: &str, name: &str) -> (r: Option<ResolutionOutcome>)
    ensures
        match cache_get(cache_views(cache@), (path@, name@)) {
            Some(o) => r matches Some(x) && outcome_view(x) == o,
            None => r is None,
        },
{
    let ghost cv = cache_views(cache@);
    let mut i: usize = 0;
    assert(cv.skip(0) =~= cv);
    while i < cache.len()
        invariant
            i <= cache@.len(),
            cv == cache_views(cache@),
            cache_get(cv, (path@, name@)) == cache_get(cv.skip(i as int), (path@, name@)),
        decreases cache@.len() - i,
    {
        assert(cv.skip(i as int)[0] == cv[i as int]);
        assert(cv.skip(i as int).drop_first() =~= cv.skip(i as int + 1));
        if str_eq(cache[i].0.0.as_str(), path) && str_eq(cache[i].0.1.as_str(), name) {
            return Some(cache[i].1.clone());
        }
        i = i + 1;
    }
    None
}

proof fn lemma_cache_insert_at(cache: CacheView, key: ExportKey, value: OutcomeView, i: int)
    requires
        0 <= i < cache.len(),
        cache[i].0 == key,
        forall|k: int| 0 <= k < i ==> #[trigger] cache[k].0 != key,
    ensures
        cache_insert(cache, key, value) == cache.update(i, (key, value)),
    decreases cache.len(),
{
    if i > 0 {
        lemma_cache_insert_at(cache.drop_first(), key, value, i - 1);
        assert(seq![cache[0]] + cache.drop_first().update(i - 1, (key, value)) =~= cache.update(i, (key, value)));
    }
}

proof fn lemma_cache_insert_new(cache: CacheView, key: ExportKey, value: OutcomeView)
    requires
        forall|k: int| 0 <= k < cache.len() ==> #[trigger] cache[k].0 != key,
    ensures
        cache_insert(cache, key, value) == cache.push((key, value)),
    decreases cache.len(),
{
    if cache.len() > 0 {
        lemma_cache_insert_new(cache.drop_first(), key, value);
        assert(seq![cache[0]] + cache.drop_first().push((key, value)) =~= cache.push((key, value)));
    } else {
        assert(seq![(key, value)] =~= cache.push((key, value)));
    }
}

fn record_outcome(cache: &mut Vec<((String, String), ResolutionOutcome)>, path: &str, name: &str, outcome: &ResolutionOutcome)
    ensures
        cache_views(final(cache)@) == cache_record(cache_views(old(cache)@), (path@, name@), outcome_view(*outcome)),
{
    if cache.len() >= MAX_RESOLUTION_RECORDS {
        return;
    }
    let ghost cv = cache_views(cache@);
    let ghost key = (path@, name@);
    let mut i: usize = 0;
    while i < cache.len()
        invariant
            i <= cache@.len(),
            cache@.len() < MAX_RESOLUTION_RECORDS,
            cv == cache_views(cache@),
            cv == cache_views(old(cache)@),
            key == (path@, name@),
            forall|k: int| 0 <= k < i ==> #[trigger] cv[k].0 != key,
        decreases cache@.len() - i,
    {
        if str_eq(cache[i].0.0.as_str(), path) && str_eq(cache[i].0.1.as_str(), name) {
            proof {
                lemma_cache_insert_at(cv, key, outcome_view(*outcome), i as int);
            }
            let entry = ((path.to_string(), name.to_string()), outcome.clone());
            cache.set(i, entry);
            assert(cache_views(cache@) =~= cv.update(i as int, (key, outcome_view(*outcome))));
            return;
        }
        i = i + 1;
    }
    proof {
        lemma_cache_insert_new(cv, key, outcome_view(*outcome));
    }
    cache.push(((path.to_string(), name.to_string()), outcome.clone()));
    assert(cache_views(cache@) =~= cv.push((key, outcome_view(*outcome))));
}

fn find_exports(table: &Vec<(String, Vec<(String, Vec<ExportBinding>)>)>, path: &str) -> (r: Option<usize>)
    ensures
        match r {
            Some(k) => k < table@.len() && exports_of(table@, path@) == Some(table@[k as int].1),
            None => exports_of(table@, path@) is None,
        },
{
    let mut i: usize = 0;
    assert(table@.skip(0) =~= table@);
    while i < table.len()
        invariant
            i <= table@.len(),
            exports_of(table@, path@) == exports_of(table@.skip(i as int), path@),
        decreases table@.len() - i,
    {
        assert(table@.skip(i as int)[0] == table@[i as int]);
        assert(table@.skip(i as int).drop_first() =~= table@.skip(i as int + 1));
        if str_eq(table[i].0.as_str(), path) {
            return Some(i);
        }
        i = i + 1;
    }
    None
}

fn find_name(exports: &Vec<(String, Vec<ExportBinding>)>, name: &str) -> (r: Option<usize>)
    ensures
        match r {
            Some(k) => k < exports@.len() && bindings_for(exports@, name@) == exports@[k as int].1@,
            None => bindings_for(exports@, name@) == Seq::<ExportBinding>::empty(),
        },
{
    let mut i: usize = 0;
    assert(exports@.skip(0) =~= exports@);
    while i < exports.len()
        invariant
            i <= exports@.len(),
            bindings_for(exports@, name@) == bindings_for(exports@.skip(i as int), name@),
        decreases exports@.len() - i,
    {
        assert(exports@.skip(i as int)[0] == exports@[i as int]);
        assert(exports@.skip(i as int).drop_first() =~= exports@.skip(i as int + 1));
        if str_eq(exports[i].0.as_str(), name) {
            return Some(i);
        }
        i = i + 1;
    }
    None
}

/// Appends copies of `items` to `out`.
pub fn append_all(out: &mut Vec<String>, items: &Vec<String>)
    ensures
        views(final(out)@) == views(old(out)@) + views(items@),
{
    let ghost o0 = views(out@);
    let mut i: usize = 0;
    while i < items.len()
        invariant
            i <= items@.len(),
            views(out@) == o0 + views(items@.take(i as int)),
        decreases items@.len() - i,
    {
        let ghost before = views(out@);
        out.push(items[i].clone());
        assert(views(out@) =~= before.push(items@[i as int]@));
        assert(views(items@.take(i as int + 1)) =~= views(items@.take(i as int)).push(items@[i as int]@));
        i = i + 1;
    }
    assert(items@.take(items@.len() as int) =~= items@);
}

fn distinct_sorted(items: Vec<String>) -> (r: Vec<String>)
    ensures
        views(r@) == set_sorted(views(items@)),
{
    let r = sorted_unique(items);
    proof {
        let t = set_sorted(views(items@));
        assert(strictly_sorted(t) && t.to_set() == views(items@).to_set());
        lemma_strictly_sorted_unique(views(r@), t);
    }
    r
}

fn finish_outcome(
    candidates: Vec<String>,
    namespaces: Vec<String>,
    saw_external: bool,
    reasons: &Vec<String>,
    traversed: bool,
    type_only: bool,
    has_star: bool,
) -> (r: ResolutionOutcome)
    ensures
        outcome_view(r) == finish(
            (views(candidates@), views(namespaces@), saw_external, views(reasons@), traversed, type_only),
            has_star,
        ),
{
    let ghost g = (views(candidates@), views(namespaces@), saw_external, views(reasons@), traversed, type_only);
    let nothing = candidates.len() == 0 && namespaces.len() == 0;
    let candidates = distinct_sorted(candidates);
    let namespaces = distinct_sorted(namespaces);
    if nothing {
        if saw_external {
            return ResolutionOutcome {
                status: "external".to_string(),
                reason: "external-reexport".to_string(),
                candidates: Vec::new(),
                namespace_modules: Vec::new(),
                type_only,
            };
        }
        let reason = if contains_str(reasons, "type-only-export") {
            "type-only-export"
        } else if contains_str(reasons, "re-export-depth-capped") {
            "re-export-depth-capped"
        } else if contains_str(reasons, "re-export-cycle") {
            "re-export-cycle"
        } else if has_star {
            "missing-reexport"
        } else {
            "missing-export"
        };
        return unresolved(reason);
    }
    if candidates.len() > 1 {
        let reason = if has_star {
            "ambiguous-star-reexport"
        } else {
            "ambiguous-reexport"
        };
        ResolutionOutcome {
            status: "ambiguous".to_string(),
            reason: reason.to_string(),
            candidates,
            namespace_modules: namespaces,
            type_only,
        }
    } else if candidates.len() == 1 {
        let reason = if traversed || contains_str(reasons, "re-export-binding") || has_star {
            "re-export-binding"
        } else {
            "local-export-binding"
        };
        ResolutionOutcome {
            status: "resolved".to_string(),
            reason: reason.to_string(),
            candidates,
            namespace_modules: namespaces,
            type_only,
        }
    } else {
        ResolutionOutcome {
            status: "resolved".to_string(),
            reason: "namespace-reexport".to_string(),
            candidates: Vec::new(),
            namespace_modules: namespaces,
            type_only,
        }
    }
}

/// Resolves `name` exported by the module at `path`: follows forwarded, star and
/// namespace re-exports, reports a cycle through `stack` or a chain deeper than
/// `MAX_REEXPORT_DEPTH`, and reads and fills `cache`.
pub fn resolve_export(
    path: &str,
    name: &str,
    resolution: &ResolutionContext,
    stack: &mut Vec<(String, String)>,
    cache: &mut Vec<((String, String), ResolutionOutcome)>,
) -> (r: ResolutionOutcome)
    requires
        resolution.module_resolver.wf(),
    ensures
        key_views(final(stack)@) == key_views(old(stack)@),
        (outcome_view(r), cache_views(final(cache)@)) == export_outcome(
            *resolution,
            path@,
            name@,
            key_views(old(stack)@),
            cache_views(old(cache)@),
        ),
    decreases depth_measure(key_views(old(stack)@)),
{
    let ghost s0 = key_views(stack@);
    let ghost c0 = cache_views(cache@);
    if stack_contains(stack, path, name) {
        return unresolved("re-export-cycle");
    }
    if stack.len() >= MAX_REEXPORT_DEPTH {
        return unresolved("re-export-depth-capped");
    }
    match cache_lookup(cache, path, name) {
        Some(cached) => {
            return cached;
        },
        None => {},
    }
    let exports = match find_exports(&resolution.module_exports, path) {
        None => {
            let result = unresolved("missing-relative-module");
            record_outcome(cache, path, name, &result);
            return result;
        },
        Some(k) => &resolution.module_exports[k].1,
    };
    let named = find_name(exports, name);
    let explicit_is_empty = match named {
        Some(k) => exports[k].1.len() == 0,
        None => true,
    };
    let chosen = if explicit_is_empty {
        find_name(exports, "*")
    } else {
        named
    };
    let no_bindings: Vec<ExportBinding> = Vec::new();
    let bindings: &Vec<ExportBinding> = match chosen {
        Some(k) => &exports[k].1,
        None => &no_bindings,
    };
    let has_star = explicit_is_empty && bindings.len() > 0;
    stack.push((path.to_string(), name.to_string()));
    let ghost s1 = key_views(stack@);
    assert(s1 =~= s0.push((path@, name@)));
    let mut candidates: Vec<String> = Vec::new();
    let mut namespaces: Vec<String> = Vec::new();
    let mut saw_external = false;
    let mut reasons: Vec<String> = Vec::new();
    let mut traversed = false;
    let mut type_only = false;
    let mut i: usize = 0;
    assert(views(candidates@) =~= Seq::<Seq<char>>::empty());
    assert(views(namespaces@) =~= Seq::<Seq<char>>::empty());
    assert(views(reasons@) =~= Seq::<Seq<char>>::empty());
    while i < bindings.len()
        invariant
            i <= bindings@.len(),
            resolution.module_resolver.wf(),
            key_views(stack@) == s1,
            s0 == key_views(old(stack)@),
            c0 == cache_views(old(cache)@),
            s1 == s0.push((path@, name@)),
            s0.len() < MAX_REEXPORT_DEPTH,
            ((views(candidates@), views(namespaces@), saw_external, views(reasons@), traversed, type_only), cache_views(
                cache@,
            )) == fold_bindings(*resolution, path@, name@, bindings@, i as nat, s1, c0),
        decreases bindings@.len() - i,
    {
        let ghost g = (views(candidates@), views(namespaces@), saw_external, views(reasons@), traversed, type_only);
        let ghost c = cache_views(cache@);
        match &bindings[i] {
            ExportBinding::Local(ids) => {
                append_all(&mut candidates, ids);
            },
            ExportBinding::TypeOnly { ids } => {
                type_only = true;
                append_all(&mut candidates, ids);
                let ghost rb = views(reasons@);
                reasons.push("type-only-export".to_string());
                assert(views(reasons@) =~= rb.push("type-only-export"@));
            },
            ExportBinding::Namespace { source, type_only: binding_type_only } => {
                type_only = type_only || *binding_type_only;
                traversed = true;
                match resolve_import_module(path, source.as_str(), resolution) {
                    Some(target) => {
                        let ghost nb = views(namespaces@);
                        namespaces.push(target);
                        assert(views(namespaces@) =~= nb.push(views(namespaces@).last()));
                    },
                    None => {
                        let outcome = resolve_external_or_unresolved(source.as_str(), resolution);
                        saw_external = saw_external || str_eq(outcome.status.as_str(), "external");
                        let ghost rb = views(reasons@);
                        reasons.push(outcome.reason);
                        assert(views(reasons@) =~= rb.push(views(reasons@).last()));
                    },
                }
            },
            ExportBinding::Forward { source, name: target_name, type_only: binding_type_only } => {
                type_only = type_only || *binding_type_only;
                traversed = true;
                match resolve_import_module(path, source.as_str(), resolution) {
                    Some(target) => {
                        let outcome = resolve_export(target.as_str(), target_name.as_str(), resolution, stack, cache);
                        append_all(&mut candidates, &outcome.candidates);
                        append_all(&mut namespaces, &outcome.namespace_modules);
                        type_only = type_only || outcome.type_only;
                        let ghost rb = views(reasons@);
                        reasons.push(outcome.reason);
                        assert(views(reasons@) =~= rb.push(views(reasons@).last()));
                    },
                    None => {
                        let outcome = resolve_external_or_unresolved(source.as_str(), resolution);
                        saw_external = saw_external || str_eq(outcome.status.as_str(), "external");
                        let ghost rb = views(reasons@);
                        reasons.push(outcome.reason);
                        assert(views(reasons@) =~= rb.push(views(reasons@).last()));
                    },
                }
            },
            ExportBinding::Star { source, type_only: binding_type_only } => {
                type_only = type_only || *binding_type_only;
                traversed = true;
                if !str_eq(name, "default") {
                    match resolve_import_module(path, source.as_str(), resolution) {
                        Some(target) => {
                            let outcome = resolve_export(target.as_str(), name, resolution, stack, cache);
                            append_all(&mut candidates, &outcome.candidates);
                            append_all(&mut namespaces, &outcome.namespace_modules);
                            type_only = type_only || outcome.type_only;
                            let ghost rb = views(reasons@);
                            reasons.push(outcome.reason);
                            assert(views(reasons@) =~= rb.push(views(reasons@).last()));
                        },
                        None => {
                            let outcome = resolve_external_or_unresolved(source.as_str(), resolution);
                            saw_external = saw_external || str_eq(outcome.status.as_str(), "external");
                            let ghost rb = views(reasons@);
                            reasons.push(outcome.reason);
                            assert(views(reasons@) =~= rb.push(views(reasons@).last()));
                        },
                    }
                }
            },
        }
        i = i + 1;
    }
    let ghost before = stack@;
    stack.pop();
    assert(stack@ =~= before.drop_last());
    assert(key_views(before) == s1);
    assert forall|j: int| 0 <= j < s0.len() implies #[trigger] key_views(stack@)[j] == s0[j] by {
        assert(key_views(before)[j] == s1[j]);
        assert(stack@[j] == before[j]);
    }
    assert(key_views(stack@) =~= s0);
    let result = finish_outcome(candidates, namespaces, saw_external, &reasons, traversed, type_only, has_star);
    record_outcome(cache, path, name, &result);
    result
}

} // verus!
