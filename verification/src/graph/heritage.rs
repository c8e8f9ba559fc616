//! The `extends` and `implements` edges of the graph, and the resolution record of every
//! heritage clause.

use vstd::prelude::*;

use super::call_edges::{find_char, record_view, record_views, same_but_records, EdgeView, RecordView};
use super::calls::{binding_imports, find_key, import_raw, lookup, name_or_default, resolve_import_raw, symbol_ids};
use super::exports::{cache_views, set_sorted, unresolved_view, CacheView, OutcomeView};
use super::fingerprints::{node_id, spec_node_id};
use super::import_targets::lemma_sorted_is_set_sorted;
use super::imports::ResolutionContext;
use super::resolution_records::{coalesce_resolutions, coalesced};
use super::structure::{edge_view, edge_views};
use super::targets::{kind_of, lookup_kind, outcome_view, unique_or_unresolved, unresolved, unresolved_with_status, ResolutionOutcome};
use crate::model::graph::GraphEdge;
use crate::model::typescript::{SymbolResolution, TypeScriptFacts, TypeScriptHeritage, TypeScriptImport};
use crate::order::sorted_unique;
use crate::text::{chars_of, opt_str_eq, seq_starts_with, starts_with, str_eq, string_from, views};

verus! {

broadcast use vstd::string::group_string_axioms;

/// The imports that bind `receiver` as a value namespace, in order.
pub open spec fn namespace_imports(imports: Seq<TypeScriptImport>, receiver: Seq<char>) -> Seq<TypeScriptImport>
    decreases imports.len(),
{
    if imports.len() == 0 {
        Seq::empty()
    } else {
        let i = imports.last();
        if i.local_name matches Some(n) && n@ == receiver && i.kind@ == "namespace-import"@ && !i.type_only {
            namespace_imports(imports.drop_last(), receiver).push(i)
        } else {
            namespace_imports(imports.drop_last(), receiver)
        }
    }
}

/// The declaration that a heritage clause of the file at `path` names, with the cache
/// after it.
pub open spec fn type_reference(
    r: ResolutionContext,
    path: Seq<char>,
    h: TypeScriptHeritage,
    imports: Seq<TypeScriptImport>,
    cache: CacheView,
) -> (OutcomeView, CacheView) {
    let reference = h.reference@;
    if h.form@ == "dynamic"@ {
        (unresolved_view("dynamic-heritage-unsupported"@), cache)
    } else if h.form@ == "identifier"@ {
        let local = match symbol_ids(r, path, reference) {
            Some(ids) => ids,
            None => Seq::empty(),
        };
        let ms = binding_imports(imports, reference);
        if local.len() == 1 {
            (("resolved"@, "local-heritage-binding"@, local, Seq::empty(), false), cache)
        } else if local.len() > 1 {
            (("ambiguous"@, "ambiguous-symbol"@, local, Seq::empty(), false), cache)
        } else if ms.len() > 1 {
            (("ambiguous"@, "ambiguous-import-binding"@, Seq::empty(), Seq::empty(), false), cache)
        } else if ms.len() == 0 {
            (unresolved_view("missing-heritage-binding"@), cache)
        } else if ms[0].kind@ == "namespace-import"@ {
            (unresolved_view("namespace-heritage-binding"@), cache)
        } else {
            let o = import_raw(r, path, ms[0], name_or_default(ms[0].imported_name), cache);
            if o.0.4 && seq_starts_with(h.owner@, "class:"@) && h.relation@ == "extends"@ {
                (unresolved_view("type-only-extends-binding"@), o.1)
            } else {
                o
            }
        }
    } else {
        match find_char(reference, '.') {
            None => (unresolved_view("unsupported-heritage-reference"@), cache),
            Some(i) => {
                let ms = namespace_imports(imports, reference.take(i));
                if ms.len() > 1 {
                    (("ambiguous"@, "ambiguous-import-binding"@, Seq::empty(), Seq::empty(), false), cache)
                } else if ms.len() == 0 {
                    (unresolved_view("unsupported-heritage-reference"@), cache)
                } else {
                    import_raw(r, path, ms[0], reference.skip(i + 1), cache)
                }
            },
        }
    }
}

/// Whether a node of kind `kind` can be the target of the heritage clause `h`: a class
/// extends a class; otherwise a class or an interface is extended or implemented.
pub open spec fn allowed_target(h: TypeScriptHeritage, kind: Seq<char>) -> bool {
    let owner_kind = match find_char(h.owner@, ':') {
        Some(i) => Some(h.owner@.take(i)),
        None => None,
    };
    if owner_kind == Some("class"@) && h.relation@ == "extends"@ {
        kind == "class"@
    } else if h.relation@ == "implements"@ || h.relation@ == "extends"@ {
        kind == "class"@ || kind == "interface"@
    } else {
        false
    }
}

/// The candidates whose recorded kind the heritage clause allows, in order.
pub open spec fn allowed_targets(ids: Seq<Seq<char>>, h: TypeScriptHeritage, kinds: Seq<(String, String)>) -> Seq<Seq<char>>
    decreases ids.len(),
{
    if ids.len() == 0 {
        Seq::empty()
    } else if kind_of(kinds, ids.last()) matches Some(k) && allowed_target(h, k) {
        allowed_targets(ids.drop_last(), h, kinds).push(ids.last())
    } else {
        allowed_targets(ids.drop_last(), h, kinds)
    }
}

/// The outcome of a heritage clause: a resolved reference keeps only the targets that
/// its kind allows, and is ambiguous or unresolved where that leaves several or none.
pub open spec fn heritage_outcome(
    r: ResolutionContext,
    path: Seq<char>,
    h: TypeScriptHeritage,
    imports: Seq<TypeScriptImport>,
    cache: CacheView,
) -> (OutcomeView, CacheView) {
    let t = type_reference(r, path, h, imports, cache);
    let o = t.0;
    if o.0 == "resolved"@ {
        let c = set_sorted(allowed_targets(o.2, h, r.symbol_kinds@));
        if c.len() > 1 {
            (("ambiguous"@, "ambiguous-heritage-target"@, c, o.3, o.4), t.1)
        } else if c.len() == 0 {
            (("unresolved"@, "unsupported-heritage-target-kind"@, c, o.3, o.4), t.1)
        } else {
            ((o.0, o.1, c, o.3, o.4), t.1)
        }
    } else {
        t
    }
}

/// What one heritage clause of the file at `path` yields: its record, its edge where it
/// resolved, and the cache after it.
pub open spec fn clause_effect(
    r: ResolutionContext,
    path: Seq<char>,
    h: TypeScriptHeritage,
    imports: Seq<TypeScriptImport>,
    cache: CacheView,
) -> (RecordView, Option<EdgeView>, CacheView) {
    let owner = spec_node_id("symbol"@, path, h.owner@);
    let o = heritage_outcome(r, path, h, imports, cache);
    let edge = if o.0.0 == "resolved"@ && o.0.2.len() > 0 {
        Some((owner, o.0.2[0], h.relation@, "typescript-heritage-"@ + h.relation@))
    } else {
        None
    };
    let form = "heritage-"@ + h.relation@ + "-"@ + h.form@;
    ((path, owner, h.reference@, form, o.0.0, o.0.1, o.0.2, 1u64), edge, o.1)
}

/// The records and edges of the first heritage clauses of one file, with the cache after
/// them.
pub open spec fn file_heritage(
    r: ResolutionContext,
    path: Seq<char>,
    clauses: Seq<TypeScriptHeritage>,
    imports: Seq<TypeScriptImport>,
    cache: CacheView,
) -> (Seq<RecordView>, Seq<EdgeView>, CacheView)
    decreases clauses.len(),
{
    if clauses.len() == 0 {
        (Seq::empty(), Seq::empty(), cache)
    } else {
        let prev = file_heritage(r, path, clauses.drop_last(), imports, cache);
        let e = clause_effect(r, path, clauses.last(), imports, prev.2);
        (
            prev.0.push(e.0),
            match e.1 {
                Some(edge) => prev.1.push(edge),
                None => prev.1,
            },
            e.2,
        )
    }
}

/// For each file, the records of its heritage clauses, the edges of all files, and the
/// cache after them.
pub open spec fn heritage_fold(r: ResolutionContext, facts: Seq<TypeScriptFacts>, cache: CacheView) -> (
    Seq<Seq<RecordView>>,
    Seq<EdgeView>,
    CacheView,
)
    decreases facts.len(),
{
    if facts.len() == 0 {
        (Seq::empty(), Seq::empty(), cache)
    } else {
        let prev = heritage_fold(r, facts.drop_last(), cache);
        let f = facts.last();
        let fh = file_heritage(r, f.path@, f.heritage@, f.imports@, prev.2);
        (prev.0.push(fh.0), prev.1 + fh.1, fh.2)
    }
}

/// The facts `b` are `a` with the records `added` appended to its records and the whole
/// coalesced.
pub open spec fn records_extended(a: TypeScriptFacts, b: TypeScriptFacts, added: Seq<RecordView>) -> bool {
    &&& same_but_records(a, b)
    &&& exists|rs: Seq<SymbolResolution>|
        record_views(rs) == record_views(a.resolution_records@) + added && coalesced(b.resolution_records@, rs)
}

fn namespace_import_of(imports: &[TypeScriptImport], receiver: &str) -> (r: (usize, Option<usize>))
    ensures
        r.0 == namespace_imports(imports@, receiver@).len(),
        match r.1 {
            Some(k) => k < imports@.len() && r.0 > 0 && imports@[k as int] == namespace_imports(imports@, receiver@)[0],
            None => r.0 == 0,
        },
{
    let mut count: usize = 0;
    let mut first: Option<usize> = None;
    let mut i: usize = 0;
    while i < imports.len()
        invariant
            i <= imports@.len(),
            count == namespace_imports(imports@.take(i as int), receiver@).len(),
            count <= i,
            match first {
                Some(k) => k < imports@.len() && count > 0 && imports@[k as int] == namespace_imports(
                    imports@.take(i as int),
                    receiver@,
                )[0],
                None => count == 0,
            },
        decreases imports@.len() - i,
    {
        assert(imports@.take(i as int + 1).drop_last() =~= imports@.take(i as int));
        assert(imports@.take(i as int + 1).last() == imports@[i as int]);
        let im = &imports[i];
        if opt_str_eq(&im.local_name, receiver) && str_eq(im.kind.as_str(), "namespace-import") && !im.type_only {
            if first.is_none() {
                first = Some(i);
            }
            count = count + 1;
        }
        i = i + 1;
    }
    assert(imports@.take(imports@.len() as int) =~= imports@);
    (count, first)
}

fn first_dot(chars: &Vec<char>) -> (r: Option<usize>)
    ensures
        match r {
            Some(i) => find_char(chars@, '.') == Some(i as int) && i < chars@.len(),
            None => find_char(chars@, '.') is None,
        },
{
    let mut i: usize = 0;
    assert(chars@.skip(0) =~= chars@);
    while i < chars.len()
        invariant
            i <= chars@.len(),
            find_char(chars@, '.') == match find_char(chars@.skip(i as int), '.') {
                Some(j) => Some(j + i),
                None => None,
            },
        decreases chars@.len() - i,
    {
        assert(chars@.skip(i as int)[0] == chars@[i as int]);
        assert(chars@.skip(i as int).drop_first() =~= chars@.skip(i as int + 1));
        if chars[i] == '.' {
            return Some(i);
        }
        i = i + 1;
    }
    None
}

fn take_chars(chars: &Vec<char>, n: usize) -> (s: String)
    requires
        n <= chars@.len(),
    ensures
        s@ == chars@.take(n as int),
{
    let mut taken: Vec<char> = Vec::new();
    let mut i: usize = 0;
    while i < n
        invariant
            i <= n <= chars@.len(),
            taken@ == chars@.take(i as int),
        decreases n - i,
    {
        taken.push(chars[i]);
        assert(taken@ =~= chars@.take(i as int + 1));
        i = i + 1;
    }
    crate::text::string_of(taken.as_slice())
}

/// Resolves the declaration that a heritage clause of the file at `path` names: a
/// declaration of the same file, an imported binding, or a member of an imported
/// namespace.
pub fn resolve_type_reference(
    path: &str,
    heritage: &TypeScriptHeritage,
    imports: &[TypeScriptImport],
    resolution: &ResolutionContext,
    export_cache: &mut Vec<((String, String), ResolutionOutcome)>,
) -> (r: ResolutionOutcome)
    requires
        resolution.module_resolver.wf(),
    ensures
        (outcome_view(r), cache_views(final(export_cache)@)) == type_reference(
            *resolution,
            path@,
            *heritage,
            imports@,
            cache_views(old(export_cache)@),
        ),
{
    if str_eq(heritage.form.as_str(), "dynamic") {
        return unresolved("dynamic-heritage-unsupported");
    }
    let reference = heritage.reference.as_str();
    if str_eq(heritage.form.as_str(), "identifier") {
        let local = match find_key(&resolution.symbols_by_path, path) {
            None => Vec::new(),
            Some(k) => {
                let table = &resolution.symbols_by_path[k].1;
                match find_key(table, reference) {
                    None => Vec::new(),
                    Some(j) => table[j].1.clone(),
                }
            },
        };
        assert(views(local@) == match symbol_ids(*resolution, path@, reference@) {
            Some(ids) => ids,
            None => Seq::<Seq<char>>::empty(),
        });
        if local.len() > 0 {
            return unique_or_unresolved(local, "local-heritage-binding");
        }
        let (count, first) = super::calls::find_binding_imports(imports, reference);
        if count > 1 {
            return unresolved_with_status("ambiguous-import-binding", "ambiguous");
        }
        let import = match first {
            None => {
                return unresolved("missing-heritage-binding");
            },
            Some(k) => &imports[k],
        };
        if str_eq(import.kind.as_str(), "namespace-import") {
            return unresolved("namespace-heritage-binding");
        }
        let name = match &import.imported_name {
            Some(n) => n.as_str(),
            None => "default",
        };
        let result = resolve_import_raw(path, import, name, resolution, export_cache);
        if result.type_only && starts_with(heritage.owner.as_str(), "class:") && str_eq(
            heritage.relation.as_str(),
            "extends",
        ) {
            return unresolved("type-only-extends-binding");
        }
        return result;
    }
    let chars = chars_of(reference);
    let i = match first_dot(&chars) {
        None => {
            return unresolved("unsupported-heritage-reference");
        },
        Some(i) => i,
    };
    let receiver = take_chars(&chars, i);
    let property = string_from(&chars, i + 1);
    let (count, first) = namespace_import_of(imports, receiver.as_str());
    if count > 1 {
        return unresolved_with_status("ambiguous-import-binding", "ambiguous");
    }
    let import = match first {
        None => {
            return unresolved("unsupported-heritage-reference");
        },
        Some(k) => &imports[k],
    };
    resolve_import_raw(path, import, property.as_str(), resolution, export_cache)
}

fn allowed_target_kind(heritage: &TypeScriptHeritage, kind: &str) -> (r: bool)
    ensures
        r == allowed_target(*heritage, kind@),
{
    let owner = chars_of(heritage.owner.as_str());
    let class_owner = match first_colon(&owner) {
        Some(i) => {
            let k = take_chars(&owner, i);
            str_eq(k.as_str(), "class")
        },
        None => false,
    };
    let relation = heritage.relation.as_str();
    if class_owner && str_eq(relation, "extends") {
        str_eq(kind, "class")
    } else if str_eq(relation, "implements") || str_eq(relation, "extends") {
        str_eq(kind, "class") || str_eq(kind, "interface")
    } else {
        false
    }
}

fn first_colon(chars: &Vec<char>) -> (r: Option<usize>)
    ensures
        match r {
            Some(i) => find_char(chars@, ':') == Some(i as int) && i < chars@.len(),
            None => find_char(chars@, ':') is None,
        },
{
    let mut i: usize = 0;
    assert(chars@.skip(0) =~= chars@);
    while i < chars.len()
        invariant
            i <= chars@.len(),
            find_char(chars@, ':') == match find_char(chars@.skip(i as int), ':') {
                Some(j) => Some(j + i),
                None => None,
            },
        decreases chars@.len() - i,
    {
        assert(chars@.skip(i as int)[0] == chars@[i as int]);
        assert(chars@.skip(i as int).drop_first() =~= chars@.skip(i as int + 1));
        if chars[i] == ':' {
            return Some(i);
        }
        i = i + 1;
    }
    None
}

/// The names of a list of kinds.
pub open spec fn kind_names(kinds: Seq<&str>) -> Seq<Seq<char>> {
    kinds.map_values(|x: &str| x@)
}

/// The kinds of node that the heritage clause `h` can target: a class extends a class;
/// otherwise a class or an interface is extended or implemented; nothing else.
pub fn heritage_target_kinds(heritage: &TypeScriptHeritage) -> (r: Vec<&'static str>)
    ensures
        forall|k: Seq<char>| #[trigger] kind_names(r@).contains(k) <==> allowed_target(*heritage, k),
{
    let relation = heritage.relation.as_str();
    let owner = chars_of(heritage.owner.as_str());
    let class_owner = match first_colon(&owner) {
        Some(i) => {
            let k = take_chars(&owner, i);
            str_eq(k.as_str(), "class")
        },
        None => false,
    };
    let class_extends = class_owner && str_eq(relation, "extends");
    let mut r: Vec<&'static str> = Vec::new();
    if class_extends {
        r.push("class");
    } else if str_eq(relation, "implements") || str_eq(relation, "extends") {
        r.push("class");
        r.push("interface");
    }
    proof {
        reveal_strlit("class");
        reveal_strlit("interface");
        let v = kind_names(r@);
        assert forall|k: Seq<char>| #[trigger] v.contains(k) <==> allowed_target(*heritage, k) by {
            if class_extends {
                assert(v =~= seq!["class"@]);
                if k == "class"@ {
                    assert(v[0] == k);
                }
            } else if relation@ == "implements"@ || relation@ == "extends"@ {
                assert(v =~= seq!["class"@, "interface"@]);
                if k == "class"@ {
                    assert(v[0] == k);
                }
                if k == "interface"@ {
                    assert(v[1] == k);
                }
            } else {
                assert(v =~= Seq::<Seq<char>>::empty());
            }
        }
    }
    r
}

fn allowed_of(ids: &Vec<String>, heritage: &TypeScriptHeritage, kinds: &Vec<(String, String)>) -> (r: Vec<String>)
    ensures
        views(r@) == allowed_targets(views(ids@), *heritage, kinds@),
{
    let mut r: Vec<String> = Vec::new();
    let mut i: usize = 0;
    while i < ids.len()
        invariant
            i <= ids@.len(),
            views(r@) == allowed_targets(views(ids@).take(i as int), *heritage, kinds@),
        decreases ids@.len() - i,
    {
        assert(views(ids@).take(i as int + 1).drop_last() =~= views(ids@).take(i as int));
        let keep = match lookup_kind(kinds, ids[i].as_str()) {
            Some(k) => allowed_target_kind(heritage, k.as_str()),
            None => false,
        };
        if keep {
            let ghost before = views(r@);
            r.push(ids[i].clone());
            assert(views(r@) =~= before.push(ids@[i as int]@));
        }
        i = i + 1;
    }
    assert(views(ids@).take(ids@.len() as int) =~= views(ids@));
    r
}

/// Resolves a heritage clause and keeps only the targets its kind allows.
pub fn resolve_heritage_clause(
    path: &str,
    heritage: &TypeScriptHeritage,
    imports: &[TypeScriptImport],
    resolution: &ResolutionContext,
    export_cache: &mut Vec<((String, String), ResolutionOutcome)>,
) -> (r: ResolutionOutcome)
    requires
        resolution.module_resolver.wf(),
    ensures
        (outcome_view(r), cache_views(final(export_cache)@)) == heritage_outcome(
            *resolution,
            path@,
            *heritage,
            imports@,
            cache_views(old(export_cache)@),
        ),
{
    let outcome = resolve_type_reference(path, heritage, imports, resolution, export_cache);
    if !str_eq(outcome.status.as_str(), "resolved") {
        return outcome;
    }
    let ResolutionOutcome { status, reason, candidates, namespace_modules, type_only } = outcome;
    let kept = allowed_of(&candidates, heritage, &resolution.symbol_kinds);
    let ghost kv = views(kept@);
    let sorted = sorted_unique(kept);
    proof {
        lemma_sorted_is_set_sorted(views(sorted@), kv);
    }
    if sorted.len() > 1 {
        ResolutionOutcome {
            status: "ambiguous".to_string(),
            reason: "ambiguous-heritage-target".to_string(),
            candidates: sorted,
            namespace_modules,
            type_only,
        }
    } else if sorted.len() == 0 {
        ResolutionOutcome {
            status: "unresolved".to_string(),
            reason: "unsupported-heritage-target-kind".to_string(),
            candidates: sorted,
            namespace_modules,
            type_only,
        }
    } else {
        ResolutionOutcome { status, reason, candidates: sorted, namespace_modules, type_only }
    }
}

fn file_heritage_records(
    path: &str,
    clauses: &Vec<TypeScriptHeritage>,
    imports: &Vec<TypeScriptImport>,
    resolution: &ResolutionContext,
    export_cache: &mut Vec<((String, String), ResolutionOutcome)>,
    edges: &mut Vec<GraphEdge>,
    records: &mut Vec<SymbolResolution>,
)
    requires
        resolution.module_resolver.wf(),
    ensures
        ({
            let fh = file_heritage(*resolution, path@, clauses@, imports@, cache_views(old(export_cache)@));
            &&& record_views(final(records)@) == record_views(old(records)@) + fh.0
            &&& edge_views(final(edges)@) == edge_views(old(edges)@) + fh.1
            &&& cache_views(final(export_cache)@) == fh.2
        }),
{
    let ghost c0 = cache_views(export_cache@);
    let ghost e0 = edge_views(edges@);
    let ghost r0 = record_views(records@);
    let mut j: usize = 0;
    assert(clauses@.take(0) =~= Seq::<TypeScriptHeritage>::empty());
    assert(e0 + Seq::<EdgeView>::empty() =~= e0);
    assert(r0 + Seq::<RecordView>::empty() =~= r0);
    while j < clauses.len()
        invariant
            j <= clauses@.len(),
            resolution.module_resolver.wf(),
            e0 == edge_views(old(edges)@),
            c0 == cache_views(old(export_cache)@),
            r0 == record_views(old(records)@),
            ({
                let fh = file_heritage(*resolution, path@, clauses@.take(j as int), imports@, c0);
                &&& record_views(records@) == r0 + fh.0
                &&& edge_views(edges@) == e0 + fh.1
                &&& cache_views(export_cache@) == fh.2
            }),
        decreases clauses@.len() - j,
    {
        assert(clauses@.take(j as int + 1).drop_last() =~= clauses@.take(j as int));
        assert(clauses@.take(j as int + 1).last() == clauses@[j as int]);
        let ghost fh0 = file_heritage(*resolution, path@, clauses@.take(j as int), imports@, c0);
        let h = &clauses[j];
        let owner_id = node_id("symbol", path, h.owner.as_str());
        let outcome = resolve_heritage_clause(path, h, imports.as_slice(), resolution, export_cache);
        if str_eq(outcome.status.as_str(), "resolved") && outcome.candidates.len() > 0 {
            let mut evidence = "typescript-heritage-".to_string();
            evidence.append(h.relation.as_str());
            let edge = GraphEdge {
                from: owner_id.clone(),
                to: outcome.candidates[0].clone(),
                kind: h.relation.clone(),
                evidence,
            };
            let ghost eb = edge_views(edges@);
            let ghost ev = edge_view(edge);
            edges.push(edge);
            assert(edge_views(edges@) =~= eb.push(ev));
        }
        let mut form = "heritage-".to_string();
        form.append(h.relation.as_str());
        form.append("-");
        form.append(h.form.as_str());
        let record = SymbolResolution {
            path: path.to_string(),
            caller_node_id: owner_id,
            reference: h.reference.clone(),
            form,
            status: outcome.status,
            reason: outcome.reason,
            candidate_node_ids: outcome.candidates,
            occurrence_count: 1,
        };
        let ghost rb = record_views(records@);
        let ghost rv = record_view(record);
        records.push(record);
        assert(record_views(records@) =~= rb.push(rv));
        assert(r0 + fh0.0.push(rv) =~= (r0 + fh0.0).push(rv));
        proof {
            let e = clause_effect(*resolution, path@, clauses@[j as int], imports@, fh0.2);
            if e.1 is Some {
                assert(e0 + fh0.1.push(e.1->0) =~= (e0 + fh0.1).push(e.1->0));
            }
        }
        j = j + 1;
    }
    assert(clauses@.take(clauses@.len() as int) =~= clauses@);
}

/// Resolves every heritage clause of every file: adds an edge from the owning class or
/// interface to the declaration it extends or implements where that resolved, appends
/// the clause's record to the file's records, and coalesces them.
pub fn resolve_heritage(facts: &mut Vec<TypeScriptFacts>, resolution: &ResolutionContext, edges: &mut Vec<GraphEdge>)
    requires
        resolution.module_resolver.wf(),
    ensures
        ({
            let f = heritage_fold(*resolution, old(facts)@, Seq::empty());
            &&& final(facts)@.len() == old(facts)@.len()
            &&& edge_views(final(edges)@) == edge_views(old(edges)@) + f.1
            &&& forall|i: int| 0 <= i < old(facts)@.len() ==> records_extended(old(facts)@[i], #[trigger] final(facts)@[i], f.0[i])
        }),
{
    let ghost f0 = facts@;
    let ghost e0 = edge_views(edges@);
    let mut export_cache: Vec<((String, String), ResolutionOutcome)> = Vec::new();
    assert(cache_views(export_cache@) =~= Seq::empty());
    let mut i: usize = 0;
    assert(f0.take(0) =~= Seq::<TypeScriptFacts>::empty());
    assert(e0 + Seq::<EdgeView>::empty() =~= e0);
    while i < facts.len()
        invariant
            i <= facts@.len(),
            facts@.len() == f0.len(),
            f0 == old(facts)@,
            e0 == edge_views(old(edges)@),
            resolution.module_resolver.wf(),
            ({
                let f = heritage_fold(*resolution, f0.take(i as int), Seq::empty());
                &&& f.0.len() == i
                &&& edge_views(edges@) == e0 + f.1
                &&& cache_views(export_cache@) == f.2
                &&& forall|k: int| 0 <= k < i ==> records_extended(f0[k], #[trigger] facts@[k], f.0[k])
            }),
            forall|k: int| i <= k < f0.len() ==> #[trigger] facts@[k] == f0[k],
        decreases f0.len() - i,
    {
        assert(f0.take(i as int + 1).drop_last() =~= f0.take(i as int));
        assert(f0.take(i as int + 1).last() == f0[i as int]);
        let ghost before = heritage_fold(*resolution, f0.take(i as int), Seq::empty());
        let mut records: Vec<SymbolResolution> = Vec::new();
        std::mem::swap(&mut records, &mut facts[i].resolution_records);
        let ghost old_records = records@;
        assert(old_records == f0[i as int].resolution_records@);
        file_heritage_records(
            facts[i].path.as_str(),
            &facts[i].heritage,
            &facts[i].imports,
            resolution,
            &mut export_cache,
            edges,
            &mut records,
        );
        let ghost raw = records@;
        coalesce_resolutions(&mut records);
        facts[i].resolution_records = records;
        proof {
            let f = heritage_fold(*resolution, f0.take(i as int + 1), Seq::empty());
            let fh = file_heritage(*resolution, f0[i as int].path@, f0[i as int].heritage@, f0[i as int].imports@, before.2);
            assert(f.0 =~= before.0.push(fh.0));
            assert(record_views(raw) == record_views(f0[i as int].resolution_records@) + fh.0);
            assert(coalesced(facts@[i as int].resolution_records@, raw));
            assert(same_but_records(f0[i as int], facts@[i as int]));
            assert(records_extended(f0[i as int], facts@[i as int], f.0[i as int]));
        }
        i = i + 1;
    }
    assert(f0.take(f0.len() as int) =~= f0);
}

} // verus!
