//! The call and construction edges of the graph, and the resolution record of every
//! call site, file by file.

use vstd::prelude::*;

use super::calls::{call_outcome, find_key, lookup, resolve_call};
use super::exports::{cache_views, CacheView};
use super::fingerprints::{node_id, spec_node_id};
use super::imports::ResolutionContext;
use super::resolution_records::{coalesce_resolutions, coalesced};
use super::structure::{edge_view, edge_views};
use super::targets::outcome_view;
use crate::model::graph::GraphEdge;
use crate::model::typescript::{SymbolResolution, TypeScriptCall, TypeScriptFacts};
use crate::text::{chars_of, str_eq, string_from, string_of, views};

verus! {

broadcast use vstd::string::group_string_axioms;

/// A resolution record by its plain values.
pub type RecordView = (Seq<char>, Seq<char>, Seq<char>, Seq<char>, Seq<char>, Seq<char>, Seq<Seq<char>>, u64);

/// An edge by its source, target, kind and evidence.
pub type EdgeView = (Seq<char>, Seq<char>, Seq<char>, Seq<char>);

/// The plain values of a resolution record.
pub open spec fn record_view(r: SymbolResolution) -> RecordView {
    (r.path@, r.caller_node_id@, r.reference@, r.form@, r.status@, r.reason@, views(r.candidate_node_ids@), r.occurrence_count)
}

/// The plain values of each record.
pub open spec fn record_views(rs: Seq<SymbolResolution>) -> Seq<RecordView> {
    rs.map_values(|r: SymbolResolution| record_view(r))
}

/// The position of the first `c` in `s`.
pub open spec fn find_char(s: Seq<char>, c: char) -> Option<int>
    decreases s.len(),
{
    if s.len() == 0 {
        None
    } else if s[0] == c {
        Some(0)
    } else {
        match find_char(s.drop_first(), c) {
            Some(i) => Some(i + 1),
            None => None,
        }
    }
}

/// The node that a call site's caller stands for: the symbol the caller names, a symbol
/// of the caller's name, or else the file.
pub open spec fn caller_id(r: ResolutionContext, path: Seq<char>, caller: Option<String>, file_id: Seq<char>) -> Seq<char> {
    match caller {
        None => file_id,
        Some(c) => match lookup(r.symbols_by_path@, path) {
            None => file_id,
            Some(symbols) => {
                let direct = spec_node_id("symbol"@, path, c@);
                if lookup(r.symbol_kinds@, direct) is Some {
                    direct
                } else {
                    match find_char(c@, ':') {
                        None => file_id,
                        Some(i) => {
                            let kind = c@.take(i);
                            let name = c@.skip(i + 1);
                            match lookup(symbols@, name) {
                                None => file_id,
                                Some(ids) => {
                                    let wanted = spec_node_id("symbol"@, path, kind + ":"@ + name);
                                    if views(ids@).contains(wanted) {
                                        wanted
                                    } else if ids@.len() > 0 {
                                        ids@[0]@
                                    } else {
                                        file_id
                                    }
                                },
                            }
                        },
                    }
                }
            },
        },
    }
}

/// What one call site of the file at `path` (node `file_id`) yields: its resolution
/// record, its edge where it resolved, and the cache after it.
pub open spec fn site_effect(
    r: ResolutionContext,
    path: Seq<char>,
    file_id: Seq<char>,
    call: TypeScriptCall,
    imports: Seq<crate::model::typescript::TypeScriptImport>,
    cache: CacheView,
) -> (RecordView, Option<EdgeView>, CacheView) {
    let caller = caller_id(r, path, call.caller, file_id);
    let o = call_outcome(r, path, call, imports, cache);
    let edge = if o.0.0 == "resolved"@ && o.0.2.len() > 0 {
        Some(
            (
                caller,
                o.0.2[0],
                if call.callee_form@ == "constructor"@ {
                    "constructs"@
                } else {
                    "calls"@
                },
                o.0.1,
            ),
        )
    } else {
        None
    };
    let reference = match call.callee {
        Some(c) => c@,
        None => "<dynamic>"@,
    };
    ((path, caller, reference, call.callee_form@, o.0.0, o.0.1, o.0.2, 1u64), edge, o.1)
}

/// The records and edges of the first call sites of one file, with the cache after them.
pub open spec fn file_calls(
    r: ResolutionContext,
    path: Seq<char>,
    file_id: Seq<char>,
    calls: Seq<TypeScriptCall>,
    imports: Seq<crate::model::typescript::TypeScriptImport>,
    cache: CacheView,
) -> (Seq<RecordView>, Seq<EdgeView>, CacheView)
    decreases calls.len(),
{
    if calls.len() == 0 {
        (Seq::empty(), Seq::empty(), cache)
    } else {
        let prev = file_calls(r, path, file_id, calls.drop_last(), imports, cache);
        let e = site_effect(r, path, file_id, calls.last(), imports, prev.2);
        (
            prev.0.push(e.0),
            match e.1 {
                Some(edge) => prev.1.push(edge),
                None => prev.1,
            },
            e.2,
        )
    }
}

/// For each file, the records of its call sites (none for a file without a node), the
/// edges of all files, and the cache after them.
pub open spec fn calls_fold(r: ResolutionContext, facts: Seq<TypeScriptFacts>, cache: CacheView) -> (
    Seq<Option<Seq<RecordView>>>,
    Seq<EdgeView>,
    CacheView,
)
    decreases facts.len(),
{
    if facts.len() == 0 {
        (Seq::empty(), Seq::empty(), cache)
    } else {
        let prev = calls_fold(r, facts.drop_last(), cache);
        let f = facts.last();
        match lookup(r.file_ids@, f.path@) {
            None => (prev.0.push(None), prev.1, prev.2),
            Some(fid) => {
                let fc = file_calls(r, f.path@, fid@, f.calls@, f.imports@, prev.2);
                (prev.0.push(Some(fc.0)), prev.1 + fc.1, fc.2)
            },
        }
    }
}

/// Two facts agree on everything but their resolution records.
pub open spec fn same_but_records(a: TypeScriptFacts, b: TypeScriptFacts) -> bool {
    &&& a.schema_version == b.schema_version
    &&& a.path == b.path
    &&& a.language == b.language
    &&& a.source_hash == b.source_hash
    &&& a.parser == b.parser
    &&& a.parse_status == b.parse_status
    &&& a.imports == b.imports
    &&& a.declarations == b.declarations
    &&& a.exports == b.exports
    &&& a.calls == b.calls
    &&& a.unsupported == b.unsupported
    &&& a.canonical_fingerprint == b.canonical_fingerprint
    &&& a.heritage == b.heritage
}

/// The facts `b` are `a` with the records `raw` coalesced in place of its records, or
/// `a` itself where there are none.
pub open spec fn records_updated(a: TypeScriptFacts, b: TypeScriptFacts, raw: Option<Seq<RecordView>>) -> bool {
    &&& same_but_records(a, b)
    &&& match raw {
        None => b.resolution_records == a.resolution_records,
        Some(rv) => exists|rs: Seq<SymbolResolution>| record_views(rs) == rv && coalesced(b.resolution_records@, rs),
    }
}

fn find_colon(chars: &Vec<char>) -> (r: Option<usize>)
    ensures
        match r {
            Some(i) => find_char(chars@, ':') == Some(i as int) && i < chars@.len(),
            None => find_char(chars@, ':') is None,
        },
{
    let mut i: usize = 0;
    assert(chars@.skip(0) =~= chars@);
    while i < chars.len()
        invariant
            i <= chars@.len(),
            forall|k: int| 0 <= k < i ==> chars@[k] != ':',
            find_char(chars@, ':') == match find_char(chars@.skip(i as int), ':') {
                Some(j) => Some(j + i),
                None => None,
            },
        decreases chars@.len() - i,
    {
        assert(chars@.skip(i as int)[0] == chars@[i as int]);
        assert(chars@.skip(i as int).drop_first() =~= chars@.skip(i as int + 1));
        if chars[i] == ':' {
            return Some(i);
        }
        i = i + 1;
    }
    None
}

fn prefix_string(chars: &Vec<char>, n: usize) -> (s: String)
    requires
        n <= chars@.len(),
    ensures
        s@ == chars@.take(n as int),
{
    let mut taken: Vec<char> = Vec::new();
    let mut i: usize = 0;
    while i < n
        invariant
            i <= n <= chars@.len(),
            taken@ == chars@.take(i as int),
        decreases n - i,
    {
        taken.push(chars[i]);
        assert(taken@ =~= chars@.take(i as int + 1));
        i = i + 1;
    }
    string_of(taken.as_slice())
}

fn contains_id(ids: &Vec<String>, id: &str) -> (r: bool)
    ensures
        r == views(ids@).contains(id@),
{
    let mut i: usize = 0;
    while i < ids.len()
        invariant
            i <= ids@.len(),
            forall|k: int| 0 <= k < i ==> #[trigger] ids@[k]@ != id@,
        decreases ids@.len() - i,
    {
        if str_eq(ids[i].as_str(), id) {
            assert(views(ids@)[i as int] == id@);
            return true;
        }
        i = i + 1;
    }
    proof {
        if views(ids@).contains(id@) {
            let k = choose|k: int| 0 <= k < views(ids@).len() && views(ids@)[k] == id@;
            assert(ids@[k]@ == id@);
        }
    }
    false
}

/// The node that a call site's caller stands for: the symbol the caller names, a symbol
/// of the caller's name, or else the file node `file_id`.
pub fn caller_node_id(path: &str, caller: &Option<String>, file_id: &str, resolution: &ResolutionContext) -> (r: String)
    ensures
        r@ == caller_id(*resolution, path@, *caller, file_id@),
{
    let c = match caller {
        None => {
            return file_id.to_string();
        },
        Some(c) => c.as_str(),
    };
    let symbols = match find_key(&resolution.symbols_by_path, path) {
        None => {
            return file_id.to_string();
        },
        Some(k) => &resolution.symbols_by_path[k].1,
    };
    let direct = node_id("symbol", path, c);
    if find_key(&resolution.symbol_kinds, direct.as_str()).is_some() {
        return direct;
    }
    let chars = chars_of(c);
    let i = match find_colon(&chars) {
        None => {
            return file_id.to_string();
        },
        Some(i) => i,
    };
    let kind = prefix_string(&chars, i);
    let name = string_from(&chars, i + 1);
    let ids = match find_key(symbols, name.as_str()) {
        None => {
            return file_id.to_string();
        },
        Some(j) => &symbols[j].1,
    };
    let mut qualified = kind;
    qualified.append(":");
    qualified.append(name.as_str());
    let wanted = node_id("symbol", path, qualified.as_str());
    if contains_id(ids, wanted.as_str()) {
        wanted
    } else if ids.len() > 0 {
        ids[0].clone()
    } else {
        file_id.to_string()
    }
}

fn file_call_records(
    path: &str,
    file_id: &str,
    calls: &Vec<TypeScriptCall>,
    imports: &Vec<crate::model::typescript::TypeScriptImport>,
    resolution: &ResolutionContext,
    export_cache: &mut Vec<((String, String), crate::graph::targets::ResolutionOutcome)>,
    edges: &mut Vec<GraphEdge>,
) -> (r: Vec<SymbolResolution>)
    requires
        resolution.module_resolver.wf(),
    ensures
        ({
            let fc = file_calls(*resolution, path@, file_id@, calls@, imports@, cache_views(old(export_cache)@));
            &&& record_views(r@) == fc.0
            &&& edge_views(final(edges)@) == edge_views(old(edges)@) + fc.1
            &&& cache_views(final(export_cache)@) == fc.2
        }),
{
    let ghost c0 = cache_views(export_cache@);
    let ghost e0 = edge_views(edges@);
    let mut records: Vec<SymbolResolution> = Vec::new();
    let mut j: usize = 0;
    assert(calls@.take(0) =~= Seq::<TypeScriptCall>::empty());
    assert(record_views(records@) =~= Seq::<RecordView>::empty());
    assert(e0 + Seq::<EdgeView>::empty() =~= e0);
    while j < calls.len()
        invariant
            j <= calls@.len(),
            resolution.module_resolver.wf(),
            e0 == edge_views(old(edges)@),
            c0 == cache_views(old(export_cache)@),
            ({
                let fc = file_calls(*resolution, path@, file_id@, calls@.take(j as int), imports@, c0);
                &&& record_views(records@) == fc.0
                &&& edge_views(edges@) == e0 + fc.1
                &&& cache_views(export_cache@) == fc.2
            }),
        decreases calls@.len() - j,
    {
        assert(calls@.take(j as int + 1).drop_last() =~= calls@.take(j as int));
        assert(calls@.take(j as int + 1).last() == calls@[j as int]);
        let call = &calls[j];
        let caller = caller_node_id(path, &call.caller, file_id, resolution);
        let outcome = resolve_call(path, call, imports.as_slice(), resolution, export_cache);
        if str_eq(outcome.status.as_str(), "resolved") && outcome.candidates.len() > 0 {
            let kind = if str_eq(call.callee_form.as_str(), "constructor") {
                "constructs"
            } else {
                "calls"
            };
            let edge = GraphEdge {
                from: caller.clone(),
                to: outcome.candidates[0].clone(),
                kind: kind.to_string(),
                evidence: outcome.reason.clone(),
            };
            let ghost eb = edge_views(edges@);
            let ghost ev = edge_view(edge);
            edges.push(edge);
            assert(edge_views(edges@) =~= eb.push(ev));
        }
        let reference = match &call.callee {
            Some(c) => c.clone(),
            None => "<dynamic>".to_string(),
        };
        let record = SymbolResolution {
            path: path.to_string(),
            caller_node_id: caller,
            reference,
            form: call.callee_form.clone(),
            status: outcome.status,
            reason: outcome.reason,
            candidate_node_ids: outcome.candidates,
            occurrence_count: 1,
        };
        let ghost rb = record_views(records@);
        let ghost rv = record_view(record);
        records.push(record);
        assert(record_views(records@) =~= rb.push(rv));
        j = j + 1;
    }
    assert(calls@.take(calls@.len() as int) =~= calls@);
    records
}

/// Resolves every call site of every file that has a node: adds an edge from its caller
/// to the declaration it calls or constructs where it resolved, and replaces the file's
/// resolution records with the coalesced records of its call sites.
pub fn resolve_calls(facts: &mut Vec<TypeScriptFacts>, resolution: &ResolutionContext, edges: &mut Vec<GraphEdge>)
    requires
        resolution.module_resolver.wf(),
    ensures
        ({
            let f = calls_fold(*resolution, old(facts)@, Seq::empty());
            &&& final(facts)@.len() == old(facts)@.len()
            &&& edge_views(final(edges)@) == edge_views(old(edges)@) + f.1
            &&& forall|i: int| 0 <= i < old(facts)@.len() ==> records_updated(old(facts)@[i], #[trigger] final(facts)@[i], f.0[i])
        }),
{
    let ghost f0 = facts@;
    let ghost e0 = edge_views(edges@);
    let mut export_cache: Vec<((String, String), crate::graph::targets::ResolutionOutcome)> = Vec::new();
    assert(cache_views(export_cache@) =~= Seq::empty());
    let mut i: usize = 0;
    assert(f0.take(0) =~= Seq::<TypeScriptFacts>::empty());
    assert(e0 + Seq::<EdgeView>::empty() =~= e0);
    while i < facts.len()
        invariant
            i <= facts@.len(),
            facts@.len() == f0.len(),
            f0 == old(facts)@,
            e0 == edge_views(old(edges)@),
            resolution.module_resolver.wf(),
            ({
                let f = calls_fold(*resolution, f0.take(i as int), Seq::empty());
                &&& f.0.len() == i
                &&& edge_views(edges@) == e0 + f.1
                &&& cache_views(export_cache@) == f.2
                &&& forall|k: int| 0 <= k < i ==> records_updated(f0[k], #[trigger] facts@[k], f.0[k])
            }),
            forall|k: int| i <= k < f0.len() ==> #[trigger] facts@[k] == f0[k],
        decreases f0.len() - i,
    {
        assert(f0.take(i as int + 1).drop_last() =~= f0.take(i as int));
        assert(f0.take(i as int + 1).last() == f0[i as int]);
        let ghost before = calls_fold(*resolution, f0.take(i as int), Seq::empty());
        match find_key(&resolution.file_ids, facts[i].path.as_str()) {
            None => {
                proof {
                    let f = calls_fold(*resolution, f0.take(i as int + 1), Seq::empty());
                    assert(f.0 =~= before.0.push(None));
                }
            },
            Some(k) => {
                let file_id = resolution.file_ids[k].1.clone();
                let mut records = file_call_records(
                    facts[i].path.as_str(),
                    file_id.as_str(),
                    &facts[i].calls,
                    &facts[i].imports,
                    resolution,
                    &mut export_cache,
                    edges,
                );
                let ghost raw = records@;
                coalesce_resolutions(&mut records);
                facts[i].resolution_records = records;
                proof {
                    let f = calls_fold(*resolution, f0.take(i as int + 1), Seq::empty());
                    assert(f.0 =~= before.0.push(Some(record_views(raw))));
                    assert(records_updated(f0[i as int], facts@[i as int], f.0[i as int]));
                }
            },
        }
        i = i + 1;
    }
    assert(f0.take(f0.len() as int) =~= f0);
}

} // verus!
