//! Evidence fingerprints of graph nodes: what a node is, what resolved from it, and its
//! direct edges.

use vstd::prelude::*;

use super::fingerprints::{node_id, spec_node_id};
use crate::flow::manifest::{hash_text, text_hash};
use crate::json::{
    array_text, json_array, json_member, json_object, json_string, json_uint, member_text, object_text,
    push_json_uint, string_text,
};
use crate::model::graph::{GraphEdge, GraphNode};
use crate::model::typescript::{SymbolResolution, TypeScriptDeclaration, TypeScriptFacts};
use crate::order::{sort_strings, sorted_copy};
use crate::text::{join, join_seq, str_eq, views};

verus! {

broadcast use vstd::string::group_string_axioms;

/// A boolean as `true` or `false`.
pub open spec fn bool_text(b: bool) -> Seq<char> {
    if b {
        "true"@
    } else {
        "false"@
    }
}

/// The first facts of the file at `path`.
pub open spec fn first_fact(facts: Seq<TypeScriptFacts>, path: Seq<char>) -> Option<TypeScriptFacts>
    decreases facts.len(),
{
    if facts.len() == 0 {
        None
    } else if facts[0].path@ == path {
        Some(facts[0])
    } else {
        first_fact(facts.drop_first(), path)
    }
}

/// A resolution record as its JSON object, fields in declaration order.
pub open spec fn resolution_json(r: SymbolResolution) -> Seq<char> {
    json_object(
        seq![
            json_member("path"@, json_string(r.path@)),
            json_member("caller_node_id"@, json_string(r.caller_node_id@)),
            json_member("reference"@, json_string(r.reference@)),
            json_member("form"@, json_string(r.form@)),
            json_member("status"@, json_string(r.status@)),
            json_member("reason"@, json_string(r.reason@)),
            json_member(
                "candidate_node_ids"@,
                json_array(views(r.candidate_node_ids@).map_values(|c: Seq<char>| json_string(c))),
            ),
            json_member("occurrence_count"@, json_uint(r.occurrence_count as nat)),
        ],
    )
}

/// The canonical text of a file's facts: language, parser, parse status, canonical
/// fingerprint and its resolution records.
pub open spec fn canonical_fact(f: TypeScriptFacts) -> Seq<char> {
    f.language@ + "\0"@ + f.parser@ + "\0"@ + f.parse_status@ + "\0"@ + f.canonical_fingerprint@ + "\0"@
        + join_seq(f.resolution_records@.map_values(|r: SymbolResolution| resolution_json(r)), "|"@)
}

/// Whether a declaration of the file at `path` is the node.
pub open spec fn declares(node: GraphNode, path: Seq<char>, d: TypeScriptDeclaration) -> bool {
    node.id@ == spec_node_id("symbol"@, path, d.qualified_name@)
}

/// The evidence of one declaration: AST fingerprint, export, visibility and modifiers.
pub open spec fn declaration_text(d: TypeScriptDeclaration) -> Seq<char> {
    d.ast_fingerprint@ + ":"@ + bool_text(d.exported) + ":"@ + d.visibility@ + ":"@ + bool_text(d.static_member)
        + ":"@ + bool_text(d.abstract_member)
}

/// The evidence of the declarations that are the node, in order.
pub open spec fn declaration_texts(node: GraphNode, path: Seq<char>, ds: Seq<TypeScriptDeclaration>) -> Seq<Seq<char>>
    decreases ds.len(),
{
    if ds.len() == 0 {
        Seq::empty()
    } else {
        let done = declaration_texts(node, path, ds.drop_last());
        if declares(node, path, ds.last()) {
            done.push(declaration_text(ds.last()))
        } else {
            done
        }
    }
}

/// Whether some exported declaration is the node.
pub open spec fn any_exported(node: GraphNode, path: Seq<char>, ds: Seq<TypeScriptDeclaration>) -> bool {
    exists|k: int| 0 <= k < ds.len() && declares(node, path, #[trigger] ds[k]) && ds[k].exported
}

/// What a node is: for a file, its canonical facts; for a symbol, its kind, whether it is
/// exported, and the sorted evidence of its declarations.
pub open spec fn intrinsic(node: GraphNode, facts: Seq<TypeScriptFacts>) -> Seq<char> {
    let fact = match node.path {
        Some(p) => first_fact(facts, p@),
        None => None,
    };
    if node.kind@ == "file"@ {
        match fact {
            Some(f) => canonical_fact(f),
            None => Seq::empty(),
        }
    } else {
        let (texts, exported) = match fact {
            Some(f) => (
                declaration_texts(node, node.path.unwrap()@, f.declarations@),
                any_exported(node, node.path.unwrap()@, f.declarations@),
            ),
            None => (Seq::empty(), false),
        };
        "symbol\0"@ + node.kind@ + "\0exported="@ + bool_text(exported) + "\0ast="@ + join_seq(sorted_copy(texts), "|"@)
    }
}

/// The last node with the given id.
pub open spec fn last_with_id(nodes: Seq<GraphNode>, id: Seq<char>) -> Option<GraphNode>
    decreases nodes.len(),
{
    if nodes.len() == 0 {
        None
    } else if nodes.last().id@ == id {
        Some(nodes.last())
    } else {
        last_with_id(nodes.drop_last(), id)
    }
}

/// The intrinsic text node `i` starts from: that of the last node with its id, taken by the
/// first node with that id only.
pub open spec fn intrinsic_at(nodes: Seq<GraphNode>, i: int, facts: Seq<TypeScriptFacts>) -> Seq<char> {
    if exists|j: int| 0 <= j < i && #[trigger] nodes[j].id@ == nodes[i].id@ {
        Seq::empty()
    } else {
        intrinsic(last_with_id(nodes, nodes[i].id@).unwrap(), facts)
    }
}

/// The resolution records of the node's file that concern it (all of them for a file
/// node), each after a NUL.
pub open spec fn record_texts(node: GraphNode, rs: Seq<SymbolResolution>) -> Seq<char>
    decreases rs.len(),
{
    if rs.len() == 0 {
        Seq::empty()
    } else {
        let done = record_texts(node, rs.drop_last());
        if node.kind@ == "file"@ || rs.last().caller_node_id@ == node.id@ {
            done + "\0"@ + resolution_json(rs.last())
        } else {
            done
        }
    }
}

/// The resolution evidence of a node.
pub open spec fn records_part(node: GraphNode, facts: Seq<TypeScriptFacts>) -> Seq<char> {
    match node.path {
        Some(p) => match first_fact(facts, p@) {
            Some(f) => record_texts(node, f.resolution_records@),
            None => Seq::empty(),
        },
        None => Seq::empty(),
    }
}

/// The signature of one direct edge of a node: its direction, kind, evidence and other end;
/// `declares` edges have none.
pub open spec fn signature(node: GraphNode, e: GraphEdge) -> Option<Seq<char>> {
    if e.kind@ == "declares"@ {
        None
    } else if e.from@ == node.id@ {
        Some("out\0"@ + e.kind@ + "\0"@ + e.evidence@ + "\0"@ + e.to@)
    } else if e.to@ == node.id@ {
        Some("in\0"@ + e.kind@ + "\0"@ + e.evidence@ + "\0"@ + e.from@)
    } else {
        None
    }
}

/// The signatures of a node's direct edges, in edge order.
pub open spec fn signatures(node: GraphNode, es: Seq<GraphEdge>) -> Seq<Seq<char>>
    decreases es.len(),
{
    if es.len() == 0 {
        Seq::empty()
    } else {
        let done = signatures(node, es.drop_last());
        match signature(node, es.last()) {
            Some(s) => done.push(s),
            None => done,
        }
    }
}

/// Each text after a NUL.
pub open spec fn nul_prefixed(ss: Seq<Seq<char>>) -> Seq<char>
    decreases ss.len(),
{
    if ss.len() == 0 {
        Seq::empty()
    } else {
        nul_prefixed(ss.drop_last()) + "\0"@ + ss.last()
    }
}

/// The canonical evidence text of node `i`.
pub open spec fn node_canonical(nodes: Seq<GraphNode>, i: int, edges: Seq<GraphEdge>, facts: Seq<TypeScriptFacts>) -> Seq<char> {
    intrinsic_at(nodes, i, facts) + records_part(nodes[i], facts) + nul_prefixed(sorted_copy(signatures(nodes[i], edges)))
}

fn find_fact(facts: &[TypeScriptFacts], path: &str) -> (r: Option<usize>)
    ensures
        match r {
            Some(i) => i < facts@.len() && first_fact(facts@, path@) == Some(facts@[i as int]),
            None => first_fact(facts@, path@) is None,
        },
{
    let mut i: usize = 0;
    assert(facts@.skip(0) =~= facts@);
    while i < facts.len()
        invariant
            i <= facts@.len(),
            first_fact(facts@, path@) == first_fact(facts@.skip(i as int), path@),
        decreases facts@.len() - i,
    {
        assert(facts@.skip(i as int)[0] == facts@[i as int]);
        assert(facts@.skip(i as int).drop_first() =~= facts@.skip(i as int + 1));
        if str_eq(facts[i].path.as_str(), path) {
            return Some(i);
        }
        i = i + 1;
    }
    None
}

fn bool_string(b: bool) -> (r: &'static str)
    ensures
        r@ == bool_text(b),
{
    if b {
        "true"
    } else {
        "false"
    }
}

pub(crate) fn resolution_text(r: &SymbolResolution) -> (t: String)
    ensures
        t@ == resolution_json(*r),
{
    let mut ids: Vec<String> = Vec::new();
    let mut k: usize = 0;
    while k < r.candidate_node_ids.len()
        invariant
            k <= r.candidate_node_ids@.len(),
            views(ids@) == views(r.candidate_node_ids@).take(k as int).map_values(|c: Seq<char>| json_string(c)),
        decreases r.candidate_node_ids@.len() - k,
    {
        let ghost before = views(ids@);
        ids.push(string_text(r.candidate_node_ids[k].as_str()));
        assert(views(ids@) =~= before.push(json_string(r.candidate_node_ids@[k as int]@)));
        assert(views(r.candidate_node_ids@).take(k as int + 1).map_values(|c: Seq<char>| json_string(c))
            =~= views(r.candidate_node_ids@).take(k as int).map_values(|c: Seq<char>| json_string(c)).push(
            json_string(r.candidate_node_ids@[k as int]@),
        ));
        k = k + 1;
    }
    assert(views(r.candidate_node_ids@).take(r.candidate_node_ids@.len() as int) =~= views(r.candidate_node_ids@));
    let mut count = String::new();
    push_json_uint(&mut count, r.occurrence_count);
    let mut members: Vec<String> = Vec::new();
    members.push(member_text("path", string_text(r.path.as_str()).as_str()));
    members.push(member_text("caller_node_id", string_text(r.caller_node_id.as_str()).as_str()));
    members.push(member_text("reference", string_text(r.reference.as_str()).as_str()));
    members.push(member_text("form", string_text(r.form.as_str()).as_str()));
    members.push(member_text("status", string_text(r.status.as_str()).as_str()));
    members.push(member_text("reason", string_text(r.reason.as_str()).as_str()));
    members.push(member_text("candidate_node_ids", array_text(&ids).as_str()));
    members.push(member_text("occurrence_count", count.as_str()));
    assert(views(members@) =~= seq![
        json_member("path"@, json_string(r.path@)),
        json_member("caller_node_id"@, json_string(r.caller_node_id@)),
        json_member("reference"@, json_string(r.reference@)),
        json_member("form"@, json_string(r.form@)),
        json_member("status"@, json_string(r.status@)),
        json_member("reason"@, json_string(r.reason@)),
        json_member(
            "candidate_node_ids"@,
            json_array(views(r.candidate_node_ids@).map_values(|c: Seq<char>| json_string(c))),
        ),
        json_member("occurrence_count"@, json_uint(r.occurrence_count as nat)),
    ]);
    object_text(&members)
}

fn canonical_fact_text(f: &TypeScriptFacts) -> (t: String)
    ensures
        t@ == canonical_fact(*f),
{
    let mut texts: Vec<String> = Vec::new();
    let mut k: usize = 0;
    while k < f.resolution_records.len()
        invariant
            k <= f.resolution_records@.len(),
            views(texts@) == f.resolution_records@.take(k as int).map_values(|r: SymbolResolution| resolution_json(r)),
        decreases f.resolution_records@.len() - k,
    {
        let ghost before = views(texts@);
        texts.push(resolution_text(&f.resolution_records[k]));
        assert(views(texts@) =~= before.push(resolution_json(f.resolution_records@[k as int])));
        assert(f.resolution_records@.take(k as int + 1).map_values(|r: SymbolResolution| resolution_json(r))
            =~= f.resolution_records@.take(k as int).map_values(|r: SymbolResolution| resolution_json(r)).push(
            resolution_json(f.resolution_records@[k as int]),
        ));
        k = k + 1;
    }
    assert(f.resolution_records@.take(f.resolution_records@.len() as int) =~= f.resolution_records@);
    let mut t = f.language.clone();
    t.append("\0");
    t.append(f.parser.as_str());
    t.append("\0");
    t.append(f.parse_status.as_str());
    t.append("\0");
    t.append(f.canonical_fingerprint.as_str());
    t.append("\0");
    t.append(join(&texts, "|").as_str());
    t
}

fn declaration_evidence(d: &TypeScriptDeclaration) -> (t: String)
    ensures
        t@ == declaration_text(*d),
{
    let mut t = d.ast_fingerprint.clone();
    t.append(":");
    t.append(bool_string(d.exported));
    t.append(":");
    t.append(d.visibility.as_str());
    t.append(":");
    t.append(bool_string(d.static_member));
    t.append(":");
    t.append(bool_string(d.abstract_member));
    t
}

fn intrinsic_text(node: &GraphNode, facts: &[TypeScriptFacts]) -> (t: String)
    ensures
        t@ == intrinsic(*node, facts@),
{
    let fact = match &node.path {
        Some(p) => find_fact(facts, p.as_str()),
        None => None,
    };
    if str_eq(node.kind.as_str(), "file") {
        return match fact {
            Some(i) => canonical_fact_text(&facts[i]),
            None => String::new(),
        };
    }
    let mut texts: Vec<String> = Vec::new();
    let mut exported = false;
    match (&node.path, fact) {
        (Some(p), Some(i)) => {
            let ds = &facts[i].declarations;
            let mut k: usize = 0;
            while k < ds.len()
                invariant
                    k <= ds@.len(),
                    views(texts@) == declaration_texts(*node, p@, ds@.take(k as int)),
                    exported == exists|m: int| 0 <= m < k && declares(*node, p@, #[trigger] ds@[m]) && ds@[m].exported,
                decreases ds@.len() - k,
            {
                assert(ds@.take(k as int + 1).drop_last() =~= ds@.take(k as int));
                let symbol = node_id("symbol", p.as_str(), ds[k].qualified_name.as_str());
                if str_eq(node.id.as_str(), symbol.as_str()) {
                    let ghost before = views(texts@);
                    texts.push(declaration_evidence(&ds[k]));
                    assert(views(texts@) =~= before.push(declaration_text(ds@[k as int])));
                    if ds[k].exported {
                        exported = true;
                    }
                }
                k = k + 1;
            }
            assert(ds@.take(ds@.len() as int) =~= ds@);
        },
        _ => {
            assert(views(texts@) =~= Seq::<Seq<char>>::empty());
        },
    }
    let sorted = sort_strings(texts);
    let mut t = "symbol\0".to_string();
    t.append(node.kind.as_str());
    t.append("\0exported=");
    t.append(bool_string(exported));
    t.append("\0ast=");
    t.append(join(&sorted, "|").as_str());
    t
}

fn records_text(node: &GraphNode, facts: &[TypeScriptFacts]) -> (t: String)
    ensures
        t@ == records_part(*node, facts@),
{
    let mut t = String::new();
    let fact = match &node.path {
        Some(p) => find_fact(facts, p.as_str()),
        None => None,
    };
    match fact {
        None => {},
        Some(i) => {
            let rs = &facts[i].resolution_records;
            let is_file = str_eq(node.kind.as_str(), "file");
            let mut k: usize = 0;
            assert(t@ =~= record_texts(*node, rs@.take(0)));
            while k < rs.len()
                invariant
                    k <= rs@.len(),
                    is_file == (node.kind@ == "file"@),
                    t@ == record_texts(*node, rs@.take(k as int)),
                decreases rs@.len() - k,
            {
                assert(rs@.take(k as int + 1).drop_last() =~= rs@.take(k as int));
                if is_file || str_eq(rs[k].caller_node_id.as_str(), node.id.as_str()) {
                    t.append("\0");
                    t.append(resolution_text(&rs[k]).as_str());
                }
                k = k + 1;
            }
            assert(rs@.take(rs@.len() as int) =~= rs@);
        },
    }
    t
}

fn edge_signatures(node: &GraphNode, edges: &[GraphEdge]) -> (t: String)
    ensures
        t@ == nul_prefixed(sorted_copy(signatures(*node, edges@))),
{
    let mut sigs: Vec<String> = Vec::new();
    let mut k: usize = 0;
    while k < edges.len()
        invariant
            k <= edges@.len(),
            views(sigs@) == signatures(*node, edges@.take(k as int)),
        decreases edges@.len() - k,
    {
        assert(edges@.take(k as int + 1).drop_last() =~= edges@.take(k as int));
        let e = &edges[k];
        if !str_eq(e.kind.as_str(), "declares") {
            let ghost before = views(sigs@);
            if str_eq(e.from.as_str(), node.id.as_str()) {
                let mut s = "out\0".to_string();
                s.append(e.kind.as_str());
                s.append("\0");
                s.append(e.evidence.as_str());
                s.append("\0");
                s.append(e.to.as_str());
                sigs.push(s);
                assert(views(sigs@) =~= before.push(signature(*node, edges@[k as int]).unwrap()));
            } else if str_eq(e.to.as_str(), node.id.as_str()) {
                let mut s = "in\0".to_string();
                s.append(e.kind.as_str());
                s.append("\0");
                s.append(e.evidence.as_str());
                s.append("\0");
                s.append(e.from.as_str());
                sigs.push(s);
                assert(views(sigs@) =~= before.push(signature(*node, edges@[k as int]).unwrap()));
            }
        }
        k = k + 1;
    }
    assert(edges@.take(edges@.len() as int) =~= edges@);
    let sorted = sort_strings(sigs);
    let ghost ss = views(sorted@);
    let mut t = String::new();
    let mut m: usize = 0;
    assert(t@ =~= nul_prefixed(ss.take(0)));
    while m < sorted.len()
        invariant
            m <= ss.len(),
            ss == views(sorted@),
            t@ == nul_prefixed(ss.take(m as int)),
        decreases ss.len() - m,
    {
        assert(ss.take(m as int + 1).drop_last() =~= ss.take(m as int));
        t.append("\0");
        t.append(sorted[m].as_str());
        m = m + 1;
    }
    assert(ss.take(ss.len() as int) =~= ss);
    t
}

fn intrinsic_at_text(nodes: &Vec<GraphNode>, i: usize, facts: &[TypeScriptFacts]) -> (t: String)
    requires
        i < nodes@.len(),
    ensures
        t@ == intrinsic_at(nodes@, i as int, facts@),
{
    let id = nodes[i].id.as_str();
    let mut j: usize = 0;
    while j < i
        invariant
            j <= i < nodes@.len(),
            id@ == nodes@[i as int].id@,
            forall|m: int| 0 <= m < j ==> #[trigger] nodes@[m].id@ != id@,
        decreases i - j,
    {
        if str_eq(nodes[j].id.as_str(), id) {
            return String::new();
        }
        j = j + 1;
    }
    let mut k: usize = nodes.len();
    assert(nodes@.take(nodes@.len() as int) =~= nodes@);
    while k > 0
        invariant
            k <= nodes@.len(),
            i < nodes@.len(),
            id@ == nodes@[i as int].id@,
            last_with_id(nodes@, id@) == last_with_id(nodes@.take(k as int), id@),
            forall|m: int| 0 <= m < i ==> #[trigger] nodes@[m].id@ != id@,
            i < k,
        decreases k,
    {
        assert(nodes@.take(k as int).drop_last() =~= nodes@.take(k as int - 1));
        if str_eq(nodes[k - 1].id.as_str(), id) {
            return intrinsic_text(&nodes[k - 1], facts);
        }
        k = k - 1;
    }
    String::new()
}

/// The evidence fingerprint of each node: the BLAKE3 hash of its canonical evidence text.
pub fn node_fingerprints(nodes: &Vec<GraphNode>, edges: &[GraphEdge], facts: &[TypeScriptFacts]) -> (r: Vec<String>)
    ensures
        r@.len() == nodes@.len(),
        forall|i: int| 0 <= i < r@.len() ==> #[trigger] r@[i]@ == text_hash(node_canonical(nodes@, i, edges@, facts@)),
{
    let mut r: Vec<String> = Vec::new();
    let mut i: usize = 0;
    while i < nodes.len()
        invariant
            i <= nodes@.len(),
            r@.len() == i,
            forall|m: int| 0 <= m < i ==> #[trigger] r@[m]@ == text_hash(node_canonical(nodes@, m, edges@, facts@)),
        decreases nodes@.len() - i,
    {
        let mut canonical = intrinsic_at_text(nodes, i, facts);
        canonical.append(records_text(&nodes[i], facts).as_str());
        canonical.append(edge_signatures(&nodes[i], edges).as_str());
        r.push(hash_text(canonical.as_str()));
        i = i + 1;
    }
    r
}

/// `after` is `before` with each node's evidence fingerprint computed over the edges and
/// facts.
pub open spec fn fingerprinted(after: Seq<GraphNode>, before: Seq<GraphNode>, edges: Seq<GraphEdge>, facts: Seq<TypeScriptFacts>) -> bool {
    &&& after.len() == before.len()
    &&& forall|i: int|
        0 <= i < after.len() ==> {
            &&& (#[trigger] after[i]).id == before[i].id
            &&& after[i].kind == before[i].kind
            &&& after[i].path == before[i].path
            &&& after[i].name == before[i].name
            &&& after[i].language == before[i].language
            &&& after[i].evidence_fingerprint@ == text_hash(node_canonical(before, i, edges, facts))
        }
}

/// Gives each node its evidence fingerprint, leaving everything else of it unchanged.
pub fn assign_node_fingerprints(nodes: &mut Vec<GraphNode>, edges: &[GraphEdge], facts: &[TypeScriptFacts])
    ensures
        fingerprinted(final(nodes)@, old(nodes)@, edges@, facts@),
{
    let fingerprints = node_fingerprints(nodes, edges, facts);
    let ghost original = nodes@;
    let mut i: usize = 0;
    while i < nodes.len()
        invariant
            i <= nodes@.len(),
            nodes@.len() == original.len(),
            fingerprints@.len() == original.len(),
            forall|m: int| 0 <= m < fingerprints@.len() ==> #[trigger] fingerprints@[m]@ == text_hash(
                node_canonical(original, m, edges@, facts@),
            ),
            forall|m: int|
                0 <= m < nodes@.len() ==> {
                    &&& (#[trigger] nodes@[m]).id == original[m].id
                    &&& nodes@[m].kind == original[m].kind
                    &&& nodes@[m].path == original[m].path
                    &&& nodes@[m].name == original[m].name
                    &&& nodes@[m].language == original[m].language
                    &&& m < i ==> nodes@[m].evidence_fingerprint@ == text_hash(node_canonical(original, m, edges@, facts@))
                },
        decreases nodes@.len() - i,
    {
        let mut node = nodes[i].clone();
        node.evidence_fingerprint = fingerprints[i].clone();
        nodes.set(i, node);
        i = i + 1;
    }
}

/// A node's evidence fingerprint depends on its direct edges only: adding a `declares`
/// edge, or an edge that neither starts nor ends at the node, leaves it unchanged.
pub proof fn law_fingerprint_ignores_indirect_edges(
    nodes: Seq<GraphNode>,
    i: int,
    edges: Seq<GraphEdge>,
    facts: Seq<TypeScriptFacts>,
    extra: GraphEdge,
)
    requires
        0 <= i < nodes.len(),
        extra.kind@ == "declares"@ || (extra.from@ != nodes[i].id@ && extra.to@ != nodes[i].id@),
    ensures
        text_hash(node_canonical(nodes, i, edges.push(extra), facts)) == text_hash(node_canonical(nodes, i, edges, facts)),
{
    assert(edges.push(extra).drop_last() =~= edges);
    assert(signatures(nodes[i], edges.push(extra)) == signatures(nodes[i], edges));
}

} // verus!
