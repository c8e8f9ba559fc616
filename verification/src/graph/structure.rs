//! The import structure of a graph: which file, module or package node each import of a
//! file points at.

use vstd::prelude::*;

use super::fingerprints::{is_non_relative_alias, node_id, resolve_relative, spec_is_non_relative_alias, spec_node_id};
use crate::flow::manifest::opt_view;
use crate::module_resolution::paths::spec_resolve_relative;
use crate::module_resolution::{spec_resolve_non_relative, ModuleResolver, NonRelativeResolution};
use crate::model::graph::{GraphEdge, GraphNode};
use crate::model::typescript::{TypeScriptFacts, TypeScriptImport};
use crate::text::{seq_starts_with, starts_with, str_eq, views};

verus! {

broadcast use vstd::string::group_string_axioms;

/// An edge as its source, target, kind and evidence.
pub open spec fn edge_view(e: GraphEdge) -> (Seq<char>, Seq<char>, Seq<char>, Seq<char>) {
    (e.from@, e.to@, e.kind@, e.evidence@)
}

/// A node as its id, kind, path, name, language and evidence fingerprint.
pub open spec fn node_view(n: GraphNode) -> (Seq<char>, Seq<char>, Option<Seq<char>>, Option<Seq<char>>, Option<Seq<char>>, Seq<char>) {
    (n.id@, n.kind@, opt_view(n.path), opt_view(n.name), opt_view(n.language), n.evidence_fingerprint@)
}

/// Each node of `nodes` by its view.
pub open spec fn node_views(nodes: Seq<GraphNode>) -> Seq<(Seq<char>, Seq<char>, Option<Seq<char>>, Option<Seq<char>>, Option<Seq<char>>, Seq<char>)> {
    nodes.map_values(|n: GraphNode| node_view(n))
}

/// Each edge of `edges` by its view.
pub open spec fn edge_views(edges: Seq<GraphEdge>) -> Seq<(Seq<char>, Seq<char>, Seq<char>, Seq<char>)> {
    edges.map_values(|e: GraphEdge| edge_view(e))
}

/// A node that may be absent, by its view.
pub open spec fn opt_node_view(n: Option<GraphNode>) -> Option<(Seq<char>, Seq<char>, Option<Seq<char>>, Option<Seq<char>>, Option<Seq<char>>, Seq<char>)> {
    match n {
        Some(x) => Some(node_view(x)),
        None => None,
    }
}

/// The node id of the file at `path`, as first recorded.
pub open spec fn file_id_of(file_ids: Seq<(String, String)>, path: Seq<char>) -> Option<Seq<char>>
    decreases file_ids.len(),
{
    if file_ids.len() == 0 {
        None
    } else if file_ids[0].0@ == path {
        Some(file_ids[0].1@)
    } else {
        file_id_of(file_ids.drop_first(), path)
    }
}

/// The node of a module specifier that stands for no file: `unresolved-module` or
/// `external-module`, named by the specifier.
pub open spec fn module_node(kind: Seq<char>, specifier: Seq<char>) -> (Seq<char>, Seq<char>, Option<Seq<char>>, Option<Seq<char>>, Option<Seq<char>>, Seq<char>) {
    (spec_node_id(kind, specifier, Seq::empty()), kind, None, Some(specifier), None, Seq::empty())
}

/// An edge to a file, or the error for a file that has no node.
pub open spec fn file_edge(
    file_ids: Seq<(String, String)>,
    from: Seq<char>,
    target: Seq<char>,
    evidence: Seq<char>,
    missing: Seq<char>,
) -> Result<((Seq<char>, Seq<char>, Seq<char>, Seq<char>), Option<(Seq<char>, Seq<char>, Option<Seq<char>>, Option<Seq<char>>, Option<Seq<char>>, Seq<char>)>), Seq<char>> {
    match file_id_of(file_ids, target) {
        Some(to) => Ok(((from, to, "imports"@, evidence), None)),
        None => Err(missing + target),
    }
}

/// What one import of the file at `path` (node `from`) adds: an edge, and the module node
/// it points at when that is not a file; an error when a resolved file has no node.
pub open spec fn import_effect_of(
    path: Seq<char>,
    from: Seq<char>,
    import: TypeScriptImport,
    known: Seq<String>,
    resolver: ModuleResolver,
    file_ids: Seq<(String, String)>,
) -> Result<((Seq<char>, Seq<char>, Seq<char>, Seq<char>), Option<(Seq<char>, Seq<char>, Option<Seq<char>>, Option<Seq<char>>, Option<Seq<char>>, Seq<char>)>), Seq<char>> {
    let s = import.specifier@;
    let unresolved = |evidence: Seq<char>| {
        let n = module_node("unresolved-module"@, s);
        Ok::<_, Seq<char>>(((from, n.0, "imports-unresolved"@, evidence), Some(n)))
    };
    let alias = spec_is_non_relative_alias(s, known);
    match spec_resolve_relative(path, s, known) {
        Some(target) => file_edge(file_ids, from, target, import.kind@, "Missing imported file node for "@),
        None => if seq_starts_with(s, "."@) {
            unresolved("missing-relative-module"@)
        } else {
            match spec_resolve_non_relative(resolver.effective, resolver.basis.status@, s, known) {
                Ok(Some(target)) => file_edge(file_ids, from, target, "tsconfig-path-alias"@, "Missing aliased file node for "@),
                Err(reason) if alias || !seq_starts_with(reason, "tsconfig-resolution-"@) => unresolved(reason),
                _ => if resolver.basis.root_config is None && alias {
                    unresolved("non-relative-path-alias"@)
                } else {
                    let n = module_node("external-module"@, s);
                    Ok(((from, n.0, "imports-external"@, import.kind@), Some(n)))
                },
            }
        },
    }
}

/// The nodes and edges after one more import effect: its edge is added, and its module
/// node unless a node with that id is already there.
pub open spec fn apply_effect(
    nodes: Seq<(Seq<char>, Seq<char>, Option<Seq<char>>, Option<Seq<char>>, Option<Seq<char>>, Seq<char>)>,
    edges: Seq<(Seq<char>, Seq<char>, Seq<char>, Seq<char>)>,
    edge: (Seq<char>, Seq<char>, Seq<char>, Seq<char>),
    node: Option<(Seq<char>, Seq<char>, Option<Seq<char>>, Option<Seq<char>>, Option<Seq<char>>, Seq<char>)>,
) -> (Seq<(Seq<char>, Seq<char>, Option<Seq<char>>, Option<Seq<char>>, Option<Seq<char>>, Seq<char>)>, Seq<(Seq<char>, Seq<char>, Seq<char>, Seq<char>)>) {
    let nodes2 = match node {
        Some(n) => if exists|k: int| 0 <= k < nodes.len() && #[trigger] nodes[k].0 == n.0 {
            nodes
        } else {
            nodes.push(n)
        },
        None => nodes,
    };
    (nodes2, edges.push(edge))
}

/// The nodes and edges after the imports of one file, or the first error.
pub open spec fn fold_imports(
    path: Seq<char>,
    from: Seq<char>,
    imports: Seq<TypeScriptImport>,
    known: Seq<String>,
    resolver: ModuleResolver,
    file_ids: Seq<(String, String)>,
    nodes: Seq<(Seq<char>, Seq<char>, Option<Seq<char>>, Option<Seq<char>>, Option<Seq<char>>, Seq<char>)>,
    edges: Seq<(Seq<char>, Seq<char>, Seq<char>, Seq<char>)>,
) -> Result<(Seq<(Seq<char>, Seq<char>, Option<Seq<char>>, Option<Seq<char>>, Option<Seq<char>>, Seq<char>)>, Seq<(Seq<char>, Seq<char>, Seq<char>, Seq<char>)>), Seq<char>>
    decreases imports.len(),
{
    if imports.len() == 0 {
        Ok((nodes, edges))
    } else {
        match fold_imports(path, from, imports.drop_last(), known, resolver, file_ids, nodes, edges) {
            Err(e) => Err(e),
            Ok((ns, es)) => match import_effect_of(path, from, imports.last(), known, resolver, file_ids) {
                Err(e) => Err(e),
                Ok((edge, node)) => Ok(apply_effect(ns, es, edge, node)),
            },
        }
    }
}

/// The nodes and edges after the imports of each file, in order, or the first error (a
/// file without a node among them).
pub open spec fn fold_facts(
    facts: Seq<TypeScriptFacts>,
    known: Seq<String>,
    resolver: ModuleResolver,
    file_ids: Seq<(String, String)>,
    nodes: Seq<(Seq<char>, Seq<char>, Option<Seq<char>>, Option<Seq<char>>, Option<Seq<char>>, Seq<char>)>,
    edges: Seq<(Seq<char>, Seq<char>, Seq<char>, Seq<char>)>,
) -> Result<(Seq<(Seq<char>, Seq<char>, Option<Seq<char>>, Option<Seq<char>>, Option<Seq<char>>, Seq<char>)>, Seq<(Seq<char>, Seq<char>, Seq<char>, Seq<char>)>), Seq<char>>
    decreases facts.len(),
{
    if facts.len() == 0 {
        Ok((nodes, edges))
    } else {
        match fold_facts(facts.drop_last(), known, resolver, file_ids, nodes, edges) {
            Err(e) => Err(e),
            Ok((ns, es)) => {
                let f = facts.last();
                match file_id_of(file_ids, f.path@) {
                    None => Err("Missing file node for "@ + f.path@),
                    Some(from) => fold_imports(f.path@, from, f.imports@, known, resolver, file_ids, ns, es),
                }
            },
        }
    }
}

/// The node id of the file at `path`, as first recorded.
pub fn find_file_id(file_ids: &Vec<(String, String)>, path: &str) -> (r: Option<String>)
    ensures
        opt_view(r) == file_id_of(file_ids@, path@),
{
    let mut i: usize = 0;
    assert(file_ids@.skip(0) =~= file_ids@);
    while i < file_ids.len()
        invariant
            i <= file_ids@.len(),
            file_id_of(file_ids@, path@) == file_id_of(file_ids@.skip(i as int), path@),
        decreases file_ids@.len() - i,
    {
        assert(file_ids@.skip(i as int)[0] == file_ids@[i as int]);
        assert(file_ids@.skip(i as int).drop_first() =~= file_ids@.skip(i as int + 1));
        if str_eq(file_ids[i].0.as_str(), path) {
            return Some(file_ids[i].1.clone());
        }
        i = i + 1;
    }
    None
}

fn new_module_node(kind: &str, specifier: &str) -> (r: GraphNode)
    ensures
        node_view(r) == module_node(kind@, specifier@),
{
    proof {
        reveal_strlit("");
    }
    GraphNode {
        id: node_id(kind, specifier, ""),
        kind: kind.to_string(),
        path: None,
        name: Some(specifier.to_string()),
        language: None,
        evidence_fingerprint: String::new(),
    }
}

fn file_edge_of(
    file_ids: &Vec<(String, String)>,
    from: &str,
    target: &str,
    evidence: &str,
    missing: &str,
) -> (r: Result<(GraphEdge, Option<GraphNode>), String>)
    ensures
        match file_edge(file_ids@, from@, target@, evidence@, missing@) {
            Ok((e, n)) => r matches Ok(x) && edge_view(x.0) == e && x.1 is None && n is None,
            Err(m) => r matches Err(x) && x@ == m,
        },
{
    match find_file_id(file_ids, target) {
        Some(to) => Ok((
            GraphEdge { from: from.to_string(), to, kind: "imports".to_string(), evidence: evidence.to_string() },
            None,
        )),
        None => {
            let mut m = missing.to_string();
            m.append(target);
            Err(m)
        },
    }
}

fn unresolved_effect(from: &str, specifier: &str, evidence: &str) -> (r: (GraphEdge, Option<GraphNode>))
    ensures
        ({
            let n = module_node("unresolved-module"@, specifier@);
            &&& edge_view(r.0) == (from@, n.0, "imports-unresolved"@, evidence@)
            &&& opt_node_view(r.1) == Some(n)
        }),
{
    let node = new_module_node("unresolved-module", specifier);
    let edge = GraphEdge {
        from: from.to_string(),
        to: node.id.clone(),
        kind: "imports-unresolved".to_string(),
        evidence: evidence.to_string(),
    };
    (edge, Some(node))
}

/// What one import of the file at `path`, whose node is `from`, adds to the graph.
pub fn import_effect(
    path: &str,
    from: &str,
    import: &TypeScriptImport,
    known_paths: &Vec<String>,
    resolver: &ModuleResolver,
    file_ids: &Vec<(String, String)>,
) -> (r: Result<(GraphEdge, Option<GraphNode>), String>)
    requires
        resolver.wf(),
    ensures
        match import_effect_of(path@, from@, *import, known_paths@, *resolver, file_ids@) {
            Ok((e, n)) => r matches Ok(x) && edge_view(x.0) == e && opt_node_view(x.1) == n,
            Err(m) => r matches Err(x) && x@ == m,
        },
{
    let s = import.specifier.as_str();
    match resolve_relative(path, s, known_paths.as_slice()) {
        Some(target) => {
            return file_edge_of(file_ids, from, target.as_str(), import.kind.as_str(), "Missing imported file node for ");
        },
        None => {},
    }
    if starts_with(s, ".") {
        return Ok(unresolved_effect(from, s, "missing-relative-module"));
    }
    let alias = is_non_relative_alias(s, known_paths.as_slice());
    match resolver.resolve_non_relative(s, known_paths.as_slice()) {
        NonRelativeResolution::Local(target) => {
            return file_edge_of(file_ids, from, target.as_str(), "tsconfig-path-alias", "Missing aliased file node for ");
        },
        NonRelativeResolution::Unresolved(reason) => {
            if alias || !starts_with(reason.as_str(), "tsconfig-resolution-") {
                return Ok(unresolved_effect(from, s, reason.as_str()));
            }
        },
        NonRelativeResolution::External => {},
    }
    if resolver.basis.root_config.is_none() && alias {
        return Ok(unresolved_effect(from, s, "non-relative-path-alias"));
    }
    let node = new_module_node("external-module", s);
    let edge = GraphEdge {
        from: from.to_string(),
        to: node.id.clone(),
        kind: "imports-external".to_string(),
        evidence: import.kind.clone(),
    };
    Ok((edge, Some(node)))
}

/// Whether some node of `nodes` has id `id`.
pub fn has_node(nodes: &Vec<GraphNode>, id: &str) -> (r: bool)
    ensures
        r == exists|k: int| 0 <= k < nodes@.len() && #[trigger] nodes@[k].id@ == id@,
{
    let mut k: usize = 0;
    while k < nodes.len()
        invariant
            k <= nodes@.len(),
            forall|m: int| 0 <= m < k ==> #[trigger] nodes@[m].id@ != id@,
        decreases nodes@.len() - k,
    {
        if str_eq(nodes[k].id.as_str(), id) {
            return true;
        }
        k = k + 1;
    }
    false
}

/// Adds `edge`, and `node` unless a node with its id is already there.
fn add_effect(nodes: &mut Vec<GraphNode>, edges: &mut Vec<GraphEdge>, edge: GraphEdge, node: Option<GraphNode>)
    ensures
        (node_views(final(nodes)@), edge_views(final(edges)@)) == apply_effect(
            node_views(old(nodes)@),
            edge_views(old(edges)@),
            edge_view(edge),
            opt_node_view(node),
        ),
{
    let ghost nb = node_views(nodes@);
    let ghost eb = edge_views(edges@);
    match node {
        Some(n) => {
            if !has_node(nodes, n.id.as_str()) {
                let ghost nv = node_view(n);
                nodes.push(n);
                assert(node_views(nodes@) =~= nb.push(nv));
                assert forall|k: int| 0 <= k < nb.len() implies #[trigger] nb[k].0 != nv.0 by {
                    assert(nb[k] == node_view(old(nodes)@[k]));
                }
            } else {
                proof {
                    let k = choose|k: int| 0 <= k < nodes@.len() && #[trigger] nodes@[k].id@ == n.id@;
                    assert(nb[k].0 == node_view(n).0);
                }
            }
        },
        None => {},
    }
    let ghost ev = edge_view(edge);
    edges.push(edge);
    assert(edge_views(edges@) =~= eb.push(ev));
}

/// Adds the edges, and the module nodes not yet present, of the imports of each file, in
/// order; stops at the first file or resolved import target that has no node.
pub fn import_structure(
    facts: &[TypeScriptFacts],
    known_paths: &Vec<String>,
    resolver: &ModuleResolver,
    file_ids: &Vec<(String, String)>,
    nodes: &mut Vec<GraphNode>,
    edges: &mut Vec<GraphEdge>,
) -> (r: Result<(), String>)
    requires
        resolver.wf(),
    ensures
        match fold_facts(
            facts@,
            known_paths@,
            *resolver,
            file_ids@,
            node_views(old(nodes)@),
            edge_views(old(edges)@),
        ) {
            Ok((ns, es)) => {
                &&& r is Ok
                &&& node_views(final(nodes)@) == ns
                &&& edge_views(final(edges)@) == es
            },
            Err(m) => r matches Err(x) && x@ == m,
        },
{
    let ghost n0 = node_views(nodes@);
    let ghost e0 = edge_views(edges@);
    let mut i: usize = 0;
    while i < facts.len()
        invariant
            i <= facts@.len(),
            resolver.wf(),
            n0 == node_views(old(nodes)@),
            e0 == edge_views(old(edges)@),
            fold_facts(facts@.take(i as int), known_paths@, *resolver, file_ids@, n0, e0) == Ok::<_, Seq<char>>(
                (node_views(nodes@), edge_views(edges@)),
            ),
        decreases facts@.len() - i,
    {
        assert(facts@.take(i as int + 1).drop_last() =~= facts@.take(i as int));
        let fact = &facts[i];
        let from = match find_file_id(file_ids, fact.path.as_str()) {
            None => {
                let mut m = "Missing file node for ".to_string();
                m.append(fact.path.as_str());
                proof {
                    assert(facts@.take(i as int + 1).last() == facts@[i as int]);
                    lemma_fold_facts_err(facts@, known_paths@, *resolver, file_ids@, n0, e0, i as int + 1);
                }
                return Err(m);
            },
            Some(f) => f,
        };
        let ghost ns0 = node_views(nodes@);
        let ghost es0 = edge_views(edges@);
        let mut j: usize = 0;
        while j < fact.imports.len()
            invariant
                i < facts@.len(),
                *fact == facts@[i as int],
                j <= fact.imports@.len(),
                resolver.wf(),
                n0 == node_views(old(nodes)@),
                e0 == edge_views(old(edges)@),
                file_id_of(file_ids@, fact.path@) == Some(from@),
                fold_facts(facts@.take(i as int), known_paths@, *resolver, file_ids@, n0, e0) == Ok::<_, Seq<char>>(
                    (ns0, es0),
                ),
                fold_imports(fact.path@, from@, fact.imports@.take(j as int), known_paths@, *resolver, file_ids@, ns0, es0)
                    == Ok::<_, Seq<char>>(
                    (node_views(nodes@), edge_views(edges@)),
                ),
            decreases fact.imports@.len() - j,
        {
            assert(fact.imports@.take(j as int + 1).drop_last() =~= fact.imports@.take(j as int));
            match import_effect(fact.path.as_str(), from.as_str(), &fact.imports[j], known_paths, resolver, file_ids) {
                Err(m) => {
                    proof {
                        lemma_fold_imports_err(fact.path@, from@, fact.imports@, known_paths@, *resolver, file_ids@, ns0, es0, j as int + 1);
                        assert(facts@.take(i as int + 1).drop_last() =~= facts@.take(i as int));
                        assert(facts@.take(i as int + 1).last() == facts@[i as int]);
                        lemma_fold_facts_err(facts@, known_paths@, *resolver, file_ids@, n0, e0, i as int + 1);
                    }
                    return Err(m);
                },
                Ok((edge, node)) => {
                    add_effect(nodes, edges, edge, node);
                },
            }
            j = j + 1;
        }
        assert(fact.imports@.take(fact.imports@.len() as int) =~= fact.imports@);
        i = i + 1;
    }
    assert(facts@.take(facts@.len() as int) =~= facts@);
    Ok(())
}

proof fn lemma_fold_imports_err(
    path: Seq<char>,
    from: Seq<char>,
    imports: Seq<TypeScriptImport>,
    known: Seq<String>,
    resolver: ModuleResolver,
    file_ids: Seq<(String, String)>,
    nodes: Seq<(Seq<char>, Seq<char>, Option<Seq<char>>, Option<Seq<char>>, Option<Seq<char>>, Seq<char>)>,
    edges: Seq<(Seq<char>, Seq<char>, Seq<char>, Seq<char>)>,
    n: int,
)
    requires
        0 <= n <= imports.len(),
        fold_imports(path, from, imports.take(n), known, resolver, file_ids, nodes, edges) is Err,
    ensures
        fold_imports(path, from, imports, known, resolver, file_ids, nodes, edges) == fold_imports(
            path,
            from,
            imports.take(n),
            known,
            resolver,
            file_ids,
            nodes,
            edges,
        ),
    decreases imports.len() - n,
{
    if n < imports.len() {
        assert(imports.take(n + 1).drop_last() =~= imports.take(n));
        lemma_fold_imports_err(path, from, imports, known, resolver, file_ids, nodes, edges, n + 1);
    } else {
        assert(imports.take(n) =~= imports);
    }
}

proof fn lemma_fold_facts_err(
    facts: Seq<TypeScriptFacts>,
    known: Seq<String>,
    resolver: ModuleResolver,
    file_ids: Seq<(String, String)>,
    nodes: Seq<(Seq<char>, Seq<char>, Option<Seq<char>>, Option<Seq<char>>, Option<Seq<char>>, Seq<char>)>,
    edges: Seq<(Seq<char>, Seq<char>, Seq<char>, Seq<char>)>,
    n: int,
)
    requires
        0 <= n <= facts.len(),
        fold_facts(facts.take(n), known, resolver, file_ids, nodes, edges) is Err,
    ensures
        fold_facts(facts, known, resolver, file_ids, nodes, edges) == fold_facts(facts.take(n), known, resolver, file_ids, nodes, edges),
    decreases facts.len() - n,
{
    if n < facts.len() {
        assert(facts.take(n + 1).drop_last() =~= facts.take(n));
        lemma_fold_facts_err(facts, known, resolver, file_ids, nodes, edges, n + 1);
    } else {
        assert(facts.take(n) =~= facts);
    }
}

} // verus!
