//! Assembling a graph snapshot from analysed files and their facts.

use vstd::prelude::*;

use super::assembly::{
    apply_module_basis, basis_applied, cap_graph, cap_source_files, file_node, file_nodes, order_graph, sort_by_id,
    GRAPH_EDGES_CAPPED, NODES_CAPPED, SOURCE_FILES_CAPPED,
};
use super::call_edges::{calls_fold, records_updated, resolve_calls};
use super::declarations::{declaration_structure, facts_declarations, index_holds, initial_state, DeclarationIndex, NodeView};
use super::edge_order::{sort_dedup_edges, sorted_edge_set};
use super::export_table::{build_module_exports, exports_built};
use super::exports::append_all;
use super::heritage::{heritage_fold, records_extended, resolve_heritage};
use super::identity_json::{graph_id_of, graph_identity_text, lemma_identity_ignores_graph_id};
use super::imports::ResolutionContext;
use super::node_fingerprints::{assign_node_fingerprints, fingerprinted};
use super::resolution_records::{evidence_of, resolution_evidence};
use super::structure::{edge_views, fold_facts, import_structure, node_views};
use super::{MAX_GRAPH_EDGES, MAX_GRAPH_NODES, MAX_SOURCE_FILES};
use crate::diagnostic::continuity_evidence::{exact_source_fingerprint, spec_source_fingerprint};
use crate::flow::derivation::{bytes_view, derive_from_manifest, manifest_derived, FlowDerivation};
use crate::hashing::blake3_hex;
use crate::identity::IdentityBasis;
use crate::model::context_basis::canonical_set;
use crate::model::flow::{EntryEvidence, RelatedTestEvidence};
use crate::model::graph::{GraphEdge, GraphNode, GraphSnapshot};
use crate::model::schemas::{SourceFile, GRAPH_SCHEMA, PRODUCT_IDENTITY};
use crate::model::typescript::{ResolutionEvidence, TypeScriptFacts};
use crate::module_resolution::ModuleResolver;
use crate::order::{lemma_strictly_sorted_unique, sorted_unique, strictly_sorted};
use crate::text::{str_eq, views};

verus! {

broadcast use vstd::string::group_string_axioms;

/// The first `n` items of a sequence, or all of them when there are no more.
pub open spec fn up_to<A>(s: Seq<A>, n: usize) -> Seq<A> {
    if s.len() > n {
        s.take(n as int)
    } else {
        s
    }
}

/// The package specifier and node id of each external module node, in order.
pub open spec fn external_pairs(nodes: Seq<NodeView>) -> Seq<(Seq<char>, Seq<char>)>
    decreases nodes.len(),
{
    if nodes.len() == 0 {
        Seq::empty()
    } else {
        let done = external_pairs(nodes.drop_last());
        let n = nodes.last();
        if n.1 == "external-module"@ && n.3 is Some {
            done.push((n.3.unwrap(), n.0))
        } else {
            done
        }
    }
}

/// Pairs of strings by their views.
pub open spec fn pair_views(s: Seq<(String, String)>) -> Seq<(Seq<char>, Seq<char>)> {
    s.map_values(|p: (String, String)| (p.0@, p.1@))
}

/// `ids` names the file node of each file, in order.
pub open spec fn file_ids_of(ids: Seq<(String, String)>, files: Seq<SourceFile>) -> bool {
    &&& ids.len() == files.len()
    &&& forall|i: int| 0 <= i < files.len() ==> (#[trigger] ids[i]).0@ == files[i].path@ && ids[i].1@ == file_node(files[i]).0
}

/// The paths of some files.
pub open spec fn paths_of(files: Seq<SourceFile>) -> Seq<Seq<char>> {
    files.map_values(|f: SourceFile| f.path@)
}

/// The declaration index a resolution context carries.
pub open spec fn index_of(r: ResolutionContext) -> DeclarationIndex {
    DeclarationIndex {
        symbols_by_path: r.symbols_by_path,
        members_by_owner: r.members_by_owner,
        declarations_by_id: r.declarations_by_id,
        symbol_kinds: r.symbol_kinds,
    }
}

/// Why assembling fails for the given file ids: a file whose declarations or imports name
/// a file without a node.
pub open spec fn assembly_failure(
    e: Seq<char>,
    files: Seq<SourceFile>,
    facts: Seq<TypeScriptFacts>,
    resolver: ModuleResolver,
    ids: Seq<(String, String)>,
    known: Seq<String>,
) -> bool {
    match facts_declarations(initial_state(files.map_values(|f: SourceFile| file_node(f)), Seq::empty()), facts, ids) {
        Err(m) => e == m,
        Ok(st) => fold_facts(facts, known, resolver, ids, st.0, st.1) == Err::<(Seq<NodeView>, Seq<(Seq<char>, Seq<char>, Seq<char>, Seq<char>)>), Seq<char>>(e),
    }
}

/// The structure the resolution context carries: the file ids, the module resolver, the
/// known paths, the export table and the declaration index of the files and facts, which
/// their declarations and imports resolve without failure.
#[verifier::opaque]
pub open spec fn structure_built(r: ResolutionContext, files: Seq<SourceFile>, facts: Seq<TypeScriptFacts>, resolver: ModuleResolver) -> bool {
    let ids = r.file_ids@;
    &&& file_ids_of(ids, files)
    &&& r.module_resolver == resolver
    &&& views(r.known_paths@) == canonical_set(paths_of(files))
    &&& exports_built(r.module_exports@, facts, r.symbols_by_path@)
    &&& match facts_declarations(initial_state(files.map_values(|f: SourceFile| file_node(f)), Seq::empty()), facts, ids) {
        Err(_) => false,
        Ok(st) => {
            &&& index_holds(index_of(r), st)
            &&& match fold_facts(facts, r.known_paths@, resolver, ids, st.0, st.1) {
                Err(_) => false,
                Ok((ns, _)) => pair_views(r.external_ids@) == external_pairs(ns),
            }
        },
    }
}

/// The nodes and edges the declarations and imports of the facts give over the file
/// nodes, under the context's file ids and known paths.
#[verifier::opaque]
pub open spec fn structure_graph(r: ResolutionContext, files: Seq<SourceFile>, facts: Seq<TypeScriptFacts>, resolver: ModuleResolver) -> (Seq<NodeView>, Seq<(Seq<char>, Seq<char>, Seq<char>, Seq<char>)>) {
    match facts_declarations(initial_state(files.map_values(|f: SourceFile| file_node(f)), Seq::empty()), facts, r.file_ids@) {
        Err(_) => (Seq::empty(), Seq::empty()),
        Ok(st) => match fold_facts(facts, r.known_paths@, resolver, r.file_ids@, st.0, st.1) {
            Err(_) => (Seq::empty(), Seq::empty()),
            Ok((ns, es)) => (ns, es),
        },
    }
}

/// The facts after call resolution (`facts1`) and heritage resolution (`out`), and the
/// graph nodes and edges ordered after the resolved call and heritage edges join them.
#[verifier::opaque]
pub open spec fn resolved(
    r: ResolutionContext,
    files: Seq<SourceFile>,
    facts0: Seq<TypeScriptFacts>,
    resolver: ModuleResolver,
    facts1: Seq<TypeScriptFacts>,
    out: Seq<TypeScriptFacts>,
    nodes_o: Seq<GraphNode>,
    edges_o: Seq<GraphEdge>,
) -> bool {
    let c = calls_fold(r, facts0, Seq::empty());
    let h = heritage_fold(r, facts1, Seq::empty());
    let sg = structure_graph(r, files, facts0, resolver);
    &&& facts1.len() == facts0.len()
    &&& forall|i: int| 0 <= i < facts0.len() ==> records_updated(facts0[i], #[trigger] facts1[i], c.0[i])
    &&& out.len() == facts1.len()
    &&& forall|i: int| 0 <= i < facts1.len() ==> records_extended(facts1[i], #[trigger] out[i], h.0[i])
    &&& node_views(nodes_o) == sort_by_id(sg.0)
    &&& edge_views(edges_o) == sorted_edge_set(sg.1 + c.1 + h.1)
}

/// The flow evidence joined to the ordered graph: fingerprints, a first derivation whose
/// entry nodes and edges join the graph (the edges ordered again), fingerprints again and
/// the final derivation.
#[verifier::opaque]
pub open spec fn flows_joined(
    out: Seq<TypeScriptFacts>,
    manifest: Option<Seq<u8>>,
    project_id: Seq<char>,
    files: Seq<SourceFile>,
    nodes_o: Seq<GraphNode>,
    edges_o: Seq<GraphEdge>,
    nodes_f: Seq<GraphNode>,
    seed: FlowDerivation,
    edges2: Seq<GraphEdge>,
    nodes_f2: Seq<GraphNode>,
    d: FlowDerivation,
) -> bool {
    &&& fingerprinted(nodes_f, nodes_o, edges_o, out)
    &&& manifest_derived(seed, manifest, project_id, files, nodes_f, edges_o)
    &&& edge_views(edges2) == sorted_edge_set(edge_views(edges_o + seed.entry_edges@))
    &&& fingerprinted(nodes_f2, nodes_f + seed.entry_nodes@, edges2, out)
    &&& manifest_derived(d, manifest, project_id, files, nodes_f2, edges2)
}

/// The fields of an assembled graph: its files, the capped nodes and edges, the final
/// flow evidence, the module basis, the truncation and the sorted omissions.
#[verifier::opaque]
pub open spec fn graph_fields(
    g: GraphSnapshot,
    project_id: Seq<char>,
    source_revision: Seq<char>,
    identity_basis: IdentityBasis,
    files: Seq<SourceFile>,
    resolver: ModuleResolver,
    tr1: bool,
    om1: Seq<Seq<char>>,
    edges2: Seq<GraphEdge>,
    nodes_f2: Seq<GraphNode>,
    d: FlowDerivation,
) -> bool {
    let om2 = om1 + (if d.truncated { views(d.omissions@) } else { Seq::empty() }) + (if nodes_f2.len() > MAX_GRAPH_NODES {
        seq![NODES_CAPPED@]
    } else {
        Seq::empty()
    }) + (if edges2.len() > MAX_GRAPH_EDGES {
        seq![GRAPH_EDGES_CAPPED@]
    } else {
        Seq::empty()
    });
    &&& g.schema_version@ == GRAPH_SCHEMA@
    &&& g.product@ == PRODUCT_IDENTITY@
    &&& g.project_id@ == project_id
    &&& g.graph_version == 0
    &&& g.source_revision@ == source_revision
    &&& g.source_fingerprint@ == spec_source_fingerprint(files)
    &&& g.observation_id@.len() == 0
    &&& g.identity_basis == identity_basis
    &&& g.files@ == files
    &&& g.nodes@ == up_to(nodes_f2, MAX_GRAPH_NODES)
    &&& g.edges@ == up_to(edges2, MAX_GRAPH_EDGES)
    &&& g.module_resolution == resolver.basis
    &&& g.entry_evidence == d.entry_evidence
    &&& g.related_test_evidence == d.related_test_evidence
    &&& g.flows == d.flows
    &&& g.truncated == (tr1 || d.truncated || nodes_f2.len() > MAX_GRAPH_NODES || edges2.len() > MAX_GRAPH_EDGES)
    &&& views(g.omissions@) == canonical_set(om2)
}

/// The stages of assembling a graph `g` and its resolved facts `out`: the structure of
/// declarations and imports over the file nodes, call and heritage resolution, ordering,
/// resolution evidence with the module basis applied, fingerprints, a first flow
/// derivation whose entry nodes and edges join the graph, fingerprints again, the final
/// flow derivation, the graph caps and the sorted omissions.
#[verifier::opaque]
pub open spec fn assembly_steps(
    g: GraphSnapshot,
    out: Seq<TypeScriptFacts>,
    project_id: Seq<char>,
    source_revision: Seq<char>,
    identity_basis: IdentityBasis,
    files0: Seq<SourceFile>,
    facts0: Seq<TypeScriptFacts>,
    resolver: ModuleResolver,
    manifest: Option<Seq<u8>>,
    r: ResolutionContext,
    facts1: Seq<TypeScriptFacts>,
    nodes_o: Seq<GraphNode>,
    edges_o: Seq<GraphEdge>,
    ev0: ResolutionEvidence,
    tr1: bool,
    om1: Seq<Seq<char>>,
    nodes_f: Seq<GraphNode>,
    seed: FlowDerivation,
    edges2: Seq<GraphEdge>,
    nodes_f2: Seq<GraphNode>,
    d: FlowDerivation,
) -> bool {
    let files = up_to(files0, MAX_SOURCE_FILES);
    let tr0 = files0.len() > MAX_SOURCE_FILES;
    let om0 = if tr0 { seq![SOURCE_FILES_CAPPED@] } else { Seq::<Seq<char>>::empty() };
    &&& structure_built(r, files, facts0, resolver)
    &&& resolved(r, files, facts0, resolver, facts1, out, nodes_o, edges_o)
    &&& evidence_of(ev0, out, false)
    &&& basis_applied(g.resolution_evidence, tr1, om1, ev0, resolver.basis, tr0, om0)
    &&& flows_joined(out, manifest, project_id, files, nodes_o, edges_o, nodes_f, seed, edges2, nodes_f2, d)
    &&& graph_fields(g, project_id, source_revision, identity_basis, files, resolver, tr1, om1, edges2, nodes_f2, d)
}

/// `g` and `out` are what assembling the files, their facts, the module resolver and the
/// root package manifest gives.
#[verifier::opaque]
pub open spec fn assembled(
    g: GraphSnapshot,
    out: Seq<TypeScriptFacts>,
    project_id: Seq<char>,
    source_revision: Seq<char>,
    identity_basis: IdentityBasis,
    files0: Seq<SourceFile>,
    facts0: Seq<TypeScriptFacts>,
    resolver: ModuleResolver,
    manifest: Option<Seq<u8>>,
) -> bool {
    exists|
        r: ResolutionContext,
        facts1: Seq<TypeScriptFacts>,
        nodes_o: Seq<GraphNode>,
        edges_o: Seq<GraphEdge>,
        ev0: ResolutionEvidence,
        tr1: bool,
        om1: Seq<Seq<char>>,
        nodes_f: Seq<GraphNode>,
        seed: FlowDerivation,
        edges2: Seq<GraphEdge>,
        nodes_f2: Seq<GraphNode>,
        d: FlowDerivation,
    |
        #[trigger] assembly_steps(
            g,
            out,
            project_id,
            source_revision,
            identity_basis,
            files0,
            facts0,
            resolver,
            manifest,
            r,
            facts1,
            nodes_o,
            edges_o,
            ev0,
            tr1,
            om1,
            nodes_f,
            seed,
            edges2,
            nodes_f2,
            d,
        )
}

fn external_modules(nodes: &Vec<GraphNode>) -> (r: Vec<(String, String)>)
    ensures
        pair_views(r@) == external_pairs(node_views(nodes@)),
{
    let mut r: Vec<(String, String)> = Vec::new();
    let mut i: usize = 0;
    proof {
        reveal_strlit("external-module");
    }
    while i < nodes.len()
        invariant
            i <= nodes@.len(),
            pair_views(r@) == external_pairs(node_views(nodes@).take(i as int)),
        decreases nodes@.len() - i,
    {
        assert(node_views(nodes@).take(i as int + 1).drop_last() =~= node_views(nodes@).take(i as int));
        assert(node_views(nodes@).take(i as int + 1).last() == node_views(nodes@)[i as int]);
        let n = &nodes[i];
        if str_eq(n.kind.as_str(), "external-module") {
            match &n.name {
                Some(name) => {
                    let ghost before = pair_views(r@);
                    r.push((name.clone(), n.id.clone()));
                    assert(pair_views(r@) =~= before.push((name@, n.id@)));
                },
                None => {},
            }
        }
        i = i + 1;
    }
    assert(node_views(nodes@).take(nodes@.len() as int) =~= node_views(nodes@));
    r
}

fn file_paths(files: &Vec<SourceFile>) -> (r: Vec<String>)
    ensures
        views(r@) == canonical_set(paths_of(files@)),
{
    let mut paths: Vec<String> = Vec::new();
    let mut i: usize = 0;
    while i < files.len()
        invariant
            i <= files@.len(),
            views(paths@) == paths_of(files@).take(i as int),
        decreases files@.len() - i,
    {
        let ghost before = views(paths@);
        paths.push(files[i].path.clone());
        assert(views(paths@) =~= before.push(files@[i as int].path@));
        assert(paths_of(files@).take(i as int + 1) =~= paths_of(files@).take(i as int).push(files@[i as int].path@));
        i = i + 1;
    }
    assert(paths_of(files@).take(files@.len() as int) =~= paths_of(files@));
    let ghost all = views(paths@);
    let r = sorted_unique(paths);
    proof {
        let t = canonical_set(all);
        assert(strictly_sorted(views(r@)) && views(r@).to_set() == all.to_set());
        lemma_strictly_sorted_unique(views(r@), t);
    }
    r
}

proof fn lemma_assembled(
    g: GraphSnapshot,
    out: Seq<TypeScriptFacts>,
    project_id: Seq<char>,
    source_revision: Seq<char>,
    identity_basis: IdentityBasis,
    files0: Seq<SourceFile>,
    facts0: Seq<TypeScriptFacts>,
    resolver: ModuleResolver,
    manifest: Option<Seq<u8>>,
    r: ResolutionContext,
    facts1: Seq<TypeScriptFacts>,
    nodes_o: Seq<GraphNode>,
    edges_o: Seq<GraphEdge>,
    ev0: ResolutionEvidence,
    tr1: bool,
    om1: Seq<Seq<char>>,
    nodes_f: Seq<GraphNode>,
    seed: FlowDerivation,
    edges2: Seq<GraphEdge>,
    nodes_f2: Seq<GraphNode>,
    d: FlowDerivation,
)
    requires
        structure_built(r, up_to(files0, MAX_SOURCE_FILES), facts0, resolver),
        resolved(r, up_to(files0, MAX_SOURCE_FILES), facts0, resolver, facts1, out, nodes_o, edges_o),
        evidence_of(ev0, out, false),
        basis_applied(
            g.resolution_evidence,
            tr1,
            om1,
            ev0,
            resolver.basis,
            files0.len() > MAX_SOURCE_FILES,
            if files0.len() > MAX_SOURCE_FILES { seq![SOURCE_FILES_CAPPED@] } else { Seq::<Seq<char>>::empty() },
        ),
        flows_joined(out, manifest, project_id, up_to(files0, MAX_SOURCE_FILES), nodes_o, edges_o, nodes_f, seed, edges2, nodes_f2, d),
        graph_fields(g, project_id, source_revision, identity_basis, up_to(files0, MAX_SOURCE_FILES), resolver, tr1, om1, edges2, nodes_f2, d),
    ensures
        assembled(g, out, project_id, source_revision, identity_basis, files0, facts0, resolver, manifest),
{
    reveal(assembly_steps);
    reveal(assembled);
    assert(assembly_steps(
        g,
        out,
        project_id,
        source_revision,
        identity_basis,
        files0,
        facts0,
        resolver,
        manifest,
        r,
        facts1,
        nodes_o,
        edges_o,
        ev0,
        tr1,
        om1,
        nodes_f,
        seed,
        edges2,
        nodes_f2,
        d,
    ));
}

fn structure_stage(
    files: &Vec<SourceFile>,
    facts: &Vec<TypeScriptFacts>,
    resolver: ModuleResolver,
) -> (r: Result<(ResolutionContext, Vec<GraphNode>, Vec<GraphEdge>), String>)
    requires
        resolver.wf(),
    ensures
        r matches Ok((ctx, nodes, edges)) ==> {
            &&& ctx.module_resolver == resolver
            &&& structure_built(ctx, files@, facts@, resolver)
            &&& (node_views(nodes@), edge_views(edges@)) == structure_graph(ctx, files@, facts@, resolver)
        },
        r is Err ==> exists|ids: Seq<(String, String)>, known: Seq<String>|
            {
                &&& file_ids_of(ids, files@)
                &&& views(known) == canonical_set(paths_of(files@))
                &&& #[trigger] assembly_failure(r->Err_0@, files@, facts@, resolver, ids, known)
            },
{
    reveal(structure_built);
    reveal(structure_graph);
    let (file_node_list, file_ids) = file_nodes(files.as_slice());
    let mut nodes = file_node_list;
    let mut edges: Vec<GraphEdge> = Vec::new();
    assert(edge_views(edges@) =~= Seq::empty());
    let known = file_paths(files);
    assert(file_ids_of(file_ids@, files@));
    let index = match declaration_structure(facts.as_slice(), &file_ids, &mut nodes, &mut edges) {
        Ok(x) => x,
        Err(m) => {
            assert(assembly_failure(m@, files@, facts@, resolver, file_ids@, known@));
            assert(views(known@) == canonical_set(paths_of(files@)));
            assert(exists|ids: Seq<(String, String)>, kn: Seq<String>|
                {
                    &&& file_ids_of(ids, files@)
                    &&& views(kn) == canonical_set(paths_of(files@))
                    &&& #[trigger] assembly_failure(m@, files@, facts@, resolver, ids, kn)
                });
            let res: Result<(ResolutionContext, Vec<GraphNode>, Vec<GraphEdge>), String> = Err(m);
            assert(res->Err_0@ == m@);
            assert(exists|ids: Seq<(String, String)>, kn: Seq<String>|
                {
                    &&& file_ids_of(ids, files@)
                    &&& views(kn) == canonical_set(paths_of(files@))
                    &&& #[trigger] assembly_failure(res->Err_0@, files@, facts@, resolver, ids, kn)
                });
            return res;
        },
    };
    match import_structure(facts.as_slice(), &known, &resolver, &file_ids, &mut nodes, &mut edges) {
        Ok(()) => {},
        Err(m) => {
            assert(assembly_failure(m@, files@, facts@, resolver, file_ids@, known@));
            assert(views(known@) == canonical_set(paths_of(files@)));
            assert(exists|ids: Seq<(String, String)>, kn: Seq<String>|
                {
                    &&& file_ids_of(ids, files@)
                    &&& views(kn) == canonical_set(paths_of(files@))
                    &&& #[trigger] assembly_failure(m@, files@, facts@, resolver, ids, kn)
                });
            let ghost mv = m@;
            let res: Result<(ResolutionContext, Vec<GraphNode>, Vec<GraphEdge>), String> = Err(m);
            assert(res->Err_0@ == mv);
            assert(exists|ids: Seq<(String, String)>, kn: Seq<String>|
                {
                    &&& file_ids_of(ids, files@)
                    &&& views(kn) == canonical_set(paths_of(files@))
                    &&& #[trigger] assembly_failure(res->Err_0@, files@, facts@, resolver, ids, kn)
                });
            return res;
        },
    }
    let external_ids = external_modules(&nodes);
    let module_exports = build_module_exports(facts.as_slice(), &index.symbols_by_path);
    let ctx = ResolutionContext {
        known_paths: known,
        external_ids,
        module_resolver: resolver,
        file_ids,
        symbols_by_path: index.symbols_by_path,
        members_by_owner: index.members_by_owner,
        declarations_by_id: index.declarations_by_id,
        symbol_kinds: index.symbol_kinds,
        module_exports,
    };
    assert(index_of(ctx) == index);
    Ok((ctx, nodes, edges))
}

fn resolve_stage(
    ctx: &ResolutionContext,
    files: &Vec<SourceFile>,
    facts: &mut Vec<TypeScriptFacts>,
    nodes: Vec<GraphNode>,
    edges: Vec<GraphEdge>,
) -> (r: (Vec<GraphNode>, Vec<GraphEdge>, Ghost<Seq<TypeScriptFacts>>))
    requires
        ctx.module_resolver.wf(),
        (node_views(nodes@), edge_views(edges@)) == structure_graph(*ctx, files@, old(facts)@, ctx.module_resolver),
    ensures
        resolved(*ctx, files@, old(facts)@, ctx.module_resolver, r.2@, final(facts)@, r.0@, r.1@),
{
    reveal(resolved);
    reveal(structure_graph);
    let ghost f0 = facts@;
    let mut edges = edges;
    resolve_calls(facts, ctx, &mut edges);
    let ghost facts1 = facts@;
    resolve_heritage(facts, ctx, &mut edges);
    let ghost sg = structure_graph(*ctx, files@, f0, ctx.module_resolver);
    let ghost c = calls_fold(*ctx, f0, Seq::empty());
    let ghost h = heritage_fold(*ctx, facts1, Seq::empty());
    assert(edge_views(edges@) == sg.1 + c.1 + h.1);
    let (nodes_o, edges_o) = order_graph(nodes, edges);
    (nodes_o, edges_o, Ghost(facts1))
}

fn flow_stage(
    manifest: Option<&[u8]>,
    project_id: &str,
    files: &Vec<SourceFile>,
    facts: &Vec<TypeScriptFacts>,
    nodes_o: Vec<GraphNode>,
    edges_o: Vec<GraphEdge>,
) -> (r: (Vec<GraphNode>, Vec<GraphEdge>, FlowDerivation, Ghost<Seq<GraphNode>>, Ghost<FlowDerivation>))
    ensures
        flows_joined(facts@, bytes_view(manifest), project_id@, files@, nodes_o@, edges_o@, r.3@, r.4@, r.1@, r.0@, r.2),
{
    reveal(flows_joined);
    let mut nodes = nodes_o;
    assign_node_fingerprints(&mut nodes, edges_o.as_slice(), facts.as_slice());
    let ghost nodes_f = nodes@;
    let seed = derive_from_manifest(manifest, project_id, files.as_slice(), nodes.as_slice(), edges_o.as_slice());
    let seed = match seed {
        Ok(d) => d,
        Err(_) => {
            assert(false);
            FlowDerivation {
                entry_evidence: EntryEvidence::default(),
                related_test_evidence: RelatedTestEvidence::default(),
                flows: Vec::new(),
                entry_nodes: Vec::new(),
                entry_edges: Vec::new(),
                truncated: false,
                omissions: Vec::new(),
            }
        },
    };
    let ghost seed_g = seed;
    let mut entry_nodes = seed.entry_nodes;
    let mut entry_edges = seed.entry_edges;
    nodes.append(&mut entry_nodes);
    let mut all_edges = edges_o;
    all_edges.append(&mut entry_edges);
    let edges = sort_dedup_edges(all_edges);
    assert(nodes@ =~= nodes_f + seed_g.entry_nodes@);
    assign_node_fingerprints(&mut nodes, edges.as_slice(), facts.as_slice());
    let derivation = derive_from_manifest(manifest, project_id, files.as_slice(), nodes.as_slice(), edges.as_slice());
    let derivation = match derivation {
        Ok(d) => d,
        Err(_) => {
            assert(false);
            FlowDerivation {
                entry_evidence: EntryEvidence::default(),
                related_test_evidence: RelatedTestEvidence::default(),
                flows: Vec::new(),
                entry_nodes: Vec::new(),
                entry_edges: Vec::new(),
                truncated: false,
                omissions: Vec::new(),
            }
        },
    };
    (nodes, edges, derivation, Ghost(nodes_f), Ghost(seed_g))
}

/// Assembles the graph snapshot of the analysed files from their facts, the module
/// resolver and the root package manifest's content (when it exists): the file, symbol
/// and module nodes and their declaring, import, call and heritage edges, ordered and
/// fingerprinted; the resolution evidence; the entry, related-test and flow evidence; the
/// caps; and the graph id, the BLAKE3 hash of the graph's identity text. Fails when a
/// fact's file, or an import's resolved file, has no node.
#[verifier::spinoff_prover]
#[verifier::rlimit(100)]
pub fn assemble_graph(
    project_id: &str,
    source_revision: String,
    identity_basis: IdentityBasis,
    files: Vec<SourceFile>,
    facts: Vec<TypeScriptFacts>,
    resolver: ModuleResolver,
    manifest: Option<&[u8]>,
) -> (r: Result<(GraphSnapshot, Vec<TypeScriptFacts>), String>)
    requires
        resolver.wf(),
    ensures
        r matches Ok((g, out)) ==> {
            &&& assembled(g, out@, project_id@, source_revision@, identity_basis, files@, facts@, resolver, bytes_view(manifest))
            &&& g.graph_id@ == blake3_hex(vstd::utf8::encode_utf8(graph_identity_text(g)))
        },
        r is Err ==> exists|ids: Seq<(String, String)>, known: Seq<String>|
            {
                &&& file_ids_of(ids, up_to(files@, MAX_SOURCE_FILES))
                &&& views(known) == canonical_set(paths_of(up_to(files@, MAX_SOURCE_FILES)))
                &&& #[trigger] assembly_failure(r->Err_0@, up_to(files@, MAX_SOURCE_FILES), facts@, resolver, ids, known)
            },
{
    let ghost files0 = files@;
    let ghost facts0 = facts@;
    let mut files = files;
    let mut truncated = false;
    let mut omissions: Vec<String> = Vec::new();
    assert(views(omissions@) =~= Seq::<Seq<char>>::empty());
    cap_source_files(&mut files, &mut truncated, &mut omissions);
    assert(files@ == up_to(files0, MAX_SOURCE_FILES));
    let ghost tr0 = truncated;
    let ghost om0 = views(omissions@);
    assert(tr0 == (files0.len() > MAX_SOURCE_FILES));
    assert(om0 =~= if files0.len() > MAX_SOURCE_FILES { seq![SOURCE_FILES_CAPPED@] } else { Seq::<Seq<char>>::empty() });
    let staged = structure_stage(&files, &facts, resolver);
    let (ctx, nodes, edges) = match staged {
        Ok(x) => x,
        Err(e) => {
            let res: Result<(GraphSnapshot, Vec<TypeScriptFacts>), String> = Err(e);
            assert(res->Err_0@ == staged->Err_0@);
            assert(exists|ids: Seq<(String, String)>, kn: Seq<String>|
                {
                    &&& file_ids_of(ids, up_to(files0, MAX_SOURCE_FILES))
                    &&& views(kn) == canonical_set(paths_of(up_to(files0, MAX_SOURCE_FILES)))
                    &&& #[trigger] assembly_failure(res->Err_0@, up_to(files0, MAX_SOURCE_FILES), facts0, resolver, ids, kn)
                });
            return res;
        },
    };
    let mut facts = facts;
    let (nodes_o, edges_o, Ghost(facts1)) = resolve_stage(&ctx, &files, &mut facts, nodes, edges);
    let ghost nodes_o_v = nodes_o@;
    let ghost edges_o_v = edges_o@;
    let mut evidence = resolution_evidence(facts.as_slice(), false);
    let ghost ev0 = evidence;
    apply_module_basis(&mut evidence, &ctx.module_resolver.basis, &mut truncated, &mut omissions);
    let ghost tr1 = truncated;
    let ghost om1 = views(omissions@);
    let (mut nodes, mut edges, derivation, Ghost(nodes_f), Ghost(seed_g)) = flow_stage(
        manifest,
        project_id,
        &files,
        &facts,
        nodes_o,
        edges_o,
    );
    let ghost nodes_f2 = nodes@;
    let ghost edges2 = edges@;
    let ghost dg = derivation;
    if derivation.truncated {
        truncated = true;
        append_all(&mut omissions, &derivation.omissions);
    }
    cap_graph(&mut nodes, &mut edges, &mut truncated, &mut omissions);
    let ghost om_final = views(omissions@);
    let omissions = sorted_unique(omissions);
    proof {
        let t = canonical_set(om_final);
        lemma_strictly_sorted_unique(views(omissions@), t);
    }
    let source_fingerprint = match exact_source_fingerprint(files.as_slice()) {
        Ok(x) => x,
        Err(e) => return Err(e),
    };
    let ghost ctx_g = ctx;
    let module_resolution = ctx.module_resolver.basis;
    let mut g = GraphSnapshot {
        schema_version: GRAPH_SCHEMA.to_string(),
        product: PRODUCT_IDENTITY.to_string(),
        project_id: project_id.to_string(),
        graph_id: String::new(),
        graph_version: 0,
        source_revision,
        source_fingerprint,
        observation_id: String::new(),
        identity_basis,
        files,
        nodes,
        edges,
        resolution_evidence: evidence,
        module_resolution,
        entry_evidence: derivation.entry_evidence,
        related_test_evidence: derivation.related_test_evidence,
        flows: derivation.flows,
        truncated,
        omissions,
    };
    let id = graph_id_of(&g);
    let ghost g0 = g;
    g.graph_id = id;
    proof {
        lemma_identity_ignores_graph_id(g0, id);
        assert(g == GraphSnapshot { graph_id: id, ..g0 });
    }
    proof {
        reveal_strlit("");
        assert(graph_fields(
            g,
            project_id@,
            g.source_revision@,
            g.identity_basis,
            up_to(files0, MAX_SOURCE_FILES),
            ctx_g.module_resolver,
            tr1,
            om1,
            edges2,
            nodes_f2,
            dg,
        )) by {
            reveal(graph_fields);
        }
        assert(structure_built(ctx_g, up_to(files0, MAX_SOURCE_FILES), facts0, ctx_g.module_resolver));
        assert(resolved(ctx_g, up_to(files0, MAX_SOURCE_FILES), facts0, ctx_g.module_resolver, facts1, facts@, nodes_o_v, edges_o_v));
        assert(evidence_of(ev0, facts@, false));
        assert(basis_applied(
            g.resolution_evidence,
            tr1,
            om1,
            ev0,
            ctx_g.module_resolver.basis,
            files0.len() > MAX_SOURCE_FILES,
            if files0.len() > MAX_SOURCE_FILES { seq![SOURCE_FILES_CAPPED@] } else { Seq::<Seq<char>>::empty() },
        ));
        assert(flows_joined(facts@, bytes_view(manifest), project_id@, up_to(files0, MAX_SOURCE_FILES), nodes_o_v, edges_o_v, nodes_f, seed_g, edges2, nodes_f2, dg));
        lemma_assembled(
            g,
            facts@,
            project_id@,
            g.source_revision@,
            g.identity_basis,
            files0,
            facts0,
            ctx_g.module_resolver,
            bytes_view(manifest),
            ctx_g,
            facts1,
            nodes_o_v,
            edges_o_v,
            ev0,
            tr1,
            om1,
            nodes_f,
            seed_g,
            edges2,
            nodes_f2,
            dg,
        );
        assert(g.source_revision@ == source_revision@ && g.identity_basis == identity_basis && ctx_g.module_resolver == resolver);
    }
    let ghost gg = g;
    let ghost out = facts@;
    assert(assembled(gg, out, project_id@, source_revision@, identity_basis, files0, facts0, resolver, bytes_view(manifest)));
    assert(gg.graph_id@ == blake3_hex(vstd::utf8::encode_utf8(graph_identity_text(gg))));
    Ok((g, facts))
}

} // verus!
