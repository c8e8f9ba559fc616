//! Assembly steps of a graph: its file nodes, the canonical order of its nodes and
//! edges, and its size limits.

use vstd::prelude::*;

use super::edge_order::{sort_dedup_edges, sorted_edge_set};
use super::exports::append_all;
use super::fingerprints::{node_id, spec_node_id};
use super::structure::{edge_views, node_view, node_views};
use super::{MAX_GRAPH_EDGES, MAX_GRAPH_NODES, MAX_SOURCE_FILES};
use super::declarations::NodeView;
use crate::model::graph::{GraphEdge, GraphNode};
use crate::model::schemas::SourceFile;
use crate::model::typescript::{ModuleResolutionBasis, ResolutionEvidence};
use crate::order::{lemma_str_lt_irreflexive, lemma_str_lt_total, lemma_str_lt_transitive, str_less, str_lt};
use crate::text::{str_eq, views};

verus! {

broadcast use vstd::string::group_string_axioms;

/// The omission recorded when the source files are capped.
pub const SOURCE_FILES_CAPPED: &'static str = "source files capped at 10000";

/// The omission recorded when the nodes are capped.
pub const NODES_CAPPED: &'static str = "graph nodes capped at 50000";

/// The omission recorded when the edges are capped.
pub const GRAPH_EDGES_CAPPED: &'static str = "graph edges capped at 100000";

/// The node of a source file.
pub open spec fn file_node(f: SourceFile) -> (Seq<char>, Seq<char>, Option<Seq<char>>, Option<Seq<char>>, Option<Seq<char>>, Seq<char>) {
    (spec_node_id("file"@, f.path@, Seq::empty()), "file"@, Some(f.path@), None, Some(f.language@), Seq::empty())
}

/// The node and the node id of each source file, in order.
pub fn file_nodes(files: &[SourceFile]) -> (r: (Vec<GraphNode>, Vec<(String, String)>))
    ensures
        node_views(r.0@) == files@.map_values(|f: SourceFile| file_node(f)),
        r.1@.len() == files@.len(),
        forall|i: int|
            0 <= i < files@.len() ==> (#[trigger] r.1@[i]).0@ == files@[i].path@ && r.1@[i].1@ == file_node(files@[i]).0,
{
    let mut nodes: Vec<GraphNode> = Vec::new();
    let mut ids: Vec<(String, String)> = Vec::new();
    let mut i: usize = 0;
    proof {
        reveal_strlit("");
    }
    while i < files.len()
        invariant
            i <= files@.len(),
            ""@ == Seq::<char>::empty(),
            node_views(nodes@) == files@.take(i as int).map_values(|f: SourceFile| file_node(f)),
            ids@.len() == i,
            forall|k: int| 0 <= k < i ==> (#[trigger] ids@[k]).0@ == files@[k].path@ && ids@[k].1@ == file_node(files@[k]).0,
        decreases files@.len() - i,
    {
        let f = &files[i];
        let id = node_id("file", f.path.as_str(), "");
        let node = GraphNode {
            id: id.clone(),
            kind: "file".to_string(),
            path: Some(f.path.clone()),
            name: None,
            language: Some(f.language.clone()),
            evidence_fingerprint: String::new(),
        };
        let ghost before = node_views(nodes@);
        nodes.push(node);
        assert(node_views(nodes@) =~= before.push(file_node(files@[i as int])));
        assert(files@.take(i as int + 1).map_values(|f: SourceFile| file_node(f)) =~= files@.take(i as int).map_values(
            |f: SourceFile| file_node(f),
        ).push(file_node(files@[i as int])));
        ids.push((f.path.clone(), id));
        i = i + 1;
    }
    assert(files@.take(files@.len() as int) =~= files@);
    (nodes, ids)
}

/// `s` with `n` inserted before the first node whose id sorts after `n`'s.
pub open spec fn insert_by_id(s: Seq<NodeView>, n: NodeView) -> Seq<NodeView>
    decreases s.len(),
{
    if s.len() == 0 {
        seq![n]
    } else if str_lt(n.0, s[0].0) {
        seq![n] + s
    } else {
        seq![s[0]] + insert_by_id(s.drop_first(), n)
    }
}

/// The nodes in ascending order of id, nodes with equal ids in their given order (a
/// stable sort).
pub open spec fn sort_by_id(s: Seq<NodeView>) -> Seq<NodeView>
    decreases s.len(),
{
    if s.len() == 0 {
        Seq::empty()
    } else {
        insert_by_id(sort_by_id(s.drop_last()), s.last())
    }
}

proof fn lemma_insert_by_id_at(s: Seq<NodeView>, n: NodeView, pos: int)
    requires
        0 <= pos <= s.len(),
        forall|k: int| 0 <= k < pos ==> !str_lt(n.0, (#[trigger] s[k]).0),
        pos < s.len() ==> str_lt(n.0, s[pos].0),
    ensures
        insert_by_id(s, n) == s.take(pos).push(n) + s.skip(pos),
    decreases s.len(),
{
    if s.len() == 0 {
        assert(s.take(pos).push(n) + s.skip(pos) =~= seq![n]);
    } else if pos == 0 {
        assert(s.take(0).push(n) + s.skip(0) =~= seq![n] + s);
    } else {
        assert forall|k: int| 0 <= k < pos - 1 implies !str_lt(n.0, (#[trigger] s.drop_first()[k]).0) by {
            assert(s.drop_first()[k] == s[k + 1]);
        }
        lemma_insert_by_id_at(s.drop_first(), n, pos - 1);
        assert(seq![s[0]] + (s.drop_first().take(pos - 1).push(n) + s.drop_first().skip(pos - 1)) =~= s.take(pos).push(n)
            + s.skip(pos));
    }
}

/// The nodes in ascending order of their ids; nodes with equal ids keep their order.
pub fn sort_nodes_by_id(nodes: Vec<GraphNode>) -> (r: Vec<GraphNode>)
    ensures
        node_views(r@) == sort_by_id(node_views(nodes@)),
{
    let ghost input = node_views(nodes@);
    let mut sorted: Vec<GraphNode> = Vec::new();
    let mut rest = nodes;
    let ghost rest0 = rest@;
    let ghost mut taken: Seq<GraphNode> = Seq::empty();
    assert(input.take(0) =~= Seq::<NodeView>::empty());
    assert(node_views(sorted@) =~= Seq::<NodeView>::empty());
    while rest.len() > 0
        invariant
            rest@.len() + taken.len() == rest0.len(),
            input == node_views(rest0),
            rest0 == taken + rest@,
            node_views(sorted@) == sort_by_id(input.take(taken.len() as int)),
        decreases rest@.len(),
    {
        let node = rest.remove(0);
        let ghost k = taken.len();
        assert(rest0[k as int] == node);
        let ghost sv = node_views(sorted@);
        let mut pos: usize = 0;
        while pos < sorted.len() && !str_less(node.id.as_str(), sorted[pos].id.as_str())
            invariant
                pos <= sorted@.len(),
                sv == node_views(sorted@),
                forall|m: int| 0 <= m < pos ==> !str_lt(node.id@, (#[trigger] sv[m]).0),
            decreases sorted@.len() - pos,
        {
            assert(sv[pos as int].0 == sorted@[pos as int].id@);
            pos = pos + 1;
        }
        proof {
            if pos < sorted@.len() {
                assert(sv[pos as int].0 == sorted@[pos as int].id@);
            }
            lemma_insert_by_id_at(sv, node_view(node), pos as int);
            assert(input.take(k as int + 1).drop_last() =~= input.take(k as int));
            assert(input.take(k as int + 1).last() == node_view(node));
        }
        let ghost nv = node_view(node);
        sorted.insert(pos, node);
        assert(node_views(sorted@) =~= sv.take(pos as int).push(nv) + sv.skip(pos as int));
        proof {
            taken = taken.push(rest0[k as int]);
        }
        assert(rest0 =~= taken + rest@);
    }
    assert(taken =~= rest0);
    assert(input.take(input.len() as int) =~= input);
    sorted
}

/// The nodes by ascending id (stably), and the distinct edges in the edge order.
pub fn order_graph(nodes: Vec<GraphNode>, edges: Vec<GraphEdge>) -> (r: (Vec<GraphNode>, Vec<GraphEdge>))
    ensures
        node_views(r.0@) == sort_by_id(node_views(nodes@)),
        edge_views(r.1@) == sorted_edge_set(edge_views(edges@)),
{
    (sort_nodes_by_id(nodes), sort_dedup_edges(edges))
}

/// Keeps the first `limit` items and records `omission` where there were more.
fn cap_vec<T>(items: &mut Vec<T>, limit: usize, omission: &str, truncated: &mut bool, omissions: &mut Vec<String>)
    ensures
        final(items)@ == if old(items)@.len() > limit {
            old(items)@.take(limit as int)
        } else {
            old(items)@
        },
        *final(truncated) == (*old(truncated) || old(items)@.len() > limit),
        views(final(omissions)@) == if old(items)@.len() > limit {
            views(old(omissions)@).push(omission@)
        } else {
            views(old(omissions)@)
        },
{
    if items.len() > limit {
        items.truncate(limit);
        *truncated = true;
        let ghost before = views(omissions@);
        omissions.push(omission.to_string());
        assert(views(omissions@) =~= before.push(omission@));
    }
}

/// Keeps at most `MAX_SOURCE_FILES` source files, recording the cap.
pub fn cap_source_files(files: &mut Vec<SourceFile>, truncated: &mut bool, omissions: &mut Vec<String>)
    ensures
        final(files)@ == if old(files)@.len() > MAX_SOURCE_FILES {
            old(files)@.take(MAX_SOURCE_FILES as int)
        } else {
            old(files)@
        },
        *final(truncated) == (*old(truncated) || old(files)@.len() > MAX_SOURCE_FILES),
        views(final(omissions)@) == if old(files)@.len() > MAX_SOURCE_FILES {
            views(old(omissions)@).push(SOURCE_FILES_CAPPED@)
        } else {
            views(old(omissions)@)
        },
{
    cap_vec(files, MAX_SOURCE_FILES, SOURCE_FILES_CAPPED, truncated, omissions);
}

/// Keeps at most `MAX_GRAPH_NODES` nodes and `MAX_GRAPH_EDGES` edges, recording each cap.
pub fn cap_graph(nodes: &mut Vec<GraphNode>, edges: &mut Vec<GraphEdge>, truncated: &mut bool, omissions: &mut Vec<String>)
    ensures
        final(nodes)@ == if old(nodes)@.len() > MAX_GRAPH_NODES {
            old(nodes)@.take(MAX_GRAPH_NODES as int)
        } else {
            old(nodes)@
        },
        final(edges)@ == if old(edges)@.len() > MAX_GRAPH_EDGES {
            old(edges)@.take(MAX_GRAPH_EDGES as int)
        } else {
            old(edges)@
        },
        *final(truncated) == (*old(truncated) || old(nodes)@.len() > MAX_GRAPH_NODES || old(edges)@.len() > MAX_GRAPH_EDGES),
        views(final(omissions)@) == views(old(omissions)@) + (if old(nodes)@.len() > MAX_GRAPH_NODES {
            seq![NODES_CAPPED@]
        } else {
            Seq::empty()
        }) + (if old(edges)@.len() > MAX_GRAPH_EDGES {
            seq![GRAPH_EDGES_CAPPED@]
        } else {
            Seq::empty()
        }),
{
    let ghost o0 = views(omissions@);
    cap_vec(nodes, MAX_GRAPH_NODES, NODES_CAPPED, truncated, omissions);
    let ghost o1 = views(omissions@);
    cap_vec(edges, MAX_GRAPH_EDGES, GRAPH_EDGES_CAPPED, truncated, omissions);
    assert(o1 =~= o0 + (if old(nodes)@.len() > MAX_GRAPH_NODES {
        seq![NODES_CAPPED@]
    } else {
        Seq::empty()
    }));
    assert(views(omissions@) =~= o1 + (if old(edges)@.len() > MAX_GRAPH_EDGES {
        seq![GRAPH_EDGES_CAPPED@]
    } else {
        Seq::empty()
    }));
}

/// The omission recorded in the resolution evidence when the module-resolution basis is
/// unavailable.
pub const BASIS_UNAVAILABLE_OMISSION: &'static str = "module-resolution-basis-unavailable";

/// The resolution evidence `ev1`, truncation `tr1` and omissions `om1` after the module
/// resolution `basis` is applied to `ev0`, `tr0` and `om0`: truncated evidence truncates the
/// graph; a truncated basis truncates both and adds its limitations; an unavailable basis
/// makes the evidence unavailable and adds its limitations.
pub open spec fn basis_applied(
    ev1: ResolutionEvidence,
    tr1: bool,
    om1: Seq<Seq<char>>,
    ev0: ResolutionEvidence,
    basis: ModuleResolutionBasis,
    tr0: bool,
    om0: Seq<Seq<char>>,
) -> bool {
    let was_truncated = ev0.truncated;
    let basis_truncated = basis.status@ == "truncated"@;
    let basis_unavailable = basis.status@ == "unavailable"@;
    let limits = views(basis.limitations@);
    &&& tr1 == (tr0 || was_truncated || basis_truncated)
    &&& ev1.truncated == (was_truncated || basis_truncated)
    &&& ev1.status@ == if basis_unavailable {
        "unavailable"@
    } else if basis_truncated {
        "truncated"@
    } else {
        ev0.status@
    }
    &&& ev1.schema_version == ev0.schema_version
    &&& ev1.records == ev0.records
    &&& views(ev1.omissions@) == views(ev0.omissions@) + (if basis_truncated {
        limits
    } else {
        Seq::empty()
    }) + (if basis_unavailable {
        seq![BASIS_UNAVAILABLE_OMISSION@] + limits
    } else {
        Seq::empty()
    })
    &&& om1 == om0 + (if was_truncated {
        views(ev0.omissions@)
    } else {
        Seq::empty()
    }) + (if basis_truncated || basis_unavailable {
        limits
    } else {
        Seq::empty()
    })
}

/// The resolution evidence and the graph's omissions after the module-resolution basis is
/// taken into account: truncated evidence truncates the graph; a truncated basis
/// truncates both and adds its limitations; an unavailable basis makes the evidence
/// unavailable and adds its limitations.
pub fn apply_module_basis(
    evidence: &mut ResolutionEvidence,
    basis: &ModuleResolutionBasis,
    truncated: &mut bool,
    omissions: &mut Vec<String>,
)
    ensures
        basis_applied(*final(evidence), *final(truncated), views(final(omissions)@), *old(evidence), *basis, *old(truncated), views(old(omissions)@)),
{
    let ghost o0 = views(omissions@);
    let ghost e0 = views(evidence.omissions@);
    if evidence.truncated {
        *truncated = true;
        append_all(omissions, &evidence.omissions);
    }
    let ghost o1 = views(omissions@);
    let basis_truncated = str_eq(basis.status.as_str(), "truncated");
    let basis_unavailable = str_eq(basis.status.as_str(), "unavailable");
    if basis_truncated {
        *truncated = true;
        evidence.status = "truncated".to_string();
        evidence.truncated = true;
        append_all(&mut evidence.omissions, &basis.limitations);
        append_all(omissions, &basis.limitations);
    }
    let ghost e1 = views(evidence.omissions@);
    if basis_unavailable {
        evidence.status = "unavailable".to_string();
        let ghost before = views(evidence.omissions@);
        evidence.omissions.push(BASIS_UNAVAILABLE_OMISSION.to_string());
        assert(views(evidence.omissions@) =~= before.push(BASIS_UNAVAILABLE_OMISSION@));
        append_all(&mut evidence.omissions, &basis.limitations);
        append_all(omissions, &basis.limitations);
    }
    proof {
        reveal_strlit("truncated");
        reveal_strlit("unavailable");
        assert("truncated"@[0] == 't' && "unavailable"@[0] == 'u');
        assert(!(basis_truncated && basis_unavailable));
        assert(o1 =~= o0 + (if old(evidence).truncated {
            e0
        } else {
            Seq::empty()
        }));
        assert(e1 =~= e0 + (if basis_truncated {
            views(basis.limitations@)
        } else {
            Seq::empty()
        }));
        assert(views(evidence.omissions@) =~= e1 + (if basis_unavailable {
            seq![BASIS_UNAVAILABLE_OMISSION@] + views(basis.limitations@)
        } else {
            Seq::empty()
        }));
        assert(views(omissions@) =~= o1 + (if basis_truncated || basis_unavailable {
            views(basis.limitations@)
        } else {
            Seq::empty()
        }));
    }
}

} // verus!
