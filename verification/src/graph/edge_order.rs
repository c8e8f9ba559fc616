//! The canonical order of edges (by source, target, kind and evidence), sorted sets of
//! edges, and the order of nodes by id.

use vstd::prelude::*;

use super::call_edges::EdgeView;
use super::structure::{edge_view, edge_views, node_view, node_views};
use crate::model::graph::{GraphEdge, GraphNode};
use crate::model::temporal::HistoricalEdgeChange;
use crate::order::{lemma_str_lt_asymmetric, lemma_str_lt_irreflexive, lemma_str_lt_total, lemma_str_lt_transitive, str_less, str_lt};
use crate::text::str_eq;

verus! {

broadcast use vstd::string::group_string_axioms;

/// `a` sorts strictly before `b`: by source, then target, kind and evidence.
pub open spec fn edge_lt(a: EdgeView, b: EdgeView) -> bool {
    if a.0 != b.0 {
        str_lt(a.0, b.0)
    } else if a.1 != b.1 {
        str_lt(a.1, b.1)
    } else if a.2 != b.2 {
        str_lt(a.2, b.2)
    } else {
        str_lt(a.3, b.3)
    }
}

/// Strictly increasing in the edge order: sorted, with no edge twice.
pub open spec fn edges_strictly_sorted(s: Seq<EdgeView>) -> bool {
    forall|i: int, j: int| 0 <= i < j < s.len() ==> edge_lt(#[trigger] s[i], #[trigger] s[j])
}

/// The facts of the edge order: irreflexive, transitive and total.
pub proof fn lemma_edge_lt(a: EdgeView, b: EdgeView, c: EdgeView)
    ensures
        !edge_lt(a, a),
        edge_lt(a, b) ==> !edge_lt(b, a),
        edge_lt(a, b) && edge_lt(b, c) ==> edge_lt(a, c),
        a == b || edge_lt(a, b) || edge_lt(b, a),
{
    lemma_str_lt_irreflexive(a.3);
    lemma_str_lt_asymmetric(a.0, b.0);
    lemma_str_lt_asymmetric(a.1, b.1);
    lemma_str_lt_asymmetric(a.2, b.2);
    lemma_str_lt_asymmetric(a.3, b.3);
    lemma_str_lt_total(a.0, b.0);
    lemma_str_lt_total(a.1, b.1);
    lemma_str_lt_total(a.2, b.2);
    lemma_str_lt_total(a.3, b.3);
    if edge_lt(a, b) && edge_lt(b, c) {
        if str_lt(a.0, b.0) && str_lt(b.0, c.0) {
            lemma_str_lt_transitive(a.0, b.0, c.0);
        }
        if str_lt(a.1, b.1) && str_lt(b.1, c.1) {
            lemma_str_lt_transitive(a.1, b.1, c.1);
        }
        if str_lt(a.2, b.2) && str_lt(b.2, c.2) {
            lemma_str_lt_transitive(a.2, b.2, c.2);
        }
        if str_lt(a.3, b.3) && str_lt(b.3, c.3) {
            lemma_str_lt_transitive(a.3, b.3, c.3);
        }
    }
}

/// A strictly sorted sequence of edges is fixed by the set of its edges.
pub proof fn lemma_edges_sorted_unique(a: Seq<EdgeView>, b: Seq<EdgeView>)
    requires
        edges_strictly_sorted(a),
        edges_strictly_sorted(b),
        a.to_set() == b.to_set(),
    ensures
        a == b,
    decreases a.len(),
{
    if a.len() == 0 {
        if b.len() > 0 {
            assert(b.to_set().contains(b[0]));
        }
        assert(a =~= b);
    } else if b.len() == 0 {
        assert(a.to_set().contains(a[0]));
    } else {
        assert(a.to_set().contains(a[0]));
        assert(b.to_set().contains(b[0]));
        let ka = choose|k: int| 0 <= k < b.len() && b[k] == a[0];
        let kb = choose|k: int| 0 <= k < a.len() && a[k] == b[0];
        lemma_edge_lt(a[0], b[0], a[0]);
        if ka > 0 {
            assert(edge_lt(b[0], b[ka]));
            if kb > 0 {
                assert(edge_lt(a[0], a[kb]));
            }
        } else if kb > 0 {
            assert(edge_lt(a[0], a[kb]));
            lemma_edge_lt(b[0], b[0], b[0]);
        }
        assert(a[0] == b[0]);
        let at = a.drop_first();
        let bt = b.drop_first();
        assert(at.to_set() =~= bt.to_set()) by {
            assert forall|x: EdgeView| at.to_set().contains(x) implies bt.to_set().contains(x) by {
                let k = choose|k: int| 0 <= k < at.len() && at[k] == x;
                assert(a[k + 1] == x);
                assert(edge_lt(a[0], x));
                assert(b.to_set().contains(x));
                let m = choose|m: int| 0 <= m < b.len() && b[m] == x;
                if m == 0 {
                    lemma_edge_lt(x, x, x);
                }
                assert(bt[m - 1] == x);
            }
            assert forall|x: EdgeView| bt.to_set().contains(x) implies at.to_set().contains(x) by {
                let k = choose|k: int| 0 <= k < bt.len() && bt[k] == x;
                assert(b[k + 1] == x);
                assert(edge_lt(b[0], x));
                assert(a.to_set().contains(x));
                let m = choose|m: int| 0 <= m < a.len() && a[m] == x;
                if m == 0 {
                    lemma_edge_lt(x, x, x);
                }
                assert(at[m - 1] == x);
            }
        }
        lemma_edges_sorted_unique(at, bt);
        assert(a =~= seq![a[0]] + at);
        assert(b =~= seq![b[0]] + bt);
    }
}

/// The distinct edges of `s`, in the edge order.
pub open spec fn sorted_edge_set(s: Seq<EdgeView>) -> Seq<EdgeView> {
    choose|t: Seq<EdgeView>| edges_strictly_sorted(t) && t.to_set() == s.to_set()
}

/// Whether `a` sorts strictly before `b` in the edge order.
pub fn edge_less(a: &GraphEdge, b: &GraphEdge) -> (r: bool)
    ensures
        r == edge_lt(edge_view(*a), edge_view(*b)),
{
    if !str_eq(a.from.as_str(), b.from.as_str()) {
        str_less(a.from.as_str(), b.from.as_str())
    } else if !str_eq(a.to.as_str(), b.to.as_str()) {
        str_less(a.to.as_str(), b.to.as_str())
    } else if !str_eq(a.kind.as_str(), b.kind.as_str()) {
        str_less(a.kind.as_str(), b.kind.as_str())
    } else {
        str_less(a.evidence.as_str(), b.evidence.as_str())
    }
}

fn edge_same(a: &GraphEdge, b: &GraphEdge) -> (r: bool)
    ensures
        r == (edge_view(*a) == edge_view(*b)),
{
    str_eq(a.from.as_str(), b.from.as_str()) && str_eq(a.to.as_str(), b.to.as_str()) && str_eq(
        a.kind.as_str(),
        b.kind.as_str(),
    ) && str_eq(a.evidence.as_str(), b.evidence.as_str())
}

/// Adds `e` to the strictly sorted `v` unless it is there, keeping it strictly sorted.
fn insert_edge(v: &mut Vec<GraphEdge>, e: GraphEdge)
    requires
        edges_strictly_sorted(edge_views(old(v)@)),
    ensures
        edges_strictly_sorted(edge_views(final(v)@)),
        edge_views(final(v)@).to_set() == edge_views(old(v)@).to_set().insert(edge_view(e)),
{
    let ghost before = edge_views(v@);
    let ghost ev = edge_view(e);
    let mut pos: usize = 0;
    while pos < v.len() && edge_less(&v[pos], &e)
        invariant
            pos <= v@.len(),
            before == edge_views(v@),
            ev == edge_view(e),
            forall|k: int| 0 <= k < pos ==> edge_lt(#[trigger] before[k], ev),
        decreases v@.len() - pos,
    {
        pos = pos + 1;
    }
    if pos < v.len() && edge_same(&v[pos], &e) {
        assert(before[pos as int] == ev);
        assert(before.to_set().insert(ev) =~= before.to_set());
        return;
    }
    proof {
        if pos < before.len() {
            lemma_edge_lt(before[pos as int], ev, before[pos as int]);
            assert(edge_lt(ev, before[pos as int]));
        }
    }
    v.insert(pos, e);
    let ghost after = edge_views(v@);
    assert(after =~= before.take(pos as int).push(ev) + before.skip(pos as int));
    assert forall|i: int, j: int| 0 <= i < j < after.len() implies edge_lt(#[trigger] after[i], #[trigger] after[j]) by {
        if j < pos {
            assert(after[i] == before[i] && after[j] == before[j]);
        } else if j == pos {
            assert(after[i] == before[i]);
        } else if i == pos {
            assert(after[j] == before[j - 1]);
            if j - 1 > pos {
                assert(edge_lt(before[pos as int], before[j - 1]));
                lemma_edge_lt(ev, before[pos as int], before[j - 1]);
            }
        } else if i < pos {
            assert(after[i] == before[i] && after[j] == before[j - 1]);
            assert(edge_lt(before[i], ev));
            if j - 1 > pos {
                assert(edge_lt(before[pos as int], before[j - 1]));
                lemma_edge_lt(ev, before[pos as int], before[j - 1]);
            }
            lemma_edge_lt(before[i], ev, before[j - 1]);
        } else {
            assert(after[i] == before[i - 1] && after[j] == before[j - 1]);
        }
    }
    assert(after.to_set() =~= before.to_set().insert(ev)) by {
        assert forall|x: EdgeView| after.to_set().contains(x) implies before.to_set().insert(ev).contains(x) by {
            let k = choose|k: int| 0 <= k < after.len() && after[k] == x;
            if k < pos {
                assert(before[k] == x);
            } else if k > pos {
                assert(before[k - 1] == x);
            }
        }
        assert forall|x: EdgeView| before.to_set().insert(ev).contains(x) implies after.to_set().contains(x) by {
            if x == ev {
                assert(after[pos as int] == ev);
            } else {
                let k = choose|k: int| 0 <= k < before.len() && before[k] == x;
                if k < pos {
                    assert(after[k] == x);
                } else {
                    assert(after[k + 1] == x);
                }
            }
        }
    }
}

/// The distinct edges of `edges` in the edge order (a sort followed by a dedup).
pub fn sort_dedup_edges(edges: Vec<GraphEdge>) -> (r: Vec<GraphEdge>)
    ensures
        edge_views(r@) == sorted_edge_set(edge_views(edges@)),
{
    let ghost input = edge_views(edges@);
    let mut out: Vec<GraphEdge> = Vec::new();
    let mut rest = edges;
    let mut i: usize = 0;
    let n = rest.len();
    assert(edge_views(out@).to_set() =~= input.take(0).to_set());
    while i < n
        invariant
            n == rest@.len(),
            i <= n,
            input == edge_views(rest@),
            edges_strictly_sorted(edge_views(out@)),
            edge_views(out@).to_set() == input.take(i as int).to_set(),
        decreases n - i,
    {
        let e = rest[i].clone();
        assert(edge_view(e) == input[i as int]);
        insert_edge(&mut out, e);
        assert(input.take(i as int + 1) =~= input.take(i as int).push(input[i as int]));
        proof {
            input.take(i as int).lemma_push_to_set_commute(input[i as int]);
        }
        i = i + 1;
    }
    assert(input.take(n as int) =~= input);
    proof {
        let t = sorted_edge_set(input);
        assert(edges_strictly_sorted(t) && t.to_set() == input.to_set());
        lemma_edges_sorted_unique(edge_views(out@), t);
    }
    out
}

/// The edges that start or end at `node_id`, in order.
pub open spec fn touching(edges: Seq<EdgeView>, node_id: Seq<char>) -> Seq<EdgeView>
    decreases edges.len(),
{
    if edges.len() == 0 {
        Seq::empty()
    } else if edges.last().0 == node_id || edges.last().1 == node_id {
        touching(edges.drop_last(), node_id).push(edges.last())
    } else {
        touching(edges.drop_last(), node_id)
    }
}

/// The edges of `a` that `b` lacks, in order.
pub open spec fn edges_missing(a: Seq<EdgeView>, b: Seq<EdgeView>) -> Seq<EdgeView>
    decreases a.len(),
{
    if a.len() == 0 {
        Seq::empty()
    } else if b.contains(a.last()) {
        edges_missing(a.drop_last(), b)
    } else {
        edges_missing(a.drop_last(), b).push(a.last())
    }
}

/// The changes of the edges at `node_id` between two graphs: each removed edge, then
/// each added one, each list in the edge order.
pub open spec fn edge_changes_of(before: Seq<EdgeView>, after: Seq<EdgeView>, node_id: Seq<char>) -> Seq<(Seq<char>, EdgeView)> {
    let b = sorted_edge_set(touching(before, node_id));
    let a = sorted_edge_set(touching(after, node_id));
    edges_missing(b, a).map_values(|e: EdgeView| ("removed"@, e)) + edges_missing(a, b).map_values(
        |e: EdgeView| ("added"@, e),
    )
}

/// An edge change by its status and edge.
pub open spec fn edge_change_view(c: HistoricalEdgeChange) -> (Seq<char>, EdgeView) {
    (c.status@, edge_view(c.edge))
}

fn touching_edges(edges: &[GraphEdge], node_id: &str) -> (r: Vec<GraphEdge>)
    ensures
        edge_views(r@) == touching(edge_views(edges@), node_id@),
{
    let mut r: Vec<GraphEdge> = Vec::new();
    let mut i: usize = 0;
    while i < edges.len()
        invariant
            i <= edges@.len(),
            edge_views(r@) == touching(edge_views(edges@).take(i as int), node_id@),
        decreases edges@.len() - i,
    {
        assert(edge_views(edges@).take(i as int + 1).drop_last() =~= edge_views(edges@).take(i as int));
        let e = &edges[i];
        if str_eq(e.from.as_str(), node_id) || str_eq(e.to.as_str(), node_id) {
            let ghost before = edge_views(r@);
            r.push(e.clone());
            assert(edge_views(r@) =~= before.push(edge_view(edges@[i as int])));
        }
        i = i + 1;
    }
    assert(edge_views(edges@).take(edges@.len() as int) =~= edge_views(edges@));
    r
}

fn contains_edge(edges: &Vec<GraphEdge>, e: &GraphEdge) -> (r: bool)
    ensures
        r == edge_views(edges@).contains(edge_view(*e)),
{
    let mut i: usize = 0;
    while i < edges.len()
        invariant
            i <= edges@.len(),
            forall|k: int| 0 <= k < i ==> #[trigger] edge_views(edges@)[k] != edge_view(*e),
        decreases edges@.len() - i,
    {
        if edge_same(&edges[i], e) {
            assert(edge_views(edges@)[i as int] == edge_view(*e));
            return true;
        }
        i = i + 1;
    }
    false
}

fn push_missing(out: &mut Vec<HistoricalEdgeChange>, a: &Vec<GraphEdge>, b: &Vec<GraphEdge>, status: &str)
    ensures
        final(out)@.map_values(|c: HistoricalEdgeChange| edge_change_view(c)) == old(out)@.map_values(
            |c: HistoricalEdgeChange| edge_change_view(c),
        ) + edges_missing(edge_views(a@), edge_views(b@)).map_values(|e: EdgeView| (status@, e)),
{
    let ghost o0 = out@.map_values(|c: HistoricalEdgeChange| edge_change_view(c));
    let mut i: usize = 0;
    while i < a.len()
        invariant
            i <= a@.len(),
            o0 == old(out)@.map_values(|c: HistoricalEdgeChange| edge_change_view(c)),
            out@.map_values(|c: HistoricalEdgeChange| edge_change_view(c)) == o0 + edges_missing(
                edge_views(a@).take(i as int),
                edge_views(b@),
            ).map_values(|e: EdgeView| (status@, e)),
        decreases a@.len() - i,
    {
        assert(edge_views(a@).take(i as int + 1).drop_last() =~= edge_views(a@).take(i as int));
        if !contains_edge(b, &a[i]) {
            let ghost before = out@.map_values(|c: HistoricalEdgeChange| edge_change_view(c));
            let ghost m = edges_missing(edge_views(a@).take(i as int), edge_views(b@));
            let change = HistoricalEdgeChange { status: status.to_string(), edge: a[i].clone() };
            out.push(change);
            assert(out@.map_values(|c: HistoricalEdgeChange| edge_change_view(c)) =~= before.push(
                (status@, edge_view(a@[i as int])),
            ));
            assert(m.push(edge_view(a@[i as int])).map_values(|e: EdgeView| (status@, e)) =~= m.map_values(
                |e: EdgeView| (status@, e),
            ).push((status@, edge_view(a@[i as int]))));
        }
        i = i + 1;
    }
    assert(edge_views(a@).take(a@.len() as int) =~= edge_views(a@));
}

/// The changes of the edges at `node_id` between two graphs: the removed edges, then
/// the added ones, each in the edge order.
pub fn direct_edge_changes(before: &[GraphEdge], after: &[GraphEdge], node_id: &str) -> (r: Vec<HistoricalEdgeChange>)
    ensures
        r@.map_values(|c: HistoricalEdgeChange| edge_change_view(c)) == edge_changes_of(
            edge_views(before@),
            edge_views(after@),
            node_id@,
        ),
{
    let b = sort_dedup_edges(touching_edges(before, node_id));
    let a = sort_dedup_edges(touching_edges(after, node_id));
    let mut r: Vec<HistoricalEdgeChange> = Vec::new();
    assert(r@.map_values(|c: HistoricalEdgeChange| edge_change_view(c)) =~= Seq::<(Seq<char>, EdgeView)>::empty());
    push_missing(&mut r, &b, &a, "removed");
    push_missing(&mut r, &a, &b, "added");
    proof {
        reveal_strlit("removed");
        reveal_strlit("added");
    }
    assert(r@.map_values(|c: HistoricalEdgeChange| edge_change_view(c)) =~= edge_changes_of(
        edge_views(before@),
        edge_views(after@),
        node_id@,
    ));
    r
}

proof fn lemma_nothing_missing(a: Seq<EdgeView>, b: Seq<EdgeView>)
    requires
        forall|i: int| 0 <= i < a.len() ==> b.contains(#[trigger] a[i]),
    ensures
        edges_missing(a, b) == Seq::<EdgeView>::empty(),
    decreases a.len(),
{
    if a.len() > 0 {
        assert(b.contains(a[a.len() - 1]));
        assert forall|i: int| 0 <= i < a.drop_last().len() implies b.contains(#[trigger] a.drop_last()[i]) by {
            assert(a.drop_last()[i] == a[i]);
        }
        lemma_nothing_missing(a.drop_last(), b);
    }
}

/// The edges of a node that did not change report no change: comparing a graph's edges
/// with themselves yields no removed and no added edge.
pub proof fn law_unchanged_edges_report_no_change(edges: Seq<EdgeView>, node_id: Seq<char>)
    ensures
        edge_changes_of(edges, edges, node_id) == Seq::<(Seq<char>, EdgeView)>::empty(),
{
    let s = sorted_edge_set(touching(edges, node_id));
    assert forall|i: int| 0 <= i < s.len() implies s.contains(#[trigger] s[i]) by {}
    lemma_nothing_missing(s, s);
    assert(edge_changes_of(edges, edges, node_id) =~= Seq::<(Seq<char>, EdgeView)>::empty());
}

/// No edge is reported both removed and added: the removed edges are edges of the node
/// before that it lacks after, and the added ones the reverse.
pub proof fn law_edge_changes_are_one_sided(before: Seq<EdgeView>, after: Seq<EdgeView>, node_id: Seq<char>)
    ensures
        forall|e: EdgeView| !(#[trigger] edges_missing(sorted_edge_set(touching(before, node_id)), sorted_edge_set(touching(after, node_id))).contains(e)
            && edges_missing(sorted_edge_set(touching(after, node_id)), sorted_edge_set(touching(before, node_id))).contains(e)),
{
    let b = sorted_edge_set(touching(before, node_id));
    let a = sorted_edge_set(touching(after, node_id));
    assert forall|e: EdgeView| !(#[trigger] edges_missing(b, a).contains(e) && edges_missing(a, b).contains(e)) by {
        lemma_missing_members(b, a, e);
        lemma_missing_members(a, b, e);
    }
}

proof fn lemma_missing_members(a: Seq<EdgeView>, b: Seq<EdgeView>, e: EdgeView)
    ensures
        edges_missing(a, b).contains(e) <==> (a.contains(e) && !b.contains(e)),
    decreases a.len(),
{
    if a.len() > 0 {
        lemma_missing_members(a.drop_last(), b, e);
        let l = a.last();
        if a.contains(e) && e != l {
            let k = choose|k: int| 0 <= k < a.len() && a[k] == e;
            assert(a.drop_last()[k] == e);
        }
        if a.drop_last().contains(e) {
            let k = choose|k: int| 0 <= k < a.drop_last().len() && a.drop_last()[k] == e;
            assert(a[k] == e);
        }
        if !b.contains(l) {
            let m = edges_missing(a.drop_last(), b);
            assert(m.push(l)[m.len() as int] == l);
            if m.push(l).contains(e) && e != l {
                let k = choose|k: int| 0 <= k < m.push(l).len() && m.push(l)[k] == e;
                assert(m[k] == e);
            }
            if m.contains(e) {
                let k = choose|k: int| 0 <= k < m.len() && m[k] == e;
                assert(m.push(l)[k] == e);
            }
        }
        assert(a[a.len() - 1] == l);
    }
}

} // verus!
