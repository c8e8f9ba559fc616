//! Bounded static flow traversal.

use vstd::prelude::*;

use super::manifest::opt_view;
use crate::model::flow::{FlowEdge, FlowStep};
use crate::model::graph::{GraphEdge, GraphNode};
use crate::order::{contains_str, str_less, str_lt};
use crate::text::{str_eq, views};

verus! {

broadcast use vstd::string::group_string_axioms;

/// The most steps one flow records.
pub const MAX_FLOW_STEPS: usize = 256;

/// The most edges one flow traverses.
pub const MAX_FLOW_EDGES: usize = 512;

/// The deepest call depth a flow follows.
pub const MAX_FLOW_DEPTH: usize = 64;

/// The omission reported when a flow reaches its step bound.
pub const STEPS_CAPPED: &'static str = "flow steps capped at 256";

/// The omission reported when a flow reaches its depth bound.
pub const DEPTH_CAPPED: &'static str = "flow depth capped at 64";

/// The omission reported when a flow reaches its edge bound.
pub const EDGES_CAPPED: &'static str = "flow edges capped at 512";

/// The plain values of a flow step: index, node, path, name, role and fingerprint.
pub open spec fn step_view(s: FlowStep) -> (nat, Seq<char>, Option<Seq<char>>, Option<Seq<char>>, Seq<char>, Seq<char>) {
    (s.index as nat, s.node_id@, opt_view(s.path), opt_view(s.name), s.role@, s.evidence_fingerprint@)
}

/// The plain values of a traversed edge: from, to, kind and evidence.
pub open spec fn edge_view(e: FlowEdge) -> (Seq<char>, Seq<char>, Seq<char>, Seq<char>) {
    (e.from@, e.to@, e.kind@, e.evidence@)
}

/// The plain values of a graph edge.
pub open spec fn graph_edge_view(e: GraphEdge) -> (Seq<char>, Seq<char>, Seq<char>, Seq<char>) {
    (e.from@, e.to@, e.kind@, e.evidence@)
}

/// The step of `node` at `index` with `role`.
pub open spec fn node_step(index: nat, node: GraphNode, role: Seq<char>) -> (nat, Seq<char>, Option<Seq<char>>, Option<Seq<char>>, Seq<char>, Seq<char>) {
    (index, node.id@, opt_view(node.path), opt_view(node.name), role, node.evidence_fingerprint@)
}

/// The state of a flow traversal.
pub struct FlowState {
    pub steps: Seq<(nat, Seq<char>, Option<Seq<char>>, Option<Seq<char>>, Seq<char>, Seq<char>)>,
    pub traversed: Seq<(Seq<char>, Seq<char>, Seq<char>, Seq<char>)>,
    pub visited: Seq<Seq<char>>,
    pub queue: Seq<(Seq<char>, nat)>,
    pub truncated: bool,
    pub omissions: Seq<Seq<char>>,
    pub done: bool,
}

/// The last node with the given id (a later node of the same id replaces an earlier one).
pub open spec fn last_node_by_id(nodes: Seq<GraphNode>, id: Seq<char>) -> Option<GraphNode>
    decreases nodes.len(),
{
    if nodes.len() == 0 {
        None
    } else if nodes.last().id@ == id {
        Some(nodes.last())
    } else {
        last_node_by_id(nodes.drop_last(), id)
    }
}

/// The call and construction edges out of `from`, in graph order.
pub open spec fn out_edges(edges: Seq<GraphEdge>, from: Seq<char>) -> Seq<(Seq<char>, Seq<char>, Seq<char>, Seq<char>)>
    decreases edges.len(),
{
    if edges.len() == 0 {
        Seq::empty()
    } else {
        let e = edges.last();
        let rest = out_edges(edges.drop_last(), from);
        if (e.kind@ == "calls"@ || e.kind@ == "constructs"@) && e.from@ == from {
            rest.push(graph_edge_view(e))
        } else {
            rest
        }
    }
}

/// The order of a node's out edges: by kind, then target, then evidence.
pub open spec fn edge_lt(a: (Seq<char>, Seq<char>, Seq<char>, Seq<char>), b: (Seq<char>, Seq<char>, Seq<char>, Seq<char>)) -> bool {
    if a.2 != b.2 {
        str_lt(a.2, b.2)
    } else if a.1 != b.1 {
        str_lt(a.1, b.1)
    } else {
        str_lt(a.3, b.3)
    }
}

/// Where `x` goes among the ordered `out`: before the first edge it sorts before.
pub open spec fn insert_pos(out: Seq<(Seq<char>, Seq<char>, Seq<char>, Seq<char>)>, x: (Seq<char>, Seq<char>, Seq<char>, Seq<char>)) -> nat
    decreases out.len(),
{
    if out.len() == 0 {
        0
    } else if edge_lt(x, out[0]) {
        0
    } else {
        1 + insert_pos(out.drop_first(), x)
    }
}

/// `s` ordered by `edge_lt`, edges that tie keeping their order.
pub open spec fn sorted_edges(s: Seq<(Seq<char>, Seq<char>, Seq<char>, Seq<char>)>) -> Seq<(Seq<char>, Seq<char>, Seq<char>, Seq<char>)>
    decreases s.len(),
{
    if s.len() == 0 {
        s
    } else {
        let o = sorted_edges(s.drop_last());
        o.insert(insert_pos(o, s.last()) as int, s.last())
    }
}

proof fn lemma_insert_pos_bound(out: Seq<(Seq<char>, Seq<char>, Seq<char>, Seq<char>)>, x: (Seq<char>, Seq<char>, Seq<char>, Seq<char>))
    ensures
        insert_pos(out, x) <= out.len(),
        forall|m: int| 0 <= m < insert_pos(out, x) ==> !edge_lt(x, #[trigger] out[m]),
        insert_pos(out, x) < out.len() ==> edge_lt(x, out[insert_pos(out, x) as int]),
    decreases out.len(),
{
    if out.len() > 0 && !edge_lt(x, out[0]) {
        lemma_insert_pos_bound(out.drop_first(), x);
        assert forall|m: int| 0 <= m < insert_pos(out, x) implies !edge_lt(x, #[trigger] out[m]) by {
            if m > 0 {
                assert(out[m] == out.drop_first()[m - 1]);
            }
        }
    }
}

proof fn lemma_sorted_edges_len(s: Seq<(Seq<char>, Seq<char>, Seq<char>, Seq<char>)>)
    ensures
        sorted_edges(s).len() == s.len(),
    decreases s.len(),
{
    if s.len() > 0 {
        lemma_sorted_edges_len(s.drop_last());
        lemma_insert_pos_bound(sorted_edges(s.drop_last()), s.last());
    }
}

/// A flow step cap, depth cap or edge cap reached.
pub open spec fn capped(st: FlowState, omission: Seq<char>) -> FlowState {
    FlowState { truncated: true, omissions: st.omissions.push(omission), ..st }
}

/// Traverses the out edges `out` from index `i`, queueing each target not yet visited one
/// level deeper than `depth`.
pub open spec fn traverse_edges(st: FlowState, out: Seq<(Seq<char>, Seq<char>, Seq<char>, Seq<char>)>, i: nat, depth: nat) -> FlowState
    decreases out.len() - i,
{
    if i >= out.len() {
        st
    } else if st.traversed.len() >= MAX_FLOW_EDGES {
        capped(st, EDGES_CAPPED@)
    } else {
        let e = out[i as int];
        let queue = if st.visited.contains(e.1) {
            st.queue
        } else {
            st.queue.push((e.1, depth + 1))
        };
        traverse_edges(FlowState { traversed: st.traversed.push(e), queue, ..st }, out, i + 1, depth)
    }
}

/// One round of the traversal: the next queued node is visited, unless it was visited
/// already or is not a graph node.
pub open spec fn flow_step(nodes: Seq<GraphNode>, edges: Seq<GraphEdge>, target: Seq<char>, st: FlowState) -> FlowState {
    if st.queue.len() == 0 {
        FlowState { done: true, ..st }
    } else {
        let (current, depth) = st.queue[0];
        let st1 = FlowState { queue: st.queue.drop_first(), ..st };
        if st1.visited.contains(current) {
            st1
        } else {
            match last_node_by_id(nodes, current) {
                None => st1,
                Some(node) => if st1.steps.len() >= MAX_FLOW_STEPS {
                    FlowState { done: true, ..capped(st1, STEPS_CAPPED@) }
                } else {
                    let role = if current == target {
                        "target"@
                    } else {
                        "callee"@
                    };
                    let st2 = FlowState {
                        visited: st1.visited.push(current),
                        steps: st1.steps.push(node_step(st1.steps.len(), node, role)),
                        ..st1
                    };
                    if depth >= MAX_FLOW_DEPTH {
                        capped(st2, DEPTH_CAPPED@)
                    } else {
                        let st3 = traverse_edges(st2, sorted_edges(out_edges(edges, current)), 0, depth);
                        if st3.traversed.len() >= MAX_FLOW_EDGES {
                            FlowState { done: true, ..st3 }
                        } else {
                            st3
                        }
                    }
                },
            }
        }
    }
}

/// The traversal run for at most `fuel` rounds, or until it is done.
pub open spec fn flow_run(nodes: Seq<GraphNode>, edges: Seq<GraphEdge>, target: Seq<char>, st: FlowState, fuel: nat) -> FlowState
    decreases fuel,
{
    if fuel == 0 || st.done {
        st
    } else {
        flow_run(nodes, edges, target, flow_step(nodes, edges, target, st), (fuel - 1) as nat)
    }
}

/// A bound on the rounds a traversal has left.
pub open spec fn measure(st: FlowState) -> nat {
    (2 * (MAX_FLOW_EDGES - st.traversed.len()) + st.queue.len()) as nat
}

proof fn lemma_traverse_edges(st: FlowState, out: Seq<(Seq<char>, Seq<char>, Seq<char>, Seq<char>)>, i: nat, depth: nat)
    requires
        st.traversed.len() <= MAX_FLOW_EDGES,
    ensures
        traverse_edges(st, out, i, depth).traversed.len() <= MAX_FLOW_EDGES,
        traverse_edges(st, out, i, depth).traversed.len() >= st.traversed.len(),
        measure(traverse_edges(st, out, i, depth)) <= measure(st),
        traverse_edges(st, out, i, depth).steps == st.steps,
        traverse_edges(st, out, i, depth).visited == st.visited,
        traverse_edges(st, out, i, depth).done == st.done,
    decreases out.len() - i,
{
    if i < out.len() && st.traversed.len() < MAX_FLOW_EDGES {
        let e = out[i as int];
        let queue = if st.visited.contains(e.1) {
            st.queue
        } else {
            st.queue.push((e.1, depth + 1))
        };
        lemma_traverse_edges(FlowState { traversed: st.traversed.push(e), queue, ..st }, out, i + 1, depth);
    }
}

proof fn lemma_flow_step_measure(nodes: Seq<GraphNode>, edges: Seq<GraphEdge>, target: Seq<char>, st: FlowState)
    requires
        st.traversed.len() <= MAX_FLOW_EDGES,
        st.queue.len() > 0,
    ensures
        flow_step(nodes, edges, target, st).traversed.len() <= MAX_FLOW_EDGES,
        measure(flow_step(nodes, edges, target, st)) < measure(st),
{
    if st.queue.len() > 0 {
        let (current, depth) = st.queue[0];
        let st1 = FlowState { queue: st.queue.drop_first(), ..st };
        if !st1.visited.contains(current) {
            match last_node_by_id(nodes, current) {
                None => {},
                Some(node) => if st1.steps.len() < MAX_FLOW_STEPS {
                    let role = if current == target {
                        "target"@
                    } else {
                        "callee"@
                    };
                    let st2 = FlowState {
                        visited: st1.visited.push(current),
                        steps: st1.steps.push(node_step(st1.steps.len(), node, role)),
                        ..st1
                    };
                    if depth < MAX_FLOW_DEPTH {
                        lemma_traverse_edges(st2, sorted_edges(out_edges(edges, current)), 0, depth);
                    }
                },
            }
        }
    }
}

proof fn lemma_flow_run_done(nodes: Seq<GraphNode>, edges: Seq<GraphEdge>, target: Seq<char>, st: FlowState, fuel: nat)
    requires
        st.done || st.queue.len() == 0,
        fuel > 0,
    ensures
        flow_run(nodes, edges, target, st, fuel) == (FlowState { done: true, ..st }),
{
    if !st.done {
        let next = flow_step(nodes, edges, target, st);
        assert(next == FlowState { done: true, ..st });
        assert(flow_run(nodes, edges, target, next, (fuel - 1) as nat) == next);
    }
}

/// The last node with the given id.
pub fn last_node<'a>(nodes: &'a [GraphNode], id: &str) -> (r: Option<&'a GraphNode>)
    ensures
        match r {
            Some(n) => last_node_by_id(nodes@, id@) == Some(*n),
            None => last_node_by_id(nodes@, id@) is None,
        },
{
    let mut i: usize = nodes.len();
    assert(nodes@.take(nodes@.len() as int) =~= nodes@);
    while i > 0
        invariant
            i <= nodes@.len(),
            last_node_by_id(nodes@, id@) == last_node_by_id(nodes@.take(i as int), id@),
        decreases i,
    {
        assert(nodes@.take(i as int).drop_last() =~= nodes@.take(i as int - 1));
        if str_eq(nodes[i - 1].id.as_str(), id) {
            return Some(&nodes[i - 1]);
        }
        i = i - 1;
    }
    None
}

fn edge_less(a: &FlowEdge, b: &FlowEdge) -> (r: bool)
    ensures
        r == edge_lt(edge_view(*a), edge_view(*b)),
{
    if !str_eq(a.kind.as_str(), b.kind.as_str()) {
        return str_less(a.kind.as_str(), b.kind.as_str());
    }
    if !str_eq(a.to.as_str(), b.to.as_str()) {
        return str_less(a.to.as_str(), b.to.as_str());
    }
    str_less(a.evidence.as_str(), b.evidence.as_str())
}

/// The plain values of a list of traversed edges.
pub open spec fn edge_views(s: Seq<FlowEdge>) -> Seq<(Seq<char>, Seq<char>, Seq<char>, Seq<char>)> {
    s.map_values(|e: FlowEdge| edge_view(e))
}

/// The plain values of a list of flow steps.
pub open spec fn step_views(s: Seq<FlowStep>) -> Seq<(nat, Seq<char>, Option<Seq<char>>, Option<Seq<char>>, Seq<char>, Seq<char>)> {
    s.map_values(|x: FlowStep| step_view(x))
}

fn insert_edge(out: &mut Vec<FlowEdge>, x: FlowEdge)
    ensures
        edge_views(final(out)@) == edge_views(old(out)@).insert(insert_pos(edge_views(old(out)@), edge_view(x)) as int, edge_view(x)),
{
    let ghost ov = edge_views(out@);
    let mut k: usize = 0;
    assert(ov.skip(0) =~= ov);
    while k < out.len() && !edge_less(&x, &out[k])
        invariant
            k <= out@.len(),
            ov == edge_views(out@),
            insert_pos(ov, edge_view(x)) == k + insert_pos(ov.skip(k as int), edge_view(x)),
        decreases out@.len() - k,
    {
        assert(ov.skip(k as int)[0] == edge_view(out@[k as int]));
        assert(ov.skip(k as int).drop_first() =~= ov.skip(k as int + 1));
        k = k + 1;
    }
    proof {
        if k < out@.len() {
            assert(ov.skip(k as int)[0] == edge_view(out@[k as int]));
        }
    }
    let ghost xv = edge_view(x);
    out.insert(k, x);
    assert(edge_views(out@) =~= ov.insert(k as int, xv));
}

/// The call and construction edges out of `from`, ordered by kind, target and evidence.
pub fn node_out_edges(edges: &[GraphEdge], from: &str) -> (r: Vec<FlowEdge>)
    ensures
        edge_views(r@) == sorted_edges(out_edges(edges@, from@)),
{
    let mut out: Vec<FlowEdge> = Vec::new();
    let mut i: usize = 0;
    while i < edges.len()
        invariant
            i <= edges@.len(),
            edge_views(out@) == sorted_edges(out_edges(edges@.take(i as int), from@)),
        decreases edges@.len() - i,
    {
        assert(edges@.take(i as int + 1).drop_last() =~= edges@.take(i as int));
        let e = &edges[i];
        if (str_eq(e.kind.as_str(), "calls") || str_eq(e.kind.as_str(), "constructs")) && str_eq(e.from.as_str(), from) {
            let x = FlowEdge { from: e.from.clone(), to: e.to.clone(), kind: e.kind.clone(), evidence: e.evidence.clone() };
            let ghost cands = out_edges(edges@.take(i as int), from@).push(graph_edge_view(*e));
            assert(cands.drop_last() =~= out_edges(edges@.take(i as int), from@));
            insert_edge(&mut out, x);
        }
        i = i + 1;
    }
    assert(edges@.take(edges@.len() as int) =~= edges@);
    out
}

/// The plain values of a queue of nodes to visit, with their depths.
pub open spec fn queue_views(q: Seq<(String, usize)>) -> Seq<(Seq<char>, nat)> {
    q.map_values(|p: (String, usize)| (p.0@, p.1 as nat))
}

/// The traversal state that the executable values stand for.
pub open spec fn state_of(
    steps: Seq<FlowStep>,
    traversed: Seq<FlowEdge>,
    visited: Seq<String>,
    queue: Seq<(String, usize)>,
    head: int,
    truncated: bool,
    omissions: Seq<String>,
    done: bool,
) -> FlowState {
    FlowState {
        steps: step_views(steps),
        traversed: edge_views(traversed),
        visited: views(visited),
        queue: queue_views(queue.skip(head)),
        truncated,
        omissions: views(omissions),
        done,
    }
}

fn node_flow_step(index: usize, node: &GraphNode, role: &str) -> (r: FlowStep)
    ensures
        step_view(r) == node_step(index as nat, *node, role@),
{
    FlowStep {
        index,
        node_id: node.id.clone(),
        path: node.path.clone(),
        name: node.name.clone(),
        role: role.to_string(),
        evidence_fingerprint: node.evidence_fingerprint.clone(),
    }
}

/// The result of a traversal from `target`: its steps, traversed edges, whether it was
/// capped, and the caps it reached.
pub struct Traversal {
    pub steps: Vec<FlowStep>,
    pub traversed: Vec<FlowEdge>,
    pub truncated: bool,
    pub omissions: Vec<String>,
}

/// The traversal state before any round: the entry step visited and `target` queued.
pub open spec fn initial_state(entry_step: (nat, Seq<char>, Option<Seq<char>>, Option<Seq<char>>, Seq<char>, Seq<char>), target: Seq<char>) -> FlowState {
    FlowState {
        steps: seq![entry_step],
        traversed: Seq::empty(),
        visited: seq![entry_step.1],
        queue: if target.len() > 0 {
            seq![(target, 0nat)]
        } else {
            Seq::empty()
        },
        truncated: false,
        omissions: Seq::empty(),
        done: false,
    }
}

/// Rounds enough for any traversal to finish.
pub open spec fn flow_fuel() -> nat {
    (2 * MAX_FLOW_EDGES + 2) as nat
}

/// Visits the call graph breadth first from `target`, after the entry step: each node
/// once, out edges ordered by kind, target and evidence, within the step, depth and edge
/// bounds.
#[verifier::rlimit(50)]
pub fn traverse(entry_step: FlowStep, target: &str, nodes: &[GraphNode], edges: &[GraphEdge]) -> (r: Traversal)
    ensures
        ({
            let fin = flow_run(nodes@, edges@, target@, initial_state(step_view(entry_step), target@), flow_fuel());
            &&& step_views(r.steps@) == fin.steps
            &&& edge_views(r.traversed@) == fin.traversed
            &&& r.truncated == fin.truncated
            &&& views(r.omissions@) == fin.omissions
        }),
{
    let ghost init = initial_state(step_view(entry_step), target@);
    let mut visited: Vec<String> = Vec::new();
    visited.push(entry_step.node_id.clone());
    let mut steps: Vec<FlowStep> = Vec::new();
    steps.push(entry_step);
    let mut queue: Vec<(String, usize)> = Vec::new();
    if !target.is_empty() {
        queue.push((target.to_string(), 0));
    }
    let mut head: usize = 0;
    let mut traversed: Vec<FlowEdge> = Vec::new();
    let mut truncated = false;
    let mut omissions: Vec<String> = Vec::new();
    let mut done = false;
    let ghost mut fuel: nat = flow_fuel();
    proof {
        let st = state_of(steps@, traversed@, visited@, queue@, head as int, truncated, omissions@, done);
        assert(st.steps =~= init.steps);
        assert(st.traversed =~= init.traversed);
        assert(st.visited =~= init.visited);
        assert(st.queue =~= init.queue);
        assert(st.omissions =~= init.omissions);
        assert(st == init);
    }
    while !done && head < queue.len()
        invariant
            head <= queue@.len(),
            traversed@.len() <= MAX_FLOW_EDGES,
            fuel > measure(state_of(steps@, traversed@, visited@, queue@, head as int, truncated, omissions@, done)),
            flow_run(nodes@, edges@, target@, init, flow_fuel()) == flow_run(
                nodes@,
                edges@,
                target@,
                state_of(steps@, traversed@, visited@, queue@, head as int, truncated, omissions@, done),
                fuel,
            ),
            forall|k: int| 0 <= k < queue@.len() ==> (#[trigger] queue@[k]).1 <= MAX_FLOW_DEPTH,
            steps@.len() <= MAX_FLOW_STEPS + 1,
        decreases measure(state_of(steps@, traversed@, visited@, queue@, head as int, truncated, omissions@, done)),
    {
        let ghost prev = state_of(steps@, traversed@, visited@, queue@, head as int, truncated, omissions@, done);
        let ghost next = flow_step(nodes@, edges@, target@, prev);
        proof {
            lemma_flow_step_measure(nodes@, edges@, target@, prev);
            assert(queue@.skip(head as int)[0] == queue@[head as int]);
            assert(queue@.skip(head as int).drop_first() =~= queue@.skip(head as int + 1));
        }
        let current = queue[head].0.clone();
        let depth = queue[head].1;
        let ghost st1 = FlowState { queue: prev.queue.drop_first(), ..prev };
        head = head + 1;
        proof {
            assert(queue_views(queue@.skip(head as int)) =~= prev.queue.drop_first());
            assert(prev.queue[0] == (current@, depth as nat));
            assert(state_of(steps@, traversed@, visited@, queue@, head as int, truncated, omissions@, done) == st1);
        }
        let seen = contains_str(&visited, current.as_str());
        if !seen {
            match last_node(nodes, current.as_str()) {
                None => {},
                Some(node) => {
                    if steps.len() >= MAX_FLOW_STEPS {
                        truncated = true;
                        omissions.push(STEPS_CAPPED.to_string());
                        done = true;
                        proof {
                            let after = state_of(steps@, traversed@, visited@, queue@, head as int, truncated, omissions@, done);
                            assert(after.omissions =~= st1.omissions.push(STEPS_CAPPED@));
                        }
                    } else {
                        let role = if str_eq(current.as_str(), target) {
                            "target"
                        } else {
                            "callee"
                        };
                        visited.push(current.clone());
                        let index = steps.len();
                        steps.push(node_flow_step(index, node, role));
                        let ghost st2_spec = FlowState {
                            visited: st1.visited.push(current@),
                            steps: st1.steps.push(node_step(st1.steps.len(), *node, role@)),
                            ..st1
                        };
                        proof {
                            let after = state_of(steps@, traversed@, visited@, queue@, head as int, truncated, omissions@, done);
                            assert(after.visited =~= st2_spec.visited);
                            assert(after.steps =~= st2_spec.steps);
                            assert(after == st2_spec);
                        }
                        if depth >= MAX_FLOW_DEPTH {
                            truncated = true;
                            omissions.push(DEPTH_CAPPED.to_string());
                            proof {
                                let after = state_of(steps@, traversed@, visited@, queue@, head as int, truncated, omissions@, done);
                                assert(after.omissions =~= st2_spec.omissions.push(DEPTH_CAPPED@));
                            }
                        } else {
                            let out = node_out_edges(edges, current.as_str());
                            let ghost st2 = state_of(steps@, traversed@, visited@, queue@, head as int, truncated, omissions@, done);
                            let mut j: usize = 0;
                            let mut stop = false;
                            while !stop && j < out.len()
                                invariant
                                    j <= out@.len(),
                                    head <= queue@.len(),
                                    !done,
                                    traversed@.len() <= MAX_FLOW_EDGES,
                                    depth < MAX_FLOW_DEPTH,
                                    forall|k: int| 0 <= k < queue@.len() ==> (#[trigger] queue@[k]).1 <= MAX_FLOW_DEPTH,
                                    stop ==> traverse_edges(st2, edge_views(out@), 0, depth as nat) == state_of(
                                        steps@, traversed@, visited@, queue@, head as int, truncated, omissions@, done),
                                    !stop ==> traverse_edges(st2, edge_views(out@), 0, depth as nat) == traverse_edges(
                                        state_of(steps@, traversed@, visited@, queue@, head as int, truncated, omissions@, done),
                                        edge_views(out@),
                                        j as nat,
                                        depth as nat,
                                    ),
                                decreases (out@.len() - j) * 2 + (if stop { 0int } else { 1int }),
                            {
                                let ghost cur = state_of(steps@, traversed@, visited@, queue@, head as int, truncated, omissions@, done);
                                if traversed.len() >= MAX_FLOW_EDGES {
                                    truncated = true;
                                    omissions.push(EDGES_CAPPED.to_string());
                                    stop = true;
                                    proof {
                                        let after = state_of(steps@, traversed@, visited@, queue@, head as int, truncated, omissions@, done);
                                        assert(after.omissions =~= cur.omissions.push(EDGES_CAPPED@));
                                        assert(after == capped(cur, EDGES_CAPPED@));
                                    }
                                } else {
                                    let e = &out[j];
                                    let fresh = !contains_str(&visited, e.to.as_str());
                                    traversed.push(FlowEdge { from: e.from.clone(), to: e.to.clone(), kind: e.kind.clone(), evidence: e.evidence.clone() });
                                    if fresh {
                                        queue.push((e.to.clone(), depth + 1));
                                    }
                                    proof {
                                        let ev = edge_views(out@)[j as int];
                                        assert(ev == edge_view(out@[j as int]));
                                        let after = state_of(steps@, traversed@, visited@, queue@, head as int, truncated, omissions@, done);
                                        assert(after.traversed =~= cur.traversed.push(ev));
                                        if fresh {
                                            assert(queue_views(queue@.skip(head as int)) =~= cur.queue.push((ev.1, depth as nat + 1)));
                                        } else {
                                            assert(queue_views(queue@.skip(head as int)) =~= cur.queue);
                                        }
                                    }
                                    j = j + 1;
                                }
                            }
                            proof {
                                if !stop {
                                    assert(j == out@.len());
                                }
                            }
                            if traversed.len() >= MAX_FLOW_EDGES {
                                done = true;
                            }
                            proof {
                                lemma_traverse_edges(st2, edge_views(out@), 0, depth as nat);
                            }
                        }
                    }
                },
            }
        }
        proof {
            let after = state_of(steps@, traversed@, visited@, queue@, head as int, truncated, omissions@, done);
            assert(after == next);
            fuel = (fuel - 1) as nat;
        }
    }
    proof {
        let st = state_of(steps@, traversed@, visited@, queue@, head as int, truncated, omissions@, done);
        if !done {
            assert(queue@.skip(head as int) =~= Seq::<(String, usize)>::empty());
        }
        lemma_flow_run_done(nodes@, edges@, target@, st, fuel);
    }
    Traversal { steps, traversed, truncated, omissions }
}

proof fn lemma_sorted_edges_members(
    s: Seq<(Seq<char>, Seq<char>, Seq<char>, Seq<char>)>,
    x: (Seq<char>, Seq<char>, Seq<char>, Seq<char>),
)
    ensures
        sorted_edges(s).contains(x) == s.contains(x),
    decreases s.len(),
{
    if s.len() > 0 {
        let o = sorted_edges(s.drop_last());
        lemma_sorted_edges_members(s.drop_last(), x);
        lemma_insert_pos_bound(o, s.last());
        let p = insert_pos(o, s.last()) as int;
        let t = o.insert(p, s.last());
        if t.contains(x) {
            let k = choose|k: int| 0 <= k < t.len() && t[k] == x;
            if k < p {
                assert(o[k] == x);
            } else if k > p {
                assert(o[k - 1] == x);
            } else {
                assert(s[s.len() - 1] == x);
            }
        }
        if s.contains(x) {
            let k = choose|k: int| 0 <= k < s.len() && s[k] == x;
            if k < s.len() - 1 {
                assert(s.drop_last()[k] == x);
                let j = choose|j: int| 0 <= j < o.len() && o[j] == x;
                if j < p {
                    assert(t[j] == x);
                } else {
                    assert(t[j + 1] == x);
                }
            } else {
                assert(t[p] == x);
            }
        }
    }
}

proof fn lemma_out_edges_members(edges: Seq<GraphEdge>, from: Seq<char>, x: (Seq<char>, Seq<char>, Seq<char>, Seq<char>))
    ensures
        out_edges(edges, from).contains(x) <==> exists|i: int|
            0 <= i < edges.len() && #[trigger] graph_edge_view(edges[i]) == x && x.0 == from && (x.2 == "calls"@
                || x.2 == "constructs"@),
    decreases edges.len(),
{
    if edges.len() > 0 {
        let d = edges.drop_last();
        lemma_out_edges_members(d, from, x);
        let rest = out_edges(d, from);
        let e = edges.last();
        if out_edges(edges, from).contains(x) {
            if rest.contains(x) {
                let i = choose|i: int|
                    0 <= i < d.len() && #[trigger] graph_edge_view(d[i]) == x && x.0 == from && (x.2 == "calls"@
                        || x.2 == "constructs"@);
                assert(graph_edge_view(edges[i]) == x);
            } else {
                let k = choose|k: int| 0 <= k < out_edges(edges, from).len() && out_edges(edges, from)[k] == x;
                assert(k == rest.len());
                assert(graph_edge_view(edges[edges.len() - 1]) == x);
            }
        }
        if exists|i: int|
            0 <= i < edges.len() && #[trigger] graph_edge_view(edges[i]) == x && x.0 == from && (x.2 == "calls"@
                || x.2 == "constructs"@) {
            let i = choose|i: int|
                0 <= i < edges.len() && #[trigger] graph_edge_view(edges[i]) == x && x.0 == from && (x.2 == "calls"@
                    || x.2 == "constructs"@);
            if i < edges.len() - 1 {
                assert(graph_edge_view(d[i]) == x);
                assert(rest.contains(x));
                let k = choose|k: int| 0 <= k < rest.len() && rest[k] == x;
                if (e.kind@ == "calls"@ || e.kind@ == "constructs"@) && e.from@ == from {
                    assert(rest.push(graph_edge_view(e))[k] == x);
                }
            } else {
                assert(graph_edge_view(e) == x);
                assert(rest.push(graph_edge_view(e))[rest.len() as int] == x);
            }
        }
    }
}

/// The out edges of a node are exactly the graph's edges of kind "calls" or "constructs"
/// that leave it: every such edge is among them, and each of them is such an edge.
pub proof fn law_out_edges_are_the_call_and_construct_edges(edges: Seq<GraphEdge>, from: Seq<char>, r: Seq<FlowEdge>)
    requires
        edge_views(r) == sorted_edges(out_edges(edges, from)),
    ensures
        forall|i: int|
            0 <= i < edges.len() && edges[i].from@ == from && (edges[i].kind@ == "calls"@ || edges[i].kind@
                == "constructs"@) ==> edge_views(r).contains(#[trigger] graph_edge_view(edges[i])),
        forall|k: int|
            0 <= k < r.len() ==> {
                &&& (#[trigger] r[k]).from@ == from
                &&& (r[k].kind@ == "calls"@ || r[k].kind@ == "constructs"@)
                &&& exists|i: int| 0 <= i < edges.len() && graph_edge_view(#[trigger] edges[i]) == edge_view(r[k])
            },
{
    assert forall|i: int|
        0 <= i < edges.len() && edges[i].from@ == from && (edges[i].kind@ == "calls"@ || edges[i].kind@
            == "constructs"@) implies edge_views(r).contains(#[trigger] graph_edge_view(edges[i])) by {
        let x = graph_edge_view(edges[i]);
        lemma_out_edges_members(edges, from, x);
        lemma_sorted_edges_members(out_edges(edges, from), x);
    }
    assert forall|k: int| 0 <= k < r.len() implies {
        &&& (#[trigger] r[k]).from@ == from
        &&& (r[k].kind@ == "calls"@ || r[k].kind@ == "constructs"@)
        &&& exists|i: int| 0 <= i < edges.len() && graph_edge_view(#[trigger] edges[i]) == edge_view(r[k])
    } by {
        let x = edge_view(r[k]);
        assert(edge_views(r)[k] == x);
        assert(sorted_edges(out_edges(edges, from)).contains(x));
        lemma_sorted_edges_members(out_edges(edges, from), x);
        lemma_out_edges_members(edges, from, x);
    }
}

proof fn lemma_out_edges_len(edges: Seq<GraphEdge>, from: Seq<char>)
    ensures
        out_edges(edges, from).len() <= edges.len(),
    decreases edges.len(),
{
    if edges.len() > 0 {
        lemma_out_edges_len(edges.drop_last(), from);
    }
}

proof fn lemma_traverse_edges_uncapped(
    st: FlowState,
    out: Seq<(Seq<char>, Seq<char>, Seq<char>, Seq<char>)>,
    i: nat,
    depth: nat,
)
    requires
        i <= out.len(),
        st.traversed.len() + (out.len() - i) < MAX_FLOW_EDGES,
    ensures
        traverse_edges(st, out, i, depth).traversed == st.traversed + out.subrange(i as int, out.len() as int),
        traverse_edges(st, out, i, depth).visited == st.visited,
        traverse_edges(st, out, i, depth).steps == st.steps,
    decreases out.len() - i,
{
    if i < out.len() {
        let e = out[i as int];
        let queue = if st.visited.contains(e.1) {
            st.queue
        } else {
            st.queue.push((e.1, depth + 1))
        };
        let next = FlowState { traversed: st.traversed.push(e), queue, ..st };
        lemma_traverse_edges_uncapped(next, out, i + 1, depth);
        assert(st.traversed.push(e) + out.subrange(i as int + 1, out.len() as int) =~= st.traversed
            + out.subrange(i as int, out.len() as int));
    } else {
        assert(out.subrange(i as int, out.len() as int) =~= Seq::<(Seq<char>, Seq<char>, Seq<char>, Seq<char>)>::empty());
        assert(st.traversed + Seq::<(Seq<char>, Seq<char>, Seq<char>, Seq<char>)>::empty() =~= st.traversed);
    }
}

/// Visiting a node follows every edge of kind "calls" or "constructs" that leaves it: when
/// the next queued node is an unvisited graph node below the depth bound, and neither the
/// step bound nor the edge bound can be reached, the round marks it visited and adds each
/// such edge of the graph to the traversed edges.
pub proof fn law_visiting_a_node_follows_its_call_and_construct_edges(
    nodes: Seq<GraphNode>,
    edges: Seq<GraphEdge>,
    target: Seq<char>,
    st: FlowState,
)
    requires
        st.queue.len() > 0,
        !st.visited.contains(st.queue[0].0),
        last_node_by_id(nodes, st.queue[0].0) is Some,
        st.steps.len() < MAX_FLOW_STEPS,
        st.queue[0].1 < MAX_FLOW_DEPTH,
        st.traversed.len() + edges.len() < MAX_FLOW_EDGES,
    ensures
        ({
            let next = flow_step(nodes, edges, target, st);
            &&& next.visited.contains(st.queue[0].0)
            &&& forall|i: int|
                0 <= i < edges.len() && edges[i].from@ == st.queue[0].0 && (edges[i].kind@ == "calls"@
                    || edges[i].kind@ == "constructs"@) ==> next.traversed.contains(#[trigger] graph_edge_view(edges[i]))
        }),
{
    let (cur, depth) = st.queue[0];
    let st1 = FlowState { queue: st.queue.drop_first(), ..st };
    let node = last_node_by_id(nodes, cur)->Some_0;
    let role = if cur == target { "target"@ } else { "callee"@ };
    let st2 = FlowState {
        visited: st1.visited.push(cur),
        steps: st1.steps.push(node_step(st1.steps.len(), node, role)),
        ..st1
    };
    let out = sorted_edges(out_edges(edges, cur));
    lemma_out_edges_len(edges, cur);
    lemma_sorted_edges_len(out_edges(edges, cur));
    lemma_traverse_edges_uncapped(st2, out, 0, depth);
    let st3 = traverse_edges(st2, out, 0, depth);
    assert(out.subrange(0, out.len() as int) =~= out);
    assert(st2.visited[st2.visited.len() - 1] == cur);
    assert forall|i: int|
        0 <= i < edges.len() && edges[i].from@ == cur && (edges[i].kind@ == "calls"@ || edges[i].kind@
            == "constructs"@) implies st3.traversed.contains(#[trigger] graph_edge_view(edges[i])) by {
        let x = graph_edge_view(edges[i]);
        lemma_out_edges_members(edges, cur, x);
        lemma_sorted_edges_members(out_edges(edges, cur), x);
        let k = choose|k: int| 0 <= k < out.len() && out[k] == x;
        assert(st3.traversed[st2.traversed.len() + k] == x);
    }
}

proof fn lemma_edge_lt_order(
    a: (Seq<char>, Seq<char>, Seq<char>, Seq<char>),
    b: (Seq<char>, Seq<char>, Seq<char>, Seq<char>),
    c: (Seq<char>, Seq<char>, Seq<char>, Seq<char>),
)
    ensures
        edge_lt(a, b) && edge_lt(b, c) ==> edge_lt(a, c),
{
    if edge_lt(a, b) && edge_lt(b, c) {
        crate::order::lemma_str_lt_asymmetric(a.2, b.2);
        crate::order::lemma_str_lt_asymmetric(b.2, c.2);
        crate::order::lemma_str_lt_asymmetric(a.1, b.1);
        crate::order::lemma_str_lt_asymmetric(b.1, c.1);
        crate::order::lemma_str_lt_irreflexive(a.2);
        crate::order::lemma_str_lt_irreflexive(a.1);
        if a.2 != b.2 && b.2 != c.2 {
            crate::order::lemma_str_lt_transitive(a.2, b.2, c.2);
        } else if a.2 == b.2 && b.2 == c.2 {
            if a.1 != b.1 && b.1 != c.1 {
                crate::order::lemma_str_lt_transitive(a.1, b.1, c.1);
            } else if a.1 == b.1 && b.1 == c.1 {
                crate::order::lemma_str_lt_transitive(a.3, b.3, c.3);
            }
        }
    }
}

/// Whether no edge of `s` sorts before an earlier one.
pub open spec fn edges_ordered(s: Seq<(Seq<char>, Seq<char>, Seq<char>, Seq<char>)>) -> bool {
    forall|i: int, j: int| 0 <= i < j < s.len() ==> !edge_lt(#[trigger] s[j], #[trigger] s[i])
}

proof fn lemma_sorted_edges_ordered(s: Seq<(Seq<char>, Seq<char>, Seq<char>, Seq<char>)>)
    ensures
        edges_ordered(sorted_edges(s)),
    decreases s.len(),
{
    if s.len() > 0 {
        let o = sorted_edges(s.drop_last());
        lemma_sorted_edges_ordered(s.drop_last());
        lemma_insert_pos_bound(o, s.last());
        let x = s.last();
        let p = insert_pos(o, x) as int;
        let t = o.insert(p, x);
        assert forall|i: int, j: int| 0 <= i < j < t.len() implies !edge_lt(#[trigger] t[j], #[trigger] t[i]) by {
            if j < p {
                assert(t[i] == o[i] && t[j] == o[j]);
            } else if j == p {
                assert(t[j] == x && t[i] == o[i]);
            } else if i > p {
                assert(t[i] == o[i - 1] && t[j] == o[j - 1]);
            } else if i == p {
                assert(t[i] == x && t[j] == o[j - 1]);
                if edge_lt(o[j - 1], x) {
                    lemma_edge_lt_order(o[j - 1], x, o[p]);
                    if j - 1 > p {
                        assert(!edge_lt(o[j - 1], o[p]));
                    } else {
                        crate::order::lemma_str_lt_irreflexive(o[p].2);
                        crate::order::lemma_str_lt_irreflexive(o[p].1);
                        crate::order::lemma_str_lt_irreflexive(o[p].3);
                    }
                }
            } else {
                assert(t[i] == o[i] && t[j] == o[j - 1]);
            }
        }
    }
}

/// The out edges of a node come ordered by kind, then by target, then by evidence.
pub proof fn law_out_edges_are_ordered_by_kind_target_and_evidence(edges: Seq<GraphEdge>, from: Seq<char>, r: Seq<FlowEdge>)
    requires
        edge_views(r) == sorted_edges(out_edges(edges, from)),
    ensures
        forall|i: int, j: int|
            0 <= i < j < r.len() ==> {
                &&& (#[trigger] r[i]).kind@ != (#[trigger] r[j]).kind@ ==> str_lt(r[i].kind@, r[j].kind@)
                &&& r[i].kind@ == r[j].kind@ && r[i].to@ != r[j].to@ ==> str_lt(r[i].to@, r[j].to@)
                &&& r[i].kind@ == r[j].kind@ && r[i].to@ == r[j].to@ ==> !str_lt(r[j].evidence@, r[i].evidence@)
            },
{
    lemma_sorted_edges_ordered(out_edges(edges, from));
    assert forall|i: int, j: int| 0 <= i < j < r.len() implies {
        &&& (#[trigger] r[i]).kind@ != (#[trigger] r[j]).kind@ ==> str_lt(r[i].kind@, r[j].kind@)
        &&& r[i].kind@ == r[j].kind@ && r[i].to@ != r[j].to@ ==> str_lt(r[i].to@, r[j].to@)
        &&& r[i].kind@ == r[j].kind@ && r[i].to@ == r[j].to@ ==> !str_lt(r[j].evidence@, r[i].evidence@)
    } by {
        let s = edge_views(r);
        assert(s[i] == edge_view(r[i]) && s[j] == edge_view(r[j]));
        assert(!edge_lt(s[j], s[i]));
        crate::order::lemma_str_lt_total(r[i].kind@, r[j].kind@);
        crate::order::lemma_str_lt_total(r[i].to@, r[j].to@);
    }
}

} // verus!
