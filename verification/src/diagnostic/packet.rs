//! Bounding a diagnostic packet: what is dropped first when it is too large.

use vstd::prelude::*;

use crate::flow::related_tests::{find_node, node_by_id, related_from_records, related_of_records};
use crate::graph::targets::clone_strings;
use crate::json::{json_uint, push_json_uint};
use crate::model::diagnostic::{
    DiagnosticAssertion, DiagnosticContext, DiagnosticLimits, DiagnosticPacket, GitBasis, GraphBasis, HistoricalDiagnosis,
};
use crate::model::flow::{same_flow, ContextFlow, FlowRef, RelatedTestRecord};
use crate::model::graph::{ContextRef, GraphNode, GraphSnapshot};
use crate::model::schemas::DIAGNOSTIC_PACKET_SCHEMA;
use crate::model::temporal::ContextReconciliation;
use crate::text::{str_eq, views};

verus! {

broadcast use vstd::string::group_string_axioms;

/// The omission every packet that exceeded its byte bound records first.
pub const PACKET_BOUND_OMISSION: &'static str = "diagnostic packet exceeded max_packet_bytes";

/// Which part of a packet loses its last item next: historical candidates, then
/// assertions, focus nodes, focus flows, related tests, reconciliations, focus Flow Refs
/// and focus Context Refs; 8 when all are empty.
pub open spec fn trim_index(p: DiagnosticPacket) -> int {
    if p.historical.candidates@.len() > 0 {
        0
    } else if p.assertions@.len() > 0 {
        1
    } else if p.focus_nodes@.len() > 0 {
        2
    } else if p.focus_flows@.len() > 0 {
        3
    } else if p.related_tests.records@.len() > 0 {
        4
    } else if p.context_reconciliation@.len() > 0 {
        5
    } else if p.focus_flow_refs@.len() > 0 {
        6
    } else if p.focus_context_refs@.len() > 0 {
        7
    } else {
        8
    }
}

/// The omission recorded when part `k` of a packet loses an item.
pub open spec fn trim_omission(k: int) -> Seq<char> {
    if k == 0 {
        "historical candidates omitted by packet bound"@
    } else if k == 1 {
        "assertions omitted by packet bound"@
    } else if k == 2 {
        "focus node cards omitted by packet bound"@
    } else if k == 3 {
        "focus flows omitted by packet bound"@
    } else if k == 4 {
        "related-test evidence omitted by packet bound"@
    } else if k == 5 {
        "Context Ref reconciliation omitted by packet bound"@
    } else if k == 6 {
        "focus Flow Refs omitted by packet bound"@
    } else {
        "focus Context Refs omitted by packet bound"@
    }
}

/// Whether `q` is `p` with the last item of part `k` dropped and nothing else changed
/// but its omissions.
pub open spec fn trimmed_at(p: DiagnosticPacket, q: DiagnosticPacket, k: int) -> bool {
    &&& q.schema_version == p.schema_version
    &&& q.context == p.context
    &&& q.current_graph_basis == p.current_graph_basis
    &&& q.last_known_good_basis == p.last_known_good_basis
    &&& q.last_known_good_binding == p.last_known_good_binding
    &&& q.last_known_good_candidate == p.last_known_good_candidate
    &&& q.last_known_good_state == p.last_known_good_state
    &&& q.last_known_good_applicability == p.last_known_good_applicability
    &&& q.limitations == p.limitations
    &&& q.truncated == p.truncated
    &&& q.related_tests.schema_version == p.related_tests.schema_version
    &&& q.related_tests.status == p.related_tests.status
    &&& q.related_tests.truncated == p.related_tests.truncated
    &&& q.related_tests.omissions == p.related_tests.omissions
    &&& q.historical.schema_version == p.historical.schema_version
    &&& q.historical.context_id == p.historical.context_id
    &&& q.historical.current_graph_basis == p.historical.current_graph_basis
    &&& q.historical.last_known_good_basis == p.historical.last_known_good_basis
    &&& q.historical.last_known_good_binding == p.historical.last_known_good_binding
    &&& q.historical.last_known_good_candidate == p.historical.last_known_good_candidate
    &&& q.historical.last_known_good_state == p.historical.last_known_good_state
    &&& q.historical.last_known_good_applicability == p.historical.last_known_good_applicability
    &&& q.historical.last_known_good_status == p.historical.last_known_good_status
    &&& q.historical.range == p.historical.range
    &&& q.historical.commits_inspected == p.historical.commits_inspected
    &&& q.historical.truncated == p.historical.truncated
    &&& q.historical.omissions == p.historical.omissions
    &&& q.historical.limitations == p.historical.limitations
    &&& q.historical.candidates@ == if k == 0 { p.historical.candidates@.drop_last() } else { p.historical.candidates@ }
    &&& q.assertions@ == if k == 1 { p.assertions@.drop_last() } else { p.assertions@ }
    &&& q.focus_nodes@ == if k == 2 { p.focus_nodes@.drop_last() } else { p.focus_nodes@ }
    &&& q.focus_flows@ == if k == 3 { p.focus_flows@.drop_last() } else { p.focus_flows@ }
    &&& q.related_tests.records@ == if k == 4 { p.related_tests.records@.drop_last() } else { p.related_tests.records@ }
    &&& q.context_reconciliation@ == if k == 5 { p.context_reconciliation@.drop_last() } else { p.context_reconciliation@ }
    &&& q.focus_flow_refs@ == if k == 6 { p.focus_flow_refs@.drop_last() } else { p.focus_flow_refs@ }
    &&& q.focus_context_refs@ == if k == 7 { p.focus_context_refs@.drop_last() } else { p.focus_context_refs@ }
}

/// Marks a packet that exceeds its byte bound as truncated and records why.
pub fn mark_over_bound(packet: &mut DiagnosticPacket)
    ensures
        final(packet).truncated,
        trimmed_at(DiagnosticPacket { truncated: true, ..*old(packet) }, *final(packet), 8),
        views(final(packet).omissions@) == views(old(packet).omissions@).push(PACKET_BOUND_OMISSION@),
{
    packet.truncated = true;
    let ghost before = views(packet.omissions@);
    packet.omissions.push(PACKET_BOUND_OMISSION.to_string());
    assert(views(packet.omissions@) =~= before.push(PACKET_BOUND_OMISSION@));
}

fn record(packet: &mut DiagnosticPacket, omission: &str)
    ensures
        views(final(packet).omissions@) == views(old(packet).omissions@).push(omission@),
        trimmed_at(*old(packet), *final(packet), 8),
{
    let ghost before = views(packet.omissions@);
    packet.omissions.push(omission.to_string());
    assert(views(packet.omissions@) =~= before.push(omission@));
}

/// Drops the last item of the first non-empty part of the packet, in the order of
/// `trim_index`, and records the omission; `false`, with the packet unchanged, when every
/// part is empty.
pub fn trim_step(packet: &mut DiagnosticPacket) -> (r: bool)
    ensures
        r == (trim_index(*old(packet)) < 8),
        r ==> trimmed_at(*old(packet), *final(packet), trim_index(*old(packet))),
        r ==> views(final(packet).omissions@) == views(old(packet).omissions@).push(
            trim_omission(trim_index(*old(packet))),
        ),
        !r ==> trimmed_at(*old(packet), *final(packet), 8) && final(packet).omissions@ == old(packet).omissions@,
{
    if packet.historical.candidates.pop().is_some() {
        record(packet, "historical candidates omitted by packet bound");
        true
    } else if packet.assertions.pop().is_some() {
        record(packet, "assertions omitted by packet bound");
        true
    } else if packet.focus_nodes.pop().is_some() {
        record(packet, "focus node cards omitted by packet bound");
        true
    } else if packet.focus_flows.pop().is_some() {
        record(packet, "focus flows omitted by packet bound");
        true
    } else if packet.related_tests.records.pop().is_some() {
        record(packet, "related-test evidence omitted by packet bound");
        true
    } else if packet.context_reconciliation.pop().is_some() {
        record(packet, "Context Ref reconciliation omitted by packet bound");
        true
    } else if packet.focus_flow_refs.pop().is_some() {
        record(packet, "focus Flow Refs omitted by packet bound");
        true
    } else if packet.focus_context_refs.pop().is_some() {
        record(packet, "focus Context Refs omitted by packet bound");
        true
    } else {
        false
    }
}


/// Whether `size_of` may report that packet `p` fits in `max_bytes`.
pub open spec fn reported_fit<F: Fn(&DiagnosticPacket) -> Result<usize, String>>(size_of: F, p: DiagnosticPacket, max_bytes: usize) -> bool {
    exists|n: usize| n <= max_bytes && #[trigger] call_ensures(size_of, (&p,), Ok::<usize, String>(n))
}

/// Whether `size_of` may report that packet `p` exceeds `max_bytes`.
pub open spec fn reported_excess<F: Fn(&DiagnosticPacket) -> Result<usize, String>>(size_of: F, p: DiagnosticPacket, max_bytes: usize) -> bool {
    exists|n: usize| n > max_bytes && #[trigger] call_ensures(size_of, (&p,), Ok::<usize, String>(n))
}

/// `steps` trims packet `first` one item at a time, in the order of `trim_index`, each
/// trim recording its omission, until `last`.
#[verifier::opaque]
pub open spec fn trim_chain(steps: Seq<DiagnosticPacket>, first: DiagnosticPacket, last: DiagnosticPacket) -> bool {
    &&& steps.len() >= 1
    &&& steps[0] == first
    &&& steps.last() == last
    &&& forall|i: int|
        0 <= i < steps.len() - 1 ==> {
            &&& trim_index(#[trigger] steps[i]) < 8
            &&& trimmed_at(steps[i], steps[i + 1], trim_index(steps[i]))
            &&& views(steps[i + 1].omissions@) == views(steps[i].omissions@).push(trim_omission(trim_index(steps[i])))
        }
}

/// Whether every measurement `size_of` may give of packet `p` is a size within `max_bytes`.
pub open spec fn measured_fit<F: Fn(&DiagnosticPacket) -> Result<usize, String>>(size_of: F, p: DiagnosticPacket, max_bytes: usize) -> bool {
    forall|x: Result<usize, String>| #[trigger] call_ensures(size_of, (&p,), x) ==> (x matches Ok(n) && n <= max_bytes)
}

/// Whether `size_of` may fail to measure packet `p` with error `e`.
pub open spec fn measure_failed<F: Fn(&DiagnosticPacket) -> Result<usize, String>>(size_of: F, p: DiagnosticPacket, e: String) -> bool {
    call_ensures(size_of, (&p,), Err::<usize, String>(e))
}

/// Whether `last` is packet `p0` marked as over the bound and then trimmed item by item,
/// in the order of `trim_index`, each packet before `last` measured as too large.
pub open spec fn trimmed_from<F: Fn(&DiagnosticPacket) -> Result<usize, String>>(
    size_of: F,
    p0: DiagnosticPacket,
    max_bytes: usize,
    last: DiagnosticPacket,
) -> bool {
    exists|marked: DiagnosticPacket, steps: Seq<DiagnosticPacket>|
        {
            &&& marked.truncated
            &&& views(marked.omissions@) == views(p0.omissions@).push(PACKET_BOUND_OMISSION@)
            &&& trimmed_at(DiagnosticPacket { truncated: true, ..p0 }, marked, 8)
            &&& #[trigger] trim_chain(steps, marked, last)
            &&& forall|i: int| 0 <= i < steps.len() - 1 ==> reported_excess(size_of, #[trigger] steps[i], max_bytes)
        }
}

/// The failures bounding may give for a positive bound: the first measurement of `p0`
/// failed, leaving it unchanged; or `p0` was too large and, trimmed to `last`, either a
/// measurement of `last` failed, or nothing was left to trim and `last` was still too large.
pub open spec fn failure_allowed<F: Fn(&DiagnosticPacket) -> Result<usize, String>>(
    size_of: F,
    p0: DiagnosticPacket,
    max_bytes: usize,
    fin: DiagnosticPacket,
    e: String,
) -> bool {
    ||| measure_failed(size_of, p0, e) && fin == p0
    ||| reported_excess(size_of, p0, max_bytes) && exists|last: DiagnosticPacket| {
        &&& #[trigger] trimmed_from(size_of, p0, max_bytes, last)
        &&& {
            ||| measure_failed(size_of, last, e) && fin == last
            ||| e@ == PACKET_ENVELOPE_TOO_LARGE@ && trim_index(last) == 8 && reported_excess(size_of, last, max_bytes)
                && trimmed_at(last, fin, 8) && fin.omissions@ == last.omissions@
        }
    }
}

/// Bounds a packet by its size as `size_of` measures it: refused when the bound is zero;
/// unchanged when it fits; otherwise marked as over the bound and trimmed, item by item in
/// the order of `trim_index`, until it fits, or refused when nothing is left to trim. A
/// failed measurement is returned as the error; no other error is given.
#[verifier::rlimit(60)]
pub fn bound_packet<F: Fn(&DiagnosticPacket) -> Result<usize, String>>(
    packet: &mut DiagnosticPacket,
    max_bytes: usize,
    size_of: F,
) -> (r: Result<(), String>)
    requires
        forall|p: DiagnosticPacket| call_requires(size_of, (&p,)),
    ensures
        max_bytes == 0 ==> (r matches Err(e) && e@ == PACKET_BOUND_ZERO@ && *final(packet) == *old(packet)),
        max_bytes > 0 && measured_fit(size_of, *old(packet), max_bytes) ==> (r is Ok && *final(packet) == *old(packet)),
        r is Ok ==> max_bytes > 0 && (*final(packet) == *old(packet) && reported_fit(size_of, *old(packet), max_bytes) || {
            &&& reported_excess(size_of, *old(packet), max_bytes)
            &&& reported_fit(size_of, *final(packet), max_bytes)
            &&& trimmed_from(size_of, *old(packet), max_bytes, *final(packet))
        }),
        r matches Err(e) ==> max_bytes == 0 || failure_allowed(size_of, *old(packet), max_bytes, *final(packet), e),
{
    if max_bytes == 0 {
        return Err(PACKET_BOUND_ZERO.to_string());
    }
    let ghost p0 = *packet;
    let first = match size_of(&*packet) {
        Ok(n) => n,
        Err(e) => {
            assert(measure_failed(size_of, p0, e));
            return Err(e);
        },
    };
    if first <= max_bytes {
        return Ok(());
    }
    assert(reported_excess(size_of, p0, max_bytes));
    mark_over_bound(packet);
    let ghost marked = *packet;
    let ghost mut steps: Seq<DiagnosticPacket> = seq![marked];
    proof {
        reveal(trim_chain);
        assert(steps.last() == marked);
    }
    loop
        invariant
            forall|p: DiagnosticPacket| call_requires(size_of, (&p,)),
            max_bytes > 0,
            p0 == *old(packet),
            reported_excess(size_of, p0, max_bytes),
            trim_chain(steps, marked, *packet),
            forall|i: int| 0 <= i < steps.len() - 1 ==> reported_excess(size_of, #[trigger] steps[i], max_bytes),
            marked.truncated,
            views(marked.omissions@) == views(p0.omissions@).push(PACKET_BOUND_OMISSION@),
            trimmed_at(DiagnosticPacket { truncated: true, ..p0 }, marked, 8),
        decreases trim_measure(*packet),
    {
        let ghost before = *packet;
        assert(trimmed_from(size_of, p0, max_bytes, before)) by {
            assert(trim_chain(steps, marked, before));
        }
        let size = match size_of(&*packet) {
            Ok(n) => n,
            Err(e) => {
                assert(measure_failed(size_of, before, e));
                return Err(e);
            },
        };
        if size <= max_bytes {
            assert(reported_fit(size_of, *packet, max_bytes));
            return Ok(());
        }
        assert(reported_excess(size_of, before, max_bytes));
        if !trim_step(packet) {
            return Err(PACKET_ENVELOPE_TOO_LARGE.to_string());
        }
        proof {
            lemma_trim_decreases(before, *packet);
            lemma_chain_push(steps, marked, before, *packet, size_of, max_bytes);
            steps = steps.push(*packet);
        }
    }
}

proof fn lemma_chain_push<F: Fn(&DiagnosticPacket) -> Result<usize, String>>(
    steps: Seq<DiagnosticPacket>,
    first: DiagnosticPacket,
    before: DiagnosticPacket,
    after: DiagnosticPacket,
    size_of: F,
    max_bytes: usize,
)
    requires
        trim_chain(steps, first, before),
        forall|i: int| 0 <= i < steps.len() - 1 ==> reported_excess(size_of, #[trigger] steps[i], max_bytes),
        reported_excess(size_of, before, max_bytes),
        trim_index(before) < 8,
        trimmed_at(before, after, trim_index(before)),
        views(after.omissions@) == views(before.omissions@).push(trim_omission(trim_index(before))),
    ensures
        trim_chain(steps.push(after), first, after),
        forall|i: int| 0 <= i < steps.len() ==> reported_excess(size_of, #[trigger] steps.push(after)[i], max_bytes),
{
    reveal(trim_chain);
    let next = steps.push(after);
    assert forall|i: int| 0 <= i < next.len() - 1 implies {
        &&& trim_index(#[trigger] next[i]) < 8
        &&& trimmed_at(next[i], next[i + 1], trim_index(next[i]))
        &&& views(next[i + 1].omissions@) == views(next[i].omissions@).push(trim_omission(trim_index(next[i])))
    } by {
        if i < steps.len() - 1 {
            assert(next[i] == steps[i] && next[i + 1] == steps[i + 1]);
        } else {
            assert(next[i] == before && next[i + 1] == after);
        }
    }
    assert forall|i: int| 0 <= i < steps.len() implies reported_excess(size_of, #[trigger] next[i], max_bytes) by {
        if i < steps.len() - 1 {
            assert(next[i] == steps[i]);
        } else {
            assert(next[i] == before);
        }
    }
}

/// The number of items a packet can still lose to trimming.
pub open spec fn trim_measure(p: DiagnosticPacket) -> nat {
    p.historical.candidates@.len() + p.assertions@.len() + p.focus_nodes@.len() + p.focus_flows@.len()
        + p.related_tests.records@.len() + p.context_reconciliation@.len() + p.focus_flow_refs@.len()
        + p.focus_context_refs@.len()
}

proof fn lemma_trim_decreases(p: DiagnosticPacket, q: DiagnosticPacket)
    requires
        trim_index(p) < 8,
        trimmed_at(p, q, trim_index(p)),
    ensures
        trim_measure(q) < trim_measure(p),
{
}

/// The error of a zero packet bound.
pub const PACKET_BOUND_ZERO: &'static str = "max_packet_bytes must be greater than zero.";

/// The error of a packet that exceeds its bound with nothing left to trim.
pub const PACKET_ENVELOPE_TOO_LARGE: &'static str = "diagnostic packet envelope exceeds max_packet_bytes even after bounded omissions.";

/// The limitation every packet adds to those of its historical diagnosis.
pub const ASSERTION_LIMITATION: &'static str = "Assertions retain their declared evidence class and attribution; they are not parser facts.";

/// The omission of a packet whose historical diagnosis was truncated.
pub const HISTORICAL_TRUNCATED_OMISSION: &'static str = "historical diagnosis was truncated by one or more declared bounds";

/// How many historical omissions a packet repeats.
pub const HISTORICAL_OMISSIONS_SHOWN: usize = 8;

/// Whether a node with the given id is among `nodes`.
pub open spec fn has_node_id(nodes: Seq<GraphNode>, id: Seq<char>) -> bool {
    exists|k: int| 0 <= k < nodes.len() && #[trigger] nodes[k].id@ == id
}

/// The graph nodes the refs point at, each once, in the order of the refs.
pub open spec fn focus_nodes_of(graph_nodes: Seq<GraphNode>, refs: Seq<ContextRef>) -> Seq<GraphNode>
    decreases refs.len(),
{
    if refs.len() == 0 {
        Seq::empty()
    } else {
        let done = focus_nodes_of(graph_nodes, refs.drop_last());
        match node_by_id(graph_nodes, refs.last().node_id@) {
            Some(n) => if has_node_id(done, n.id@) {
                done
            } else {
                done.push(n)
            },
            None => done,
        }
    }
}

/// A note for each ref whose node the graph lacks, naming the ref's given URI.
pub open spec fn node_notes(graph_nodes: Seq<GraphNode>, refs: Seq<ContextRef>, uris: Seq<Seq<char>>) -> Seq<Seq<char>>
    decreases refs.len(),
{
    if refs.len() == 0 {
        Seq::empty()
    } else {
        let done = node_notes(graph_nodes, refs.drop_last(), uris);
        if node_by_id(graph_nodes, refs.last().node_id@) is None {
            done.push("focus node unavailable for "@ + uris[refs.len() - 1])
        } else {
            done
        }
    }
}

/// The first flow with the given id.
pub open spec fn flow_by_id(flows: Seq<ContextFlow>, id: Seq<char>) -> Option<ContextFlow>
    decreases flows.len(),
{
    if flows.len() == 0 {
        None
    } else if flows[0].flow_id@ == id {
        Some(flows[0])
    } else {
        flow_by_id(flows.drop_first(), id)
    }
}

/// The ids of some flows.
pub open spec fn flow_ids(flows: Seq<ContextFlow>) -> Seq<Seq<char>> {
    flows.map_values(|f: ContextFlow| f.flow_id@)
}

/// The graph flows the refs point at, each once, in the order of the refs.
pub open spec fn focus_flows_of(graph_flows: Seq<ContextFlow>, refs: Seq<FlowRef>) -> Seq<ContextFlow>
    decreases refs.len(),
{
    if refs.len() == 0 {
        Seq::empty()
    } else {
        let done = focus_flows_of(graph_flows, refs.drop_last());
        match flow_by_id(graph_flows, refs.last().flow_id@) {
            Some(f) => if flow_ids(done).contains(f.flow_id@) {
                done
            } else {
                done.push(f)
            },
            None => done,
        }
    }
}

/// A note for each ref whose flow the graph lacks, naming the ref's given URI.
pub open spec fn flow_notes(graph_flows: Seq<ContextFlow>, refs: Seq<FlowRef>, uris: Seq<Seq<char>>) -> Seq<Seq<char>>
    decreases refs.len(),
{
    if refs.len() == 0 {
        Seq::empty()
    } else {
        let done = flow_notes(graph_flows, refs.drop_last(), uris);
        if flow_by_id(graph_flows, refs.last().flow_id@) is None {
            done.push("focus flow unavailable for "@ + uris[refs.len() - 1])
        } else {
            done
        }
    }
}

/// The related-test records of the flows the refs point at, once per ref.
pub open spec fn flow_related(graph_flows: Seq<ContextFlow>, refs: Seq<FlowRef>) -> Seq<RelatedTestRecord>
    decreases refs.len(),
{
    if refs.len() == 0 {
        Seq::empty()
    } else {
        flow_related(graph_flows, refs.drop_last()) + match flow_by_id(graph_flows, refs.last().flow_id@) {
            Some(f) => f.related_tests@,
            None => Seq::empty(),
        }
    }
}

/// The records that target one of the nodes, in order.
pub open spec fn targeting(records: Seq<RelatedTestRecord>, nodes: Seq<GraphNode>) -> Seq<RelatedTestRecord>
    decreases records.len(),
{
    if records.len() == 0 {
        Seq::empty()
    } else {
        let done = targeting(records.drop_last(), nodes);
        if has_node_id(nodes, records.last().target_node_id@) {
            done.push(records.last())
        } else {
            done
        }
    }
}

/// The first historical omissions, each marked as historical.
pub open spec fn historical_notes(omissions: Seq<Seq<char>>) -> Seq<Seq<char>> {
    let shown = if omissions.len() > HISTORICAL_OMISSIONS_SHOWN { omissions.take(HISTORICAL_OMISSIONS_SHOWN as int) } else { omissions };
    shown.map_values(|o: Seq<char>| "historical: "@ + o)
}

/// The omissions of an assembled packet, in the order they arise.
pub open spec fn packet_omissions(
    context: DiagnosticContext,
    graph: GraphSnapshot,
    refs: Seq<ContextRef>,
    flow_refs: Seq<FlowRef>,
    assertion_total: nat,
    historical: HistoricalDiagnosis,
    limits: DiagnosticLimits,
) -> Seq<Seq<char>> {
    node_notes(graph.nodes@, refs, views(context.focus_context_refs@)) + (if context.focus_context_refs@.len()
        > limits.max_context_refs {
        seq!["focus Context Refs capped at "@ + json_uint(limits.max_context_refs as nat)]
    } else {
        Seq::empty()
    }) + flow_notes(graph.flows@, flow_refs, views(context.focus_flow_refs@)) + (if context.focus_flow_refs@.len()
        > limits.max_context_refs {
        seq!["focus Flow Refs capped at "@ + json_uint(limits.max_context_refs as nat)]
    } else {
        Seq::empty()
    }) + (if assertion_total > limits.max_assertions {
        seq!["assertions capped at "@ + json_uint(limits.max_assertions as nat)]
    } else {
        Seq::empty()
    }) + (if historical.truncated {
        seq![HISTORICAL_TRUNCATED_OMISSION@]
    } else {
        Seq::empty()
    }) + historical_notes(views(historical.omissions@))
}

/// The packet assembled from a context, the current graph, the resolved focus refs, their
/// reconciliations, the context's assertions and its historical diagnosis.
pub open spec fn assembled_packet(
    r: DiagnosticPacket,
    context: DiagnosticContext,
    graph: GraphSnapshot,
    refs: Seq<ContextRef>,
    flow_refs: Seq<FlowRef>,
    reconciliations: Seq<ContextReconciliation>,
    assertions: Seq<DiagnosticAssertion>,
    historical: HistoricalDiagnosis,
    limits: DiagnosticLimits,
) -> bool {
    let nodes = focus_nodes_of(graph.nodes@, refs);
    let flows = focus_flows_of(graph.flows@, flow_refs);
    &&& r.schema_version@ == DIAGNOSTIC_PACKET_SCHEMA@
    &&& r.context == context
    &&& r.current_graph_basis.project_id == graph.project_id
    &&& r.current_graph_basis.graph_id == graph.graph_id
    &&& r.current_graph_basis.graph_version == graph.graph_version
    &&& r.current_graph_basis.source_revision == graph.source_revision
    &&& r.current_graph_basis.observation_id == graph.observation_id
    &&& r.last_known_good_basis == context.last_known_good_basis
    &&& r.last_known_good_binding is None
    &&& r.last_known_good_candidate is None
    &&& r.last_known_good_state is None
    &&& r.last_known_good_applicability is None
    &&& r.focus_context_refs@ == refs
    &&& r.focus_flow_refs@ == flow_refs
    &&& r.focus_nodes@ == nodes
    &&& r.focus_flows@.len() == flows.len()
    &&& forall|i: int| 0 <= i < flows.len() ==> same_flow(#[trigger] r.focus_flows@[i], flows[i])
    &&& related_of_records(r.related_tests, flow_related(graph.flows@, flow_refs) + targeting(graph.related_test_evidence.records@, nodes))
    &&& r.context_reconciliation@ == reconciliations
    &&& r.assertions@ == (if assertions.len() > limits.max_assertions { assertions.take(limits.max_assertions as int) } else { assertions })
    &&& r.historical == historical
    &&& views(r.limitations@) == views(historical.limitations@).push(ASSERTION_LIMITATION@)
    &&& views(r.omissions@) == packet_omissions(context, graph, refs, flow_refs, assertions.len(), historical, limits)
    &&& r.truncated == (historical.truncated || refs.len() < context.focus_context_refs@.len() || flow_refs.len()
        < context.focus_flow_refs@.len() || assertions.len() > limits.max_assertions || r.related_tests.truncated
        || exists|k: int| 0 <= k < reconciliations.len() && #[trigger] reconciliations[k].truncated)
}

fn contains_node_id(nodes: &Vec<GraphNode>, id: &str) -> (r: bool)
    ensures
        r == has_node_id(nodes@, id@),
{
    let mut k: usize = 0;
    while k < nodes.len()
        invariant
            k <= nodes@.len(),
            forall|m: int| 0 <= m < k ==> #[trigger] nodes@[m].id@ != id@,
        decreases nodes@.len() - k,
    {
        if str_eq(nodes[k].id.as_str(), id) {
            return true;
        }
        k = k + 1;
    }
    false
}

fn contains_flow_id(flows: &Vec<ContextFlow>, id: &str) -> (r: bool)
    ensures
        r == flow_ids(flows@).contains(id@),
{
    let mut k: usize = 0;
    while k < flows.len()
        invariant
            k <= flows@.len(),
            forall|m: int| 0 <= m < k ==> #[trigger] flows@[m].flow_id@ != id@,
        decreases flows@.len() - k,
    {
        if str_eq(flows[k].flow_id.as_str(), id) {
            assert(flow_ids(flows@)[k as int] == id@);
            return true;
        }
        k = k + 1;
    }
    assert forall|m: int| 0 <= m < flow_ids(flows@).len() implies flow_ids(flows@)[m] != id@ by {
        assert(flow_ids(flows@)[m] == flows@[m].flow_id@);
    }
    false
}

fn find_flow<'a>(flows: &'a [ContextFlow], id: &str) -> (r: Option<&'a ContextFlow>)
    ensures
        match r {
            Some(f) => flow_by_id(flows@, id@) == Some(*f),
            None => flow_by_id(flows@, id@) is None,
        },
{
    let mut i: usize = 0;
    assert(flows@.skip(0) =~= flows@);
    while i < flows.len()
        invariant
            i <= flows@.len(),
            flow_by_id(flows@, id@) == flow_by_id(flows@.skip(i as int), id@),
        decreases flows@.len() - i,
    {
        assert(flows@.skip(i as int)[0] == flows@[i as int]);
        assert(flows@.skip(i as int).drop_first() =~= flows@.skip(i as int + 1));
        if str_eq(flows[i].flow_id.as_str(), id) {
            return Some(&flows[i]);
        }
        i = i + 1;
    }
    None
}

fn focus_node_part(graph: &GraphSnapshot, refs: &Vec<ContextRef>, uris: &Vec<String>) -> (r: (Vec<GraphNode>, Vec<String>))
    requires
        refs@.len() <= uris@.len(),
    ensures
        r.0@ == focus_nodes_of(graph.nodes@, refs@),
        views(r.1@) == node_notes(graph.nodes@, refs@, views(uris@)),
{
    let mut nodes: Vec<GraphNode> = Vec::new();
    let mut notes: Vec<String> = Vec::new();
    let mut i: usize = 0;
    while i < refs.len()
        invariant
            i <= refs@.len(),
            refs@.len() <= uris@.len(),
            nodes@ == focus_nodes_of(graph.nodes@, refs@.take(i as int)),
            views(notes@) == node_notes(graph.nodes@, refs@.take(i as int), views(uris@)),
        decreases refs@.len() - i,
    {
        assert(refs@.take(i as int + 1).drop_last() =~= refs@.take(i as int));
        assert(refs@.take(i as int + 1).last() == refs@[i as int]);
        match find_node(graph.nodes.as_slice(), refs[i].node_id.as_str()) {
            Some(n) => {
                if !contains_node_id(&nodes, n.id.as_str()) {
                    nodes.push(n.clone());
                }
            },
            None => {
                let mut o = "focus node unavailable for ".to_string();
                o.append(uris[i].as_str());
                let ghost before = views(notes@);
                notes.push(o);
                assert(views(notes@) =~= before.push("focus node unavailable for "@ + views(uris@)[i as int]));
            },
        }
        i = i + 1;
    }
    assert(refs@.take(refs@.len() as int) =~= refs@);
    (nodes, notes)
}

fn focus_flow_part(graph: &GraphSnapshot, refs: &Vec<FlowRef>, uris: &Vec<String>) -> (r: (Vec<ContextFlow>, Vec<String>, Vec<RelatedTestRecord>))
    requires
        refs@.len() <= uris@.len(),
    ensures
        r.0@.len() == focus_flows_of(graph.flows@, refs@).len(),
        forall|k: int| 0 <= k < r.0@.len() ==> same_flow(#[trigger] r.0@[k], focus_flows_of(graph.flows@, refs@)[k]),
        views(r.1@) == flow_notes(graph.flows@, refs@, views(uris@)),
        r.2@ == flow_related(graph.flows@, refs@),
{
    let mut flows: Vec<ContextFlow> = Vec::new();
    let mut notes: Vec<String> = Vec::new();
    let mut related: Vec<RelatedTestRecord> = Vec::new();
    let mut i: usize = 0;
    while i < refs.len()
        invariant
            i <= refs@.len(),
            refs@.len() <= uris@.len(),
            flows@.len() == focus_flows_of(graph.flows@, refs@.take(i as int)).len(),
            forall|k: int| 0 <= k < flows@.len() ==> same_flow(#[trigger] flows@[k], focus_flows_of(graph.flows@, refs@.take(i as int))[k]),
            flow_ids(flows@) == flow_ids(focus_flows_of(graph.flows@, refs@.take(i as int))),
            views(notes@) == flow_notes(graph.flows@, refs@.take(i as int), views(uris@)),
            related@ == flow_related(graph.flows@, refs@.take(i as int)),
        decreases refs@.len() - i,
    {
        assert(refs@.take(i as int + 1).drop_last() =~= refs@.take(i as int));
        assert(refs@.take(i as int + 1).last() == refs@[i as int]);
        let ghost done = focus_flows_of(graph.flows@, refs@.take(i as int));
        match find_flow(graph.flows.as_slice(), refs[i].flow_id.as_str()) {
            Some(f) => {
                if !contains_flow_id(&flows, f.flow_id.as_str()) {
                    let c = f.clone();
                    let ghost before = flows@;
                    flows.push(c);
                    assert(flow_ids(flows@) =~= flow_ids(before).push(f.flow_id@));
                    assert(flow_ids(done.push(*f)) =~= flow_ids(done).push(f.flow_id@));
                }
                let ghost start = related@;
                let mut j: usize = 0;
                while j < f.related_tests.len()
                    invariant
                        j <= f.related_tests@.len(),
                        related@ == start + f.related_tests@.take(j as int),
                    decreases f.related_tests@.len() - j,
                {
                    related.push(f.related_tests[j].clone());
                    assert(related@ =~= start + f.related_tests@.take(j as int + 1));
                    j = j + 1;
                }
                assert(f.related_tests@.take(f.related_tests@.len() as int) =~= f.related_tests@);
            },
            None => {
                let mut o = "focus flow unavailable for ".to_string();
                o.append(uris[i].as_str());
                let ghost before = views(notes@);
                notes.push(o);
                assert(views(notes@) =~= before.push("focus flow unavailable for "@ + views(uris@)[i as int]));
                assert(related@ =~= flow_related(graph.flows@, refs@.take(i as int + 1)));
            },
        }
        i = i + 1;
    }
    assert(refs@.take(refs@.len() as int) =~= refs@);
    (flows, notes, related)
}

fn push_targeting(records: &Vec<RelatedTestRecord>, nodes: &Vec<GraphNode>, found: &mut Vec<RelatedTestRecord>)
    ensures
        final(found)@ == old(found)@ + targeting(records@, nodes@),
{
    let ghost start = found@;
    let mut i: usize = 0;
    while i < records.len()
        invariant
            i <= records@.len(),
            found@ == start + targeting(records@.take(i as int), nodes@),
        decreases records@.len() - i,
    {
        assert(records@.take(i as int + 1).drop_last() =~= records@.take(i as int));
        assert(records@.take(i as int + 1).last() == records@[i as int]);
        if contains_node_id(nodes, records[i].target_node_id.as_str()) {
            let ghost before = found@;
            found.push(records[i].clone());
            assert(found@ =~= start + targeting(records@.take(i as int), nodes@).push(records@[i as int]));
        }
        i = i + 1;
    }
    assert(records@.take(records@.len() as int) =~= records@);
}

fn any_truncated(items: &Vec<ContextReconciliation>) -> (r: bool)
    ensures
        r == exists|k: int| 0 <= k < items@.len() && #[trigger] items@[k].truncated,
{
    let mut k: usize = 0;
    while k < items.len()
        invariant
            k <= items@.len(),
            forall|m: int| 0 <= m < k ==> !#[trigger] items@[m].truncated,
        decreases items@.len() - k,
    {
        if items[k].truncated {
            return true;
        }
        k = k + 1;
    }
    false
}

#[verifier::spinoff_prover]
#[verifier::rlimit(60)]
fn packet_notes(
    context: &DiagnosticContext,
    graph: &GraphSnapshot,
    context_refs: &Vec<ContextRef>,
    flow_refs: &Vec<FlowRef>,
    node_notes_found: Vec<String>,
    flow_notes_found: Vec<String>,
    assertion_total: usize,
    historical: &HistoricalDiagnosis,
    limits: &DiagnosticLimits,
) -> (omissions: Vec<String>)
    requires
        views(node_notes_found@) == node_notes(graph.nodes@, context_refs@, views(context.focus_context_refs@)),
        views(flow_notes_found@) == flow_notes(graph.flows@, flow_refs@, views(context.focus_flow_refs@)),
    ensures
        views(omissions@) == packet_omissions(*context, *graph, context_refs@, flow_refs@, assertion_total as nat, *historical, *limits),
{
    let mut omissions = node_notes_found;
    let ghost o1 = views(omissions@);
    if context.focus_context_refs.len() > limits.max_context_refs {
        let mut o = "focus Context Refs capped at ".to_string();
        push_json_uint(&mut o, limits.max_context_refs as u64);
        omissions.push(o);
        assert(views(omissions@) =~= o1.push("focus Context Refs capped at "@ + json_uint(limits.max_context_refs as nat)));
    }
    let ghost o2 = views(omissions@);
    let mut flow_notes_moved = flow_notes_found;
    let ghost fnv = views(flow_notes_moved@);
    omissions.append(&mut flow_notes_moved);
    assert(views(omissions@) =~= o2 + fnv);
    let ghost o2b = views(omissions@);
    if context.focus_flow_refs.len() > limits.max_context_refs {
        let mut o = "focus Flow Refs capped at ".to_string();
        push_json_uint(&mut o, limits.max_context_refs as u64);
        omissions.push(o);
        assert(views(omissions@) =~= o2b.push("focus Flow Refs capped at "@ + json_uint(limits.max_context_refs as nat)));
    }
    let ghost o3 = views(omissions@);
    if assertion_total > limits.max_assertions {
        let mut o = "assertions capped at ".to_string();
        push_json_uint(&mut o, limits.max_assertions as u64);
        omissions.push(o);
        assert(views(omissions@) =~= o3.push("assertions capped at "@ + json_uint(limits.max_assertions as nat)));
    }
    let ghost o3b = views(omissions@);
    if historical.truncated {
        omissions.push(HISTORICAL_TRUNCATED_OMISSION.to_string());
        assert(views(omissions@) =~= o3b.push(HISTORICAL_TRUNCATED_OMISSION@));
    }
    let ghost o4 = views(omissions@);
    let shown = if historical.omissions.len() > HISTORICAL_OMISSIONS_SHOWN {
        HISTORICAL_OMISSIONS_SHOWN
    } else {
        historical.omissions.len()
    };
    let mut j: usize = 0;
    while j < shown
        invariant
            j <= shown,
            shown <= historical.omissions@.len(),
            views(omissions@) == o4 + views(historical.omissions@).take(j as int).map_values(|o: Seq<char>| "historical: "@ + o),
        decreases shown - j,
    {
        let mut o = "historical: ".to_string();
        o.append(historical.omissions[j].as_str());
        let ghost before = views(omissions@);
        omissions.push(o);
        assert(views(omissions@) =~= before.push("historical: "@ + historical.omissions@[j as int]@));
        assert(views(historical.omissions@).take(j as int + 1).map_values(|o: Seq<char>| "historical: "@ + o) =~= views(
            historical.omissions@,
        ).take(j as int).map_values(|o: Seq<char>| "historical: "@ + o).push("historical: "@ + historical.omissions@[j as int]@));
        j = j + 1;
    }
    proof {
        let hs = views(historical.omissions@);
        let shown_seq = if hs.len() > HISTORICAL_OMISSIONS_SHOWN { hs.take(HISTORICAL_OMISSIONS_SHOWN as int) } else { hs };
        assert(hs.take(shown as int) =~= shown_seq);
        assert(o1 == node_notes(graph.nodes@, context_refs@, views(context.focus_context_refs@)));
        assert(fnv == flow_notes(graph.flows@, flow_refs@, views(context.focus_flow_refs@)));
        assert(views(omissions@) =~= packet_omissions(
            *context,
            *graph,
            context_refs@,
            flow_refs@,
            assertion_total as nat,
            *historical,
            *limits,
        ));
    }
    omissions
}

/// A diagnostic packet from its parts: the context, the current graph, the Context Refs
/// and Flow Refs resolved from the context's first focus refs, their reconciliations, the
/// context's assertions and its historical diagnosis, bounded by the limits (before the
/// packet's byte bound is applied).
#[verifier::spinoff_prover]
#[verifier::rlimit(60)]
pub fn assemble_packet(
    context: DiagnosticContext,
    graph: &GraphSnapshot,
    context_refs: Vec<ContextRef>,
    flow_refs: Vec<FlowRef>,
    reconciliations: Vec<ContextReconciliation>,
    assertions: Vec<DiagnosticAssertion>,
    historical: HistoricalDiagnosis,
    limits: &DiagnosticLimits,
) -> (r: DiagnosticPacket)
    requires
        context_refs@.len() <= context.focus_context_refs@.len(),
        flow_refs@.len() <= context.focus_flow_refs@.len(),
    ensures
        assembled_packet(r, context, *graph, context_refs@, flow_refs@, reconciliations@, assertions@, historical, *limits),
{
    let (focus_nodes, node_notes_found) = focus_node_part(graph, &context_refs, &context.focus_context_refs);
    let (focus_flows, flow_notes_found, mut found) = focus_flow_part(graph, &flow_refs, &context.focus_flow_refs);
    let ghost flow_found = found@;
    push_targeting(&graph.related_test_evidence.records, &focus_nodes, &mut found);
    let related_tests = related_from_records(found);

    let assertion_total = assertions.len();
    let mut assertions = assertions;
    let ghost all_assertions = assertions@;
    if assertion_total > limits.max_assertions {
        assertions.truncate(limits.max_assertions);
    }
    let omissions = packet_notes(
        &context,
        graph,
        &context_refs,
        &flow_refs,
        node_notes_found,
        flow_notes_found,
        assertion_total,
        &historical,
        limits,
    );
    let mut limitations = clone_strings(&historical.limitations);
    let ghost lim0 = views(limitations@);
    limitations.push(ASSERTION_LIMITATION.to_string());
    assert(views(limitations@) =~= lim0.push(ASSERTION_LIMITATION@));
    let reconciliation_truncated = any_truncated(&reconciliations);
    let truncated = historical.truncated || context_refs.len() < context.focus_context_refs.len() || flow_refs.len()
        < context.focus_flow_refs.len() || assertion_total > limits.max_assertions || related_tests.truncated
        || reconciliation_truncated;
    let last_known_good_basis = match &context.last_known_good_basis {
        Some(b) => Some(GitBasis { revision: b.revision.clone() }),
        None => None,
    };
    let ghost limitation_view = views(limitations@);
    assert(limitation_view =~= views(historical.limitations@).push(ASSERTION_LIMITATION@));
    assert(assertions@ == (if all_assertions.len() > limits.max_assertions {
        all_assertions.take(limits.max_assertions as int)
    } else {
        all_assertions
    }));
    assert(related_of_records(related_tests, flow_related(graph.flows@, flow_refs@) + targeting(
        graph.related_test_evidence.records@,
        focus_nodes_of(graph.nodes@, context_refs@),
    )));
    let r = DiagnosticPacket {
        schema_version: DIAGNOSTIC_PACKET_SCHEMA.to_string(),
        current_graph_basis: GraphBasis {
            project_id: graph.project_id.clone(),
            graph_id: graph.graph_id.clone(),
            graph_version: graph.graph_version,
            source_revision: graph.source_revision.clone(),
            observation_id: graph.observation_id.clone(),
        },
        last_known_good_basis,
        last_known_good_binding: None,
        last_known_good_candidate: None,
        last_known_good_state: None,
        last_known_good_applicability: None,
        focus_context_refs: context_refs,
        focus_flow_refs: flow_refs,
        focus_nodes,
        focus_flows,
        related_tests,
        context_reconciliation: reconciliations,
        assertions,
        historical,
        context,
        limitations,
        omissions,
        truncated,
    };
    assert(r.last_known_good_basis == r.context.last_known_good_basis);
    r
}

} // verus!
