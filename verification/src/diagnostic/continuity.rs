//! How one focused node, its flows and their bounds changed between adjacent snapshots.

use vstd::prelude::*;

use super::continuity_evidence::{
    bound_path_lineage, bound_paths, change_view, changes_of, lemma_lineage_all_views, lineage_all, path_changes,
    path_lineage_candidates, relation, snapshot_basis_relations, spec_source_fingerprint, unavailable_basis_relations,
};
use super::ranking::all_file_paths;
use crate::flow::manifest::opt_view;
use crate::flow::related_tests::{find_node, node_by_id};
use crate::graph::call_edges::EdgeView;
use crate::graph::edge_order::{direct_edge_changes, edge_change_view, edge_changes_of};
use crate::graph::structure::edge_views;
use crate::model::context_basis::canonical;
use crate::model::diagnostic::GraphBasis;
use crate::model::graph::{ContextRef, GraphSnapshot};
use crate::model::schemas::HISTORICAL_CONTEXT_CONTINUITY_SCHEMA;
use crate::model::temporal::{HistoricalContextContinuity, HistoricalContinuityCounts, HistoricalPathChange};
use crate::model::temporal_delta::{EvidenceContract, ObservationBasisRelations};
use crate::json::{json_uint, push_json_uint};
use crate::model::context_basis::canonical_set;
use crate::model::diagnostic::HistoricalSnapshot;
use crate::model::flow::ContextFlow;
use crate::model::graph::GraphNode;
use crate::model::temporal::{HistoricalEdgeChange, HistoricalFlowChange, HistoricalNodeChange};
use crate::order::{lemma_strictly_sorted_unique, sorted_unique, strictly_sorted};
use crate::text::{str_eq, views};

verus! {

broadcast use vstd::string::group_string_axioms;

/// The status, fingerprint relation and reason of a focused node, from its node before
/// and after.
pub open spec fn node_status(before: Option<GraphNode>, after: Option<GraphNode>) -> (Seq<char>, Seq<char>, Seq<char>) {
    match (before, after) {
        (Some(l), Some(r)) => if l.evidence_fingerprint@ == r.evidence_fingerprint@ {
            ("retained"@, "identical"@, "node-identity-and-fingerprint-match"@)
        } else {
            ("changed"@, "changed"@, "node-fingerprint-changed"@)
        },
        (Some(_), None) => ("removed"@, "unavailable"@, "node-identity-missing"@),
        (None, Some(_)) => ("added"@, "unavailable"@, "node-added"@),
        (None, None) => ("unavailable"@, "unavailable"@, "node-identity-unavailable"@),
    }
}

/// Whether an after-node may continue a removed node: same kind as the target, the same
/// non-empty evidence fingerprint, and another id.
pub open spec fn continues(n: GraphNode, node_id: Seq<char>, kind: Option<Seq<char>>, fingerprint: Seq<char>) -> bool {
    kind == Some(n.kind@) && fingerprint.len() > 0 && n.evidence_fingerprint@ == fingerprint && n.id@ != node_id
}

/// The ids of the after-nodes that may continue a removed node, in order.
pub open spec fn continuation_ids(
    nodes: Seq<GraphNode>,
    node_id: Seq<char>,
    kind: Option<Seq<char>>,
    fingerprint: Seq<char>,
) -> Seq<Seq<char>>
    decreases nodes.len(),
{
    if nodes.len() == 0 {
        Seq::empty()
    } else {
        let done = continuation_ids(nodes.drop_last(), node_id, kind, fingerprint);
        if continues(nodes.last(), node_id, kind, fingerprint) {
            done.push(nodes.last().id@)
        } else {
            done
        }
    }
}

/// The lineage candidates of a focused node: for a removed node, the after-nodes that may
/// continue it, each once and in ascending order; none otherwise.
pub open spec fn lineage_candidates(
    node_id: Seq<char>,
    before: Option<GraphNode>,
    after: Option<GraphNode>,
    after_nodes: Seq<GraphNode>,
    kind: Option<Seq<char>>,
) -> Seq<Seq<char>> {
    match (before, after) {
        (Some(b), None) => canonical_set(continuation_ids(after_nodes, node_id, kind, b.evidence_fingerprint@)),
        _ => Seq::empty(),
    }
}

fn clone_opt_node(n: Option<&GraphNode>) -> (r: Option<GraphNode>)
    ensures
        match n {
            Some(x) => r == Some(*x),
            None => r is None,
        },
{
    match n {
        Some(x) => Some(x.clone()),
        None => None,
    }
}

/// How the focused node changed: its status, fingerprint relation, the change record
/// (none when retained), and, for a removed node, the after-nodes that may continue it.
pub fn focused_node_changes(
    node_id: &str,
    before: Option<&GraphNode>,
    after: Option<&GraphNode>,
    after_nodes: &[GraphNode],
    target_kind: Option<&str>,
) -> (r: (String, String, Vec<HistoricalNodeChange>, Vec<String>))
    ensures
        ({
            let b = match before { Some(x) => Some(*x), None => None };
            let a = match after { Some(x) => Some(*x), None => None };
            let (status, relation, reason) = node_status(b, a);
            let kind = match target_kind { Some(k) => Some(k@), None => None };
            &&& r.0@ == status
            &&& r.1@ == relation
            &&& status == "retained"@ ==> r.2@.len() == 0
            &&& status != "retained"@ ==> r.2@.len() == 1 && r.2@[0].node_id@ == node_id@ && r.2@[0].status@ == status
                && r.2@[0].before == b && r.2@[0].after == a && r.2@[0].reason@ == reason
            &&& views(r.3@) == lineage_candidates(node_id@, b, a, after_nodes@, kind)
        }),
{
    let (status, relation, reason) = match (before, after) {
        (Some(l), Some(r)) => if str_eq(l.evidence_fingerprint.as_str(), r.evidence_fingerprint.as_str()) {
            ("retained", "identical", "node-identity-and-fingerprint-match")
        } else {
            ("changed", "changed", "node-fingerprint-changed")
        },
        (Some(_), None) => ("removed", "unavailable", "node-identity-missing"),
        (None, Some(_)) => ("added", "unavailable", "node-added"),
        (None, None) => ("unavailable", "unavailable", "node-identity-unavailable"),
    };
    let mut change: Vec<HistoricalNodeChange> = Vec::new();
    if !str_eq(status, "retained") {
        change.push(
            HistoricalNodeChange {
                node_id: node_id.to_string(),
                status: status.to_string(),
                before: clone_opt_node(before),
                after: clone_opt_node(after),
                reason: reason.to_string(),
            },
        );
    }
    let ghost kind = match target_kind { Some(k) => Some(k@), None => None };
    let candidates = match (before, after) {
        (Some(b), None) => {
            let fingerprint = b.evidence_fingerprint.as_str();
            let mut ids: Vec<String> = Vec::new();
            let mut i: usize = 0;
            proof {
                reveal_strlit("");
            }
            let empty_fingerprint = str_eq(fingerprint, "");
            assert(empty_fingerprint == (fingerprint@.len() == 0)) by {
                if fingerprint@.len() == 0 {
                    assert(fingerprint@ =~= ""@);
                }
            }
            while i < after_nodes.len()
                invariant
                    i <= after_nodes@.len(),
                    empty_fingerprint == (fingerprint@.len() == 0),
                    kind == match target_kind { Some(k) => Some(k@), None => None },
                    views(ids@) == continuation_ids(after_nodes@.take(i as int), node_id@, kind, fingerprint@),
                decreases after_nodes@.len() - i,
            {
                assert(after_nodes@.take(i as int + 1).drop_last() =~= after_nodes@.take(i as int));
                let n = &after_nodes[i];
                let same_kind = match target_kind {
                    Some(k) => str_eq(n.kind.as_str(), k),
                    None => false,
                };
                if same_kind && !empty_fingerprint && str_eq(n.evidence_fingerprint.as_str(), fingerprint) && !str_eq(
                    n.id.as_str(),
                    node_id,
                ) {
                    let ghost before_ids = views(ids@);
                    ids.push(n.id.clone());
                    assert(views(ids@) =~= before_ids.push(n.id@));
                }
                i = i + 1;
            }
            assert(after_nodes@.take(after_nodes@.len() as int) =~= after_nodes@);
            let ghost joined = views(ids@);
            let r = sorted_unique(ids);
            proof {
                let u = choose|u: Seq<Seq<char>>| strictly_sorted(u) && u.to_set() == joined.to_set();
                lemma_strictly_sorted_unique(views(r@), u);
            }
            r
        },
        _ => {
            let r: Vec<String> = Vec::new();
            assert(views(r@) =~= Seq::<Seq<char>>::empty());
            r
        },
    };
    (status.to_string(), relation.to_string(), change, candidates)
}

/// Whether a flow starts at or passes through the node.
pub open spec fn touches_node(f: ContextFlow, node_id: Seq<char>) -> bool {
    f.entry_node_id@ == node_id || exists|k: int| 0 <= k < f.steps@.len() && #[trigger] f.steps@[k].node_id@ == node_id
}

/// The fingerprint of the last flow with the given id that touches the node.
pub open spec fn touching_fingerprint(flows: Seq<ContextFlow>, node_id: Seq<char>, id: Seq<char>) -> Option<Seq<char>>
    decreases flows.len(),
{
    if flows.len() == 0 {
        None
    } else if flows.last().flow_id@ == id && touches_node(flows.last(), node_id) {
        Some(flows.last().fingerprint@)
    } else {
        touching_fingerprint(flows.drop_last(), node_id, id)
    }
}

/// The ids of the flows that touch the node.
pub open spec fn touching_ids(flows: Seq<ContextFlow>, node_id: Seq<char>) -> Seq<Seq<char>>
    decreases flows.len(),
{
    if flows.len() == 0 {
        Seq::empty()
    } else {
        let done = touching_ids(flows.drop_last(), node_id);
        if touches_node(flows.last(), node_id) {
            done.push(flows.last().flow_id@)
        } else {
            done
        }
    }
}

/// The change of one touching flow: added, removed or changed, with its fingerprint on
/// each side; none when it is the same.
pub open spec fn flow_change(
    before: HistoricalSnapshot,
    after: HistoricalSnapshot,
    node_id: Seq<char>,
    id: Seq<char>,
) -> Option<(Seq<char>, Seq<char>, Option<Seq<char>>, Option<Seq<char>>)> {
    let b = touching_fingerprint(before.flows@, node_id, id);
    let a = touching_fingerprint(after.flows@, node_id, id);
    match (b, a) {
        (None, Some(_)) => Some((id, "added"@, b, a)),
        (Some(_), None) => Some((id, "removed"@, b, a)),
        (Some(x), Some(y)) => if x != y {
            Some((id, "changed"@, b, a))
        } else {
            None
        },
        (None, None) => None,
    }
}

/// The changes of the given flow ids, in order.
pub open spec fn flow_changes_of(
    before: HistoricalSnapshot,
    after: HistoricalSnapshot,
    node_id: Seq<char>,
    ids: Seq<Seq<char>>,
) -> Seq<(Seq<char>, Seq<char>, Option<Seq<char>>, Option<Seq<char>>)>
    decreases ids.len(),
{
    if ids.len() == 0 {
        Seq::empty()
    } else {
        let done = flow_changes_of(before, after, node_id, ids.drop_last());
        match flow_change(before, after, node_id, ids.last()) {
            Some(c) => done.push(c),
            None => done,
        }
    }
}

/// A flow change as its id, status and fingerprints.
pub open spec fn flow_change_view(c: HistoricalFlowChange) -> (Seq<char>, Seq<char>, Option<Seq<char>>, Option<Seq<char>>) {
    (c.flow_id@, c.status@, opt_view(c.before_fingerprint), opt_view(c.after_fingerprint))
}

fn touches_node_exec(f: &ContextFlow, node_id: &str) -> (r: bool)
    ensures
        r == touches_node(*f, node_id@),
{
    if str_eq(f.entry_node_id.as_str(), node_id) {
        return true;
    }
    let mut k: usize = 0;
    while k < f.steps.len()
        invariant
            k <= f.steps@.len(),
            forall|m: int| 0 <= m < k ==> #[trigger] f.steps@[m].node_id@ != node_id@,
        decreases f.steps@.len() - k,
    {
        if str_eq(f.steps[k].node_id.as_str(), node_id) {
            return true;
        }
        k = k + 1;
    }
    false
}

fn last_touching(flows: &Vec<ContextFlow>, node_id: &str, id: &str) -> (r: Option<String>)
    ensures
        opt_view(r) == touching_fingerprint(flows@, node_id@, id@),
{
    let mut i: usize = flows.len();
    assert(flows@.take(flows@.len() as int) =~= flows@);
    while i > 0
        invariant
            i <= flows@.len(),
            touching_fingerprint(flows@, node_id@, id@) == touching_fingerprint(flows@.take(i as int), node_id@, id@),
        decreases i,
    {
        assert(flows@.take(i as int).drop_last() =~= flows@.take(i as int - 1));
        if str_eq(flows[i - 1].flow_id.as_str(), id) && touches_node_exec(&flows[i - 1], node_id) {
            return Some(flows[i - 1].fingerprint.clone());
        }
        i = i - 1;
    }
    None
}

fn touching_flow_ids(flows: &Vec<ContextFlow>, node_id: &str, out: &mut Vec<String>)
    ensures
        views(final(out)@) == views(old(out)@) + touching_ids(flows@, node_id@),
{
    let ghost start = views(out@);
    let mut i: usize = 0;
    assert(start + touching_ids(flows@.take(0), node_id@) =~= start);
    while i < flows.len()
        invariant
            i <= flows@.len(),
            views(out@) == start + touching_ids(flows@.take(i as int), node_id@),
        decreases flows@.len() - i,
    {
        assert(flows@.take(i as int + 1).drop_last() =~= flows@.take(i as int));
        if touches_node_exec(&flows[i], node_id) {
            let ghost b = views(out@);
            out.push(flows[i].flow_id.clone());
            assert(views(out@) =~= b.push(flows@[i as int].flow_id@));
        }
        i = i + 1;
    }
    assert(flows@.take(flows@.len() as int) =~= flows@);
}

/// The flows through the focused node that were added, removed or changed between two
/// snapshots, in flow id order.
pub fn focused_flow_changes(before: &HistoricalSnapshot, after: &HistoricalSnapshot, node_id: &str) -> (r: Vec<HistoricalFlowChange>)
    ensures
        r@.map_values(|c: HistoricalFlowChange| flow_change_view(c)) == flow_changes_of(
            *before,
            *after,
            node_id@,
            canonical_set(touching_ids(before.flows@, node_id@) + touching_ids(after.flows@, node_id@)),
        ),
{
    let mut all: Vec<String> = Vec::new();
    assert(views(all@) =~= Seq::<Seq<char>>::empty());
    touching_flow_ids(&before.flows, node_id, &mut all);
    touching_flow_ids(&after.flows, node_id, &mut all);
    let ghost joined = views(all@);
    assert(joined =~= touching_ids(before.flows@, node_id@) + touching_ids(after.flows@, node_id@));
    let ids = sorted_unique(all);
    proof {
        let u = choose|u: Seq<Seq<char>>| strictly_sorted(u) && u.to_set() == joined.to_set();
        lemma_strictly_sorted_unique(views(ids@), u);
    }
    let ghost ps = views(ids@);
    let mut out: Vec<HistoricalFlowChange> = Vec::new();
    let mut i: usize = 0;
    assert(out@.map_values(|c: HistoricalFlowChange| flow_change_view(c)) =~= flow_changes_of(
        *before,
        *after,
        node_id@,
        ps.take(0),
    ));
    while i < ids.len()
        invariant
            i <= ps.len(),
            ps == views(ids@),
            out@.map_values(|c: HistoricalFlowChange| flow_change_view(c)) == flow_changes_of(
                *before,
                *after,
                node_id@,
                ps.take(i as int),
            ),
        decreases ps.len() - i,
    {
        assert(ps.take(i as int + 1).drop_last() =~= ps.take(i as int));
        let id = ids[i].as_str();
        let b = last_touching(&before.flows, node_id, id);
        let a = last_touching(&after.flows, node_id, id);
        let status: Option<&str> = match (&b, &a) {
            (None, Some(_)) => Some("added"),
            (Some(_), None) => Some("removed"),
            (Some(x), Some(y)) => if str_eq(x.as_str(), y.as_str()) {
                None
            } else {
                Some("changed")
            },
            (None, None) => None,
        };
        let ghost before_out = out@;
        match status {
            Some(s) => {
                out.push(HistoricalFlowChange { flow_id: ids[i].clone(), status: s.to_string(), before_fingerprint: b, after_fingerprint: a });
                assert(out@.map_values(|c: HistoricalFlowChange| flow_change_view(c)) =~= before_out.map_values(
                    |c: HistoricalFlowChange| flow_change_view(c),
                ).push(flow_change_view(out@.last())));
            },
            None => {},
        }
        assert(out@.map_values(|c: HistoricalFlowChange| flow_change_view(c)) =~= flow_changes_of(
            *before,
            *after,
            node_id@,
            ps.take(i as int + 1),
        ));
        i = i + 1;
    }
    assert(ps.take(ps.len() as int) =~= ps);
    out
}

/// The first `limit` node changes; when some are dropped, the result is marked truncated and
/// the cap recorded.
pub fn bound_nodes(values: Vec<HistoricalNodeChange>, limit: usize, truncated: &mut bool, omissions: &mut Vec<String>) -> (r: Vec<HistoricalNodeChange>)
    ensures
        values@.len() > limit ==> {
            &&& r@ == values@.take(limit as int)
            &&& *final(truncated)
            &&& views(final(omissions)@) == views(old(omissions)@).push("historical node changes capped at "@ + json_uint(limit as nat))
        },
        values@.len() <= limit ==> r@ == values@ && *final(truncated) == *old(truncated) && final(omissions)@
            == old(omissions)@,
{
    let mut kept = values;
    if kept.len() > limit {
        kept.truncate(limit);
        *truncated = true;
        let mut o = "historical node changes capped at ".to_string();
        push_json_uint(&mut o, limit as u64);
        let ghost before = views(omissions@);
        omissions.push(o);
        assert(views(omissions@) =~= before.push("historical node changes capped at "@ + json_uint(limit as nat)));
    }
    kept
}

/// The first `limit` edge changes; when some are dropped, the result is marked truncated and
/// the cap recorded.
pub fn bound_edges(values: Vec<HistoricalEdgeChange>, limit: usize, truncated: &mut bool, omissions: &mut Vec<String>) -> (r: Vec<HistoricalEdgeChange>)
    ensures
        values@.len() > limit ==> {
            &&& r@ == values@.take(limit as int)
            &&& *final(truncated)
            &&& views(final(omissions)@) == views(old(omissions)@).push("historical edge changes capped at "@ + json_uint(limit as nat))
        },
        values@.len() <= limit ==> r@ == values@ && *final(truncated) == *old(truncated) && final(omissions)@
            == old(omissions)@,
{
    let mut kept = values;
    if kept.len() > limit {
        kept.truncate(limit);
        *truncated = true;
        let mut o = "historical edge changes capped at ".to_string();
        push_json_uint(&mut o, limit as u64);
        let ghost before = views(omissions@);
        omissions.push(o);
        assert(views(omissions@) =~= before.push("historical edge changes capped at "@ + json_uint(limit as nat)));
    }
    kept
}

/// The first `limit` flow changes; when some are dropped, the result is marked truncated and
/// the cap recorded.
pub fn bound_flows(values: Vec<HistoricalFlowChange>, limit: usize, truncated: &mut bool, omissions: &mut Vec<String>) -> (r: Vec<HistoricalFlowChange>)
    ensures
        values@.len() > limit ==> {
            &&& r@ == values@.take(limit as int)
            &&& *final(truncated)
            &&& views(final(omissions)@) == views(old(omissions)@).push("historical flow changes capped at "@ + json_uint(limit as nat))
        },
        values@.len() <= limit ==> r@ == values@ && *final(truncated) == *old(truncated) && final(omissions)@
            == old(omissions)@,
{
    let mut kept = values;
    if kept.len() > limit {
        kept.truncate(limit);
        *truncated = true;
        let mut o = "historical flow changes capped at ".to_string();
        push_json_uint(&mut o, limit as u64);
        let ghost before = views(omissions@);
        omissions.push(o);
        assert(views(omissions@) =~= before.push("historical flow changes capped at "@ + json_uint(limit as nat)));
    }
    kept
}

} // verus!

verus! {

/// Bounds on the changes a continuity record reports.
#[derive(Debug, Clone, Copy, PartialEq, Eq)]
pub struct HistoricalContinuityLimits {
    pub max_paths: usize,
    pub max_nodes: usize,
    pub max_edges: usize,
    pub max_flows: usize,
}

/// The relation every continuity record describes.
pub const ADJACENT_RELATION: &'static str = "observed-after-adjacent-first-parent";

/// What every compared continuity record states it is not.
pub const STATIC_EVIDENCE_LIMITATION: &'static str = "Git snapshot continuity is adjacent static evidence, not runtime sequence or causality.";

/// What every compared continuity record states of its lineage candidates.
pub const LINEAGE_LIMITATION: &'static str = "Lineage candidates are not successor proof and never create automatic supersession.";

/// A record that compares nothing: the given status and reason, the reason as its only
/// limitation, and every relation and change unavailable or empty.
pub open spec fn is_unavailable_continuity(
    r: HistoricalContextContinuity,
    project_id: Seq<char>,
    uri: Seq<char>,
    status: Seq<char>,
    reason: Seq<char>,
) -> bool {
    &&& r.schema_version@ == HISTORICAL_CONTEXT_CONTINUITY_SCHEMA@
    &&& r.project_id@ == project_id
    &&& r.reference_uri@ == uri
    &&& r.status@ == status
    &&& r.reason@ == reason
    &&& r.relation@ == ADJACENT_RELATION@
    &&& r.from_revision is None
    &&& r.to_revision is None
    &&& r.origin_basis is None
    &&& r.from_basis is None
    &&& r.to_basis is None
    &&& r.basis_relations.typescript_source@ == "unavailable"@
    &&& r.basis_relations.module_resolution_exact@ == "unavailable"@
    &&& r.basis_relations.module_resolution_effective@ == "unavailable"@
    &&& r.basis_relations.entry_manifest_exact@ == "unavailable"@
    &&& r.basis_relations.entry_manifest_effective@ == "unavailable"@
    &&& r.node_status@ == "unavailable"@
    &&& r.fingerprint_relation@ == "unavailable"@
    &&& r.path_changes@.len() == 0
    &&& r.node_changes@.len() == 0
    &&& r.edge_changes@.len() == 0
    &&& r.flow_changes@.len() == 0
    &&& r.lineage_candidates@.len() == 0
    &&& r.counts.path_changes == 0
    &&& r.counts.node_changes == 0
    &&& r.counts.edge_changes == 0
    &&& r.counts.flow_changes == 0
    &&& r.counts.lineage_candidates == 0
    &&& !r.truncated
    &&& r.omissions@.len() == 0
    &&& views(r.limitations@) == seq![reason]
}

/// The continuity record that compares nothing, for the given status and reason.
pub fn continuity_unavailable(project_id: String, uri: &str, status: &str, reason: &str) -> (r: HistoricalContextContinuity)
    ensures
        is_unavailable_continuity(r, project_id@, uri@, status@, reason@),
{
    let mut limitations: Vec<String> = Vec::new();
    limitations.push(reason.to_string());
    assert(views(limitations@) =~= seq![reason@]);
    HistoricalContextContinuity {
        schema_version: HISTORICAL_CONTEXT_CONTINUITY_SCHEMA.to_string(),
        project_id,
        reference_uri: uri.to_string(),
        status: status.to_string(),
        reason: reason.to_string(),
        relation: ADJACENT_RELATION.to_string(),
        from_revision: None,
        to_revision: None,
        origin_basis: None,
        from_basis: None,
        to_basis: None,
        basis_relations: unavailable_basis_relations(),
        node_status: "unavailable".to_string(),
        fingerprint_relation: "unavailable".to_string(),
        path_changes: Vec::new(),
        node_changes: Vec::new(),
        edge_changes: Vec::new(),
        flow_changes: Vec::new(),
        lineage_candidates: Vec::new(),
        counts: HistoricalContinuityCounts {
            path_changes: 0,
            node_changes: 0,
            edge_changes: 0,
            flow_changes: 0,
            lineage_candidates: 0,
        },
        truncated: false,
        omissions: Vec::new(),
        limitations,
    }
}

/// An evidence contract as its three fields.
pub open spec fn contract_view(c: EvidenceContract) -> (Seq<char>, Seq<char>, Seq<char>) {
    (c.graph_schema_version@, c.graph_derivation_id@, c.node_fingerprint_contract@)
}

/// Why two loaded snapshots cannot be compared for the current project and repository,
/// checked in this order; none when they can.
pub open spec fn snapshots_refusal(
    project_id: Seq<char>,
    before: HistoricalSnapshot,
    after: HistoricalSnapshot,
    repository_id: Option<Seq<char>>,
) -> Option<Seq<char>> {
    if before.project_id@ != project_id || after.project_id@ != project_id {
        Some("historical-snapshot-project-mismatch"@)
    } else if repository_id is None {
        Some("historical-repository-identity-unavailable"@)
    } else if before.repository_identity_id is None || after.repository_identity_id is None {
        Some("legacy-repository-identity-unavailable"@)
    } else if opt_view(before.repository_identity_id) != repository_id || opt_view(after.repository_identity_id)
        != repository_id {
        Some("historical-repository-identity-mismatch"@)
    } else if before.evidence_contract is None || after.evidence_contract is None {
        Some("legacy-evidence-contract-unavailable"@)
    } else if contract_view(before.evidence_contract.unwrap()) != contract_view(after.evidence_contract.unwrap()) {
        Some("incompatible-evidence-contract"@)
    } else {
        None
    }
}

fn refusal_of(project_id: &str, before: &HistoricalSnapshot, after: &HistoricalSnapshot, repository_id: Option<&str>) -> (r: Option<&'static str>)
    ensures
        ({
            let id = match repository_id { Some(s) => Some(s@), None => None };
            match r {
                Some(s) => snapshots_refusal(project_id@, *before, *after, id) == Some(s@),
                None => snapshots_refusal(project_id@, *before, *after, id) is None,
            }
        }),
{
    if !str_eq(before.project_id.as_str(), project_id) || !str_eq(after.project_id.as_str(), project_id) {
        return Some("historical-snapshot-project-mismatch");
    }
    let id = match repository_id {
        Some(id) => id,
        None => return Some("historical-repository-identity-unavailable"),
    };
    let (b, a) = match (&before.repository_identity_id, &after.repository_identity_id) {
        (Some(b), Some(a)) => (b, a),
        _ => return Some("legacy-repository-identity-unavailable"),
    };
    if !str_eq(b.as_str(), id) || !str_eq(a.as_str(), id) {
        return Some("historical-repository-identity-mismatch");
    }
    let (bc, ac) = match (&before.evidence_contract, &after.evidence_contract) {
        (Some(b), Some(a)) => (b, a),
        _ => return Some("legacy-evidence-contract-unavailable"),
    };
    if !str_eq(bc.graph_schema_version.as_str(), ac.graph_schema_version.as_str()) || !str_eq(
        bc.graph_derivation_id.as_str(),
        ac.graph_derivation_id.as_str(),
    ) || !str_eq(bc.node_fingerprint_contract.as_str(), ac.node_fingerprint_contract.as_str()) {
        return Some("incompatible-evidence-contract");
    }
    None
}

/// The first `limit` items of a sequence, or all of them when there are no more.
pub open spec fn capped<A>(s: Seq<A>, limit: usize) -> Seq<A> {
    if s.len() > limit {
        s.take(limit as int)
    } else {
        s
    }
}

/// The note recorded when `len` items are capped at `limit`; none when nothing is dropped.
pub open spec fn cap_note(len: nat, limit: usize, prefix: Seq<char>) -> Seq<Seq<char>> {
    if len > limit {
        seq![prefix + json_uint(limit as nat)]
    } else {
        Seq::empty()
    }
}

/// The path changes between two snapshots, as views.
pub open spec fn path_views(before: HistoricalSnapshot, after: HistoricalSnapshot) -> Seq<(Seq<char>, Seq<char>, Option<Seq<char>>, Option<Seq<char>>)> {
    changes_of(before, after, all_file_paths(after, before))
}

/// Path change records as views.
pub open spec fn path_change_views(c: Seq<HistoricalPathChange>) -> Seq<(Seq<char>, Seq<char>, Option<Seq<char>>, Option<Seq<char>>)> {
    c.map_values(|x: HistoricalPathChange| change_view(x))
}

/// How many rename-or-copy candidates the path changes between two snapshots hold.
pub open spec fn path_lineage_total(before: HistoricalSnapshot, after: HistoricalSnapshot) -> nat {
    let c = choose|c: Seq<HistoricalPathChange>| #[trigger] path_change_views(c) == path_views(before, after);
    canonical_set(lineage_all(c, c)).len()
}

/// The status, fingerprint relation and reason of the focused node between two snapshots.
pub open spec fn focused_status(before: HistoricalSnapshot, after: HistoricalSnapshot, node_id: Seq<char>) -> (Seq<char>, Seq<char>, Seq<char>) {
    node_status(node_by_id(before.nodes@, node_id), node_by_id(after.nodes@, node_id))
}

/// How many node changes the focused node has: none when it was retained.
pub open spec fn node_total(before: HistoricalSnapshot, after: HistoricalSnapshot, node_id: Seq<char>) -> nat {
    if focused_status(before, after, node_id).0 == "retained"@ { 0 } else { 1 }
}

/// The changes of the edges at the focused node, as views.
pub open spec fn focused_edge_views(before: HistoricalSnapshot, after: HistoricalSnapshot, node_id: Seq<char>) -> Seq<(Seq<char>, EdgeView)> {
    edge_changes_of(edge_views(before.edges@), edge_views(after.edges@), node_id)
}

/// The changes of the flows through the focused node, as views.
pub open spec fn focused_flow_views(
    before: HistoricalSnapshot,
    after: HistoricalSnapshot,
    node_id: Seq<char>,
) -> Seq<(Seq<char>, Seq<char>, Option<Seq<char>>, Option<Seq<char>>)> {
    flow_changes_of(before, after, node_id, canonical_set(touching_ids(before.flows@, node_id) + touching_ids(after.flows@, node_id)))
}

/// The lineage candidates of the focused node, whose kind the current graph gives.
pub open spec fn focused_lineage(graph: GraphSnapshot, before: HistoricalSnapshot, after: HistoricalSnapshot, node_id: Seq<char>) -> Seq<Seq<char>> {
    let kind = match node_by_id(graph.nodes@, node_id) {
        Some(n) => Some(n.kind@),
        None => None,
    };
    lineage_candidates(node_id, node_by_id(before.nodes@, node_id), node_by_id(after.nodes@, node_id), after.nodes@, kind)
}

/// The notes of a compared continuity record, before they are sorted and deduplicated:
/// a truncated snapshot, then each cap that dropped something.
pub open spec fn continuity_notes(
    graph: GraphSnapshot,
    before: HistoricalSnapshot,
    after: HistoricalSnapshot,
    node_id: Seq<char>,
    limits: HistoricalContinuityLimits,
) -> Seq<Seq<char>> {
    let lineage = focused_lineage(graph, before, after, node_id);
    (if before.truncated || after.truncated { seq!["historical-snapshot-truncated"@] } else { Seq::empty() })
        + cap_note(path_views(before, after).len(), limits.max_paths, "historical path changes capped at "@)
        + cap_note(path_lineage_total(before, after), limits.max_paths, "historical path lineage candidates capped at "@)
        + cap_note(node_total(before, after, node_id), limits.max_nodes, "historical node changes capped at "@)
        + cap_note(focused_edge_views(before, after, node_id).len(), limits.max_edges, "historical edge changes capped at "@)
        + cap_note(focused_flow_views(before, after, node_id).len(), limits.max_flows, "historical flow changes capped at "@)
        + cap_note(lineage.len(), limits.max_nodes, "lineage candidates capped at "@)
        + (if limits.max_nodes == 0 && lineage.len() > 0 { seq!["lineage candidates capped at zero"@] } else { Seq::empty() })
}

/// The basis a Context Ref was minted on.
pub open spec fn reference_basis(g: GraphBasis, reference: ContextRef) -> bool {
    &&& g.project_id@ == reference.project_id@
    &&& g.graph_id@ == reference.graph_id@
    &&& g.graph_version == reference.graph_version
    &&& g.source_revision@ == reference.origin_source_revision@
    &&& g.observation_id@ == reference.origin_observation_id@
}

/// The identity, bases and relations of a compared continuity record.
pub open spec fn continuity_header(
    r: HistoricalContextContinuity,
    uri: Seq<char>,
    graph: GraphSnapshot,
    reference: ContextRef,
    from: Seq<char>,
    to: Seq<char>,
    from_basis: GraphBasis,
    to_basis: GraphBasis,
    before: HistoricalSnapshot,
    after: HistoricalSnapshot,
) -> bool {
    let current = reference.status@ == "current"@;
    &&& r.schema_version@ == HISTORICAL_CONTEXT_CONTINUITY_SCHEMA@
    &&& r.project_id@ == graph.project_id@
    &&& r.reference_uri@ == uri
    &&& r.status@ == (if current { "available"@ } else { "stale"@ })
    &&& r.reason@ == (if current { "adjacent-first-parent-snapshot-compared"@ } else { "origin-context-ref-is-stale"@ })
    &&& r.relation@ == ADJACENT_RELATION@
    &&& r.from_revision matches Some(f) && f@ == from
    &&& r.to_revision matches Some(t) && t@ == to
    &&& r.origin_basis matches Some(g) && reference_basis(g, reference)
    &&& r.from_basis == Some(from_basis)
    &&& r.to_basis == Some(to_basis)
    &&& r.basis_relations.typescript_source@ == relation(spec_source_fingerprint(before.files@), spec_source_fingerprint(after.files@))
    &&& r.basis_relations.module_resolution_exact@ == relation(before.module_resolution.exact_fingerprint@, after.module_resolution.exact_fingerprint@)
    &&& r.basis_relations.module_resolution_effective@ == relation(
        before.module_resolution.effective_fingerprint@,
        after.module_resolution.effective_fingerprint@,
    )
    &&& r.basis_relations.entry_manifest_exact@ == relation(before.entry_evidence.exact_fingerprint@, after.entry_evidence.exact_fingerprint@)
    &&& r.basis_relations.entry_manifest_effective@ == relation(
        before.entry_evidence.effective_fingerprint@,
        after.entry_evidence.effective_fingerprint@,
    )
    &&& views(r.limitations@) == seq![STATIC_EVIDENCE_LIMITATION@, LINEAGE_LIMITATION@]
}

/// The focused node's changes as the node change list reports them: one record unless
/// it was retained or the node cap is zero.
pub open spec fn node_changes_reported(
    changes: Seq<HistoricalNodeChange>,
    before: HistoricalSnapshot,
    after: HistoricalSnapshot,
    id: Seq<char>,
    max_nodes: usize,
) -> bool {
    let (status, _, reason) = focused_status(before, after, id);
    if node_total(before, after, id) > 0 && max_nodes > 0 {
        &&& changes.len() == 1
        &&& changes[0].node_id@ == id
        &&& changes[0].status@ == status
        &&& changes[0].before == node_by_id(before.nodes@, id)
        &&& changes[0].after == node_by_id(after.nodes@, id)
        &&& changes[0].reason@ == reason
    } else {
        changes.len() == 0
    }
}

/// The changes, counts and bounds of a compared continuity record.
pub open spec fn continuity_changes(
    r: HistoricalContextContinuity,
    graph: GraphSnapshot,
    reference: ContextRef,
    before: HistoricalSnapshot,
    after: HistoricalSnapshot,
    limits: HistoricalContinuityLimits,
) -> bool {
    let id = reference.node_id@;
    let notes = continuity_notes(graph, before, after, id, limits);
    &&& r.node_status@ == focused_status(before, after, id).0
    &&& r.fingerprint_relation@ == focused_status(before, after, id).1
    &&& r.path_changes@.map_values(|c: HistoricalPathChange| change_view(c)) == capped(path_views(before, after), limits.max_paths)
    &&& node_changes_reported(r.node_changes@, before, after, id, limits.max_nodes)
    &&& r.edge_changes@.map_values(|c: HistoricalEdgeChange| edge_change_view(c)) == capped(focused_edge_views(before, after, id), limits.max_edges)
    &&& r.flow_changes@.map_values(|c: HistoricalFlowChange| flow_change_view(c)) == capped(focused_flow_views(before, after, id), limits.max_flows)
    &&& views(r.lineage_candidates@) == capped(focused_lineage(graph, before, after, id), limits.max_nodes)
    &&& r.counts.path_changes == path_views(before, after).len()
    &&& r.counts.node_changes == node_total(before, after, id)
    &&& r.counts.edge_changes == focused_edge_views(before, after, id).len()
    &&& r.counts.flow_changes == focused_flow_views(before, after, id).len()
    &&& r.counts.lineage_candidates == focused_lineage(graph, before, after, id).len()
    &&& r.truncated == (notes.len() > 0)
    &&& views(r.omissions@) == canonical_set(notes)
}

/// The record of two comparable adjacent snapshots for a focused Context Ref.
pub open spec fn compared_continuity(
    r: HistoricalContextContinuity,
    uri: Seq<char>,
    graph: GraphSnapshot,
    reference: ContextRef,
    from: Seq<char>,
    to: Seq<char>,
    from_basis: GraphBasis,
    to_basis: GraphBasis,
    before: HistoricalSnapshot,
    after: HistoricalSnapshot,
    limits: HistoricalContinuityLimits,
) -> bool {
    &&& continuity_header(r, uri, graph, reference, from, to, from_basis, to_basis, before, after)
    &&& continuity_changes(r, graph, reference, before, after, limits)
}

fn path_part(
    before: &HistoricalSnapshot,
    after: &HistoricalSnapshot,
    max_paths: usize,
    truncated: &mut bool,
    omissions: &mut Vec<String>,
) -> (r: (Vec<HistoricalPathChange>, usize))
    ensures
        r.0@.map_values(|c: HistoricalPathChange| change_view(c)) == capped(path_views(*before, *after), max_paths),
        r.1 == path_views(*before, *after).len(),
        views(final(omissions)@) == views(old(omissions)@) + cap_note(
            path_views(*before, *after).len(),
            max_paths,
            "historical path changes capped at "@,
        ) + cap_note(path_lineage_total(*before, *after), max_paths, "historical path lineage candidates capped at "@),
        *final(truncated) == (*old(truncated) || path_views(*before, *after).len() > max_paths || path_lineage_total(
            *before,
            *after,
        ) > max_paths),
{
    let ghost o0 = views(omissions@);
    let all_paths = path_changes(before, after);
    let total = all_paths.len();
    let all_lineage = path_lineage_candidates(all_paths.as_slice());
    proof {
        assert(path_change_views(all_paths@) == path_views(*before, *after));
        let c = choose|c: Seq<HistoricalPathChange>| #[trigger] path_change_views(c) == path_views(*before, *after);
        lemma_lineage_all_views(c, all_paths@, c, all_paths@);
        assert(views(all_lineage@).len() == all_lineage@.len());
    }
    let paths = bound_paths(all_paths, max_paths, truncated, omissions);
    let ghost o1 = views(omissions@);
    assert(o1 =~= o0 + cap_note(total as nat, max_paths, "historical path changes capped at "@));
    let _kept = bound_path_lineage(all_lineage, max_paths, truncated, omissions);
    assert(views(omissions@) =~= o1 + cap_note(path_lineage_total(*before, *after), max_paths, "historical path lineage candidates capped at "@));
    proof {
        if total > max_paths {
            assert(paths@.map_values(|c: HistoricalPathChange| change_view(c)) =~= path_views(*before, *after).take(max_paths as int));
        }
    }
    (paths, total)
}

fn node_part(
    graph: &GraphSnapshot,
    before: &HistoricalSnapshot,
    after: &HistoricalSnapshot,
    node_id: &str,
    max_nodes: usize,
    truncated: &mut bool,
    omissions: &mut Vec<String>,
) -> (r: (String, String, Vec<HistoricalNodeChange>, usize, Vec<String>))
    ensures
        r.0@ == focused_status(*before, *after, node_id@).0,
        r.1@ == focused_status(*before, *after, node_id@).1,
        node_changes_reported(r.2@, *before, *after, node_id@, max_nodes),
        r.3 == node_total(*before, *after, node_id@),
        views(r.4@) == focused_lineage(*graph, *before, *after, node_id@),
        views(final(omissions)@) == views(old(omissions)@) + cap_note(
            node_total(*before, *after, node_id@),
            max_nodes,
            "historical node changes capped at "@,
        ),
        *final(truncated) == (*old(truncated) || node_total(*before, *after, node_id@) > max_nodes),
{
    let ghost o0 = views(omissions@);
    let focused = find_node(graph.nodes.as_slice(), node_id);
    let target_kind: Option<&str> = match focused {
        Some(n) => Some(n.kind.as_str()),
        None => None,
    };
    let before_node = find_node(before.nodes.as_slice(), node_id);
    let after_node = find_node(after.nodes.as_slice(), node_id);
    let (status, relation_text, all_nodes, lineage) = focused_node_changes(
        node_id,
        before_node,
        after_node,
        after.nodes.as_slice(),
        target_kind,
    );
    let count = all_nodes.len();
    let nodes = bound_nodes(all_nodes, max_nodes, truncated, omissions);
    assert(views(omissions@) =~= o0 + cap_note(node_total(*before, *after, node_id@), max_nodes, "historical node changes capped at "@));
    (status, relation_text, nodes, count, lineage)
}

fn edge_flow_part(
    before: &HistoricalSnapshot,
    after: &HistoricalSnapshot,
    node_id: &str,
    limits: HistoricalContinuityLimits,
    truncated: &mut bool,
    omissions: &mut Vec<String>,
) -> (r: (Vec<HistoricalEdgeChange>, usize, Vec<HistoricalFlowChange>, usize))
    ensures
        r.0@.map_values(|c: HistoricalEdgeChange| edge_change_view(c)) == capped(focused_edge_views(*before, *after, node_id@), limits.max_edges),
        r.1 == focused_edge_views(*before, *after, node_id@).len(),
        r.2@.map_values(|c: HistoricalFlowChange| flow_change_view(c)) == capped(focused_flow_views(*before, *after, node_id@), limits.max_flows),
        r.3 == focused_flow_views(*before, *after, node_id@).len(),
        views(final(omissions)@) == views(old(omissions)@) + cap_note(
            focused_edge_views(*before, *after, node_id@).len(),
            limits.max_edges,
            "historical edge changes capped at "@,
        ) + cap_note(focused_flow_views(*before, *after, node_id@).len(), limits.max_flows, "historical flow changes capped at "@),
        *final(truncated) == (*old(truncated) || focused_edge_views(*before, *after, node_id@).len() > limits.max_edges
            || focused_flow_views(*before, *after, node_id@).len() > limits.max_flows),
{
    let ghost o0 = views(omissions@);
    let all_edges = direct_edge_changes(before.edges.as_slice(), after.edges.as_slice(), node_id);
    let edge_count = all_edges.len();
    let edges = bound_edges(all_edges, limits.max_edges, truncated, omissions);
    let ghost o1 = views(omissions@);
    assert(o1 =~= o0 + cap_note(focused_edge_views(*before, *after, node_id@).len(), limits.max_edges, "historical edge changes capped at "@));
    let all_flows = focused_flow_changes(before, after, node_id);
    let flow_count = all_flows.len();
    let flows = bound_flows(all_flows, limits.max_flows, truncated, omissions);
    assert(views(omissions@) =~= o1 + cap_note(focused_flow_views(*before, *after, node_id@).len(), limits.max_flows, "historical flow changes capped at "@));
    proof {
        if edge_count > limits.max_edges {
            assert(edges@.map_values(|c: HistoricalEdgeChange| edge_change_view(c)) =~= focused_edge_views(*before, *after, node_id@).take(
                limits.max_edges as int,
            ));
        }
        if flow_count > limits.max_flows {
            assert(flows@.map_values(|c: HistoricalFlowChange| flow_change_view(c)) =~= focused_flow_views(*before, *after, node_id@).take(
                limits.max_flows as int,
            ));
        }
    }
    (edges, edge_count, flows, flow_count)
}

fn lineage_part(lineage: Vec<String>, max_nodes: usize, truncated: &mut bool, omissions: &mut Vec<String>) -> (r: Vec<String>)
    ensures
        views(r@) == capped(views(lineage@), max_nodes),
        views(final(omissions)@) == views(old(omissions)@) + cap_note(lineage@.len(), max_nodes, "lineage candidates capped at "@) + (
        if max_nodes == 0 && lineage@.len() > 0 {
            seq!["lineage candidates capped at zero"@]
        } else {
            Seq::empty()
        }),
        *final(truncated) == (*old(truncated) || lineage@.len() > max_nodes),
{
    let ghost o0 = views(omissions@);
    let ghost all = views(lineage@);
    let total = lineage.len();
    let mut kept = lineage;
    if kept.len() > max_nodes {
        kept.truncate(max_nodes);
        *truncated = true;
        let mut o = "lineage candidates capped at ".to_string();
        push_json_uint(&mut o, max_nodes as u64);
        omissions.push(o);
        assert(views(kept@) =~= all.take(max_nodes as int));
    }
    let ghost o1 = views(omissions@);
    assert(o1 =~= o0 + cap_note(all.len(), max_nodes, "lineage candidates capped at "@));
    if max_nodes == 0 && total > 0 {
        kept.clear();
        *truncated = true;
        omissions.push("lineage candidates capped at zero".to_string());
    }
    assert(views(omissions@) =~= o1 + (if max_nodes == 0 && all.len() > 0 {
        seq!["lineage candidates capped at zero"@]
    } else {
        Seq::<Seq<char>>::empty()
    }));
    assert(views(kept@) =~= capped(all, max_nodes));
    kept
}

#[verifier::spinoff_prover]
#[verifier::rlimit(60)]
fn compared(
    uri: &str,
    graph: &GraphSnapshot,
    reference: &ContextRef,
    from: &str,
    to: &str,
    from_basis: GraphBasis,
    to_basis: GraphBasis,
    before: &HistoricalSnapshot,
    after: &HistoricalSnapshot,
    limits: HistoricalContinuityLimits,
) -> (r: HistoricalContextContinuity)
    ensures
        compared_continuity(r, uri@, *graph, *reference, from@, to@, from_basis, to_basis, *before, *after, limits),
{
    let ghost id = reference.node_id@;
    let node_id = reference.node_id.as_str();
    let mut omissions: Vec<String> = Vec::new();
    let mut truncated = before.truncated || after.truncated;
    if truncated {
        omissions.push("historical-snapshot-truncated".to_string());
    }
    let ghost n0 = if before.truncated || after.truncated {
        seq!["historical-snapshot-truncated"@]
    } else {
        Seq::<Seq<char>>::empty()
    };
    assert(views(omissions@) =~= n0);
    let (paths, path_total) = path_part(before, after, limits.max_paths, &mut truncated, &mut omissions);
    let (node_status_text, node_relation, nodes, node_count, lineage) = node_part(
        graph,
        before,
        after,
        node_id,
        limits.max_nodes,
        &mut truncated,
        &mut omissions,
    );
    let (edges, edge_count, flows, flow_count) = edge_flow_part(before, after, node_id, limits, &mut truncated, &mut omissions);
    let candidate_total = lineage.len();
    let lineage = lineage_part(lineage, limits.max_nodes, &mut truncated, &mut omissions);
    proof {
        let notes = continuity_notes(*graph, *before, *after, id, limits);
        assert(views(omissions@) =~= notes);
        assert(truncated == (notes.len() > 0));
    }
    let omissions = canonical(&omissions);
    let mut limitations: Vec<String> = Vec::new();
    limitations.push(STATIC_EVIDENCE_LIMITATION.to_string());
    limitations.push(LINEAGE_LIMITATION.to_string());
    assert(views(limitations@) =~= seq![STATIC_EVIDENCE_LIMITATION@, LINEAGE_LIMITATION@]);
    let current = str_eq(reference.status.as_str(), "current");
    let r = HistoricalContextContinuity {
        schema_version: HISTORICAL_CONTEXT_CONTINUITY_SCHEMA.to_string(),
        project_id: graph.project_id.clone(),
        reference_uri: uri.to_string(),
        status: if current { "available".to_string() } else { "stale".to_string() },
        reason: if current {
            "adjacent-first-parent-snapshot-compared".to_string()
        } else {
            "origin-context-ref-is-stale".to_string()
        },
        relation: ADJACENT_RELATION.to_string(),
        from_revision: Some(from.to_string()),
        to_revision: Some(to.to_string()),
        origin_basis: Some(
            GraphBasis {
                project_id: reference.project_id.clone(),
                graph_id: reference.graph_id.clone(),
                graph_version: reference.graph_version,
                source_revision: reference.origin_source_revision.clone(),
                observation_id: reference.origin_observation_id.clone(),
            },
        ),
        from_basis: Some(from_basis),
        to_basis: Some(to_basis),
        basis_relations: snapshot_basis_relations(before, after),
        node_status: node_status_text,
        fingerprint_relation: node_relation,
        path_changes: paths,
        node_changes: nodes,
        edge_changes: edges,
        flow_changes: flows,
        lineage_candidates: lineage,
        counts: HistoricalContinuityCounts {
            path_changes: path_total,
            node_changes: node_count,
            edge_changes: edge_count,
            flow_changes: flow_count,
            lineage_candidates: candidate_total,
        },
        truncated,
        omissions,
        limitations,
    };
    assert(continuity_header(r, uri@, *graph, *reference, from@, to@, from_basis, to_basis, *before, *after));
    assert(continuity_changes(r, *graph, *reference, *before, *after, limits));
    r
}

/// The continuity of a focused Context Ref between two loaded adjacent snapshots: the
/// record that compares nothing when the snapshots belong to another project, lack or
/// disagree on the repository identity, or lack or disagree on the evidence contract;
/// otherwise the path, node, edge, flow and lineage changes at the focused node, each
/// capped by the limits, with the snapshots' bases and relations.
pub fn continuity_from_snapshots(
    uri: &str,
    graph: &GraphSnapshot,
    reference: &ContextRef,
    repository_id: Option<&str>,
    from: &str,
    to: &str,
    from_basis: GraphBasis,
    to_basis: GraphBasis,
    before: &HistoricalSnapshot,
    after: &HistoricalSnapshot,
    limits: HistoricalContinuityLimits,
) -> (r: HistoricalContextContinuity)
    ensures
        match snapshots_refusal(
            graph.project_id@,
            *before,
            *after,
            match repository_id {
                Some(s) => Some(s@),
                None => None,
            },
        ) {
            Some(reason) => is_unavailable_continuity(r, graph.project_id@, uri@, "unavailable"@, reason),
            None => compared_continuity(r, uri@, *graph, *reference, from@, to@, from_basis, to_basis, *before, *after, limits),
        },
{
    match refusal_of(graph.project_id.as_str(), before, after, repository_id) {
        Some(reason) => continuity_unavailable(graph.project_id.clone(), uri, "unavailable", reason),
        None => compared(uri, graph, reference, from, to, from_basis, to_basis, before, after, limits),
    }
}


/// The record that compares nothing before any snapshot is read: when the Context Ref
/// belongs to another project than the current graph, or the working tree is dirty.
/// `None` when the range may be resolved.
pub fn continuity_precheck(project_id: &str, uri: &str, reference_project: &str, dirty: bool) -> (r: Option<
    HistoricalContextContinuity,
>)
    ensures
        reference_project@ != project_id@ ==> (r matches Some(c) && is_unavailable_continuity(
            c,
            project_id@,
            uri@,
            "wrong-project"@,
            "context-ref-project-does-not-match-current-repository"@,
        )),
        reference_project@ == project_id@ && dirty ==> (r matches Some(c) && is_unavailable_continuity(
            c,
            project_id@,
            uri@,
            "unavailable"@,
            "historical-continuity-unavailable-for-dirty-source"@,
        )),
        reference_project@ == project_id@ && !dirty ==> r is None,
{
    if !str_eq(reference_project, project_id) {
        return Some(
            continuity_unavailable(
                project_id.to_string(),
                uri,
                "wrong-project",
                "context-ref-project-does-not-match-current-repository",
            ),
        );
    }
    if dirty {
        return Some(
            continuity_unavailable(project_id.to_string(), uri, "unavailable", "historical-continuity-unavailable-for-dirty-source"),
        );
    }
    None
}

/// The adjacent range to compare, ending at the resolved `to`: from the requested revision
/// when one was given, else from the first parent of `to`. Refused with the record that
/// compares nothing when `to` has no first parent to start from, or when the requested
/// revision is not that first parent (the record then names both revisions).
pub fn continuity_range(
    project_id: &str,
    uri: &str,
    to: &str,
    direct_parent: Option<&str>,
    requested_from: Option<&str>,
) -> (r: Result<(String, String), HistoricalContextContinuity>)
    ensures
        ({
            let parent = match direct_parent { Some(p) => Some(p@), None => None };
            let from = match requested_from { Some(f) => Some(f@), None => parent };
            match from {
                None => r matches Err(c) && is_unavailable_continuity(
                    c,
                    project_id@,
                    uri@,
                    "unavailable"@,
                    "predecessor-revision-unavailable"@,
                ),
                Some(f) => if requested_from is Some && parent != Some(f) {
                    r matches Err(c) && opt_view(c.from_revision) == Some(f) && opt_view(c.to_revision) == Some(to@)
                        && is_unavailable_continuity(
                        HistoricalContextContinuity { from_revision: None, to_revision: None, ..c },
                        project_id@,
                        uri@,
                        "unavailable"@,
                        "non-adjacent-first-parent-range"@,
                    )
                } else {
                    r matches Ok((x, t)) && x@ == f && t@ == to@
                },
            }
        }),
{
    let from = match requested_from {
        Some(f) => f,
        None => match direct_parent {
            Some(p) => p,
            None => {
                return Err(continuity_unavailable(project_id.to_string(), uri, "unavailable", "predecessor-revision-unavailable"));
            },
        },
    };
    let adjacent = match direct_parent {
        Some(p) => str_eq(p, from),
        None => false,
    };
    if requested_from.is_some() && !adjacent {
        let mut c = continuity_unavailable(project_id.to_string(), uri, "unavailable", "non-adjacent-first-parent-range");
        c.from_revision = Some(from.to_string());
        c.to_revision = Some(to.to_string());
        return Err(c);
    }
    Ok((from.to_string(), to.to_string()))
}

/// The continuity of a focused Context Ref: the record that compares nothing when the Ref
/// belongs to another project, the tree is dirty, `to` has no predecessor or the requested
/// revision is not its first parent; otherwise the comparison of the snapshots of the
/// range's two revisions.
pub fn historical_continuity(
    uri: &str,
    graph: &GraphSnapshot,
    reference: &ContextRef,
    dirty: bool,
    repository_id: Option<&str>,
    to: &str,
    direct_parent: Option<&str>,
    requested_from: Option<&str>,
    from_basis: GraphBasis,
    to_basis: GraphBasis,
    before: &HistoricalSnapshot,
    after: &HistoricalSnapshot,
    limits: HistoricalContinuityLimits,
) -> (r: HistoricalContextContinuity)
    ensures
        ({
            let parent = match direct_parent { Some(p) => Some(p@), None => None };
            let from = match requested_from { Some(f) => Some(f@), None => parent };
            if reference.project_id@ != graph.project_id@ {
                is_unavailable_continuity(r, graph.project_id@, uri@, "wrong-project"@, "context-ref-project-does-not-match-current-repository"@)
            } else if dirty {
                is_unavailable_continuity(r, graph.project_id@, uri@, "unavailable"@, "historical-continuity-unavailable-for-dirty-source"@)
            } else if from is None {
                is_unavailable_continuity(r, graph.project_id@, uri@, "unavailable"@, "predecessor-revision-unavailable"@)
            } else if requested_from is Some && parent != from {
                &&& opt_view(r.from_revision) == from
                &&& opt_view(r.to_revision) == Some(to@)
                &&& is_unavailable_continuity(
                    HistoricalContextContinuity { from_revision: None, to_revision: None, ..r },
                    graph.project_id@,
                    uri@,
                    "unavailable"@,
                    "non-adjacent-first-parent-range"@,
                )
            } else {
                match snapshots_refusal(graph.project_id@, *before, *after, match repository_id {
                    Some(s) => Some(s@),
                    None => None,
                }) {
                    Some(reason) => is_unavailable_continuity(r, graph.project_id@, uri@, "unavailable"@, reason),
                    None => compared_continuity(r, uri@, *graph, *reference, from.unwrap(), to@, from_basis, to_basis, *before, *after, limits),
                }
            }
        }),
{
    match continuity_precheck(graph.project_id.as_str(), uri, reference.project_id.as_str(), dirty) {
        Some(c) => return c,
        None => {},
    }
    match continuity_range(graph.project_id.as_str(), uri, to, direct_parent, requested_from) {
        Err(c) => c,
        Ok((from, to_rev)) => continuity_from_snapshots(
            uri,
            graph,
            reference,
            repository_id,
            from.as_str(),
            to_rev.as_str(),
            from_basis,
            to_basis,
            before,
            after,
            limits,
        ),
    }
}

} // verus!
