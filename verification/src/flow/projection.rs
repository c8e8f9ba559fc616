//! One context flow: the static traversal from a resolved entry and its fingerprint.

use vstd::prelude::*;

use super::manifest::{opt_view, record_view, text_hash};
use super::related_tests::{related_view, related_views};
use super::traversal::{
    edge_view, edge_views, flow_fuel, flow_run, initial_state, node_step, step_view, step_views, traverse,
};
use crate::graph::fingerprints::{labelled_hash, nul_join_seq, nul_joined};
use crate::hashing::{blake3_hex, blake3_hex_of};
use crate::json::{
    array_text, json_array, json_bool, json_member, json_object, json_opt_string, json_string, json_uint,
    member_text, object_text, opt_string_text, push_json_uint, string_text,
};
use crate::model::flow::{ContextFlow, EntryRecord, FlowEdge, FlowStep, RelatedTestRecord};
use crate::model::graph::{GraphEdge, GraphNode};
use crate::model::CONTEXT_FLOW_SCHEMA;
use crate::order::{contains_str, sorted_unique, strictly_sorted};
use crate::text::{str_eq, views};

verus! {

broadcast use vstd::string::group_string_axioms;

/// The id of the flow of an entry of a project: `flow_` and a BLAKE3 hash.
pub open spec fn spec_flow_id(project_id: Seq<char>, kind: Seq<char>, key: Seq<char>) -> Seq<char> {
    "flow_"@ + blake3_hex(vstd::utf8::encode_utf8(nul_join_seq("flopeek-flow-v1"@, seq![project_id, kind, key])))
}

/// The stable id of the flow of an entry of a project.
pub fn flow_id(project_id: &str, kind: &str, key: &str) -> (r: String)
    ensures
        r@ == spec_flow_id(project_id@, kind@, key@),
{
    let mut parts: Vec<&str> = Vec::new();
    parts.push(project_id);
    parts.push(kind);
    parts.push(key);
    let input = nul_joined("flopeek-flow-v1", &parts);
    assert(parts@.map_values(|p: &str| p@) =~= seq![project_id@, kind@, key@]);
    labelled_hash("flow_", input.as_str())
}

/// The JSON text of an entry record.
pub open spec fn entry_json(e: (Seq<char>, Seq<char>, Option<Seq<char>>, Option<Seq<char>>, Option<Seq<char>>, Seq<char>, Seq<char>)) -> Seq<char> {
    json_object(
        seq![
            json_member("key"@, json_string(e.0)),
            json_member("kind"@, json_string(e.1)),
            json_member("runner"@, json_opt_string(e.2)),
            json_member("targetPath"@, json_opt_string(e.3)),
            json_member("targetNodeId"@, json_opt_string(e.4)),
            json_member("status"@, json_string(e.5)),
            json_member("reason"@, json_string(e.6)),
        ],
    )
}

/// The JSON text of a flow step.
pub open spec fn step_json(s: (nat, Seq<char>, Option<Seq<char>>, Option<Seq<char>>, Seq<char>, Seq<char>)) -> Seq<char> {
    json_object(
        seq![
            json_member("index"@, json_uint(s.0)),
            json_member("nodeId"@, json_string(s.1)),
            json_member("path"@, json_opt_string(s.2)),
            json_member("name"@, json_opt_string(s.3)),
            json_member("role"@, json_string(s.4)),
            json_member("evidenceFingerprint"@, json_string(s.5)),
        ],
    )
}

/// The JSON text of a traversed edge.
pub open spec fn edge_json(e: (Seq<char>, Seq<char>, Seq<char>, Seq<char>)) -> Seq<char> {
    json_object(
        seq![
            json_member("from"@, json_string(e.0)),
            json_member("to"@, json_string(e.1)),
            json_member("kind"@, json_string(e.2)),
            json_member("evidence"@, json_string(e.3)),
        ],
    )
}

/// The JSON text of a related-test record.
pub open spec fn related_json(r: (Seq<char>, Seq<char>, Seq<char>, Seq<char>, Seq<char>, Seq<char>, Seq<char>)) -> Seq<char> {
    json_object(
        seq![
            json_member("testPath"@, json_string(r.0)),
            json_member("testNodeId"@, json_string(r.1)),
            json_member("targetNodeId"@, json_string(r.2)),
            json_member("relation"@, json_string(r.3)),
            json_member("strength"@, json_string(r.4)),
            json_member("status"@, json_string(r.5)),
            json_member("reason"@, json_string(r.6)),
        ],
    )
}

/// The JSON text a flow fingerprint is hashed from: the entry, its kind, key and target,
/// the steps, traversed edges and related tests, whether it was capped and the caps hit.
pub open spec fn flow_json(
    entry: (Seq<char>, Seq<char>, Option<Seq<char>>, Option<Seq<char>>, Option<Seq<char>>, Seq<char>, Seq<char>),
    steps: Seq<(nat, Seq<char>, Option<Seq<char>>, Option<Seq<char>>, Seq<char>, Seq<char>)>,
    traversed: Seq<(Seq<char>, Seq<char>, Seq<char>, Seq<char>)>,
    related: Seq<(Seq<char>, Seq<char>, Seq<char>, Seq<char>, Seq<char>, Seq<char>, Seq<char>)>,
    truncated: bool,
    omissions: Seq<Seq<char>>,
) -> Seq<char> {
    json_array(
        seq![
            entry_json(entry),
            json_string(entry.1),
            json_string(entry.0),
            json_opt_string(entry.3),
            json_array(steps.map_values(|s| step_json(s))),
            json_array(traversed.map_values(|e| edge_json(e))),
            json_array(related.map_values(|r| related_json(r))),
            json_bool(truncated),
            json_array(omissions.map_values(|o: Seq<char>| json_string(o))),
        ],
    )
}

pub(crate) fn entry_text(e: &EntryRecord) -> (r: String)
    ensures
        r@ == entry_json(record_view(*e)),
{
    let mut m: Vec<String> = Vec::new();
    m.push(member_text("key", string_text(e.key.as_str()).as_str()));
    m.push(member_text("kind", string_text(e.kind.as_str()).as_str()));
    m.push(member_text("runner", opt_string_text(&e.runner).as_str()));
    m.push(member_text("targetPath", opt_string_text(&e.target_path).as_str()));
    m.push(member_text("targetNodeId", opt_string_text(&e.target_node_id).as_str()));
    m.push(member_text("status", string_text(e.status.as_str()).as_str()));
    m.push(member_text("reason", string_text(e.reason.as_str()).as_str()));
    assert(views(m@) =~= seq![
        json_member("key"@, json_string(e.key@)),
        json_member("kind"@, json_string(e.kind@)),
        json_member("runner"@, json_opt_string(opt_view(e.runner))),
        json_member("targetPath"@, json_opt_string(opt_view(e.target_path))),
        json_member("targetNodeId"@, json_opt_string(opt_view(e.target_node_id))),
        json_member("status"@, json_string(e.status@)),
        json_member("reason"@, json_string(e.reason@)),
    ]);
    object_text(&m)
}

fn step_text(s: &FlowStep) -> (r: String)
    ensures
        r@ == step_json(step_view(*s)),
{
    let mut index = String::new();
    push_json_uint(&mut index, s.index as u64);
    let mut m: Vec<String> = Vec::new();
    m.push(member_text("index", index.as_str()));
    m.push(member_text("nodeId", string_text(s.node_id.as_str()).as_str()));
    m.push(member_text("path", opt_string_text(&s.path).as_str()));
    m.push(member_text("name", opt_string_text(&s.name).as_str()));
    m.push(member_text("role", string_text(s.role.as_str()).as_str()));
    m.push(member_text("evidenceFingerprint", string_text(s.evidence_fingerprint.as_str()).as_str()));
    assert(views(m@) =~= seq![
        json_member("index"@, json_uint(s.index as nat)),
        json_member("nodeId"@, json_string(s.node_id@)),
        json_member("path"@, json_opt_string(opt_view(s.path))),
        json_member("name"@, json_opt_string(opt_view(s.name))),
        json_member("role"@, json_string(s.role@)),
        json_member("evidenceFingerprint"@, json_string(s.evidence_fingerprint@)),
    ]);
    object_text(&m)
}

fn edge_text(e: &FlowEdge) -> (r: String)
    ensures
        r@ == edge_json(edge_view(*e)),
{
    let mut m: Vec<String> = Vec::new();
    m.push(member_text("from", string_text(e.from.as_str()).as_str()));
    m.push(member_text("to", string_text(e.to.as_str()).as_str()));
    m.push(member_text("kind", string_text(e.kind.as_str()).as_str()));
    m.push(member_text("evidence", string_text(e.evidence.as_str()).as_str()));
    assert(views(m@) =~= seq![
        json_member("from"@, json_string(e.from@)),
        json_member("to"@, json_string(e.to@)),
        json_member("kind"@, json_string(e.kind@)),
        json_member("evidence"@, json_string(e.evidence@)),
    ]);
    object_text(&m)
}

fn related_text(r: &RelatedTestRecord) -> (t: String)
    ensures
        t@ == related_json(related_view(*r)),
{
    let mut m: Vec<String> = Vec::new();
    m.push(member_text("testPath", string_text(r.test_path.as_str()).as_str()));
    m.push(member_text("testNodeId", string_text(r.test_node_id.as_str()).as_str()));
    m.push(member_text("targetNodeId", string_text(r.target_node_id.as_str()).as_str()));
    m.push(member_text("relation", string_text(r.relation.as_str()).as_str()));
    m.push(member_text("strength", string_text(r.strength.as_str()).as_str()));
    m.push(member_text("status", string_text(r.status.as_str()).as_str()));
    m.push(member_text("reason", string_text(r.reason.as_str()).as_str()));
    assert(views(m@) =~= seq![
        json_member("testPath"@, json_string(r.test_path@)),
        json_member("testNodeId"@, json_string(r.test_node_id@)),
        json_member("targetNodeId"@, json_string(r.target_node_id@)),
        json_member("relation"@, json_string(r.relation@)),
        json_member("strength"@, json_string(r.strength@)),
        json_member("status"@, json_string(r.status@)),
        json_member("reason"@, json_string(r.reason@)),
    ]);
    object_text(&m)
}

pub(crate) fn steps_text(s: &Vec<FlowStep>) -> (r: String)
    ensures
        r@ == json_array(step_views(s@).map_values(|x| step_json(x))),
{
    let mut items: Vec<String> = Vec::new();
    let mut i: usize = 0;
    while i < s.len()
        invariant
            i <= s@.len(),
            items@.len() == i,
            forall|j: int| 0 <= j < i ==> (#[trigger] items@[j])@ == step_json(step_views(s@)[j]),
        decreases s@.len() - i,
    {
        items.push(step_text(&s[i]));
        i = i + 1;
    }
    assert(views(items@) =~= step_views(s@).map_values(|x| step_json(x)));
    array_text(&items)
}

pub(crate) fn edges_text(s: &Vec<FlowEdge>) -> (r: String)
    ensures
        r@ == json_array(edge_views(s@).map_values(|x| edge_json(x))),
{
    let mut items: Vec<String> = Vec::new();
    let mut i: usize = 0;
    while i < s.len()
        invariant
            i <= s@.len(),
            items@.len() == i,
            forall|j: int| 0 <= j < i ==> (#[trigger] items@[j])@ == edge_json(edge_views(s@)[j]),
        decreases s@.len() - i,
    {
        items.push(edge_text(&s[i]));
        i = i + 1;
    }
    assert(views(items@) =~= edge_views(s@).map_values(|x| edge_json(x)));
    array_text(&items)
}

pub(crate) fn related_list_text(s: &Vec<RelatedTestRecord>) -> (r: String)
    ensures
        r@ == json_array(related_views(s@).map_values(|x| related_json(x))),
{
    let mut items: Vec<String> = Vec::new();
    let mut i: usize = 0;
    while i < s.len()
        invariant
            i <= s@.len(),
            items@.len() == i,
            forall|j: int| 0 <= j < i ==> (#[trigger] items@[j])@ == related_json(related_views(s@)[j]),
        decreases s@.len() - i,
    {
        items.push(related_text(&s[i]));
        i = i + 1;
    }
    assert(views(items@) =~= related_views(s@).map_values(|x| related_json(x)));
    array_text(&items)
}

pub(crate) fn strings_text(s: &Vec<String>) -> (r: String)
    ensures
        r@ == json_array(views(s@).map_values(|o: Seq<char>| json_string(o))),
{
    let mut items: Vec<String> = Vec::new();
    let mut i: usize = 0;
    while i < s.len()
        invariant
            i <= s@.len(),
            items@.len() == i,
            forall|j: int| 0 <= j < i ==> (#[trigger] items@[j])@ == json_string(s@[j]@),
        decreases s@.len() - i,
    {
        items.push(string_text(s[i].as_str()));
        i = i + 1;
    }
    assert(views(items@) =~= views(s@).map_values(|o: Seq<char>| json_string(o)));
    array_text(&items)
}

/// The related-test records whose target is a step of the flow or its target, in order.
pub open spec fn related_in_flow(
    related: Seq<RelatedTestRecord>,
    step_ids: Seq<Seq<char>>,
    target: Seq<char>,
) -> Seq<RelatedTestRecord>
    decreases related.len(),
{
    if related.len() == 0 {
        Seq::empty()
    } else {
        let r = related.last();
        let rest = related_in_flow(related.drop_last(), step_ids, target);
        if step_ids.contains(r.target_node_id@) || r.target_node_id@ == target {
            rest.push(r)
        } else {
            rest
        }
    }
}

/// The step of the entry itself: its graph node when there is one, else a synthetic entry
/// node in `package.json`.
pub open spec fn entry_step(entry: (Seq<char>, Seq<char>, Option<Seq<char>>, Option<Seq<char>>, Option<Seq<char>>, Seq<char>, Seq<char>), entry_node_id: Seq<char>, nodes: Seq<GraphNode>) -> (nat, Seq<char>, Option<Seq<char>>, Option<Seq<char>>, Seq<char>, Seq<char>) {
    match super::related_tests::node_by_id(nodes, entry_node_id) {
        Some(n) => node_step(0, n, "entry"@),
        None => (0, entry_node_id, Some("package.json"@), Some(entry.1 + ":"@ + entry.0), "entry"@, Seq::empty()),
    }
}

/// The target node of an entry, or nothing.
pub open spec fn entry_target(entry: (Seq<char>, Seq<char>, Option<Seq<char>>, Option<Seq<char>>, Option<Seq<char>>, Seq<char>, Seq<char>)) -> Seq<char> {
    match entry.4 {
        Some(t) => t,
        None => Seq::empty(),
    }
}

/// The flow that statically follows calls and constructions from an entry's target.
#[verifier::opaque]
pub open spec fn projected(
    r: ContextFlow,
    flow_id: Seq<char>,
    entry: (Seq<char>, Seq<char>, Option<Seq<char>>, Option<Seq<char>>, Option<Seq<char>>, Seq<char>, Seq<char>),
    entry_node_id: Seq<char>,
    nodes: Seq<GraphNode>,
    edges: Seq<GraphEdge>,
    related: Seq<RelatedTestRecord>,
) -> bool {
    let target = entry_target(entry);
    let fin = flow_run(nodes, edges, target, initial_state(entry_step(entry, entry_node_id, nodes), target), flow_fuel());
    let kept = related_in_flow(related, fin.steps.map_values(|s: (nat, Seq<char>, Option<Seq<char>>, Option<Seq<char>>, Seq<char>, Seq<char>)| s.1), target);
    &&& r.schema_version@ == CONTEXT_FLOW_SCHEMA@
    &&& r.flow_id@ == flow_id
    &&& r.entry_node_id@ == entry_node_id
    &&& r.entry_kind@ == entry.1
    &&& r.entry_key@ == entry.0
    &&& step_views(r.steps@) == fin.steps
    &&& edge_views(r.traversed_edges@) == fin.traversed
    &&& r.related_tests@ == kept
    &&& r.fingerprint@ == text_hash(flow_json(entry, fin.steps, fin.traversed, related_views(kept), fin.truncated, fin.omissions))
    &&& r.truncated == fin.truncated
    &&& r.status@ == (if fin.truncated {
        "truncated"@
    } else {
        "complete"@
    })
    &&& strictly_sorted(views(r.omissions@))
    &&& views(r.omissions@).to_set() == fin.omissions.to_set()
    &&& views(r.limitations@) == seq![
        "static-traversal-not-execution-order"@,
        "dynamic-dispatch-and-runtime-behavior-unsupported"@,
    ]
}

fn step_node_ids(steps: &Vec<FlowStep>) -> (r: Vec<String>)
    ensures
        views(r@) == step_views(steps@).map_values(
            |s: (nat, Seq<char>, Option<Seq<char>>, Option<Seq<char>>, Seq<char>, Seq<char>)| s.1,
        ),
{
    let mut ids: Vec<String> = Vec::new();
    let mut i: usize = 0;
    while i < steps.len()
        invariant
            i <= steps@.len(),
            ids@.len() == i,
            forall|j: int| 0 <= j < i ==> (#[trigger] ids@[j])@ == steps@[j].node_id@,
        decreases steps@.len() - i,
    {
        ids.push(steps[i].node_id.clone());
        i = i + 1;
    }
    assert(views(ids@) =~= step_views(steps@).map_values(
        |s: (nat, Seq<char>, Option<Seq<char>>, Option<Seq<char>>, Seq<char>, Seq<char>)| s.1,
    ));
    ids
}

fn related_of_flow(related: &[RelatedTestRecord], step_ids: &Vec<String>, target: &String) -> (r: Vec<RelatedTestRecord>)
    ensures
        r@ == related_in_flow(related@, views(step_ids@), target@),
{
    let mut kept: Vec<RelatedTestRecord> = Vec::new();
    let mut k: usize = 0;
    while k < related.len()
        invariant
            k <= related@.len(),
            kept@ == related_in_flow(related@.take(k as int), views(step_ids@), target@),
        decreases related@.len() - k,
    {
        assert(related@.take(k as int + 1).drop_last() =~= related@.take(k as int));
        let r = &related[k];
        if contains_str(step_ids, r.target_node_id.as_str()) || str_eq(r.target_node_id.as_str(), target.as_str()) {
            kept.push(r.clone());
        }
        k = k + 1;
    }
    assert(related@.take(related@.len() as int) =~= related@);
    kept
}

fn fingerprint_text(
    entry: &EntryRecord,
    steps: &Vec<FlowStep>,
    traversed: &Vec<FlowEdge>,
    kept: &Vec<RelatedTestRecord>,
    truncated: bool,
    omissions: &Vec<String>,
) -> (r: String)
    ensures
        r@ == flow_json(record_view(*entry), step_views(steps@), edge_views(traversed@), related_views(kept@), truncated, views(omissions@)),
{
    let mut parts: Vec<String> = Vec::new();
    parts.push(entry_text(entry));
    parts.push(string_text(entry.kind.as_str()));
    parts.push(string_text(entry.key.as_str()));
    parts.push(opt_string_text(&entry.target_path));
    parts.push(steps_text(steps));
    parts.push(edges_text(traversed));
    parts.push(related_list_text(kept));
    parts.push(if truncated {
        "true".to_string()
    } else {
        "false".to_string()
    });
    parts.push(strings_text(omissions));
    assert(views(parts@) =~= seq![
        entry_json(record_view(*entry)),
        json_string(entry.kind@),
        json_string(entry.key@),
        json_opt_string(opt_view(entry.target_path)),
        json_array(step_views(steps@).map_values(|x| step_json(x))),
        json_array(edge_views(traversed@).map_values(|x| edge_json(x))),
        json_array(related_views(kept@).map_values(|x| related_json(x))),
        json_bool(truncated),
        json_array(views(omissions@).map_values(|o: Seq<char>| json_string(o))),
    ]);
    array_text(&parts)
}

/// The context flow of a resolved entry: a breadth-first walk of the call and construction
/// edges from its target, the related tests of the steps it reaches, and a fingerprint of
/// all of it.
pub fn project_flow(
    flow_id: &str,
    entry: &EntryRecord,
    entry_node_id: &str,
    nodes: &[GraphNode],
    entry_edges: &[GraphEdge],
    edges: &[GraphEdge],
    related: &[RelatedTestRecord],
) -> (r: ContextFlow)
    ensures
        projected(r, flow_id@, record_view(*entry), entry_node_id@, nodes@, edges@, related@),
{
    let target = match &entry.target_node_id {
        Some(t) => t.clone(),
        None => String::new(),
    };
    let first = match super::related_tests::find_node(nodes, entry_node_id) {
        Some(n) => FlowStep {
            index: 0,
            node_id: n.id.clone(),
            path: n.path.clone(),
            name: n.name.clone(),
            role: "entry".to_string(),
            evidence_fingerprint: n.evidence_fingerprint.clone(),
        },
        None => {
            let mut name = entry.kind.clone();
            name.append(":");
            name.append(entry.key.as_str());
            FlowStep {
                index: 0,
                node_id: entry_node_id.to_string(),
                path: Some("package.json".to_string()),
                name: Some(name),
                role: "entry".to_string(),
                evidence_fingerprint: String::new(),
            }
        },
    };
    assert(step_view(first) == entry_step(record_view(*entry), entry_node_id@, nodes@));
    let walk = traverse(first, target.as_str(), nodes, edges);
    let step_ids = step_node_ids(&walk.steps);
    let kept = related_of_flow(related, &step_ids, &target);
    let text = fingerprint_text(entry, &walk.steps, &walk.traversed, &kept, walk.truncated, &walk.omissions);
    let fingerprint = blake3_hex_of(text.as_str().as_bytes());
    let omissions = sorted_unique(walk.omissions);
    let mut limitations: Vec<String> = Vec::new();
    limitations.push("static-traversal-not-execution-order".to_string());
    limitations.push("dynamic-dispatch-and-runtime-behavior-unsupported".to_string());
    assert(views(limitations@) =~= seq![
        "static-traversal-not-execution-order"@,
        "dynamic-dispatch-and-runtime-behavior-unsupported"@,
    ]);
    let _ = entry_edges;
    let r = ContextFlow {
        schema_version: CONTEXT_FLOW_SCHEMA.to_string(),
        flow_id: flow_id.to_string(),
        entry_node_id: entry_node_id.to_string(),
        entry_kind: entry.kind.clone(),
        entry_key: entry.key.clone(),
        steps: walk.steps,
        traversed_edges: walk.traversed,
        related_tests: kept,
        fingerprint,
        status: if walk.truncated {
            "truncated".to_string()
        } else {
            "complete".to_string()
        },
        truncated: walk.truncated,
        omissions,
        limitations,
    };
    proof {
        reveal(projected);
    }
    r
}

} // verus!
