//! Entry evidence, entry nodes and context flows of one observation.

use vstd::prelude::*;

use super::manifest::{
    dedup_entries, dedup_seq, has_file, is_file, manifest_evidence, opt_view, parse_manifest,
    record_view, record_views, sort_entries, view_sort, ManifestJson,
};
use super::projection::{flow_id, project_flow, projected, spec_flow_id};
use super::package_json::{manifest_json, manifest_read};
use super::related_tests::{derive_related_tests, related_evidence};
use crate::graph::fingerprints::{node_id, spec_node_id};
use crate::model::flow::{ContextFlow, EntryEvidence, EntryRecord, RelatedTestEvidence};
use crate::model::graph::{GraphEdge, GraphNode};
use crate::model::schemas::SourceFile;
use crate::order::{contains_str, sorted_unique, str_less, str_lt, strictly_sorted};
use crate::text::{str_eq, views};

verus! {

broadcast use vstd::string::group_string_axioms;

/// The most entry records one observation keeps.
pub const MAX_ENTRY_RECORDS: usize = 1000;

/// The most flows one observation keeps.
pub const MAX_FLOWS: usize = 1000;

/// The most Flow Refs one request names.
pub const MAX_FLOW_REFS: usize = 256;

/// The omission reported when entry records are capped.
pub const ENTRY_RECORDS_CAPPED: &'static str = "entry records capped at 1000";

/// The omission reported when flows are capped.
pub const FLOWS_CAPPED: &'static str = "flows capped at 1000";

/// Entry evidence, entry nodes and edges, related tests and flows of one observation.
#[derive(Debug)]
pub struct FlowDerivation {
    pub entry_evidence: EntryEvidence,
    pub related_test_evidence: RelatedTestEvidence,
    pub flows: Vec<ContextFlow>,
    pub entry_nodes: Vec<GraphNode>,
    pub entry_edges: Vec<GraphEdge>,
    pub truncated: bool,
    pub omissions: Vec<String>,
}

/// The plain values of an entry record.
pub type RecordView = (Seq<char>, Seq<char>, Option<Seq<char>>, Option<Seq<char>>, Option<Seq<char>>, Seq<char>, Seq<char>);

/// The name of the entry node of a record: its kind and key.
pub open spec fn entry_name(r: RecordView) -> Seq<char> {
    r.1 + ":"@ + r.0
}

/// The id of the entry node of a record.
pub open spec fn entry_node_id(r: RecordView) -> Seq<char> {
    spec_node_id("entry"@, "package.json"@, entry_name(r))
}

/// A resolved record bound to the scanned file it targets, or refused when it names no
/// target or one that was not scanned.
pub open spec fn attach_target(r: RecordView, files: Seq<SourceFile>) -> RecordView {
    if r.5 != "resolved"@ {
        r
    } else {
        match r.3 {
            None => (r.0, r.1, r.2, r.3, r.4, "unresolved"@, "missing-entry-target"@),
            Some(p) => if !is_file(files, p) {
                (r.0, r.1, r.2, r.3, r.4, "unresolved"@, "entry-target-not-scanned"@)
            } else {
                (r.0, r.1, r.2, r.3, Some(spec_node_id("file"@, p, Seq::empty())), r.5, r.6)
            },
        }
    }
}

/// The plain values of a graph node.
pub open spec fn node_view(n: GraphNode) -> (Seq<char>, Seq<char>, Option<Seq<char>>, Option<Seq<char>>, Option<Seq<char>>, Seq<char>) {
    (n.id@, n.kind@, opt_view(n.path), opt_view(n.name), opt_view(n.language), n.evidence_fingerprint@)
}

/// The plain values of a graph edge.
pub open spec fn edge_view(e: GraphEdge) -> (Seq<char>, Seq<char>, Seq<char>, Seq<char>) {
    (e.from@, e.to@, e.kind@, e.evidence@)
}

/// The entry node of a record.
pub open spec fn entry_node(r: RecordView) -> (Seq<char>, Seq<char>, Option<Seq<char>>, Option<Seq<char>>, Option<Seq<char>>, Seq<char>) {
    (entry_node_id(r), "entry"@, Some("package.json"@), Some(entry_name(r)), None, Seq::empty())
}

/// The entry nodes of the resolved records, each id once, in order.
pub open spec fn entry_nodes_of(rs: Seq<RecordView>) -> Seq<(Seq<char>, Seq<char>, Option<Seq<char>>, Option<Seq<char>>, Option<Seq<char>>, Seq<char>)>
    decreases rs.len(),
{
    if rs.len() == 0 {
        Seq::empty()
    } else {
        let prev = entry_nodes_of(rs.drop_last());
        let r = rs.last();
        if r.5 == "resolved"@ && !prev.map_values(|n: (Seq<char>, Seq<char>, Option<Seq<char>>, Option<Seq<char>>, Option<Seq<char>>, Seq<char>)| n.0).contains(entry_node_id(r)) {
            prev.push(entry_node(r))
        } else {
            prev
        }
    }
}

/// The edge from each resolved record's entry node to its target file, in order.
pub open spec fn entry_edges_of(rs: Seq<RecordView>) -> Seq<(Seq<char>, Seq<char>, Seq<char>, Seq<char>)>
    decreases rs.len(),
{
    if rs.len() == 0 {
        Seq::empty()
    } else {
        let prev = entry_edges_of(rs.drop_last());
        let r = rs.last();
        if r.5 == "resolved"@ {
            prev.push((entry_node_id(r), r.4.unwrap(), "entry-targets"@, "package-json-entry"@))
        } else {
            prev
        }
    }
}

/// The records that resolved to a target node, in order.
pub open spec fn flow_records(rs: Seq<RecordView>) -> Seq<RecordView>
    decreases rs.len(),
{
    if rs.len() == 0 {
        Seq::empty()
    } else {
        let prev = flow_records(rs.drop_last());
        let r = rs.last();
        if r.5 == "resolved"@ && r.4 is Some {
            prev.push(r)
        } else {
            prev
        }
    }
}

/// At most `n` of `s`.
pub open spec fn capped_take<T>(s: Seq<T>, n: nat) -> Seq<T> {
    if s.len() > n {
        s.take(n as int)
    } else {
        s
    }
}

/// The omissions of the flows that were capped, in order.
pub open spec fn flow_omissions(flows: Seq<ContextFlow>) -> Seq<Seq<char>>
    decreases flows.len(),
{
    if flows.len() == 0 {
        Seq::empty()
    } else {
        let prev = flow_omissions(flows.drop_last());
        if flows.last().truncated {
            prev + views(flows.last().omissions@)
        } else {
            prev
        }
    }
}

/// Ordered by flow id.
pub open spec fn flows_sorted(s: Seq<ContextFlow>) -> bool {
    forall|i: int, j: int| 0 <= i < j < s.len() ==> !str_lt(#[trigger] s[j].flow_id@, #[trigger] s[i].flow_id@)
}

/// What deriving entry, flow and related-test evidence yields.
pub open spec fn derived(
    d: FlowDerivation,
    bytes: Option<Seq<u8>>,
    parsed: ManifestJson,
    project_id: Seq<char>,
    files: Seq<SourceFile>,
    nodes: Seq<GraphNode>,
    edges: Seq<GraphEdge>,
) -> bool {
    exists|e0: EntryEvidence, unsorted: Seq<ContextFlow>|
        #[trigger] derived_from(d, e0, unsorted, bytes, parsed, project_id, files, nodes, edges)
}

/// What deriving yields, given the entry evidence `e0` read from the manifest and the
/// flows `unsorted` projected from the chosen entries, before they are ordered.
#[verifier::opaque]
pub open spec fn derived_from(
    d: FlowDerivation,
    e0: EntryEvidence,
    unsorted: Seq<ContextFlow>,
    bytes: Option<Seq<u8>>,
    parsed: ManifestJson,
    project_id: Seq<char>,
    files: Seq<SourceFile>,
    nodes: Seq<GraphNode>,
    edges: Seq<GraphEdge>,
) -> bool {
    {
        let base = view_sort(record_views(e0.records@), false);
        let unique = dedup_seq(base);
        let entry_capped = unique.len() > MAX_ENTRY_RECORDS;
        let attached = capped_take(unique, MAX_ENTRY_RECORDS as nat).map_values(|r: RecordView| attach_target(r, files));
        let final_records = dedup_seq(view_sort(attached, true));
        let candidates = view_sort(flow_records(final_records), false);
        let flows_capped = candidates.len() > MAX_FLOWS;
        let chosen = capped_take(candidates, MAX_FLOWS as nat);
        let entry_truncated = e0.truncated || entry_capped;
        let related = d.related_test_evidence;
        &&& manifest_evidence((e0, bytes is Some), bytes, parsed, files)
        &&& related_evidence(related, nodes, edges)
        &&& record_views(d.entry_evidence.records@) == final_records
        &&& d.entry_evidence.schema_version == e0.schema_version
        &&& d.entry_evidence.manifest == e0.manifest
        &&& d.entry_evidence.exact_fingerprint == e0.exact_fingerprint
        &&& d.entry_evidence.effective_fingerprint == e0.effective_fingerprint
        &&& d.entry_evidence.limitations == e0.limitations
        &&& d.entry_evidence.truncated == entry_truncated
        &&& views(d.entry_evidence.omissions@) == views(e0.omissions@) + (if entry_capped {
            seq![ENTRY_RECORDS_CAPPED@]
        } else {
            Seq::empty()
        })
        &&& d.entry_evidence.status@ == (if entry_truncated {
            "truncated"@
        } else if e0.status@ != "unavailable"@ {
            "complete"@
        } else {
            e0.status@
        })
        &&& d.entry_nodes@.map_values(|n: GraphNode| node_view(n)) == entry_nodes_of(attached)
        &&& d.entry_edges@.map_values(|e: GraphEdge| edge_view(e)) == entry_edges_of(attached)
        &&& unsorted.len() == chosen.len()
        &&& forall|i: int|
            0 <= i < chosen.len() ==> projected(
                #[trigger] unsorted[i],
                spec_flow_id(project_id, chosen[i].1, chosen[i].0),
                chosen[i],
                entry_node_id(chosen[i]),
                nodes,
                edges,
                related.records@,
            )
        &&& flows_sorted(d.flows@)
        &&& d.flows@.to_multiset() == unsorted.to_multiset()
        &&& d.truncated == (entry_truncated || related.truncated || flows_capped || exists|i: int|
            0 <= i < unsorted.len() && (#[trigger] unsorted[i]).truncated)
        &&& strictly_sorted(views(d.omissions@))
        &&& views(d.omissions@).to_set() == (views(e0.omissions@) + (if entry_capped {
            seq![ENTRY_RECORDS_CAPPED@]
        } else {
            Seq::empty()
        }) + (if related.truncated {
            views(related.omissions@)
        } else {
            Seq::empty()
        }) + (if flows_capped {
            seq![FLOWS_CAPPED@]
        } else {
            Seq::empty()
        }) + flow_omissions(unsorted)).to_set()
    }
}

fn entry_name_text(r: &EntryRecord) -> (t: String)
    ensures
        t@ == entry_name(record_view(*r)),
{
    let mut t = r.kind.clone();
    t.append(":");
    t.append(r.key.as_str());
    t
}

fn node_ids(nodes: &Vec<GraphNode>) -> (r: Vec<String>)
    ensures
        views(r@) == nodes@.map_values(|n: GraphNode| node_view(n)).map_values(
            |n: (Seq<char>, Seq<char>, Option<Seq<char>>, Option<Seq<char>>, Option<Seq<char>>, Seq<char>)| n.0,
        ),
{
    let mut ids: Vec<String> = Vec::new();
    let mut i: usize = 0;
    while i < nodes.len()
        invariant
            i <= nodes@.len(),
            ids@.len() == i,
            forall|j: int| 0 <= j < i ==> (#[trigger] ids@[j])@ == nodes@[j].id@,
        decreases nodes@.len() - i,
    {
        ids.push(nodes[i].id.clone());
        i = i + 1;
    }
    assert(views(ids@) =~= nodes@.map_values(|n: GraphNode| node_view(n)).map_values(
        |n: (Seq<char>, Seq<char>, Option<Seq<char>>, Option<Seq<char>>, Option<Seq<char>>, Seq<char>)| n.0,
    ));
    ids
}

/// Binds each resolved record to the scanned file it targets, and gives the entry nodes
/// and edges of the records that stay resolved.
fn attach_all(records: Vec<EntryRecord>, files: &[SourceFile]) -> (r: (Vec<EntryRecord>, Vec<GraphNode>, Vec<GraphEdge>))
    ensures
        record_views(r.0@) == record_views(records@).map_values(|x: RecordView| attach_target(x, files@)),
        r.1@.map_values(|n: GraphNode| node_view(n)) == entry_nodes_of(record_views(r.0@)),
        r.2@.map_values(|e: GraphEdge| edge_view(e)) == entry_edges_of(record_views(r.0@)),
{
    let mut out: Vec<EntryRecord> = Vec::new();
    let mut nodes: Vec<GraphNode> = Vec::new();
    let mut edges: Vec<GraphEdge> = Vec::new();
    let mut i: usize = 0;
    while i < records.len()
        invariant
            i <= records@.len(),
            record_views(out@) == record_views(records@.take(i as int)).map_values(|x: RecordView| attach_target(x, files@)),
            nodes@.map_values(|n: GraphNode| node_view(n)) == entry_nodes_of(record_views(out@)),
            edges@.map_values(|e: GraphEdge| edge_view(e)) == entry_edges_of(record_views(out@)),
        decreases records@.len() - i,
    {
        let mut record = records[i].clone();
        let ghost rv = record_view(records@[i as int]);
        let target_path: Option<String> = match &record.target_path {
            Some(p) => Some(p.clone()),
            None => None,
        };
        if str_eq(record.status.as_str(), "resolved") {
            match target_path {
                None => {
                    record.status = "unresolved".to_string();
                    record.reason = "missing-entry-target".to_string();
                },
                Some(path) => {
                    if !has_file(files, path.as_str()) {
                        record.status = "unresolved".to_string();
                        record.reason = "entry-target-not-scanned".to_string();
                    } else {
                        record.target_node_id = Some(node_id("file", path.as_str(), ""));
                        proof {
                            reveal_strlit("");
                            assert(""@ =~= Seq::<char>::empty());
                        }
                    }
                },
            }
        }
        assert(record_view(record) == attach_target(rv, files@));
        let ghost before = record_views(out@);
        let ghost nb = nodes@;
        let ghost eb = edges@;
        if str_eq(record.status.as_str(), "resolved") {
            let name = entry_name_text(&record);
            let id = node_id("entry", "package.json", name.as_str());
            let ids = node_ids(&nodes);
            if !contains_str(&ids, id.as_str()) {
                nodes.push(GraphNode {
                    id: id.clone(),
                    kind: "entry".to_string(),
                    path: Some("package.json".to_string()),
                    name: Some(name),
                    language: None,
                    evidence_fingerprint: String::new(),
                });
            }
            proof {
                reveal_strlit("resolved");
                reveal_strlit("unresolved");
                assert("unresolved"@[0] == 'u' && "resolved"@[0] == 'r');
                assert("unresolved"@ != "resolved"@);
                assert(record_view(record).5 == "resolved"@);
                assert(attach_target(rv, files@).4 is Some);
            }
            assert(record.target_node_id is Some);
            let target = match &record.target_node_id {
                Some(t) => t.clone(),
                None => String::new(),
            };
            edges.push(GraphEdge {
                from: id,
                to: target,
                kind: "entry-targets".to_string(),
                evidence: "package-json-entry".to_string(),
            });
        }
        out.push(record);
        proof {
            let after = record_views(out@);
            assert(after =~= before.push(record_view(record)));
            assert(after.drop_last() =~= before);
            assert(record_views(records@.take(i as int + 1)).map_values(|x: RecordView| attach_target(x, files@))
                =~= record_views(records@.take(i as int)).map_values(|x: RecordView| attach_target(x, files@)).push(
                attach_target(rv, files@),
            ));
            assert(nodes@.map_values(|n: GraphNode| node_view(n)) =~= entry_nodes_of(after));
            assert(edges@.map_values(|e: GraphEdge| edge_view(e)) =~= entry_edges_of(after));
        }
        i = i + 1;
    }
    assert(records@.take(records@.len() as int) =~= records@);
    (out, nodes, edges)
}

/// The records that resolved to a target node, in order.
fn resolved_records(records: &Vec<EntryRecord>) -> (r: Vec<EntryRecord>)
    ensures
        record_views(r@) == flow_records(record_views(records@)),
{
    let mut out: Vec<EntryRecord> = Vec::new();
    let mut i: usize = 0;
    while i < records.len()
        invariant
            i <= records@.len(),
            record_views(out@) == flow_records(record_views(records@.take(i as int))),
        decreases records@.len() - i,
    {
        let ghost t = record_views(records@.take(i as int + 1));
        assert(t.drop_last() =~= record_views(records@.take(i as int)));
        assert(t.last() == record_view(records@[i as int]));
        if str_eq(records[i].status.as_str(), "resolved") && records[i].target_node_id.is_some() {
            let ghost before = record_views(out@);
            out.push(records[i].clone());
            assert(record_views(out@) =~= before.push(record_view(records@[i as int])));
        }
        i = i + 1;
    }
    assert(records@.take(records@.len() as int) =~= records@);
    out
}

/// `flows` ordered by flow id; flows that tie keep their order.
fn sort_flows(flows: Vec<ContextFlow>) -> (r: Vec<ContextFlow>)
    ensures
        flows_sorted(r@),
        r@.to_multiset() == flows@.to_multiset(),
{
    let mut rest = flows;
    let ghost all = rest@;
    let mut out: Vec<ContextFlow> = Vec::new();
    let ghost mut taken: nat = 0;
    assert(all.take(0) =~= out@);
    while rest.len() > 0
        invariant
            taken <= all.len(),
            rest@ == all.skip(taken as int),
            flows_sorted(out@),
            out@.to_multiset() == all.take(taken as int).to_multiset(),
        decreases rest@.len(),
    {
        let x = rest.remove(0);
        let mut k: usize = 0;
        while k < out.len() && !str_less(x.flow_id.as_str(), out[k].flow_id.as_str())
            invariant
                k <= out@.len(),
                forall|m: int| 0 <= m < k ==> !str_lt(x.flow_id@, #[trigger] out@[m].flow_id@),
            decreases out@.len() - k,
        {
            k = k + 1;
        }
        let ghost before = out@;
        out.insert(k, x);
        proof {
            assert(all.skip(taken as int)[0] == x);
            assert(all.skip(taken as int).drop_first() =~= all.skip(taken as int + 1));
            vstd::seq_lib::to_multiset_insert(before, k as int, x);
            assert(all.take(taken as int + 1) =~= all.take(taken as int).push(x));
            vstd::seq_lib::to_multiset_build(all.take(taken as int), x);
            assert(out@ =~= before.insert(k as int, x));
            assert forall|a: int, b: int| 0 <= a < b < out@.len() implies !str_lt(
                #[trigger] out@[b].flow_id@,
                #[trigger] out@[a].flow_id@,
            ) by {
                crate::order::lemma_str_lt_irreflexive(x.flow_id@);
                if b < k {
                    assert(out@[a] == before[a] && out@[b] == before[b]);
                } else if b == k {
                    assert(out@[a] == before[a]);
                } else if a == k {
                    assert(out@[b] == before[b - 1]);
                    assert(str_lt(x.flow_id@, before[k as int].flow_id@));
                    if b - 1 > k {
                        assert(!str_lt(before[b - 1].flow_id@, before[k as int].flow_id@));
                        crate::order::lemma_str_lt_total(before[b - 1].flow_id@, before[k as int].flow_id@);
                        if before[b - 1].flow_id@ != before[k as int].flow_id@ {
                            crate::order::lemma_str_lt_transitive(x.flow_id@, before[k as int].flow_id@, before[b - 1].flow_id@);
                        }
                    }
                    crate::order::lemma_str_lt_asymmetric(x.flow_id@, before[b - 1].flow_id@);
                } else if a < k {
                    assert(out@[a] == before[a] && out@[b] == before[b - 1]);
                } else {
                    assert(out@[a] == before[a - 1] && out@[b] == before[b - 1]);
                }
            }
            taken = taken + 1;
        }
    }
    assert(all.take(all.len() as int) =~= all);
    out
}

fn append_strings(out: &mut Vec<String>, items: &Vec<String>)
    ensures
        views(final(out)@) == views(old(out)@) + views(items@),
{
    let mut i: usize = 0;
    let ghost start = views(out@);
    while i < items.len()
        invariant
            i <= items@.len(),
            views(out@) == start + views(items@.take(i as int)),
        decreases items@.len() - i,
    {
        let ghost before = views(out@);
        out.push(items[i].clone());
        assert(views(out@) =~= before.push(items@[i as int]@));
        assert(views(items@.take(i as int + 1)) =~= views(items@.take(i as int)).push(items@[i as int]@));
        assert(views(out@) =~= start + views(items@.take(i as int + 1)));
        i = i + 1;
    }
    assert(items@.take(items@.len() as int) =~= items@);
}

/// The flow of each candidate entry record, in order, whether any was capped, and the
/// omissions of those that were.
fn project_flows(
    candidates: &Vec<EntryRecord>,
    project_id: &str,
    nodes: &[GraphNode],
    entry_edges: &Vec<GraphEdge>,
    edges: &[GraphEdge],
    related: &Vec<crate::model::flow::RelatedTestRecord>,
) -> (r: (Vec<ContextFlow>, bool, Vec<String>))
    ensures
        r.0@.len() == candidates@.len(),
        forall|j: int|
            0 <= j < candidates@.len() ==> projected(
                #[trigger] r.0@[j],
                spec_flow_id(project_id@, record_views(candidates@)[j].1, record_views(candidates@)[j].0),
                record_views(candidates@)[j],
                entry_node_id(record_views(candidates@)[j]),
                nodes@,
                edges@,
                related@,
            ),
        r.1 == exists|j: int| 0 <= j < r.0@.len() && (#[trigger] r.0@[j]).truncated,
        views(r.2@) == flow_omissions(r.0@),
{
    let mut unsorted: Vec<ContextFlow> = Vec::new();
    let mut any = false;
    let mut notes: Vec<String> = Vec::new();
    let mut i: usize = 0;
    while i < candidates.len()
        invariant
            i <= candidates@.len(),
            unsorted@.len() == i,
            forall|j: int|
                0 <= j < i ==> projected(
                    #[trigger] unsorted@[j],
                    spec_flow_id(project_id@, record_views(candidates@)[j].1, record_views(candidates@)[j].0),
                    record_views(candidates@)[j],
                    entry_node_id(record_views(candidates@)[j]),
                    nodes@,
                    edges@,
                    related@,
                ),
            any == exists|j: int| 0 <= j < i && (#[trigger] unsorted@[j]).truncated,
            views(notes@) == flow_omissions(unsorted@),
        decreases candidates@.len() - i,
    {
        let c = &candidates[i];
        let fid = flow_id(project_id, c.kind.as_str(), c.key.as_str());
        let name = entry_name_text(c);
        let eid = node_id("entry", "package.json", name.as_str());
        let flow = project_flow(fid.as_str(), c, eid.as_str(), nodes, entry_edges, edges, related);
        let ghost ub = unsorted@;
        let ghost nb = views(notes@);
        let t = flow.truncated;
        if t {
            any = true;
            append_strings(&mut notes, &flow.omissions);
        }
        unsorted.push(flow);
        proof {
            assert(record_views(candidates@)[i as int] == record_view(candidates@[i as int]));
            assert(unsorted@.drop_last() =~= ub);
            assert(unsorted@[i as int].truncated == t);
            assert forall|j: int| 0 <= j < i implies #[trigger] unsorted@[j] == ub[j] by {}
            if t {
                assert(exists|j: int| 0 <= j < i + 1 && (#[trigger] unsorted@[j]).truncated);
            }
            assert(views(notes@) == flow_omissions(unsorted@));
        }
        i = i + 1;
    }
    (unsorted, any, notes)
}

/// Derives entry evidence, entry nodes and edges, related tests and context flows from the
/// root package manifest (`bytes` is its content when it exists, `parsed` what reading it
/// as JSON gave) and the graph's files, nodes and edges.
#[verifier::rlimit(60)]
pub fn derive(
    bytes: Option<&[u8]>,
    parsed: ManifestJson,
    project_id: &str,
    files: &[SourceFile],
    nodes: &[GraphNode],
    edges: &[GraphEdge],
) -> (r: Result<FlowDerivation, String>)
    ensures
        r matches Ok(d) && derived(d, match bytes {
            Some(b) => Some(b@),
            None => None,
        }, parsed, project_id@, files@, nodes@, edges@),
{
    let ghost parsed_view = parsed;
    let (mut evidence, _) = parse_manifest(bytes, parsed, files);
    let ghost e0 = evidence;
    let mut global_truncated = evidence.truncated;
    let mut omissions: Vec<String> = Vec::new();
    append_strings(&mut omissions, &evidence.omissions);
    assert(views(omissions@) =~= views(e0.omissions@));
    let mut taken: Vec<EntryRecord> = Vec::new();
    std::mem::swap(&mut taken, &mut evidence.records);
    let sorted = sort_entries(taken, false);
    let mut records = dedup_entries(sorted);
    let ghost unique = record_views(records@);
    let entry_capped = records.len() > MAX_ENTRY_RECORDS;
    if entry_capped {
        records.truncate(MAX_ENTRY_RECORDS);
        evidence.truncated = true;
        evidence.status = "truncated".to_string();
        evidence.omissions.push(ENTRY_RECORDS_CAPPED.to_string());
        global_truncated = true;
        omissions.push(ENTRY_RECORDS_CAPPED.to_string());
    }
    assert(record_views(records@) == capped_take(unique, MAX_ENTRY_RECORDS as nat));
    let ghost o1 = views(omissions@);
    assert(o1 =~= views(e0.omissions@) + (if entry_capped {
        seq![ENTRY_RECORDS_CAPPED@]
    } else {
        Seq::empty()
    }));
    let (attached, entry_nodes, entry_edges) = attach_all(records, files);
    let final_records = dedup_entries(sort_entries(attached, true));
    let related = derive_related_tests(nodes, edges);
    if related.truncated {
        global_truncated = true;
        append_strings(&mut omissions, &related.omissions);
    }
    let ghost o2 = views(omissions@);
    assert(o2 =~= o1 + (if related.truncated {
        views(related.omissions@)
    } else {
        Seq::empty()
    }));
    let mut candidates = sort_entries(resolved_records(&final_records), false);
    let ghost all_candidates = record_views(candidates@);
    let flows_capped = candidates.len() > MAX_FLOWS;
    if flows_capped {
        candidates.truncate(MAX_FLOWS);
        global_truncated = true;
        omissions.push(FLOWS_CAPPED.to_string());
    }
    assert(record_views(candidates@) == capped_take(all_candidates, MAX_FLOWS as nat));
    assert(views(omissions@) =~= o2 + (if flows_capped {
        seq![FLOWS_CAPPED@]
    } else {
        Seq::empty()
    }));
    let ghost before_flows = views(omissions@);
    let ghost truncated_before = global_truncated;
    let (unsorted, any_truncated, flow_notes) = project_flows(&candidates, project_id, nodes, &entry_edges, edges, &related.records);
    if any_truncated {
        global_truncated = true;
    }
    append_strings(&mut omissions, &flow_notes);
    let ghost unsorted_view = unsorted@;
    assert(views(omissions@) == before_flows + flow_omissions(unsorted_view));
    let flows = sort_flows(unsorted);
    if evidence.truncated {
        evidence.status = "truncated".to_string();
    } else if !str_eq(evidence.status.as_str(), "unavailable") {
        evidence.status = "complete".to_string();
    }
    evidence.records = final_records;
    let ghost omissions_view = views(omissions@);
    let omissions = sorted_unique(omissions);
    let d = FlowDerivation {
        entry_evidence: evidence,
        related_test_evidence: related,
        flows,
        entry_nodes,
        entry_edges,
        truncated: global_truncated,
        omissions,
    };
    proof {
        assert(views(e0.omissions@) + (if entry_capped {
            seq![ENTRY_RECORDS_CAPPED@]
        } else {
            Seq::empty()
        }) + (if related.truncated {
            views(related.omissions@)
        } else {
            Seq::empty()
        }) + (if flows_capped {
            seq![FLOWS_CAPPED@]
        } else {
            Seq::empty()
        }) =~= before_flows);
        assert(views(d.entry_evidence.omissions@) =~= views(e0.omissions@) + (if entry_capped {
            seq![ENTRY_RECORDS_CAPPED@]
        } else {
            Seq::empty()
        }));
        reveal(derived_from);
        assert(derived_from(d, e0, unsorted_view, match bytes {
            Some(b) => Some(b@),
            None => None,
        }, parsed_view, project_id@, files@, nodes@, edges@));
    }
    Ok(d)
}

/// The content of an optional byte slice.
pub open spec fn bytes_view(bytes: Option<&[u8]>) -> Option<Seq<u8>> {
    match bytes {
        Some(b) => Some(b@),
        None => None,
    }
}

/// Whether `m` is what reading the manifest content, when there is one, gives.
pub open spec fn manifest_read_opt(bytes: Option<Seq<u8>>, m: ManifestJson) -> bool {
    match bytes {
        Some(b) => manifest_read(b, m),
        None => true,
    }
}

/// `d` is what deriving gives from the manifest content, read as JSON.
pub open spec fn manifest_derived(
    d: FlowDerivation,
    bytes: Option<Seq<u8>>,
    project_id: Seq<char>,
    files: Seq<SourceFile>,
    nodes: Seq<GraphNode>,
    edges: Seq<GraphEdge>,
) -> bool {
    exists|parsed: ManifestJson|
        {
            &&& #[trigger] manifest_read_opt(bytes, parsed)
            &&& derived(d, bytes, parsed, project_id, files, nodes, edges)
        }
}

/// Derives the flow evidence of a graph from the root package manifest's content (when
/// it exists), reading it as JSON first.
pub fn derive_from_manifest(
    bytes: Option<&[u8]>,
    project_id: &str,
    files: &[SourceFile],
    nodes: &[GraphNode],
    edges: &[GraphEdge],
) -> (r: Result<FlowDerivation, String>)
    ensures
        r matches Ok(d) && manifest_derived(d, bytes_view(bytes), project_id@, files@, nodes@, edges@),
{
    let parsed = match bytes {
        Some(b) => manifest_json(b),
        None => ManifestJson::Invalid,
    };
    let ghost p = parsed;
    let r = derive(bytes, parsed, project_id, files, nodes, edges);
    assert(manifest_read_opt(bytes_view(bytes), p));
    r
}

} // verus!
