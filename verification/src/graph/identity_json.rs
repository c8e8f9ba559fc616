//! The canonical JSON text a graph's identity is hashed from.

use vstd::prelude::*;

use super::node_fingerprints::{resolution_json, resolution_text};
use super::structure::{edge_view, node_view};
use super::GRAPH_DERIVATION_ID;
use crate::flow::manifest::{opt_view, record_view};
use crate::flow::projection::{
    edge_json, edges_text, entry_json, entry_text, related_json, related_list_text, step_json, steps_text, strings_text,
};
use crate::flow::related_tests::related_views;
use crate::flow::traversal::{edge_views as flow_edge_views, step_views};
use crate::hashing::{blake3_hex, blake3_hex_of};
use crate::json::{
    array_text, json_array, json_bool, json_member, json_object, json_opt_string, json_string, member_text, object_text,
    opt_string_text, string_text,
};
use crate::model::flow::{ContextFlow, EntryRecord, RelatedTestEvidence};
use crate::model::graph::{GraphEdge, GraphNode, GraphSnapshot};
use crate::model::schemas::SourceFile;
use crate::model::typescript::{ResolutionEvidence, SymbolResolution};
use crate::text::views;

verus! {

broadcast use vstd::string::group_string_axioms;

/// A list of strings as a JSON array of strings.
pub open spec fn strings_json(s: Seq<Seq<char>>) -> Seq<char> {
    json_array(s.map_values(|o: Seq<char>| json_string(o)))
}

/// A source file as the JSON pair of its path and language.
pub open spec fn file_pair_json(f: SourceFile) -> Seq<char> {
    json_array(seq![json_string(f.path@), json_string(f.language@)])
}

/// A graph node as a JSON object.
pub open spec fn node_json(n: (Seq<char>, Seq<char>, Option<Seq<char>>, Option<Seq<char>>, Option<Seq<char>>, Seq<char>)) -> Seq<char> {
    json_object(
        seq![
            json_member("id"@, json_string(n.0)),
            json_member("kind"@, json_string(n.1)),
            json_member("path"@, json_opt_string(n.2)),
            json_member("name"@, json_opt_string(n.3)),
            json_member("language"@, json_opt_string(n.4)),
            json_member("evidenceFingerprint"@, json_string(n.5)),
        ],
    )
}

/// Resolution evidence as a JSON object.
pub open spec fn evidence_json(e: ResolutionEvidence) -> Seq<char> {
    json_object(
        seq![
            json_member("schemaVersion"@, json_string(e.schema_version@)),
            json_member("status"@, json_string(e.status@)),
            json_member("records"@, json_array(e.records@.map_values(|r: SymbolResolution| resolution_json(r)))),
            json_member("truncated"@, json_bool(e.truncated)),
            json_member("omissions"@, strings_json(views(e.omissions@))),
        ],
    )
}

/// Related-test evidence as a JSON object.
pub open spec fn related_evidence_json(e: RelatedTestEvidence) -> Seq<char> {
    json_object(
        seq![
            json_member("schemaVersion"@, json_string(e.schema_version@)),
            json_member("status"@, json_string(e.status@)),
            json_member("records"@, json_array(related_views(e.records@).map_values(|x| related_json(x)))),
            json_member("truncated"@, json_bool(e.truncated)),
            json_member("omissions"@, strings_json(views(e.omissions@))),
        ],
    )
}

/// A context flow as a JSON object.
pub open spec fn context_flow_json(f: ContextFlow) -> Seq<char> {
    json_object(
        seq![
            json_member("schemaVersion"@, json_string(f.schema_version@)),
            json_member("flowId"@, json_string(f.flow_id@)),
            json_member("entryNodeId"@, json_string(f.entry_node_id@)),
            json_member("entryKind"@, json_string(f.entry_kind@)),
            json_member("entryKey"@, json_string(f.entry_key@)),
            json_member("steps"@, json_array(step_views(f.steps@).map_values(|x| step_json(x)))),
            json_member("traversedEdges"@, json_array(flow_edge_views(f.traversed_edges@).map_values(|x| edge_json(x)))),
            json_member("relatedTests"@, json_array(related_views(f.related_tests@).map_values(|x| related_json(x)))),
            json_member("fingerprint"@, json_string(f.fingerprint@)),
            json_member("status"@, json_string(f.status@)),
            json_member("truncated"@, json_bool(f.truncated)),
            json_member("omissions"@, strings_json(views(f.omissions@))),
            json_member("limitations"@, strings_json(views(f.limitations@))),
        ],
    )
}

/// The canonical JSON text of a graph's identity: its project, derivation, the path and
/// language of each file, its nodes and edges, its resolution evidence, the effective
/// fingerprint, status and records of its entry evidence, its related-test evidence and
/// its flows.
#[verifier::opaque]
pub open spec fn graph_identity_text(g: GraphSnapshot) -> Seq<char> {
    json_object(
        seq![
            json_member("project_id"@, json_string(g.project_id@)),
            json_member("derivation_id"@, json_string(GRAPH_DERIVATION_ID@)),
            json_member("files"@, json_array(g.files@.map_values(|f: SourceFile| file_pair_json(f)))),
            json_member("nodes"@, json_array(g.nodes@.map_values(|n: GraphNode| node_json(node_view(n))))),
            json_member("edges"@, json_array(g.edges@.map_values(|e: GraphEdge| edge_json(edge_view(e))))),
            json_member("resolution_evidence"@, evidence_json(g.resolution_evidence)),
            json_member("entry_effective_fingerprint"@, json_string(g.entry_evidence.effective_fingerprint@)),
            json_member("entry_status"@, json_string(g.entry_evidence.status@)),
            json_member(
                "entry_records"@,
                json_array(g.entry_evidence.records@.map_values(|r: EntryRecord| entry_json(record_view(r)))),
            ),
            json_member("related_test_evidence"@, related_evidence_json(g.related_test_evidence)),
            json_member("flows"@, json_array(g.flows@.map_values(|f: ContextFlow| context_flow_json(f)))),
        ],
    )
}

fn file_pair_text(f: &SourceFile) -> (r: String)
    ensures
        r@ == file_pair_json(*f),
{
    let mut items: Vec<String> = Vec::new();
    items.push(string_text(f.path.as_str()));
    items.push(string_text(f.language.as_str()));
    assert(views(items@) =~= seq![json_string(f.path@), json_string(f.language@)]);
    array_text(&items)
}

fn node_text(n: &GraphNode) -> (r: String)
    ensures
        r@ == node_json(node_view(*n)),
{
    let mut m: Vec<String> = Vec::new();
    m.push(member_text("id", string_text(n.id.as_str()).as_str()));
    m.push(member_text("kind", string_text(n.kind.as_str()).as_str()));
    m.push(member_text("path", opt_string_text(&n.path).as_str()));
    m.push(member_text("name", opt_string_text(&n.name).as_str()));
    m.push(member_text("language", opt_string_text(&n.language).as_str()));
    m.push(member_text("evidenceFingerprint", string_text(n.evidence_fingerprint.as_str()).as_str()));
    assert(views(m@) =~= seq![
        json_member("id"@, json_string(n.id@)),
        json_member("kind"@, json_string(n.kind@)),
        json_member("path"@, json_opt_string(opt_view(n.path))),
        json_member("name"@, json_opt_string(opt_view(n.name))),
        json_member("language"@, json_opt_string(opt_view(n.language))),
        json_member("evidenceFingerprint"@, json_string(n.evidence_fingerprint@)),
    ]);
    object_text(&m)
}

fn graph_edge_text(e: &GraphEdge) -> (r: String)
    ensures
        r@ == edge_json(edge_view(*e)),
{
    let mut m: Vec<String> = Vec::new();
    m.push(member_text("from", string_text(e.from.as_str()).as_str()));
    m.push(member_text("to", string_text(e.to.as_str()).as_str()));
    m.push(member_text("kind", string_text(e.kind.as_str()).as_str()));
    m.push(member_text("evidence", string_text(e.evidence.as_str()).as_str()));
    assert(views(m@) =~= seq![
        json_member("from"@, json_string(e.from@)),
        json_member("to"@, json_string(e.to@)),
        json_member("kind"@, json_string(e.kind@)),
        json_member("evidence"@, json_string(e.evidence@)),
    ]);
    object_text(&m)
}

fn evidence_text(e: &ResolutionEvidence) -> (r: String)
    ensures
        r@ == evidence_json(*e),
{
    let mut items: Vec<String> = Vec::new();
    let mut i: usize = 0;
    while i < e.records.len()
        invariant
            i <= e.records@.len(),
            items@.len() == i,
            forall|j: int| 0 <= j < i ==> (#[trigger] items@[j])@ == resolution_json(e.records@[j]),
        decreases e.records@.len() - i,
    {
        items.push(resolution_text(&e.records[i]));
        i = i + 1;
    }
    assert(views(items@) =~= e.records@.map_values(|r: SymbolResolution| resolution_json(r)));
    let records = array_text(&items);
    let mut m: Vec<String> = Vec::new();
    m.push(member_text("schemaVersion", string_text(e.schema_version.as_str()).as_str()));
    m.push(member_text("status", string_text(e.status.as_str()).as_str()));
    m.push(member_text("records", records.as_str()));
    m.push(member_text("truncated", if e.truncated { "true" } else { "false" }));
    m.push(member_text("omissions", strings_text(&e.omissions).as_str()));
    proof {
        reveal_strlit("true");
        reveal_strlit("false");
    }
    assert(views(m@) =~= seq![
        json_member("schemaVersion"@, json_string(e.schema_version@)),
        json_member("status"@, json_string(e.status@)),
        json_member("records"@, json_array(e.records@.map_values(|r: SymbolResolution| resolution_json(r)))),
        json_member("truncated"@, json_bool(e.truncated)),
        json_member("omissions"@, strings_json(views(e.omissions@))),
    ]);
    object_text(&m)
}

fn related_evidence_text(e: &RelatedTestEvidence) -> (r: String)
    ensures
        r@ == related_evidence_json(*e),
{
    let mut m: Vec<String> = Vec::new();
    m.push(member_text("schemaVersion", string_text(e.schema_version.as_str()).as_str()));
    m.push(member_text("status", string_text(e.status.as_str()).as_str()));
    m.push(member_text("records", related_list_text(&e.records).as_str()));
    m.push(member_text("truncated", if e.truncated { "true" } else { "false" }));
    m.push(member_text("omissions", strings_text(&e.omissions).as_str()));
    proof {
        reveal_strlit("true");
        reveal_strlit("false");
    }
    assert(views(m@) =~= seq![
        json_member("schemaVersion"@, json_string(e.schema_version@)),
        json_member("status"@, json_string(e.status@)),
        json_member("records"@, json_array(related_views(e.records@).map_values(|x| related_json(x)))),
        json_member("truncated"@, json_bool(e.truncated)),
        json_member("omissions"@, strings_json(views(e.omissions@))),
    ]);
    object_text(&m)
}

fn context_flow_text(f: &ContextFlow) -> (r: String)
    ensures
        r@ == context_flow_json(*f),
{
    let mut m: Vec<String> = Vec::new();
    m.push(member_text("schemaVersion", string_text(f.schema_version.as_str()).as_str()));
    m.push(member_text("flowId", string_text(f.flow_id.as_str()).as_str()));
    m.push(member_text("entryNodeId", string_text(f.entry_node_id.as_str()).as_str()));
    m.push(member_text("entryKind", string_text(f.entry_kind.as_str()).as_str()));
    m.push(member_text("entryKey", string_text(f.entry_key.as_str()).as_str()));
    m.push(member_text("steps", steps_text(&f.steps).as_str()));
    m.push(member_text("traversedEdges", edges_text(&f.traversed_edges).as_str()));
    m.push(member_text("relatedTests", related_list_text(&f.related_tests).as_str()));
    m.push(member_text("fingerprint", string_text(f.fingerprint.as_str()).as_str()));
    m.push(member_text("status", string_text(f.status.as_str()).as_str()));
    m.push(member_text("truncated", if f.truncated { "true" } else { "false" }));
    m.push(member_text("omissions", strings_text(&f.omissions).as_str()));
    m.push(member_text("limitations", strings_text(&f.limitations).as_str()));
    proof {
        reveal_strlit("true");
        reveal_strlit("false");
    }
    assert(views(m@) =~= seq![
        json_member("schemaVersion"@, json_string(f.schema_version@)),
        json_member("flowId"@, json_string(f.flow_id@)),
        json_member("entryNodeId"@, json_string(f.entry_node_id@)),
        json_member("entryKind"@, json_string(f.entry_kind@)),
        json_member("entryKey"@, json_string(f.entry_key@)),
        json_member("steps"@, json_array(step_views(f.steps@).map_values(|x| step_json(x)))),
        json_member("traversedEdges"@, json_array(flow_edge_views(f.traversed_edges@).map_values(|x| edge_json(x)))),
        json_member("relatedTests"@, json_array(related_views(f.related_tests@).map_values(|x| related_json(x)))),
        json_member("fingerprint"@, json_string(f.fingerprint@)),
        json_member("status"@, json_string(f.status@)),
        json_member("truncated"@, json_bool(f.truncated)),
        json_member("omissions"@, strings_json(views(f.omissions@))),
        json_member("limitations"@, strings_json(views(f.limitations@))),
    ]);
    object_text(&m)
}

/// The canonical JSON text of a graph's identity.
pub fn identity_text(g: &GraphSnapshot) -> (r: String)
    ensures
        r@ == graph_identity_text(*g),
{
    reveal(graph_identity_text);
    let mut files: Vec<String> = Vec::new();
    let mut i: usize = 0;
    while i < g.files.len()
        invariant
            i <= g.files@.len(),
            files@.len() == i,
            forall|j: int| 0 <= j < i ==> (#[trigger] files@[j])@ == file_pair_json(g.files@[j]),
        decreases g.files@.len() - i,
    {
        files.push(file_pair_text(&g.files[i]));
        i = i + 1;
    }
    assert(views(files@) =~= g.files@.map_values(|f: SourceFile| file_pair_json(f)));
    let mut nodes: Vec<String> = Vec::new();
    let mut i: usize = 0;
    while i < g.nodes.len()
        invariant
            i <= g.nodes@.len(),
            nodes@.len() == i,
            forall|j: int| 0 <= j < i ==> (#[trigger] nodes@[j])@ == node_json(node_view(g.nodes@[j])),
        decreases g.nodes@.len() - i,
    {
        nodes.push(node_text(&g.nodes[i]));
        i = i + 1;
    }
    assert(views(nodes@) =~= g.nodes@.map_values(|n: GraphNode| node_json(node_view(n))));
    let mut edges: Vec<String> = Vec::new();
    let mut i: usize = 0;
    while i < g.edges.len()
        invariant
            i <= g.edges@.len(),
            edges@.len() == i,
            forall|j: int| 0 <= j < i ==> (#[trigger] edges@[j])@ == edge_json(edge_view(g.edges@[j])),
        decreases g.edges@.len() - i,
    {
        edges.push(graph_edge_text(&g.edges[i]));
        i = i + 1;
    }
    assert(views(edges@) =~= g.edges@.map_values(|e: GraphEdge| edge_json(edge_view(e))));
    let mut records: Vec<String> = Vec::new();
    let mut i: usize = 0;
    while i < g.entry_evidence.records.len()
        invariant
            i <= g.entry_evidence.records@.len(),
            records@.len() == i,
            forall|j: int| 0 <= j < i ==> (#[trigger] records@[j])@ == entry_json(record_view(g.entry_evidence.records@[j])),
        decreases g.entry_evidence.records@.len() - i,
    {
        records.push(entry_text(&g.entry_evidence.records[i]));
        i = i + 1;
    }
    assert(views(records@) =~= g.entry_evidence.records@.map_values(|r: EntryRecord| entry_json(record_view(r))));
    let mut flows: Vec<String> = Vec::new();
    let mut i: usize = 0;
    while i < g.flows.len()
        invariant
            i <= g.flows@.len(),
            flows@.len() == i,
            forall|j: int| 0 <= j < i ==> (#[trigger] flows@[j])@ == context_flow_json(g.flows@[j]),
        decreases g.flows@.len() - i,
    {
        flows.push(context_flow_text(&g.flows[i]));
        i = i + 1;
    }
    assert(views(flows@) =~= g.flows@.map_values(|f: ContextFlow| context_flow_json(f)));
    let mut m: Vec<String> = Vec::new();
    m.push(member_text("project_id", string_text(g.project_id.as_str()).as_str()));
    m.push(member_text("derivation_id", string_text(GRAPH_DERIVATION_ID).as_str()));
    m.push(member_text("files", array_text(&files).as_str()));
    m.push(member_text("nodes", array_text(&nodes).as_str()));
    m.push(member_text("edges", array_text(&edges).as_str()));
    m.push(member_text("resolution_evidence", evidence_text(&g.resolution_evidence).as_str()));
    m.push(member_text("entry_effective_fingerprint", string_text(g.entry_evidence.effective_fingerprint.as_str()).as_str()));
    m.push(member_text("entry_status", string_text(g.entry_evidence.status.as_str()).as_str()));
    m.push(member_text("entry_records", array_text(&records).as_str()));
    m.push(member_text("related_test_evidence", related_evidence_text(&g.related_test_evidence).as_str()));
    m.push(member_text("flows", array_text(&flows).as_str()));
    assert(views(m@) =~= seq![
        json_member("project_id"@, json_string(g.project_id@)),
        json_member("derivation_id"@, json_string(GRAPH_DERIVATION_ID@)),
        json_member("files"@, json_array(g.files@.map_values(|f: SourceFile| file_pair_json(f)))),
        json_member("nodes"@, json_array(g.nodes@.map_values(|n: GraphNode| node_json(node_view(n))))),
        json_member("edges"@, json_array(g.edges@.map_values(|e: GraphEdge| edge_json(edge_view(e))))),
        json_member("resolution_evidence"@, evidence_json(g.resolution_evidence)),
        json_member("entry_effective_fingerprint"@, json_string(g.entry_evidence.effective_fingerprint@)),
        json_member("entry_status"@, json_string(g.entry_evidence.status@)),
        json_member(
            "entry_records"@,
            json_array(g.entry_evidence.records@.map_values(|r: EntryRecord| entry_json(record_view(r)))),
        ),
        json_member("related_test_evidence"@, related_evidence_json(g.related_test_evidence)),
        json_member("flows"@, json_array(g.flows@.map_values(|f: ContextFlow| context_flow_json(f)))),
    ]);
    object_text(&m)
}

/// The id of a graph: the BLAKE3 hash of its identity text.
pub fn graph_id_of(g: &GraphSnapshot) -> (r: String)
    ensures
        r@ == blake3_hex(vstd::utf8::encode_utf8(graph_identity_text(*g))),
{
    let text = identity_text(g);
    blake3_hex_of(text.as_str().as_bytes())
}

/// The identity text of a graph does not read its id.
pub proof fn lemma_identity_ignores_graph_id(g: GraphSnapshot, id: String)
    ensures
        graph_identity_text(GraphSnapshot { graph_id: id, ..g }) == graph_identity_text(g),
{
    reveal(graph_identity_text);
}

} // verus!
