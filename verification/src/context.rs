//! Context Ref identity and freshness resolution.
//!
//! The store rows a Context Ref is resolved from are read by the caller; this module
//! decides from them what the reference is and how fresh it is.

use vstd::prelude::*;

use crate::model::diagnostic::GraphBasis;
use crate::model::graph::{ContextRef, GraphNode, GraphSnapshot};
use crate::model::CONTEXT_REF_SCHEMA;
use crate::temporal::{fingerprint_contract, spec_fingerprint_contract, NODE_FINGERPRINT_CONTRACT};
use crate::order::{lemma_str_lt_asymmetric, lemma_str_lt_total, lemma_str_lt_transitive, str_less, str_lt};
use crate::text::str_eq;

verus! {

broadcast use vstd::string::group_string_axioms;

/// The most Context Refs one snapshot persists.
pub const MAX_CONTEXT_REFS: usize = 256;

/// The URI of a node of a graph of a project.
pub open spec fn spec_uri(project_id: Seq<char>, graph_id: Seq<char>, node_id: Seq<char>) -> Seq<char> {
    "fp://local/"@ + project_id + "/"@ + graph_id + "/"@ + node_id
}

/// The stable, explicitly branded URI of a graph node.
pub fn uri(project_id: &str, graph_id: &str, node_id: &str) -> (r: String)
    ensures
        r@ == spec_uri(project_id@, graph_id@, node_id@),
{
    let mut r = "fp://local/".to_string();
    r.append(project_id);
    r.append("/");
    r.append(graph_id);
    r.append("/");
    r.append(node_id);
    r
}

/// A persisted Context Ref row.
#[derive(Debug)]
pub struct StoredContextRef {
    pub project_id: String,
    pub graph_id: String,
    pub graph_version: u64,
    pub node_id: String,
    pub origin_observation_id: String,
    pub origin_source_revision: String,
    pub origin_fingerprint: String,
    pub fingerprint_scope: String,
}

/// A recorded observation: its id, Git revision, whether the tree was dirty, and its graph.
#[derive(Debug)]
pub struct ObservationRow {
    pub observation_id: String,
    pub revision: String,
    pub dirty: bool,
    pub graph_version: u64,
    pub graph_id: String,
}

/// The evidence of a node in a graph: its fingerprint and the hash of its file, if any.
#[derive(Debug)]
pub struct NodeEvidenceRow {
    pub node_fingerprint: String,
    pub file_hash: Option<String>,
}

/// A revision as the store reports it: `+dirty` marks a dirty tree.
pub open spec fn revision_text(revision: Seq<char>, dirty: bool) -> Seq<char> {
    if dirty {
        revision + "+dirty"@
    } else {
        revision
    }
}

fn revision_string(revision: &String, dirty: bool) -> (r: String)
    ensures
        r@ == revision_text(revision@, dirty),
{
    let mut r = revision.clone();
    if dirty {
        r.append("+dirty");
    }
    r
}

/// The plain values of a graph basis.
pub open spec fn basis_view(b: GraphBasis) -> (Seq<char>, Seq<char>, u64, Seq<char>, Seq<char>) {
    (b.project_id@, b.graph_id@, b.graph_version, b.source_revision@, b.observation_id@)
}

/// The plain values of an optional graph basis.
pub open spec fn opt_basis_view(b: Option<GraphBasis>) -> Option<(Seq<char>, Seq<char>, u64, Seq<char>, Seq<char>)> {
    match b {
        Some(b) => Some(basis_view(b)),
        None => None,
    }
}

/// The basis of an observation row of `project_id`; `observation_id` names the observation.
pub open spec fn row_basis(project_id: Seq<char>, row: ObservationRow, observation_id: Seq<char>) -> (Seq<char>, Seq<char>, u64, Seq<char>, Seq<char>) {
    (project_id, row.graph_id@, row.graph_version, revision_text(row.revision@, row.dirty), observation_id)
}

/// Whether a fingerprint scope is one that Context Refs are recorded under.
pub open spec fn known_scope(scope: Seq<char>) -> bool {
    scope == "ast-and-direct-edges"@ || scope == "legacy-file-v1"@
}

/// The freshness status and reason of a Context Ref of the requested project.
pub open spec fn context_freshness(
    stored: StoredContextRef,
    origin: Option<ObservationRow>,
    origin_evidence: Option<Seq<char>>,
    current: ObservationRow,
    current_evidence: Option<NodeEvidenceRow>,
) -> (Seq<char>, Seq<char>) {
    let legacy = stored.fingerprint_scope@ == "legacy-file-v1"@;
    let metadata_valid = known_scope(stored.fingerprint_scope@) && origin is Some && origin_evidence
        == Some(stored.origin_fingerprint@);
    let current_fingerprint: Option<Seq<char>> = match current_evidence {
        Some(e) => if legacy {
            match e.file_hash {
                Some(h) => Some(h@),
                None => None,
            }
        } else {
            Some(e.node_fingerprint@)
        },
        None => None,
    };
    if stored.origin_observation_id@.len() == 0 || stored.origin_fingerprint@.len() == 0 {
        ("unresolved"@, "legacy Context Ref has insufficient origin evidence"@)
    } else if origin is None {
        ("unavailable"@, "origin graph observation is unavailable"@)
    } else if !metadata_valid {
        ("unavailable"@, "origin evidence metadata is inconsistent"@)
    } else if current_evidence is None {
        ("stale"@, "origin node is missing from the current graph"@)
    } else if legacy {
        if current_fingerprint == Some(stored.origin_fingerprint@) {
            ("current"@, "legacy file evidence matches"@)
        } else {
            ("stale"@, "legacy file evidence changed"@)
        }
    } else if current_fingerprint == Some(stored.origin_fingerprint@) {
        if current.observation_id@ == stored.origin_observation_id@ {
            ("current"@, "origin-observation-current"@)
        } else {
            ("current"@, "node AST and direct-edge fingerprint matches"@)
        }
    } else {
        ("stale"@, "node AST or direct-edge fingerprint changed"@)
    }
}

/// What resolving a stored Context Ref yields.
pub open spec fn resolved_context(
    r: ContextRef,
    requested_uri: Seq<char>,
    project_id: Seq<char>,
    stored: StoredContextRef,
    origin: Option<ObservationRow>,
    origin_evidence: Option<Seq<char>>,
    current: Option<ObservationRow>,
    current_evidence: Option<NodeEvidenceRow>,
) -> bool {
    &&& r.schema_version@ == CONTEXT_REF_SCHEMA@
    &&& r.uri@ == requested_uri
    &&& r.project_id@ == stored.project_id@
    &&& r.graph_id@ == stored.graph_id@
    &&& r.graph_version == stored.graph_version
    &&& r.node_id@ == stored.node_id@
    &&& r.origin_observation_id@ == stored.origin_observation_id@
    &&& r.origin_source_revision@ == stored.origin_source_revision@
    &&& r.origin_fingerprint@ == stored.origin_fingerprint@
    &&& r.current_event_id@.len() == 0
    &&& r.successor_uri is None
    &&& if stored.project_id@ != project_id {
        &&& r.status@ == "wrong-project"@
        &&& r.fingerprint_scope@ == "unavailable"@
        &&& r.freshness_reason@ == "project-id-does-not-match-request"@
        &&& r.fingerprint_contract@ == spec_fingerprint_contract("unavailable"@)
        &&& r.origin_basis is None
        &&& r.current_basis is None
    } else {
        &&& r.fingerprint_scope@ == stored.fingerprint_scope@
        &&& r.fingerprint_contract@ == spec_fingerprint_contract(stored.fingerprint_scope@)
        &&& opt_basis_view(r.origin_basis) == match origin {
            Some(o) => Some(row_basis(stored.project_id@, o, stored.origin_observation_id@)),
            None => None,
        }
        &&& match current {
            None => {
                &&& r.status@ == "unavailable"@
                &&& r.freshness_reason@ == "current graph observation is unavailable"@
                &&& r.current_basis is None
            },
            Some(c) => {
                &&& (r.status@, r.freshness_reason@) == context_freshness(
                    stored,
                    origin,
                    origin_evidence,
                    c,
                    current_evidence,
                )
                &&& opt_basis_view(r.current_basis) == Some(row_basis(project_id, c, c.observation_id@))
            },
        }
    }
}

fn basis_of(project_id: &str, row: &ObservationRow, observation_id: &String) -> (r: GraphBasis)
    ensures
        basis_view(r) == row_basis(project_id@, *row, observation_id@),
{
    GraphBasis {
        project_id: project_id.to_string(),
        graph_id: row.graph_id.clone(),
        graph_version: row.graph_version,
        source_revision: revision_string(&row.revision, row.dirty),
        observation_id: observation_id.clone(),
    }
}

fn opt_eq(a: &Option<String>, b: &String) -> (r: bool)
    ensures
        r == (match a {
            Some(x) => x@ == b@,
            None => false,
        }),
{
    match a {
        Some(x) => str_eq(x.as_str(), b.as_str()),
        None => false,
    }
}

/// Resolves the Context Ref `requested_uri` for `project_id` from the rows read for it:
/// the stored reference, its origin observation and the origin node's recorded evidence,
/// and the project's current observation with the node's evidence in it.
pub fn resolve(
    requested_uri: &str,
    project_id: &str,
    stored: Option<StoredContextRef>,
    origin: Option<ObservationRow>,
    origin_evidence: Option<String>,
    current: Option<ObservationRow>,
    current_evidence: Option<NodeEvidenceRow>,
) -> (r: Result<ContextRef, String>)
    ensures
        match stored {
            None => (r matches Err(e) && e@ == "Context Ref is unavailable."@),
            Some(s) => (r matches Ok(c) && resolved_context(
                c,
                requested_uri@,
                project_id@,
                s,
                origin,
                match origin_evidence {
                    Some(x) => Some(x@),
                    None => None,
                },
                current,
                current_evidence,
            )),
        },
{
    let stored = match stored {
        Some(s) => s,
        None => return Err("Context Ref is unavailable.".to_string()),
    };
    if !str_eq(stored.project_id.as_str(), project_id) {
        return Ok(ContextRef {
            schema_version: CONTEXT_REF_SCHEMA.to_string(),
            uri: requested_uri.to_string(),
            project_id: stored.project_id,
            graph_id: stored.graph_id,
            graph_version: stored.graph_version,
            node_id: stored.node_id,
            status: "wrong-project".to_string(),
            origin_observation_id: stored.origin_observation_id,
            origin_source_revision: stored.origin_source_revision,
            origin_fingerprint: stored.origin_fingerprint,
            fingerprint_scope: "unavailable".to_string(),
            fingerprint_contract: fingerprint_contract("unavailable"),
            freshness_reason: "project-id-does-not-match-request".to_string(),
            origin_basis: None,
            current_basis: None,
            current_event_id: String::new(),
            successor_uri: None,
        });
    }
    let origin_basis = match &origin {
        Some(o) => Some(basis_of(stored.project_id.as_str(), o, &stored.origin_observation_id)),
        None => None,
    };
    let scope = stored.fingerprint_scope.as_str();
    let legacy = str_eq(scope, "legacy-file-v1");
    let scope_valid = str_eq(scope, "ast-and-direct-edges") || legacy;
    let metadata_valid = scope_valid && origin.is_some() && opt_eq(&origin_evidence, &stored.origin_fingerprint);
    let (status, reason, current_basis) = match &current {
        None => ("unavailable", "current graph observation is unavailable", None),
        Some(c) => {
            let basis = basis_of(project_id, c, &c.observation_id);
            let current_fingerprint: Option<String> = match &current_evidence {
                Some(e) => if legacy {
                    e.file_hash.clone()
                } else {
                    Some(e.node_fingerprint.clone())
                },
                None => None,
            };
            let matches = opt_eq(&current_fingerprint, &stored.origin_fingerprint);
            let result = if stored.origin_observation_id.as_str().is_empty()
                || stored.origin_fingerprint.as_str().is_empty() {
                ("unresolved", "legacy Context Ref has insufficient origin evidence")
            } else if origin.is_none() {
                ("unavailable", "origin graph observation is unavailable")
            } else if !metadata_valid {
                ("unavailable", "origin evidence metadata is inconsistent")
            } else if current_evidence.is_none() {
                ("stale", "origin node is missing from the current graph")
            } else if legacy {
                if matches {
                    ("current", "legacy file evidence matches")
                } else {
                    ("stale", "legacy file evidence changed")
                }
            } else if matches {
                if str_eq(c.observation_id.as_str(), stored.origin_observation_id.as_str()) {
                    ("current", "origin-observation-current")
                } else {
                    ("current", "node AST and direct-edge fingerprint matches")
                }
            } else {
                ("stale", "node AST or direct-edge fingerprint changed")
            };
            (result.0, result.1, Some(basis))
        },
    };
    let contract = fingerprint_contract(scope);
    Ok(ContextRef {
        schema_version: CONTEXT_REF_SCHEMA.to_string(),
        uri: requested_uri.to_string(),
        project_id: stored.project_id,
        graph_id: stored.graph_id,
        graph_version: stored.graph_version,
        node_id: stored.node_id,
        status: status.to_string(),
        origin_observation_id: stored.origin_observation_id,
        origin_source_revision: stored.origin_source_revision,
        origin_fingerprint: stored.origin_fingerprint,
        fingerprint_scope: stored.fingerprint_scope,
        fingerprint_contract: contract,
        freshness_reason: reason.to_string(),
        origin_basis,
        current_basis,
        current_event_id: String::new(),
        successor_uri: None,
    })
}

/// Sorted by URI.
pub open spec fn uri_sorted(s: Seq<ContextRef>) -> bool {
    forall|i: int, j: int| 0 <= i < j < s.len() ==> !str_lt(#[trigger] s[j].uri@, #[trigger] s[i].uri@)
}

/// `refs` ordered by URI; refs with the same URI keep their order.
pub fn sort_by_uri(refs: Vec<ContextRef>) -> (r: Vec<ContextRef>)
    ensures
        uri_sorted(r@),
        r@.to_multiset() == refs@.to_multiset(),
{
    let mut out: Vec<ContextRef> = Vec::new();
    let mut i: usize = 0;
    assert(refs@.take(0) =~= out@);
    while i < refs.len()
        invariant
            i <= refs@.len(),
            uri_sorted(out@),
            out@.to_multiset() == refs@.take(i as int).to_multiset(),
        decreases refs@.len() - i,
    {
        let x = refs[i].clone();
        let mut k: usize = 0;
        while k < out.len() && !str_less(x.uri.as_str(), out[k].uri.as_str())
            invariant
                k <= out@.len(),
                forall|m: int| 0 <= m < k ==> !str_lt(x.uri@, #[trigger] out@[m].uri@),
            decreases out@.len() - k,
        {
            k = k + 1;
        }
        let ghost before = out@;
        out.insert(k, x);
        proof {
            vstd::seq_lib::to_multiset_insert(before, k as int, x);
            assert(refs@.take(i as int + 1) =~= refs@.take(i as int).push(refs@[i as int]));
            vstd::seq_lib::to_multiset_build(refs@.take(i as int), refs@[i as int]);
            assert(out@ =~= before.insert(k as int, x));
            assert forall|a: int, b: int| 0 <= a < b < out@.len() implies !str_lt(
                #[trigger] out@[b].uri@,
                #[trigger] out@[a].uri@,
            ) by {
                if b < k {
                    assert(out@[a] == before[a] && out@[b] == before[b]);
                } else if b == k {
                    assert(out@[a] == before[a]);
                } else if a == k {
                    assert(out@[b] == before[b - 1]);
                    assert(str_lt(x.uri@, before[k as int].uri@) || k as int == before.len());
                    if b - 1 > k {
                        assert(!str_lt(before[b - 1].uri@, before[k as int].uri@));
                        lemma_str_lt_total(before[b - 1].uri@, before[k as int].uri@);
                        if before[b - 1].uri@ != before[k as int].uri@ {
                            lemma_str_lt_transitive(x.uri@, before[k as int].uri@, before[b - 1].uri@);
                        }
                    }
                    lemma_str_lt_asymmetric(x.uri@, before[b - 1].uri@);
                } else if a < k {
                    assert(out@[a] == before[a] && out@[b] == before[b - 1]);
                    assert(!str_lt(x.uri@, before[a].uri@));
                    lemma_str_lt_total(x.uri@, before[a].uri@);
                    if b - 1 > k {
                        assert(!str_lt(before[b - 1].uri@, before[k as int].uri@));
                    }
                    assert(!str_lt(before[b - 1].uri@, x.uri@)) by {
                        if k < before.len() {
                            lemma_str_lt_total(before[b - 1].uri@, before[k as int].uri@);
                            if before[b - 1].uri@ != before[k as int].uri@ {
                                lemma_str_lt_transitive(x.uri@, before[k as int].uri@, before[b - 1].uri@);
                            }
                            lemma_str_lt_asymmetric(x.uri@, before[b - 1].uri@);
                        }
                    }
                    if before[a].uri@ != x.uri@ {
                        if str_lt(before[b - 1].uri@, before[a].uri@) {
                            lemma_str_lt_transitive(before[a].uri@, x.uri@, before[b - 1].uri@);
                            lemma_str_lt_total(before[b - 1].uri@, x.uri@);
                            lemma_str_lt_asymmetric(before[a].uri@, before[b - 1].uri@);
                        }
                    }
                } else {
                    assert(out@[a] == before[a - 1] && out@[b] == before[b - 1]);
                }
            }
        }
        i = i + 1;
    }
    assert(refs@.take(refs@.len() as int) =~= refs@);
    out
}

/// The nodes that have a path, in order.
pub open spec fn path_nodes(nodes: Seq<GraphNode>) -> Seq<GraphNode>
    decreases nodes.len(),
{
    if nodes.len() == 0 {
        Seq::empty()
    } else if nodes.last().path is Some {
        path_nodes(nodes.drop_last()).push(nodes.last())
    } else {
        path_nodes(nodes.drop_last())
    }
}

/// The basis of a snapshot.
pub open spec fn snapshot_basis(s: GraphSnapshot) -> (Seq<char>, Seq<char>, u64, Seq<char>, Seq<char>) {
    (s.project_id@, s.graph_id@, s.graph_version, s.source_revision@, s.observation_id@)
}

/// The Context Ref a snapshot records for node `n`.
pub open spec fn snapshot_ref(r: ContextRef, s: GraphSnapshot, n: GraphNode) -> bool {
    &&& r.schema_version@ == CONTEXT_REF_SCHEMA@
    &&& r.uri@ == spec_uri(s.project_id@, s.graph_id@, n.id@)
    &&& r.project_id@ == s.project_id@
    &&& r.graph_id@ == s.graph_id@
    &&& r.graph_version == s.graph_version
    &&& r.node_id@ == n.id@
    &&& r.status@ == "current"@
    &&& r.origin_observation_id@ == s.observation_id@
    &&& r.origin_source_revision@ == s.source_revision@
    &&& r.origin_fingerprint@ == n.evidence_fingerprint@
    &&& r.fingerprint_scope@ == "ast-and-direct-edges"@
    &&& r.fingerprint_contract@ == NODE_FINGERPRINT_CONTRACT@
    &&& r.freshness_reason@ == "origin-observation-current"@
    &&& opt_basis_view(r.origin_basis) == Some(snapshot_basis(s))
    &&& opt_basis_view(r.current_basis) == Some(snapshot_basis(s))
    &&& r.current_event_id@.len() == 0
    &&& r.successor_uri is None
}

fn snapshot_graph_basis(s: &GraphSnapshot) -> (r: GraphBasis)
    ensures
        basis_view(r) == snapshot_basis(*s),
{
    GraphBasis {
        project_id: s.project_id.clone(),
        graph_id: s.graph_id.clone(),
        graph_version: s.graph_version,
        source_revision: s.source_revision.clone(),
        observation_id: s.observation_id.clone(),
    }
}

/// The Context Refs a snapshot records, before they are persisted: one for each node
/// with a path, in node order, at most `MAX_CONTEXT_REFS`.
pub fn snapshot_refs(snapshot: &GraphSnapshot) -> (r: Vec<ContextRef>)
    ensures
        r@.len() == if path_nodes(snapshot.nodes@).len() < MAX_CONTEXT_REFS {
            path_nodes(snapshot.nodes@).len()
        } else {
            MAX_CONTEXT_REFS as nat
        },
        forall|i: int| 0 <= i < r@.len() ==> snapshot_ref(#[trigger] r@[i], *snapshot, path_nodes(snapshot.nodes@)[i]),
{
    let mut refs: Vec<ContextRef> = Vec::new();
    let mut i: usize = 0;
    let nodes = &snapshot.nodes;
    while i < nodes.len() && refs.len() < MAX_CONTEXT_REFS
        invariant
            i <= nodes@.len(),
            nodes@ == snapshot.nodes@,
            refs@.len() == path_nodes(nodes@.take(i as int)).len(),
            refs@.len() <= MAX_CONTEXT_REFS,
            forall|k: int| 0 <= k < refs@.len() ==> snapshot_ref(#[trigger] refs@[k], *snapshot, path_nodes(nodes@.take(i as int))[k]),
        decreases nodes@.len() - i,
    {
        let ghost before = path_nodes(nodes@.take(i as int));
        assert(nodes@.take(i as int + 1).drop_last() =~= nodes@.take(i as int));
        let node = &nodes[i];
        if node.path.is_some() {
            let reference = ContextRef {
                schema_version: CONTEXT_REF_SCHEMA.to_string(),
                uri: uri(snapshot.project_id.as_str(), snapshot.graph_id.as_str(), node.id.as_str()),
                project_id: snapshot.project_id.clone(),
                graph_id: snapshot.graph_id.clone(),
                graph_version: snapshot.graph_version,
                node_id: node.id.clone(),
                status: "current".to_string(),
                origin_observation_id: snapshot.observation_id.clone(),
                origin_source_revision: snapshot.source_revision.clone(),
                origin_fingerprint: node.evidence_fingerprint.clone(),
                fingerprint_scope: "ast-and-direct-edges".to_string(),
                fingerprint_contract: NODE_FINGERPRINT_CONTRACT.to_string(),
                freshness_reason: "origin-observation-current".to_string(),
                origin_basis: Some(snapshot_graph_basis(snapshot)),
                current_basis: Some(snapshot_graph_basis(snapshot)),
                current_event_id: String::new(),
                successor_uri: None,
            };
            refs.push(reference);
            assert(path_nodes(nodes@.take(i as int + 1)) == before.push(nodes@[i as int]));
        } else {
            assert(path_nodes(nodes@.take(i as int + 1)) == before);
        }
        i = i + 1;
    }
    proof {
        if i == nodes@.len() {
            assert(nodes@.take(i as int) =~= nodes@);
        } else {
            lemma_path_nodes_prefix(nodes@, i as int);
        }
    }
    refs
}

proof fn lemma_path_nodes_prefix(nodes: Seq<GraphNode>, i: int)
    requires
        0 <= i <= nodes.len(),
    ensures
        path_nodes(nodes).len() >= path_nodes(nodes.take(i)).len(),
        forall|k: int| 0 <= k < path_nodes(nodes.take(i)).len() ==> path_nodes(nodes)[k] == #[trigger] path_nodes(nodes.take(i))[k],
    decreases nodes.len() - i,
{
    if i < nodes.len() {
        lemma_path_nodes_prefix(nodes.drop_last(), i);
        assert(nodes.drop_last().take(i) =~= nodes.take(i));
    } else {
        assert(nodes.take(i) =~= nodes);
    }
}

/// Whether the persisted, resolved `canonical` ref agrees with the `reference` recorded
/// for `snapshot`; `stored_fingerprint` is the recorded fingerprint of its origin node.
pub open spec fn canonical_matches(
    reference: ContextRef,
    snapshot: GraphSnapshot,
    canonical: ContextRef,
    stored_fingerprint: Option<Seq<char>>,
) -> bool {
    let current_matches = opt_basis_view(canonical.current_basis) == Some(snapshot_basis(snapshot));
    let origin_matches = opt_basis_view(canonical.origin_basis) == Some(
        (
            canonical.project_id@,
            canonical.graph_id@,
            canonical.graph_version,
            canonical.origin_source_revision@,
            canonical.origin_observation_id@,
        ),
    );
    let status = canonical.status@;
    &&& canonical.project_id@ == reference.project_id@
    &&& canonical.graph_id@ == reference.graph_id@
    &&& canonical.graph_version == reference.graph_version
    &&& canonical.node_id@ == reference.node_id@
    &&& (status == "current"@ || status == "stale"@ || status == "unresolved"@)
    &&& current_matches
    &&& (status == "unresolved"@ || (origin_matches && known_scope(canonical.fingerprint_scope@)
        && stored_fingerprint == Some(canonical.origin_fingerprint@)))
}

fn basis_matches(b: &Option<GraphBasis>, project_id: &String, graph_id: &String, graph_version: u64, revision: &String, observation_id: &String) -> (r: bool)
    ensures
        r == (opt_basis_view(*b) == Some((project_id@, graph_id@, graph_version, revision@, observation_id@))),
{
    match b {
        Some(b) => str_eq(b.project_id.as_str(), project_id.as_str()) && str_eq(b.graph_id.as_str(), graph_id.as_str())
            && b.graph_version == graph_version && str_eq(b.source_revision.as_str(), revision.as_str())
            && str_eq(b.observation_id.as_str(), observation_id.as_str()),
        None => false,
    }
}

/// Whether a persisted Context Ref agrees with the reference recorded for `snapshot`.
pub fn validate_canonical(
    reference: &ContextRef,
    snapshot: &GraphSnapshot,
    canonical: &ContextRef,
    stored_fingerprint: &Option<String>,
) -> (r: bool)
    ensures
        r == canonical_matches(*reference, *snapshot, *canonical, match stored_fingerprint {
            Some(f) => Some(f@),
            None => None,
        }),
{
    let current_matches = basis_matches(&canonical.current_basis, &snapshot.project_id, &snapshot.graph_id,
        snapshot.graph_version, &snapshot.source_revision, &snapshot.observation_id);
    let origin_matches = basis_matches(&canonical.origin_basis, &canonical.project_id, &canonical.graph_id,
        canonical.graph_version, &canonical.origin_source_revision, &canonical.origin_observation_id);
    let scope = canonical.fingerprint_scope.as_str();
    let scope_ok = str_eq(scope, "ast-and-direct-edges") || str_eq(scope, "legacy-file-v1");
    let status = canonical.status.as_str();
    let unresolved = str_eq(status, "unresolved");
    let status_ok = str_eq(status, "current") || str_eq(status, "stale") || unresolved;
    let fingerprint_ok = opt_eq(stored_fingerprint, &canonical.origin_fingerprint);
    str_eq(canonical.project_id.as_str(), reference.project_id.as_str())
        && str_eq(canonical.graph_id.as_str(), reference.graph_id.as_str())
        && canonical.graph_version == reference.graph_version
        && str_eq(canonical.node_id.as_str(), reference.node_id.as_str())
        && status_ok
        && current_matches
        && (unresolved || (origin_matches && scope_ok && fingerprint_ok))
}

/// The Context Refs of a snapshot, once persisted: each recorded `reference` with the
/// `canonical` ref the store resolved for it and its origin node's stored fingerprint.
/// Refused at the first canonical ref that disagrees with its reference; otherwise the
/// canonical refs ordered by URI.
pub fn for_snapshot(
    snapshot: &GraphSnapshot,
    persisted: Vec<(ContextRef, ContextRef, Option<String>)>,
) -> (r: Result<Vec<ContextRef>, String>)
    ensures
        match r {
            Ok(refs) => {
                &&& uri_sorted(refs@)
                &&& refs@.to_multiset() == persisted@.map_values(|t: (ContextRef, ContextRef, Option<String>)| t.1).to_multiset()
                &&& forall|i: int| 0 <= i < persisted@.len() ==> canonical_matches(
                    (#[trigger] persisted@[i]).0,
                    *snapshot,
                    persisted@[i].1,
                    match persisted@[i].2 {
                        Some(f) => Some(f@),
                        None => None,
                    },
                )
            },
            Err(e) => exists|i: int| 0 <= i < persisted@.len() && {
                &&& !canonical_matches(
                    (#[trigger] persisted@[i]).0,
                    *snapshot,
                    persisted@[i].1,
                    match persisted@[i].2 {
                        Some(f) => Some(f@),
                        None => None,
                    },
                )
                &&& forall|k: int| 0 <= k < i ==> canonical_matches(
                    (#[trigger] persisted@[k]).0,
                    *snapshot,
                    persisted@[k].1,
                    match persisted@[k].2 {
                        Some(f) => Some(f@),
                        None => None,
                    },
                )
                &&& e@ == "Persisted Context Ref "@ + persisted@[i].0.uri@
                    + " does not match the current graph observation."@
            },
        },
{
    let mut canonicals: Vec<ContextRef> = Vec::new();
    let mut i: usize = 0;
    while i < persisted.len()
        invariant
            i <= persisted@.len(),
            canonicals@ == persisted@.take(i as int).map_values(|t: (ContextRef, ContextRef, Option<String>)| t.1),
            forall|k: int| 0 <= k < i ==> canonical_matches(
                (#[trigger] persisted@[k]).0,
                *snapshot,
                persisted@[k].1,
                match persisted@[k].2 {
                    Some(f) => Some(f@),
                    None => None,
                },
            ),
        decreases persisted@.len() - i,
    {
        let entry = &persisted[i];
        if !validate_canonical(&entry.0, snapshot, &entry.1, &entry.2) {
            let mut e = "Persisted Context Ref ".to_string();
            e.append(entry.0.uri.as_str());
            e.append(" does not match the current graph observation.");
            return Err(e);
        }
        canonicals.push(entry.1.clone());
        assert(persisted@.take(i as int + 1).map_values(|t: (ContextRef, ContextRef, Option<String>)| t.1)
            =~= persisted@.take(i as int).map_values(|t: (ContextRef, ContextRef, Option<String>)| t.1).push(
            persisted@[i as int].1,
        ));
        i = i + 1;
    }
    assert(persisted@.take(persisted@.len() as int) =~= persisted@);
    Ok(sort_by_uri(canonicals))
}

/// A resolved Context Ref is "current" only when the node's current evidence carries its
/// origin fingerprint (the file hash, for the legacy file scope); for the AST and
/// direct-edge scope with consistent origin evidence, the node's current fingerprint
/// decides: the same fingerprint is current, another is stale.
pub proof fn law_context_ref_is_current_only_when_its_fingerprint_matches(
    r: ContextRef,
    requested_uri: Seq<char>,
    project_id: Seq<char>,
    stored: StoredContextRef,
    origin: Option<ObservationRow>,
    origin_evidence: Option<Seq<char>>,
    current: Option<ObservationRow>,
    current_evidence: Option<NodeEvidenceRow>,
)
    requires
        resolved_context(r, requested_uri, project_id, stored, origin, origin_evidence, current, current_evidence),
    ensures
        r.status@ == "current"@ ==> (current_evidence matches Some(e) && if stored.fingerprint_scope@ == "legacy-file-v1"@ {
            e.file_hash matches Some(h) && h@ == stored.origin_fingerprint@
        } else {
            e.node_fingerprint@ == stored.origin_fingerprint@
        }),
        ({
            &&& stored.project_id@ == project_id
            &&& current is Some
            &&& stored.fingerprint_scope@ == "ast-and-direct-edges"@
            &&& stored.origin_observation_id@.len() > 0
            &&& stored.origin_fingerprint@.len() > 0
            &&& origin is Some
            &&& origin_evidence == Some(stored.origin_fingerprint@)
            &&& current_evidence is Some
        }) ==> if current_evidence->0.node_fingerprint@ == stored.origin_fingerprint@ {
            r.status@ == "current"@
        } else {
            r.status@ == "stale"@ && r.freshness_reason@ == "node AST or direct-edge fingerprint changed"@
        },
        stored.project_id@ != project_id ==> r.status@ == "wrong-project"@,
        stored.project_id@ == project_id && current is None ==> r.status@ == "unavailable"@,
        ({
            &&& stored.project_id@ == project_id
            &&& current is Some
            &&& known_scope(stored.fingerprint_scope@)
            &&& stored.origin_observation_id@.len() > 0
            &&& stored.origin_fingerprint@.len() > 0
            &&& origin is Some
            &&& origin_evidence == Some(stored.origin_fingerprint@)
            &&& current_evidence is None
        }) ==> r.status@ == "stale"@ && r.freshness_reason@ == "origin node is missing from the current graph"@,
        stored.project_id@ == project_id && current is Some && stored.origin_observation_id@.len() > 0
            && stored.origin_fingerprint@.len() > 0 && origin is None ==> r.status@ == "unavailable"@,
{
    reveal_strlit("current");
    reveal_strlit("stale");
    reveal_strlit("unavailable");
    reveal_strlit("unresolved");
    reveal_strlit("wrong-project");
    reveal_strlit("legacy-file-v1");
    reveal_strlit("ast-and-direct-edges");
    assert("current"@.len() == 7);
    assert("stale"@.len() == 5);
    assert("unavailable"@.len() == 11);
    assert("unresolved"@.len() == 10);
    assert("wrong-project"@.len() == 13);
    assert("legacy-file-v1"@.len() == 14);
    assert("ast-and-direct-edges"@.len() == 20);
}

} // verus!
