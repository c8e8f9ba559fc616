//! Canonical Flow Ref identity and freshness resolution.
//!
//! The store rows a Flow Ref is resolved from are read by the caller; this module parses
//! the URI and decides from the rows what the reference is and how fresh it is.

use vstd::prelude::*;

use crate::context::{basis_view, opt_basis_view};
use crate::model::diagnostic::GraphBasis;
use crate::model::flow::{ContextFlow, FlowRef};
use crate::model::graph::GraphSnapshot;
use crate::model::FLOW_REF_SCHEMA;
use crate::text::{seq_starts_with, split, split_seq, starts_with, str_eq, views};

verus! {

broadcast use vstd::string::group_string_axioms;

/// The fingerprint scope of Flow Refs.
pub const FLOW_FINGERPRINT_SCOPE: &'static str = "flow-entry-steps-topology-related-tests";

/// The URI of a flow of a graph of a project.
pub open spec fn spec_uri(project_id: Seq<char>, graph_id: Seq<char>, flow_id: Seq<char>) -> Seq<char> {
    "fp://local/"@ + project_id + "/"@ + graph_id + "/flow/"@ + flow_id
}

/// The stable URI of a flow.
pub fn uri(project_id: &str, graph_id: &str, flow_id: &str) -> (r: String)
    ensures
        r@ == spec_uri(project_id@, graph_id@, flow_id@),
{
    let mut r = "fp://local/".to_string();
    r.append(project_id);
    r.append("/");
    r.append(graph_id);
    r.append("/flow/");
    r.append(flow_id);
    r
}

/// The project, graph and flow a Flow Ref URI names, or why it names none.
pub open spec fn spec_parse_uri(value: Seq<char>) -> Result<(Seq<char>, Seq<char>, Seq<char>), Seq<char>> {
    if !seq_starts_with(value, "fp://local/"@) {
        Err("Flow Ref URI must use fp://local/."@)
    } else {
        let parts = split_seq(value.skip(11), '/');
        let project = parts[0];
        let graph = if parts.len() > 1 { parts[1] } else { Seq::empty() };
        if parts.len() < 3 || parts[2] != "flow"@ {
            Err("Flow Ref URI must contain /flow/."@)
        } else {
            let flow = if parts.len() > 3 { parts[3] } else { Seq::empty() };
            if project.len() == 0 || graph.len() == 0 || flow.len() == 0 || parts.len() > 4 {
                Err("Flow Ref URI is malformed."@)
            } else {
                Ok((project, graph, flow))
            }
        }
    }
}

/// Parsing the URI of a flow gives back its project, graph and flow, when each is
/// non-empty and holds no `/`.
pub proof fn law_parse_uri_inverts_uri(project_id: Seq<char>, graph_id: Seq<char>, flow_id: Seq<char>)
    requires
        project_id.len() > 0,
        graph_id.len() > 0,
        flow_id.len() > 0,
        !project_id.contains('/'),
        !graph_id.contains('/'),
        !flow_id.contains('/'),
    ensures
        spec_parse_uri(spec_uri(project_id, graph_id, flow_id)) == Ok::<_, Seq<char>>((project_id, graph_id, flow_id)),
{
    reveal_strlit("fp://local/");
    reveal_strlit("/");
    reveal_strlit("/flow/");
    reveal_strlit("flow");
    let v = spec_uri(project_id, graph_id, flow_id);
    let rest = project_id + seq!['/'] + (graph_id + seq!['/'] + ("flow"@ + seq!['/'] + flow_id));
    assert(v =~= "fp://local/"@ + rest);
    assert(v.take(11) =~= "fp://local/"@);
    assert(v.skip(11) =~= rest);
    assert(!"flow"@.contains('/')) by {
        if "flow"@.contains('/') {
            let k = choose|k: int| 0 <= k < "flow"@.len() && "flow"@[k] == '/';
        }
    }
    crate::text::lemma_split_join(project_id, graph_id + seq!['/'] + ("flow"@ + seq!['/'] + flow_id), '/');
    crate::text::lemma_split_join(graph_id, "flow"@ + seq!['/'] + flow_id, '/');
    crate::text::lemma_split_join("flow"@, flow_id, '/');
    crate::text::lemma_split_without_sep(project_id, '/');
    crate::text::lemma_split_without_sep(graph_id, '/');
    crate::text::lemma_split_without_sep("flow"@, '/');
    crate::text::lemma_split_without_sep(flow_id, '/');
    assert(split_seq(rest, '/') =~= seq![project_id, graph_id, "flow"@, flow_id]);
}

/// Splits a Flow Ref URI into its project, graph and flow.
pub fn parse_uri(value: &str) -> (r: Result<(String, String, String), String>)
    ensures
        match spec_parse_uri(value@) {
            Ok((p, g, f)) => (r matches Ok(t) && t.0@ == p && t.1@ == g && t.2@ == f),
            Err(e) => (r matches Err(x) && x@ == e),
        },
{
    if !starts_with(value, "fp://local/") {
        return Err("Flow Ref URI must use fp://local/.".to_string());
    }
    proof {
        reveal_strlit("fp://local/");
    }
    let chars = crate::text::chars_of(value);
    let rest = crate::text::string_from(&chars, 11);
    let parts = split(rest.as_str(), '/');
    proof {
        crate::text::lemma_split_nonempty(rest@, '/');
    }
    let project = parts[0].clone();
    let graph = if parts.len() > 1 {
        parts[1].clone()
    } else {
        String::new()
    };
    if parts.len() < 3 || !str_eq(parts[2].as_str(), "flow") {
        return Err("Flow Ref URI must contain /flow/.".to_string());
    }
    let flow = if parts.len() > 3 {
        parts[3].clone()
    } else {
        String::new()
    };
    if project.as_str().is_empty() || graph.as_str().is_empty() || flow.as_str().is_empty() || parts.len() > 4 {
        return Err("Flow Ref URI is malformed.".to_string());
    }
    Ok((project, graph, flow))
}

/// A persisted Flow Ref row.
#[derive(Debug)]
pub struct StoredFlowRef {
    pub project_id: String,
    pub graph_id: String,
    pub graph_version: u64,
    pub flow_id: String,
    pub origin_observation_id: String,
    pub origin_source_revision: String,
    pub origin_fingerprint: String,
    pub fingerprint_scope: String,
}

/// The recorded observation a Flow Ref originates from: its project, revision (with
/// `+dirty` for a dirty tree) and graph.
#[derive(Debug)]
pub struct FlowOriginRow {
    pub project_id: String,
    pub source_revision: String,
    pub graph_version: u64,
    pub graph_id: String,
}

/// The project's current observation and the fingerprint of the flow in its graph.
#[derive(Debug)]
pub struct CurrentFlowRow {
    pub graph_id: String,
    pub graph_version: u64,
    pub observation_id: String,
    pub source_revision: String,
    pub fingerprint: Option<String>,
}

/// The origin basis of a stored ref, when its origin observation is recorded for the same
/// graph and agrees with the ref.
pub open spec fn origin_basis_of(stored: StoredFlowRef, origin: Option<FlowOriginRow>) -> Option<(Seq<char>, Seq<char>, u64, Seq<char>, Seq<char>)> {
    match origin {
        Some(o) => if o.graph_version == stored.graph_version && o.graph_id@ == stored.graph_id@
            && o.project_id@ == stored.project_id@ && o.source_revision@ == stored.origin_source_revision@ {
            Some((o.project_id@, stored.graph_id@, stored.graph_version, o.source_revision@, stored.origin_observation_id@))
        } else {
            None
        },
        None => None,
    }
}

/// Whether the origin observation is recorded at all for the ref's graph.
pub open spec fn origin_found(stored: StoredFlowRef, origin: Option<FlowOriginRow>) -> bool {
    origin matches Some(o) && o.graph_version == stored.graph_version && o.graph_id@ == stored.graph_id@
}

/// The current basis of a project.
pub open spec fn current_basis_of(project_id: Seq<char>, c: CurrentFlowRow) -> (Seq<char>, Seq<char>, u64, Seq<char>, Seq<char>) {
    (project_id, c.graph_id@, c.graph_version, c.source_revision@, c.observation_id@)
}

/// The status, reason and current basis of a stored Flow Ref.
pub open spec fn flow_freshness(
    project_id: Seq<char>,
    stored: StoredFlowRef,
    origin: Option<FlowOriginRow>,
    current: Option<CurrentFlowRow>,
) -> (Seq<char>, Seq<char>, Option<(Seq<char>, Seq<char>, u64, Seq<char>, Seq<char>)>) {
    if origin_basis_of(stored, origin) is None || stored.origin_fingerprint@.len() == 0 {
        (
            "unavailable"@,
            if stored.origin_fingerprint@.len() == 0 {
                "origin-flow-evidence-unavailable"@
            } else if !origin_found(stored, origin) {
                "origin-observation-unavailable"@
            } else {
                "origin-flow-basis-inconsistent"@
            },
            match current {
                Some(c) => Some(current_basis_of(project_id, c)),
                None => None,
            },
        )
    } else {
        match current {
            None => ("unavailable"@, "origin-graph-unavailable"@, None),
            Some(c) => {
                let basis = Some(current_basis_of(project_id, c));
                match c.fingerprint {
                    None => ("stale"@, "flow-identity-missing"@, basis),
                    Some(f) => if f@ == stored.origin_fingerprint@ && c.observation_id@ == stored.origin_observation_id@ {
                        ("current"@, "origin-observation-current"@, basis)
                    } else if f@ == stored.origin_fingerprint@ {
                        ("current"@, "flow-fingerprint-match"@, basis)
                    } else {
                        ("stale"@, "flow-fingerprint-changed"@, basis)
                    },
                }
            },
        }
    }
}

/// What resolving a stored Flow Ref yields, or why it is refused.
pub open spec fn resolved_from_row(
    r: Result<FlowRef, String>,
    requested_uri: Seq<char>,
    project_id: Seq<char>,
    stored: StoredFlowRef,
    origin: Option<FlowOriginRow>,
    current: Result<Option<CurrentFlowRow>, String>,
) -> bool {
    match spec_parse_uri(requested_uri) {
        Err(e) => (r matches Err(x) && x@ == e),
        Ok((up, ug, uf)) => if stored.project_id@ != project_id || up != project_id {
            (r matches Err(x) && x@ == "Flow Ref belongs to a different project."@)
        } else if ug != stored.graph_id@ || uf != stored.flow_id@ {
            (r matches Err(x) && x@ == "Flow Ref metadata conflicts with its URI."@)
        } else {
            match current {
                Err(m) => (r matches Err(x) && x@ == "Unable to read current Flow basis: "@ + m@),
                Ok(cur) => (r matches Ok(f) && {
                    let (status, reason, cb) = flow_freshness(project_id, stored, origin, cur);
                    &&& f.schema_version@ == FLOW_REF_SCHEMA@
                    &&& f.uri@ == requested_uri
                    &&& f.project_id@ == stored.project_id@
                    &&& f.graph_id@ == stored.graph_id@
                    &&& f.graph_version == stored.graph_version
                    &&& f.flow_id@ == stored.flow_id@
                    &&& f.status@ == status
                    &&& f.freshness_reason@ == reason
                    &&& f.origin_observation_id@ == stored.origin_observation_id@
                    &&& f.origin_source_revision@ == stored.origin_source_revision@
                    &&& f.origin_fingerprint@ == stored.origin_fingerprint@
                    &&& f.fingerprint_scope@ == stored.fingerprint_scope@
                    &&& opt_basis_view(f.origin_basis) == origin_basis_of(stored, origin)
                    &&& opt_basis_view(f.current_basis) == cb
                }),
            }
        },
    }
}

fn make_basis(project_id: &String, graph_id: &String, graph_version: u64, revision: &String, observation_id: &String) -> (r: GraphBasis)
    ensures
        basis_view(r) == (project_id@, graph_id@, graph_version, revision@, observation_id@),
{
    GraphBasis {
        project_id: project_id.clone(),
        graph_id: graph_id.clone(),
        graph_version,
        source_revision: revision.clone(),
        observation_id: observation_id.clone(),
    }
}

/// Resolves a stored Flow Ref row for `project_id` from its origin observation and the
/// project's current observation.
pub fn resolve_from_row(
    requested_uri: &str,
    project_id: &str,
    stored: StoredFlowRef,
    origin: Option<FlowOriginRow>,
    current: Result<Option<CurrentFlowRow>, String>,
) -> (r: Result<FlowRef, String>)
    ensures
        resolved_from_row(r, requested_uri@, project_id@, stored, origin, current),
{
    let (uri_project, uri_graph, uri_flow) = match parse_uri(requested_uri) {
        Ok(t) => t,
        Err(e) => return Err(e),
    };
    if !str_eq(stored.project_id.as_str(), project_id) || !str_eq(uri_project.as_str(), project_id) {
        return Err("Flow Ref belongs to a different project.".to_string());
    }
    if !str_eq(uri_graph.as_str(), stored.graph_id.as_str()) || !str_eq(uri_flow.as_str(), stored.flow_id.as_str()) {
        return Err("Flow Ref metadata conflicts with its URI.".to_string());
    }
    let found = match &origin {
        Some(o) => o.graph_version == stored.graph_version && str_eq(o.graph_id.as_str(), stored.graph_id.as_str()),
        None => false,
    };
    let origin_basis = match &origin {
        Some(o) => if found && str_eq(o.project_id.as_str(), stored.project_id.as_str()) && str_eq(
            o.source_revision.as_str(),
            stored.origin_source_revision.as_str(),
        ) {
            Some(make_basis(&o.project_id, &stored.graph_id, stored.graph_version, &o.source_revision, &stored.origin_observation_id))
        } else {
            None
        },
        None => None,
    };
    let current = match current {
        Ok(c) => c,
        Err(m) => {
            let mut e = "Unable to read current Flow basis: ".to_string();
            e.append(m.as_str());
            return Err(e);
        },
    };
    let pid = project_id.to_string();
    let no_fingerprint = stored.origin_fingerprint.as_str().is_empty();
    let (status, reason, current_basis) = if origin_basis.is_none() || no_fingerprint {
        let reason = if no_fingerprint {
            "origin-flow-evidence-unavailable"
        } else if !found {
            "origin-observation-unavailable"
        } else {
            "origin-flow-basis-inconsistent"
        };
        let basis = match &current {
            Some(c) => Some(make_basis(&pid, &c.graph_id, c.graph_version, &c.source_revision, &c.observation_id)),
            None => None,
        };
        ("unavailable", reason, basis)
    } else {
        match &current {
            None => ("unavailable", "origin-graph-unavailable", None),
            Some(c) => {
                let basis = Some(make_basis(&pid, &c.graph_id, c.graph_version, &c.source_revision, &c.observation_id));
                match &c.fingerprint {
                    None => ("stale", "flow-identity-missing", basis),
                    Some(f) => if str_eq(f.as_str(), stored.origin_fingerprint.as_str()) && str_eq(
                        c.observation_id.as_str(),
                        stored.origin_observation_id.as_str(),
                    ) {
                        ("current", "origin-observation-current", basis)
                    } else if str_eq(f.as_str(), stored.origin_fingerprint.as_str()) {
                        ("current", "flow-fingerprint-match", basis)
                    } else {
                        ("stale", "flow-fingerprint-changed", basis)
                    },
                }
            },
        }
    };
    Ok(FlowRef {
        schema_version: FLOW_REF_SCHEMA.to_string(),
        uri: requested_uri.to_string(),
        project_id: stored.project_id,
        graph_id: stored.graph_id,
        graph_version: stored.graph_version,
        flow_id: stored.flow_id,
        status: status.to_string(),
        origin_observation_id: stored.origin_observation_id,
        origin_source_revision: stored.origin_source_revision,
        origin_fingerprint: stored.origin_fingerprint,
        fingerprint_scope: stored.fingerprint_scope,
        freshness_reason: reason.to_string(),
        origin_basis,
        current_basis,
    })
}

/// A Flow Ref that is not resolved: it binds nothing and names no origin.
pub open spec fn bare_flow_ref(
    f: FlowRef,
    uri: Seq<char>,
    project_id: Seq<char>,
    graph_id: Seq<char>,
    flow_id: Seq<char>,
    status: Seq<char>,
    reason: Seq<char>,
) -> bool {
    &&& f.schema_version@ == FLOW_REF_SCHEMA@
    &&& f.uri@ == uri
    &&& f.project_id@ == project_id
    &&& f.graph_id@ == graph_id
    &&& f.graph_version == 0
    &&& f.flow_id@ == flow_id
    &&& f.status@ == status
    &&& f.origin_observation_id@.len() == 0
    &&& f.origin_source_revision@.len() == 0
    &&& f.origin_fingerprint@.len() == 0
    &&& f.fingerprint_scope@ == "unavailable"@
    &&& f.freshness_reason@ == reason
    &&& f.origin_basis is None
    &&& f.current_basis is None
}

fn bare_ref(uri: &str, project_id: String, graph_id: String, flow_id: String, status: &str, reason: &str) -> (r: FlowRef)
    ensures
        bare_flow_ref(r, uri@, project_id@, graph_id@, flow_id@, status@, reason@),
{
    FlowRef {
        schema_version: FLOW_REF_SCHEMA.to_string(),
        uri: uri.to_string(),
        project_id,
        graph_id,
        graph_version: 0,
        flow_id,
        status: status.to_string(),
        origin_observation_id: String::new(),
        origin_source_revision: String::new(),
        origin_fingerprint: String::new(),
        fingerprint_scope: "unavailable".to_string(),
        freshness_reason: reason.to_string(),
        origin_basis: None,
        current_basis: None,
    }
}

/// Resolves the Flow Ref `requested_uri` for `project_id`: a ref of another project is
/// reported `wrong-project`, one that is not stored `unavailable`; a stored one is resolved
/// from its row, its origin observation and the project's current observation.
pub fn resolve(
    requested_uri: &str,
    project_id: &str,
    stored: Option<StoredFlowRef>,
    origin: Option<FlowOriginRow>,
    current: Result<Option<CurrentFlowRow>, String>,
) -> (r: Result<FlowRef, String>)
    ensures
        match spec_parse_uri(requested_uri@) {
            Err(e) => (r matches Err(x) && x@ == e),
            Ok((up, ug, uf)) => if up != project_id@ {
                (r matches Ok(f) && bare_flow_ref(
                    f,
                    requested_uri@,
                    up,
                    ug,
                    uf,
                    "wrong-project"@,
                    "project-id-does-not-match-request"@,
                ))
            } else {
                match stored {
                    None => (r matches Ok(f) && bare_flow_ref(
                        f,
                        requested_uri@,
                        project_id@,
                        ug,
                        uf,
                        "unavailable"@,
                        "origin-flow-ref-unavailable"@,
                    )),
                    Some(s) => resolved_from_row(r, requested_uri@, project_id@, s, origin, current),
                }
            },
        },
{
    let (uri_project, graph_id, flow_id) = match parse_uri(requested_uri) {
        Ok(t) => t,
        Err(e) => return Err(e),
    };
    if !str_eq(uri_project.as_str(), project_id) {
        return Ok(bare_ref(requested_uri, uri_project, graph_id, flow_id, "wrong-project", "project-id-does-not-match-request"));
    }
    match stored {
        None => Ok(bare_ref(requested_uri, project_id.to_string(), graph_id, flow_id, "unavailable", "origin-flow-ref-unavailable")),
        Some(s) => resolve_from_row(requested_uri, project_id, s, origin, current),
    }
}

/// Resolves a Flow Ref that was just persisted for `project_id`: refused when it belongs
/// to another project or is not stored.
pub fn resolve_persisted(
    requested_uri: &str,
    project_id: &str,
    stored: Option<StoredFlowRef>,
    origin: Option<FlowOriginRow>,
    current: Result<Option<CurrentFlowRow>, String>,
) -> (r: Result<FlowRef, String>)
    ensures
        match spec_parse_uri(requested_uri@) {
            Err(e) => (r matches Err(x) && x@ == e),
            Ok((up, ug, uf)) => if up != project_id@ {
                (r matches Err(x) && x@ == "Flow Ref belongs to a different project."@)
            } else {
                match stored {
                    None => (r matches Err(x) && x@ == "Flow Ref is unavailable."@),
                    Some(s) => resolved_from_row(r, requested_uri@, project_id@, s, origin, current),
                }
            },
        },
{
    let (uri_project, _graph_id, _flow_id) = match parse_uri(requested_uri) {
        Ok(t) => t,
        Err(e) => return Err(e),
    };
    if !str_eq(uri_project.as_str(), project_id) {
        return Err("Flow Ref belongs to a different project.".to_string());
    }
    match stored {
        None => Err("Flow Ref is unavailable.".to_string()),
        Some(s) => resolve_from_row(requested_uri, project_id, s, origin, current),
    }
}

/// Whether a persisted Flow Ref agrees with the flow of `snapshot` it was recorded for.
pub open spec fn canonical_flow_matches(reference: FlowRef, flow: ContextFlow, snapshot: GraphSnapshot) -> bool {
    &&& opt_basis_view(reference.current_basis) == Some(crate::context::snapshot_basis(snapshot))
    &&& opt_basis_view(reference.origin_basis) == Some(
        (
            reference.project_id@,
            reference.graph_id@,
            reference.graph_version,
            reference.origin_source_revision@,
            reference.origin_observation_id@,
        ),
    )
    &&& reference.project_id@ == snapshot.project_id@
    &&& reference.graph_id@ == snapshot.graph_id@
    &&& reference.flow_id@ == flow.flow_id@
    &&& reference.origin_fingerprint@ == flow.fingerprint@
    &&& reference.fingerprint_scope@ == FLOW_FINGERPRINT_SCOPE@
}

/// The error of a persisted Flow Ref that disagrees with its flow.
pub const FLOW_REF_CONFLICT: &'static str = "Canonical Flow Ref metadata conflicts with the scanned flow.";

fn basis_equals(b: &Option<GraphBasis>, project_id: &String, graph_id: &String, graph_version: u64, revision: &String, observation_id: &String) -> (r: bool)
    ensures
        r == (opt_basis_view(*b) == Some((project_id@, graph_id@, graph_version, revision@, observation_id@))),
{
    match b {
        Some(b) => str_eq(b.project_id.as_str(), project_id.as_str()) && str_eq(b.graph_id.as_str(), graph_id.as_str())
            && b.graph_version == graph_version && str_eq(b.source_revision.as_str(), revision.as_str())
            && str_eq(b.observation_id.as_str(), observation_id.as_str()),
        None => false,
    }
}

/// Checks a persisted Flow Ref against the flow of `snapshot` it was recorded for.
pub fn validate_canonical(reference: &FlowRef, flow: &ContextFlow, snapshot: &GraphSnapshot) -> (r: Result<(), String>)
    ensures
        canonical_flow_matches(*reference, *flow, *snapshot) ==> r is Ok,
        !canonical_flow_matches(*reference, *flow, *snapshot) ==> (r matches Err(e) && e@ == FLOW_REF_CONFLICT@),
{
    let current_matches = basis_equals(&reference.current_basis, &snapshot.project_id, &snapshot.graph_id,
        snapshot.graph_version, &snapshot.source_revision, &snapshot.observation_id);
    let origin_matches = basis_equals(&reference.origin_basis, &reference.project_id, &reference.graph_id,
        reference.graph_version, &reference.origin_source_revision, &reference.origin_observation_id);
    if !str_eq(reference.project_id.as_str(), snapshot.project_id.as_str())
        || !str_eq(reference.graph_id.as_str(), snapshot.graph_id.as_str())
        || !str_eq(reference.flow_id.as_str(), flow.flow_id.as_str())
        || !str_eq(reference.origin_fingerprint.as_str(), flow.fingerprint.as_str())
        || !str_eq(reference.fingerprint_scope.as_str(), FLOW_FINGERPRINT_SCOPE)
        || !origin_matches || !current_matches {
        return Err(FLOW_REF_CONFLICT.to_string());
    }
    Ok(())
}

/// Sorted by URI.
pub open spec fn flow_uri_sorted(s: Seq<FlowRef>) -> bool {
    forall|i: int, j: int| 0 <= i < j < s.len() ==> !crate::order::str_lt(#[trigger] s[j].uri@, #[trigger] s[i].uri@)
}

/// The Flow Refs of a snapshot, once persisted: `persisted[i]` is the canonical ref the
/// store resolved for the snapshot's flow `i` (a flow without one has no stored ref).
/// Refused at the first flow whose ref is missing or disagrees with it; otherwise the
/// refs ordered by URI.
pub fn for_snapshot(snapshot: &GraphSnapshot, persisted: Vec<FlowRef>) -> (r: Result<Vec<FlowRef>, String>)
    ensures
        match r {
            Ok(refs) => {
                &&& snapshot.flows@.len() <= persisted@.len()
                &&& flow_uri_sorted(refs@)
                &&& refs@.to_multiset() == persisted@.take(snapshot.flows@.len() as int).to_multiset()
                &&& forall|i: int| 0 <= i < snapshot.flows@.len() ==> canonical_flow_matches(
                    #[trigger] persisted@[i],
                    snapshot.flows@[i],
                    *snapshot,
                )
            },
            Err(e) => exists|i: int| 0 <= i < snapshot.flows@.len() && {
                &&& forall|k: int| 0 <= k < i ==> k < persisted@.len() && canonical_flow_matches(
                    #[trigger] persisted@[k],
                    snapshot.flows@[k],
                    *snapshot,
                )
                &&& if i >= persisted@.len() {
                    e@ == "Flow Ref is unavailable."@
                } else {
                    !canonical_flow_matches(persisted@[i], snapshot.flows@[i], *snapshot) && e@ == FLOW_REF_CONFLICT@
                }
            },
        },
{
    let mut refs: Vec<FlowRef> = Vec::new();
    let mut i: usize = 0;
    while i < snapshot.flows.len()
        invariant
            i <= snapshot.flows@.len(),
            i <= persisted@.len(),
            refs@ == persisted@.take(i as int),
            forall|k: int| 0 <= k < i ==> canonical_flow_matches(#[trigger] persisted@[k], snapshot.flows@[k], *snapshot),
        decreases snapshot.flows@.len() - i,
    {
        if i >= persisted.len() {
            return Err("Flow Ref is unavailable.".to_string());
        }
        match validate_canonical(&persisted[i], &snapshot.flows[i], snapshot) {
            Ok(()) => {},
            Err(e) => return Err(e),
        }
        refs.push(persisted[i].clone());
        assert(persisted@.take(i as int + 1) =~= persisted@.take(i as int).push(persisted@[i as int]));
        i = i + 1;
    }
    Ok(sort_flow_refs(refs))
}

/// `refs` ordered by URI.
fn sort_flow_refs(refs: Vec<FlowRef>) -> (r: Vec<FlowRef>)
    ensures
        flow_uri_sorted(r@),
        r@.to_multiset() == refs@.to_multiset(),
{
    let mut out: Vec<FlowRef> = Vec::new();
    let mut i: usize = 0;
    assert(refs@.take(0) =~= out@);
    while i < refs.len()
        invariant
            i <= refs@.len(),
            flow_uri_sorted(out@),
            out@.to_multiset() == refs@.take(i as int).to_multiset(),
        decreases refs@.len() - i,
    {
        let x = refs[i].clone();
        let mut k: usize = 0;
        while k < out.len() && !crate::order::str_less(x.uri.as_str(), out[k].uri.as_str())
            invariant
                k <= out@.len(),
                forall|m: int| 0 <= m < k ==> !crate::order::str_lt(x.uri@, #[trigger] out@[m].uri@),
            decreases out@.len() - k,
        {
            k = k + 1;
        }
        let ghost before = out@;
        out.insert(k, x);
        proof {
            vstd::seq_lib::to_multiset_insert(before, k as int, x);
            assert(refs@.take(i as int + 1) =~= refs@.take(i as int).push(refs@[i as int]));
            vstd::seq_lib::to_multiset_build(refs@.take(i as int), refs@[i as int]);
            assert(out@ =~= before.insert(k as int, x));
            lemma_insert_keeps_sorted(before, k as int, x);
        }
        i = i + 1;
    }
    assert(refs@.take(refs@.len() as int) =~= refs@);
    out
}

proof fn lemma_insert_keeps_sorted(before: Seq<FlowRef>, k: int, x: FlowRef)
    requires
        0 <= k <= before.len(),
        flow_uri_sorted(before),
        forall|m: int| 0 <= m < k ==> !crate::order::str_lt(x.uri@, #[trigger] before[m].uri@),
        k < before.len() ==> crate::order::str_lt(x.uri@, before[k].uri@),
    ensures
        flow_uri_sorted(before.insert(k, x)),
{
    let out = before.insert(k, x);
    assert forall|a: int, b: int| 0 <= a < b < out.len() implies !crate::order::str_lt(
        #[trigger] out[b].uri@,
        #[trigger] out[a].uri@,
    ) by {
        crate::order::lemma_str_lt_irreflexive(x.uri@);
        if b < k {
            assert(out[a] == before[a] && out[b] == before[b]);
        } else if b == k {
            assert(out[a] == before[a]);
        } else if a == k {
            assert(out[b] == before[b - 1]);
            if b - 1 > k {
                assert(!crate::order::str_lt(before[b - 1].uri@, before[k].uri@));
                crate::order::lemma_str_lt_total(before[b - 1].uri@, before[k].uri@);
                if before[b - 1].uri@ != before[k].uri@ {
                    crate::order::lemma_str_lt_transitive(x.uri@, before[k].uri@, before[b - 1].uri@);
                }
            }
            crate::order::lemma_str_lt_asymmetric(x.uri@, before[b - 1].uri@);
        } else if a < k {
            assert(out[a] == before[a] && out[b] == before[b - 1]);
            assert(!crate::order::str_lt(before[b - 1].uri@, x.uri@)) by {
                if b - 1 > k {
                    assert(!crate::order::str_lt(before[b - 1].uri@, before[k].uri@));
                    crate::order::lemma_str_lt_total(before[b - 1].uri@, before[k].uri@);
                    if before[b - 1].uri@ != before[k].uri@ {
                        crate::order::lemma_str_lt_transitive(x.uri@, before[k].uri@, before[b - 1].uri@);
                    }
                }
                crate::order::lemma_str_lt_asymmetric(x.uri@, before[b - 1].uri@);
            }
            crate::order::lemma_str_lt_total(x.uri@, before[a].uri@);
            if str_lt_or_eq_chain(before[a].uri@, x.uri@, before[b - 1].uri@) {
            }
        } else {
            assert(out[a] == before[a - 1] && out[b] == before[b - 1]);
        }
    }
}

proof fn str_lt_or_eq_chain(a: Seq<char>, x: Seq<char>, c: Seq<char>) -> (r: bool)
    requires
        !crate::order::str_lt(x, a),
        !crate::order::str_lt(c, x),
    ensures
        !crate::order::str_lt(c, a),
{
    crate::order::lemma_str_lt_total(x, a);
    crate::order::lemma_str_lt_total(c, x);
    if crate::order::str_lt(c, a) {
        if a != x && c != x {
            crate::order::lemma_str_lt_transitive(a, x, c);
            crate::order::lemma_str_lt_asymmetric(a, c);
        } else if a == x {
            crate::order::lemma_str_lt_asymmetric(c, x);
        } else {
            crate::order::lemma_str_lt_asymmetric(a, x);
        }
    }
    true
}

/// A resolved Flow Ref is "current" only when the current flow carries its origin
/// fingerprint; with an origin observation that agrees with the ref, a current flow with
/// another fingerprint is stale.
pub proof fn law_flow_ref_is_current_only_when_its_fingerprint_matches(
    r: Result<FlowRef, String>,
    requested_uri: Seq<char>,
    project_id: Seq<char>,
    stored: StoredFlowRef,
    origin: Option<FlowOriginRow>,
    current: Result<Option<CurrentFlowRow>, String>,
)
    requires
        resolved_from_row(r, requested_uri, project_id, stored, origin, current),
    ensures
        r matches Ok(f) && f.status@ == "current"@ ==> (current matches Ok(Some(c)) && c.fingerprint matches Some(x)
            && x@ == stored.origin_fingerprint@),
        ({
            &&& r is Ok
            &&& origin matches Some(o) && o.graph_version == stored.graph_version && o.graph_id@ == stored.graph_id@
                && o.project_id@ == stored.project_id@ && o.source_revision@ == stored.origin_source_revision@
            &&& stored.origin_fingerprint@.len() > 0
            &&& current matches Ok(Some(c)) && c.fingerprint is Some
        }) ==> {
            let f = r->Ok_0;
            let x = current->Ok_0->Some_0.fingerprint->Some_0;
            if x@ == stored.origin_fingerprint@ {
                f.status@ == "current"@
            } else {
                f.status@ == "stale"@ && f.freshness_reason@ == "flow-fingerprint-changed"@
            }
        },
        r is Ok && (current matches Ok(Some(c)) && c.fingerprint is None) ==> r->Ok_0.status@ != "current"@,
        r is Ok && current == Ok::<Option<CurrentFlowRow>, String>(None) ==> r->Ok_0.status@ == "unavailable"@,
        r is Ok && stored.origin_fingerprint@.len() == 0 ==> r->Ok_0.status@ == "unavailable"@,
{
    reveal_strlit("current");
    reveal_strlit("stale");
    reveal_strlit("unavailable");
    assert("current"@.len() == 7);
    assert("stale"@.len() == 5);
    assert("unavailable"@.len() == 11);
}

} // verus!
