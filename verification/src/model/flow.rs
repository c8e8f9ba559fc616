//! Entry, flow and related-test records.

use vstd::prelude::*;

use super::diagnostic::GraphBasis;
use super::schemas::{ENTRY_EVIDENCE_SCHEMA, RELATED_TEST_EVIDENCE_SCHEMA};

verus! {

/// The root package manifest that entry evidence was read from.
#[derive(Debug, PartialEq, Eq)]
pub struct EntryManifest {
    pub path: String,
    pub bytes: u64,
    pub hash: String,
}

impl Clone for EntryManifest {
    fn clone(&self) -> (r: Self)
        ensures
            r == *self,
    {
        EntryManifest { path: self.path.clone(), bytes: self.bytes, hash: self.hash.clone() }
    }
}

/// One declared package entry and what it statically resolves to.
#[derive(Debug, PartialEq, Eq)]
pub struct EntryRecord {
    pub key: String,
    pub kind: String,
    pub runner: Option<String>,
    pub target_path: Option<String>,
    pub target_node_id: Option<String>,
    pub status: String,
    pub reason: String,
}

impl Clone for EntryRecord {
    fn clone(&self) -> (r: Self)
        ensures
            r == *self,
    {
        EntryRecord {
            key: self.key.clone(),
            kind: self.kind.clone(),
            runner: self.runner.clone(),
            target_path: self.target_path.clone(),
            target_node_id: self.target_node_id.clone(),
            status: self.status.clone(),
            reason: self.reason.clone(),
        }
    }
}

/// Entry evidence of one observation.
#[derive(Debug, Clone, PartialEq, Eq)]
pub struct EntryEvidence {
    pub schema_version: String,
    pub status: String,
    pub manifest: Option<EntryManifest>,
    pub exact_fingerprint: String,
    pub effective_fingerprint: String,
    pub records: Vec<EntryRecord>,
    pub truncated: bool,
    pub omissions: Vec<String>,
    pub limitations: Vec<String>,
}

impl Default for EntryEvidence {
    fn default() -> (r: Self)
        ensures
            r.schema_version@ == ENTRY_EVIDENCE_SCHEMA@,
            r.status@ == "unavailable"@,
            r.manifest is None,
            r.exact_fingerprint@.len() == 0,
            r.effective_fingerprint@.len() == 0,
            r.records@.len() == 0,
            !r.truncated,
            r.omissions@.len() == 1,
            r.omissions@[0]@ == "legacy-entry-basis-unavailable"@,
            r.limitations@.len() == 1,
            r.limitations@[0]@ == "entry-manifest-evidence-unavailable"@,
    {
        let mut omissions = Vec::new();
        omissions.push("legacy-entry-basis-unavailable".to_string());
        let mut limitations = Vec::new();
        limitations.push("entry-manifest-evidence-unavailable".to_string());
        EntryEvidence {
            schema_version: ENTRY_EVIDENCE_SCHEMA.to_string(),
            status: "unavailable".to_string(),
            manifest: None,
            exact_fingerprint: String::new(),
            effective_fingerprint: String::new(),
            records: Vec::new(),
            truncated: false,
            omissions,
            limitations,
        }
    }
}

/// A test that is statically related to production code by a proven edge.
#[derive(Debug, PartialEq, Eq)]
pub struct RelatedTestRecord {
    pub test_path: String,
    pub test_node_id: String,
    pub target_node_id: String,
    pub relation: String,
    pub strength: String,
    pub status: String,
    pub reason: String,
}

impl Clone for RelatedTestRecord {
    fn clone(&self) -> (r: Self)
        ensures
            r == *self,
    {
        RelatedTestRecord {
            test_path: self.test_path.clone(),
            test_node_id: self.test_node_id.clone(),
            target_node_id: self.target_node_id.clone(),
            relation: self.relation.clone(),
            strength: self.strength.clone(),
            status: self.status.clone(),
            reason: self.reason.clone(),
        }
    }
}

/// All related-test records of one observation.
#[derive(Debug, Clone, PartialEq, Eq)]
pub struct RelatedTestEvidence {
    pub schema_version: String,
    pub status: String,
    pub records: Vec<RelatedTestRecord>,
    pub truncated: bool,
    pub omissions: Vec<String>,
}

/// Whether entry evidence is the placeholder of a legacy observation.
pub fn is_default_entry_evidence(value: &EntryEvidence) -> (r: bool)
    ensures
        r == (value.status@ == "unavailable"@ && value.manifest is None && value.records@.len() == 0
            && value.exact_fingerprint@.len() == 0 && value.effective_fingerprint@.len() == 0),
{
    value.status == "unavailable".to_string() && value.manifest.is_none() && value.records.len() == 0
        && value.exact_fingerprint.as_str().is_empty() && value.effective_fingerprint.as_str().is_empty()
}

/// Whether related-test evidence is the placeholder of a legacy observation.
pub fn is_default_related_test_evidence(value: &RelatedTestEvidence) -> (r: bool)
    ensures
        r == (value.status@ == "unavailable"@ && value.records@.len() == 0),
{
    value.status == "unavailable".to_string() && value.records.len() == 0
}

impl Default for RelatedTestEvidence {
    fn default() -> (r: Self)
        ensures
            r.schema_version@ == RELATED_TEST_EVIDENCE_SCHEMA@,
            r.status@ == "unavailable"@,
            r.records@.len() == 0,
            !r.truncated,
            r.omissions@.len() == 1,
            r.omissions@[0]@ == "related-test-evidence-unavailable"@,
    {
        let mut omissions = Vec::new();
        omissions.push("related-test-evidence-unavailable".to_string());
        RelatedTestEvidence {
            schema_version: RELATED_TEST_EVIDENCE_SCHEMA.to_string(),
            status: "unavailable".to_string(),
            records: Vec::new(),
            truncated: false,
            omissions,
        }
    }
}

/// One node visited by a static flow traversal.
#[derive(Debug, PartialEq, Eq)]
pub struct FlowStep {
    pub index: usize,
    pub node_id: String,
    pub path: Option<String>,
    pub name: Option<String>,
    pub role: String,
    pub evidence_fingerprint: String,
}

/// One edge traversed by a static flow traversal.
#[derive(Debug, PartialEq, Eq)]
pub struct FlowEdge {
    pub from: String,
    pub to: String,
    pub kind: String,
    pub evidence: String,
}

/// A bounded static traversal from a package entry.
#[derive(Debug, PartialEq, Eq)]
pub struct ContextFlow {
    pub schema_version: String,
    pub flow_id: String,
    pub entry_node_id: String,
    pub entry_kind: String,
    pub entry_key: String,
    pub steps: Vec<FlowStep>,
    pub traversed_edges: Vec<FlowEdge>,
    pub related_tests: Vec<RelatedTestRecord>,
    pub fingerprint: String,
    pub status: String,
    pub truncated: bool,
    pub omissions: Vec<String>,
    pub limitations: Vec<String>,
}

impl Clone for FlowStep {
    fn clone(&self) -> (r: Self)
        ensures
            r == *self,
    {
        FlowStep {
            index: self.index,
            node_id: self.node_id.clone(),
            path: self.path.clone(),
            name: self.name.clone(),
            role: self.role.clone(),
            evidence_fingerprint: self.evidence_fingerprint.clone(),
        }
    }
}

impl Clone for FlowEdge {
    fn clone(&self) -> (r: Self)
        ensures
            r == *self,
    {
        FlowEdge { from: self.from.clone(), to: self.to.clone(), kind: self.kind.clone(), evidence: self.evidence.clone() }
    }
}

/// Two flows with equal fields, their lists taken by their items.
pub open spec fn same_flow(a: ContextFlow, b: ContextFlow) -> bool {
    &&& a.schema_version == b.schema_version
    &&& a.flow_id == b.flow_id
    &&& a.entry_node_id == b.entry_node_id
    &&& a.entry_kind == b.entry_kind
    &&& a.entry_key == b.entry_key
    &&& a.steps@ == b.steps@
    &&& a.traversed_edges@ == b.traversed_edges@
    &&& a.related_tests@ == b.related_tests@
    &&& a.fingerprint == b.fingerprint
    &&& a.status == b.status
    &&& a.truncated == b.truncated
    &&& a.omissions@ == b.omissions@
    &&& a.limitations@ == b.limitations@
}

impl Clone for ContextFlow {
    fn clone(&self) -> (r: Self)
        ensures
            same_flow(r, *self),
    {
        let r = ContextFlow {
            schema_version: self.schema_version.clone(),
            flow_id: self.flow_id.clone(),
            entry_node_id: self.entry_node_id.clone(),
            entry_kind: self.entry_kind.clone(),
            entry_key: self.entry_key.clone(),
            steps: self.steps.clone(),
            traversed_edges: self.traversed_edges.clone(),
            related_tests: self.related_tests.clone(),
            fingerprint: self.fingerprint.clone(),
            status: self.status.clone(),
            truncated: self.truncated,
            omissions: self.omissions.clone(),
            limitations: self.limitations.clone(),
        };
        assert(r.steps@ =~= self.steps@);
        assert(r.traversed_edges@ =~= self.traversed_edges@);
        assert(r.related_tests@ =~= self.related_tests@);
        assert(r.omissions@ =~= self.omissions@);
        assert(r.limitations@ =~= self.limitations@);
        r
    }
}

/// A stable reference to a flow and its freshness.
#[derive(Debug, PartialEq, Eq)]
pub struct FlowRef {
    pub schema_version: String,
    pub uri: String,
    pub project_id: String,
    pub graph_id: String,
    pub graph_version: u64,
    pub flow_id: String,
    pub status: String,
    pub origin_observation_id: String,
    pub origin_source_revision: String,
    pub origin_fingerprint: String,
    pub fingerprint_scope: String,
    pub freshness_reason: String,
    pub origin_basis: Option<GraphBasis>,
    pub current_basis: Option<GraphBasis>,
}

impl Clone for FlowRef {
    fn clone(&self) -> (r: Self)
        ensures
            r == *self,
    {
        FlowRef {
            schema_version: self.schema_version.clone(),
            uri: self.uri.clone(),
            project_id: self.project_id.clone(),
            graph_id: self.graph_id.clone(),
            graph_version: self.graph_version,
            flow_id: self.flow_id.clone(),
            status: self.status.clone(),
            origin_observation_id: self.origin_observation_id.clone(),
            origin_source_revision: self.origin_source_revision.clone(),
            origin_fingerprint: self.origin_fingerprint.clone(),
            fingerprint_scope: self.fingerprint_scope.clone(),
            freshness_reason: self.freshness_reason.clone(),
            origin_basis: self.origin_basis.clone(),
            current_basis: self.current_basis.clone(),
        }
    }
}

} // verus!
