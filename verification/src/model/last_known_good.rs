//! Attributed, append-only last-known-good bindings.

use vstd::prelude::*;

use super::diagnostic::{EvidenceReference, GitBasis, GraphBasis};
use super::schemas::LAST_KNOWN_GOOD_SCHEMA;

verus! {

/// What was checked when a binding was validated.
#[derive(Debug, Clone, PartialEq, Eq, Default)]
pub struct LastKnownGoodValidation {
    pub status: String,
    pub revision_available: bool,
    pub repository_match: bool,
    pub first_parent_range_available: bool,
    pub evidence_contract_compatible: bool,
    pub limitations: Vec<String>,
}

/// A binding of a context to a revision that was known to behave correctly.
#[derive(Debug, Clone, PartialEq, Eq)]
pub struct LastKnownGoodBinding {
    pub schema_version: String,
    pub binding_id: String,
    pub repository_id: String,
    pub project_id: String,
    pub context_id: String,
    pub git_revision: String,
    pub observation_id: Option<String>,
    pub event_id: Option<String>,
    pub graph_basis: Option<GraphBasis>,
    pub actor: String,
    pub actor_kind: String,
    pub evidence: Vec<EvidenceReference>,
    pub status: String,
    pub predecessor_binding_id: Option<String>,
    pub superseded_binding_id: Option<String>,
    pub created_at: u64,
    pub validation: LastKnownGoodValidation,
}

/// The binding that currently applies to a context, if any.
#[derive(Debug, Clone, PartialEq, Eq)]
pub struct LastKnownGoodResolution {
    pub schema_version: String,
    pub context_id: String,
    pub status: String,
    pub binding: Option<LastKnownGoodBinding>,
    pub legacy_basis: Option<GitBasis>,
    pub limitations: Vec<String>,
}

impl LastKnownGoodBinding {
    /// The schema identity of new bindings.
    pub fn new_schema_version() -> (r: String)
        ensures
            r@ == LAST_KNOWN_GOOD_SCHEMA@,
    {
        LAST_KNOWN_GOOD_SCHEMA.to_string()
    }
}

} // verus!
