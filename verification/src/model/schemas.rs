//! Schema identities and the source-file records shared by every domain.

use vstd::prelude::*;

verus! {

pub const PRODUCT_IDENTITY: &'static str = "flopeek-repository-memory";
pub const PRODUCT_CONTRACT_SCHEMA: &'static str = "flopeek-product-contract/v10";
pub const GRAPH_SCHEMA: &'static str = "flopeek-graph/v7";
pub const CONTEXT_REF_SCHEMA: &'static str = "flopeek-context-ref/v4";
pub const PROTOCOL_SCHEMA: &'static str = "flopeek-protocol/v14";
pub const STORE_SCHEMA: &'static str = "flopeek-sqlite/v5";
pub const TYPESCRIPT_FACTS_SCHEMA: &'static str = "flopeek-typescript-facts/v4";
pub const TYPESCRIPT_RESOLUTION_SCHEMA: &'static str = "flopeek-typescript-resolution/v3";
pub const DIAGNOSTIC_CONTEXT_SCHEMA: &'static str = "flopeek-diagnostic-context/v3";
pub const DIAGNOSTIC_ASSERTION_SCHEMA: &'static str = "flopeek-diagnostic-assertion/v2";
pub const HISTORICAL_CANDIDATE_SCHEMA: &'static str = "flopeek-historical-candidate/v2";
pub const HISTORICAL_DIAGNOSIS_SCHEMA: &'static str = "flopeek-historical-diagnosis/v1";
pub const DIAGNOSTIC_PACKET_SCHEMA: &'static str = "flopeek-diagnostic-packet/v9";
pub const HISTORICAL_SNAPSHOT_SCHEMA: &'static str = "flopeek-historical-snapshot/v7";
pub const ENTRY_EVIDENCE_SCHEMA: &'static str = "flopeek-entry-evidence/v1";
pub const CONTEXT_FLOW_SCHEMA: &'static str = "flopeek-context-flow/v1";
pub const RELATED_TEST_EVIDENCE_SCHEMA: &'static str = "flopeek-related-test-evidence/v1";
pub const FLOW_REF_SCHEMA: &'static str = "flopeek-flow-ref/v2";
pub const OBSERVATION_CONTINUITY_SCHEMA: &'static str = "flopeek-observation-continuity/v2";
pub const CONTEXT_RECONCILIATION_SCHEMA: &'static str = "flopeek-context-reconciliation/v2";
pub const HISTORICAL_CONTEXT_CONTINUITY_SCHEMA: &'static str = "flopeek-historical-context-continuity/v1";
pub const LAST_KNOWN_GOOD_SCHEMA: &'static str = "flopeek-last-known-good/v2";

/// One analysed source file: its repository-relative path, language, size and content hash.
#[derive(Debug, PartialEq, Eq)]
pub struct SourceFile {
    pub path: String,
    pub language: String,
    pub bytes: u64,
    pub hash: String,
}

impl Clone for SourceFile {
    fn clone(&self) -> (r: Self)
        ensures
            r == *self,
    {
        SourceFile {
            path: self.path.clone(),
            language: self.language.clone(),
            bytes: self.bytes,
            hash: self.hash.clone(),
        }
    }
}

/// A span in a source file, in lines and columns.
#[derive(Debug, Clone, Copy, PartialEq, Eq)]
pub struct SourcePosition {
    pub start_line: usize,
    pub start_column: usize,
    pub end_line: usize,
    pub end_column: usize,
}

} // verus!
