//! Deterministic graph evidence for TypeScript projects: resolution records, export
//! tables and call targets.

pub mod resolution_records;
pub mod targets;
pub mod fingerprints;
pub mod imports;
pub mod exports;
pub mod export_table;
pub mod import_targets;
pub mod calls;
pub mod call_edges;
pub mod heritage;
pub mod edge_order;
pub mod assembly;
pub mod declarations;
pub mod node_fingerprints;
pub mod structure;
pub mod identity_json;
pub mod snapshot;

use vstd::prelude::*;

pub use self::fingerprints::node_id;
pub use self::resolution_records::{resolution_evidence, MAX_RESOLUTION_RECORDS};

verus! {

/// The identity of the structural derivation that graphs are built with.
pub const GRAPH_DERIVATION_ID: &'static str = "typescript-structural-evidence-v7";

/// The most source files one graph covers.
pub const MAX_SOURCE_FILES: usize = 10000;

/// The most nodes one graph keeps.
pub const MAX_GRAPH_NODES: usize = 50000;

/// The most edges one graph keeps.
pub const MAX_GRAPH_EDGES: usize = 100000;

} // verus!
