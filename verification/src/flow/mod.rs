//! Bounded, framework-neutral TypeScript entry and context-flow evidence.

pub mod manifest;
pub mod package_json;
pub mod related_tests;
pub mod traversal;
pub mod projection;
pub mod derivation;

pub use self::derivation::{FlowDerivation, MAX_ENTRY_RECORDS, MAX_FLOWS, MAX_FLOW_REFS};
pub use self::manifest::{BinField, ManifestJson, PackageFields, MAX_MANIFEST_BYTES};
pub use self::projection::flow_id;
pub use self::related_tests::{derive_related_tests, MAX_RELATED_TEST_RECORDS};
pub use self::traversal::{MAX_FLOW_DEPTH, MAX_FLOW_EDGES, MAX_FLOW_STEPS};
