//! Repository-memory evidence for TypeScript projects.

pub mod context;
pub mod diagnostic;
pub mod discovery;
pub mod flow;
pub mod flow_ref;
pub mod graph;
pub mod hashing;
pub mod identity;
pub mod json;
pub mod model;
pub mod order;
pub mod store;
pub mod module_resolution;
pub mod temporal;
pub mod text;
pub mod typescript;
