//! The identity of the TypeScript parser whose facts the graph is built from.

use vstd::prelude::*;

verus! {

/// The parser, and its grammar version, that produced a file's structural facts.
pub const PARSER_IDENTITY: &'static str = "tree-sitter-typescript/0.23.2";

} // verus!
