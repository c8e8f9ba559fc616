//! Persistence contract of the local repository-memory store.

use vstd::prelude::*;

verus! {

/// The SQLite `user_version` that the current store layout carries.
pub const CURRENT_USER_VERSION: u32 = 12;

} // verus!
