//! Versioned diagnostic memory: contexts, assertions and their evidence.

pub mod validation;
pub mod contexts;
pub mod ranking;
pub mod diagnosis;
pub mod inspection;
pub mod packet;
pub mod continuity_evidence;
pub mod continuity;
