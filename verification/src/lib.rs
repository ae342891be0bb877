//! An on-chain record store: one "student introduction" record per submitter,
//! each with a companion reply counter and an enumerable, counter-indexed set
//! of reply records. Storage addresses are derived deterministically from
//! identities and sequence data; records use a fixed, self-describing binary
//! layout with a create-once / update-in-place lifecycle.

pub mod account;
pub mod address;
pub mod codec;
pub mod error;
pub mod instruction;
pub mod laws;
pub mod processor;
pub mod state;
