//! Seed-derived program accounts: address derivation, a discriminator-tagged
//! record codec, an initialize-or-reuse account lifecycle, and the instruction
//! handlers of a few small ledger programs built on them.

pub mod error;
pub mod identity;
pub mod codec;
pub mod derivation;
pub mod lifecycle;
pub mod counter;
pub mod favorites;
pub mod store_number;
pub mod adder;
pub mod emit_log;
pub mod schema;
