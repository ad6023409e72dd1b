//! Turns approved governance proposals into exactly-once, sequenced,
//! canonically encoded cross-chain messages.

pub mod codec;
pub mod errors;
pub mod state;
pub mod store;
