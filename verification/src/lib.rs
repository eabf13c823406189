//! A composable blockchain client: state machine, consensus engines,
//! fork-choice rules, transaction pools, storage and the engine that wires them.

pub mod blockchain;
pub mod client;
pub mod consensus;
pub mod hashing;
mod nonce;
pub mod state_machine;
