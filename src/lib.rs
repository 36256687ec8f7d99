//! An inbox ledger for encrypted messages: one counter record per recipient,
//! a per-message address bound to that counter, and the plan of the call that
//! hands the encrypted payload on to the compressed-state program.

pub mod address;
pub mod inbox;
pub mod send;
pub mod registry;
