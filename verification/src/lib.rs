//! A greeting ledger: a one-time admin assignment, a greeting counter that only
//! the admin may reset, and the last greeting text kept for each user.
//!
//! The contract is a state machine over a durable key-value store. `model`
//! states it over plain values; `contract` runs it on a `Ledger`, an in-memory
//! store that journals every request, so that the requests can be carried out
//! against a host's store afterwards; `laws` proves what holds of every call
//! and every run of calls.

pub mod address;
pub mod contract;
pub mod error;
pub mod key;
pub mod laws;
pub mod ledger;
pub mod model;

pub use address::Address;
pub use contract::HelloContract;
pub use error::Error;
pub use key::DataKey;
pub use ledger::{Ledger, Operation};
pub use model::{MAX_NOMBRE, TTL_WINDOW};
