//! Verified core of a privacy-preserving federated-learning coordinator.
//!
//! The coordinator drives rounds of masked model aggregation: participants
//! submit additively masked model updates, and the coordinator aggregates
//! the ciphertexts and reconstructs only the aggregate mask, so that no
//! individual contribution is ever revealed.
//!
//! The crate holds the round state machine, the masked-aggregation engine
//! with its big-integer modular arithmetic, the mask object wire codec, the
//! event bus and fetcher services, and the request types of the coordinator.
//! All executable logic is verified; calls into the crypto library stand
//! behind a small set of trusted wrappers.

pub mod bytes;
pub mod config;
pub mod masks;
pub mod codec;
pub mod aggregation;
pub mod crypto;
pub mod dict;
pub mod events;
pub mod requests;
pub mod message;
pub mod phases;
pub mod fetchers;
pub mod settings;
pub mod rpc;
