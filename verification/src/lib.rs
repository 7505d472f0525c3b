//! A proof-of-work blockchain ledger: a persistent stack of signed blocks
//! with hash linkage, a deterministic binary encoding, and a billing query
//! that extracts the chain suffix since a user's most recent billing record.
//!
//! - [`stack`]: the immutable reference-counted stack the chain is built on.
//! - [`tx`]: payloads (billing and usage records) and their signed envelope.
//! - [`codec`]: the deterministic binary encoding, with decoding proved to
//!   invert encoding.
//! - [`block`]: blocks, hashing, the difficulty predicate, and mining.
//! - [`chain`]: the blockchain with insertion checks, validation, and the
//!   whole-chain encoding used for persistence.
//! - [`crypto`]: public keys, fingerprints and signature validation.
//! - [`wrapper`]: the single-writer wrapper and the billing-suffix query.

pub mod block;
pub mod chain;
pub mod codec;
pub mod crypto;
pub mod stack;
pub mod tx;
pub mod wrapper;
