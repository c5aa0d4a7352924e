//! A mining pool coordinator, with a few small companions.
//!
//! Workers register a declared hashrate for the round in progress, receive a
//! share of the nonce space in proportion to it, and race to find a nonce
//! whose SHA-256 digest meets the round's difficulty. The first to succeed
//! ends the round, has its block recorded and is credited a reward.
//!
//! - [`error`]: why the pool refuses an operation.
//! - [`hashing`]: digests, candidates, the difficulty predicate, block ids.
//! - [`ledger`]: the workers of a round, their quotas and rewards.
//! - [`pool`]: the round, the solved blocks, the search, the announcements.
//! - [`laws`]: what holds of the pool whatever is done with it.
//! - [`miner`]: a miner that searches on its own from a nonce counter.
//! - [`chat`]: a log of length-checked, sanitized, numbered messages.
//! - [`chain`]: a chain of values, each the keyed hash of the one before.
//!
//! Everything here is plain state and computation. What a component
//! announces is kept in an outbox until a host takes it for delivery, and
//! nothing is read from or written to anywhere: a host persists what it
//! wants to keep.
//!
//! Each stateful type has a model, its view, and every operation states in
//! its contract how the model after the call follows from the model before.

pub mod chain;
pub mod chat;
pub mod error;
pub mod hashing;
pub mod laws;
pub mod ledger;
pub mod miner;
pub mod pool;
