//! State-transition core of a Layer-2 rollup.
//!
//! The chain derives its canonical state from a sequence of actions observed
//! on an underlying base-layer ledger: it maintains an account-indexed state
//! commitment, executes transactions against that state, assembles new
//! blocks, and adjudicates disputes through a challenge / cancel-challenge
//! protocol.
//!
//! Layered bottom up: [`hash`] defines 256-bit values and the digest behind
//! every commitment; [`state`] the canonical key/value tree; [`types`] the
//! semantic chain types and their hashes; [`account`] the account-indexed
//! slots over the tree; [`account_lock`] the signature-capability registry;
//! [`generator`] deterministic execution into pure diffs; [`store`] the
//! versioned checkpoints and the tip; [`genesis`] the deterministic first
//! block; [`tx_pool`] the pending-work pool; [`chain`] the sync driver and
//! the block producer; [`config`] the deployment configuration and its
//! decoding.

pub mod account;
pub mod account_lock;
pub mod chain;
pub mod config;
pub mod generator;
pub mod genesis;
pub mod hash;
pub mod state;
pub mod store;
pub mod tx_pool;
pub mod types;
