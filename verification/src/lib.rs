//! A verified one-shot NFT mint.  One invocation creates a fresh mint with
//! supply 1, credits the caller's derived holding account, and attaches an
//! immutable metadata record and a master edition record capped at zero
//! further editions — all atomically or not at all.
//!
//! The library has two layers.  `ledger` and `orchestrator` give the
//! operation its meaning: an account model and a verified transition whose
//! contract pins the outcome of every invocation, success or failure.
//! `plan` produces the concrete delegated calls of one invocation through
//! the token ledger's and the metadata registry's own interfaces, pinning
//! their strict order and every argument handed over.

pub mod ledger;
pub mod orchestrator;
pub mod plan;

pub use orchestrator::{mint_nft, MintError, MintNFT};

pub use ledger::{
    AccountData, AccountV, Address, EditionRecord, Ledger, MetadataRecord, MetadataV, MintAccount,
    TokenHolding,
};
