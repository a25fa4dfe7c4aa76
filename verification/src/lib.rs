//! A registry that attaches a short display symbol and name to a
//! fungible-asset record, on behalf of a host that stores the records
//! and verifies signatures.
//!
//! The crate has three parts: a binary instruction codec
//! ([`instruction`]), fixed-width record codecs ([`state`]), and the
//! state-transition processor ([`processor`]) that validates a request
//! against the supplied accounts and applies it.

pub mod error;
pub mod instruction;
pub mod processor;
pub mod pubkey;
pub mod state;
