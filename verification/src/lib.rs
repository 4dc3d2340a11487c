//! Authorization backend core: users, roles, permissions and groups, the
//! many-to-many bindings between them, and signed credentials that carry a
//! snapshot of a user's granted permission names.
//!
//! The crate is organised around two verified components:
//! a binding reconciliation engine (`reconcile`, `store`, `usecases`) that
//! creates, idempotently re-enables or soft-disables grants, and a credential
//! protocol (`crypto`, `token`) that hashes passwords, aggregates permission
//! names and encodes them into a symmetrically signed token.
//! Storage and transport are collaborators: the in-memory access model in
//! `store` realises the storage contract, and everything that talks to a
//! real database or the network lives outside this crate.

pub mod aggregate;
pub mod config;
pub mod crypto;
pub mod entities;
pub mod errors;
pub mod filters;
pub mod ports;
pub mod reconcile;
pub mod store;
pub mod time;
pub mod token;
pub mod usecases;
pub mod views;

use vstd::prelude::*;

verus! {

} // verus!
