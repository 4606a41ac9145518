//! An event-sourced chat room core: commands are decided against state
//! rebuilt from an append-only event log, committed under optimistic
//! concurrency control, and folded into a queryable read model.
use vstd::prelude::*;

pub mod account;
pub mod aggregate;
pub mod commands;
pub mod event_store;
pub mod events;
pub mod external;
pub mod framework;
pub mod laws;
pub mod participants;
pub mod views;

verus! {

} // verus!
