//! Verified core of a community discussion service's post subsystem:
//! creating, fetching, listing, voting on, editing and saving posts,
//! with authorization and ban checks resolved against an in-memory store.

pub mod domain;
pub mod ledger;
pub mod policy;
pub mod store;
pub mod listing;
pub mod api;
