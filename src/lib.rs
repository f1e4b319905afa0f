//! In-memory stores of a small time-tracking service: credentials with cached
//! session tokens, a registry of projects, and a ledger of time entries.
//!
//! Each store is a plain value whose operations take `&self` or `&mut self`;
//! a server shares a store between requests by putting it behind a lock, so
//! that the operations on one store follow each other one at a time.
pub mod auth;
pub mod calendar;
pub mod hints;
pub mod ledger;
pub mod registry;
mod table;
