//! Core of a small service that stores log entries sent by devices and serves
//! them back, newest first or one at a time.
//!
//! The crate holds everything the service decides: how record identifiers are
//! written on the wire, which requests are turned away before the store is
//! asked, what is asked of the store, and which response each outcome gets.
//! Talking to the network and to the store is left to the program around it.

pub mod error;
pub mod handlers;
pub mod listing;
pub mod model;
pub mod object_id;
pub mod store;
