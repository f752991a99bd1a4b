//! An in-memory command center: a registry of runnable commands, a bounded
//! execution history, credentials with time-limited sessions, and an event bus
//! that fans every state change out to its subscribers.

pub mod text;
pub mod sources;
pub mod domain;
pub mod events;
pub mod error;
pub mod registry;
pub mod history;
pub mod auth;
pub mod engine;
pub mod state;
pub mod header;
