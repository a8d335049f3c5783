//! Event-sourced conversation store of a desktop chat client.
//!
//! A conversation is an append-only log of timed events; its title and its
//! message transcript are derived from that log. The store keeps every
//! conversation under its 128-bit id.

pub mod chat;
pub mod commands;
pub mod config;
pub mod conversation;
pub mod error;
pub mod event;
pub mod fresh;
pub mod ids;
pub mod laws;
pub mod payloads;
pub mod store;
pub mod timestamp;
