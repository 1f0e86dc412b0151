//! State manager and broadcast fanout of a chat-room relay.
//!
//! Every executable function in this crate carries a contract over the
//! mathematical views of the types it touches, and Verus proves the body
//! against it.

pub mod app_state;
pub mod handlers;
pub mod laws;
pub mod outside;
pub mod redis;
pub mod registry;
pub mod types;
pub mod unique;
