//! Core of a rendezvous relay: clients register under self-asserted
//! identifiers, ask to be connected to one another, and exchange opaque
//! payloads which the relay forwards without inspecting. This crate holds
//! the verified logic — the connection registry, the busy set, and the
//! protocol step that routes one inbound frame — while transport I/O
//! stays with the caller.

pub mod bytes;
pub mod frames;
pub mod parse;
pub mod registry;
pub mod busy;
pub mod protocol;
pub mod laws;
