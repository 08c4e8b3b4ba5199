//! Core logic of a TCP forwarding daemon: forwarding rules are normalized
//! into concrete address pairs, and the decisions around listeners, relays,
//! reloads and descriptor limits are stated as contracts.

pub mod addr;
pub mod cli;
pub mod limits;
pub mod listener;
pub mod rules;
pub mod store;
pub mod supervisor;
