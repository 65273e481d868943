//! Coordination logic for a live, multi-device performance: seats claimed by
//! participant devices, the message protocol they speak, integrity manifests,
//! chunked file frames and the cue that starts a phase on every device.
//!
//! The library reads no file and writes to no connection. Callers hand it the
//! text of each inbound message and the bytes of each file, and carry out
//! what it returns.
//!
//! - [`handlers`] answers one message at a time; [`protocol`] holds the
//!   requests and replies and their form on the wire.
//! - [`performance_types`] is the registry of claimed seats.
//! - [`content`] finds what a seat needs, [`transfer`] frames a file,
//!   [`cue`] makes the cue for a phase.
//! - [`server_controller`] and [`server_commands`] keep the one running
//!   server; [`state`] and [`design_commands`] keep the design of a session.
//! - [`text`] and [`text_map`] are the tools underneath; [`json`], [`digest`],
//!   [`clock`] and [`client_id`] hold what is taken on trust from other crates.
//! - [`laws`] states what holds across several of these.

pub mod client_id;
pub mod clock;
pub mod content;
pub mod cue;
pub mod design_commands;
pub mod digest;
pub mod handlers;
pub mod json;
pub mod laws;
pub mod performance_types;
pub mod protocol;
pub mod server_commands;
pub mod server_controller;
pub mod state;
pub mod text;
pub mod text_map;
pub mod transfer;
