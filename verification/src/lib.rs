//! Session-relay and lifecycle-supervision library for a one-shot
//! inter-VM screen-viewing tool.
//!
//! The library holds the verified logic: the selector wire protocol,
//! the window/monitor enumeration data model and its admission rule,
//! the probe result's wire codec, the byte-relay model, and the
//! supervisor's teardown policy. Process spawning, sockets, signals
//! and the X11 queries live in the surrounding (unverified)
//! application, which hands plain values in and out.

pub mod cli;
pub mod connect;
pub mod numerals;
pub mod probe;
pub mod relay;
pub mod selector;
pub mod server;
pub mod supervise;
pub mod wire;
