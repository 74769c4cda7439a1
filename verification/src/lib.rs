//! A session relay: one remotely driven browser session, fanned out to any
//! number of viewers.
//!
//! The relay owns the single session, runs a fixed-cadence capture loop that
//! diffs each captured frame against the last broadcast one, applies at most
//! one queued viewer command per tick, and distributes frame and address
//! updates to a dynamically changing set of subscribers. The pieces are:
//!
//! - [`command`]: the viewer commands and their coordinate values;
//! - [`protocol`]: the inbound text-message grammar and its parser;
//! - [`channel`]: the bounded command queue feeding the session loop;
//! - [`bus`]: the single-slot latest-value broadcast of session state;
//! - [`registry`]: the set of live subscribers and the idle clock;
//! - [`relay`]: the tick engine that composes all of the above.
//!
//! Everything that talks to a real browser or a real network connection lives
//! outside this crate; the relay works on plain values handed in by that
//! outer layer.

pub mod bus;
pub mod channel;
pub mod command;
pub mod handler;
pub mod protocol;
pub mod registry;
pub mod relay;
