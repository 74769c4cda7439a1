//! Viewer Connection Handler: the decisions taken for one viewer.
//!
//! One handler exists per network connection. The outer layer owns the
//! transport; on connection it calls [`crate::relay::Relay::add_viewer`] and
//! sends the returned initial push, for every inbound text message it calls
//! [`handle_inbound_text`], and on transport close or an irrecoverable write
//! error it calls [`crate::relay::Relay::remove_viewer`]. Outbound traffic
//! is whatever [`crate::relay::Relay::finish_tick`] says to fan out.

use vstd::prelude::*;
use crate::protocol;
use crate::relay::Relay;

verus! {

/// What handling one inbound text message did.
#[derive(Debug, Clone, Copy, PartialEq, Eq)]
pub enum InboundOutcome {
    /// The message parsed to a command and it was queued.
    Queued,
    /// The message parsed to a command, but the queue was full: the command
    /// was dropped silently, never surfaced to the viewer.
    Dropped,
    /// The message was malformed: it was ignored, nothing was queued, and
    /// the connection stays open.
    Ignored,
}

/// Handle one inbound text message: parse it, and feed the command (if any)
/// into the relay's queue without ever blocking the read loop.
pub fn handle_inbound_text(relay: &mut Relay, text: &str) -> (out: InboundOutcome)
    requires
        old(relay).wf(),
    ensures
        final(relay).wf(),
        final(relay).bus == old(relay).bus,
        final(relay).registry == old(relay).registry,
        final(relay).channel.capacity == old(relay).channel.capacity,
        match protocol::spec_parse_command(text@) {
            Some(m) => {
                let q0 = old(relay).channel.queue@;
                let cap = old(relay).channel.capacity;
                let q1 = final(relay).channel.queue@;
                &&& (out is Queued) == (q0.len() < cap)
                &&& (out is Dropped) == (q0.len() >= cap)
                &&& out is Queued ==> q1.len() == q0.len() + 1 && q1.last()@ == m
                    && q1.last().wf() && q1.drop_last() == q0
                &&& out is Dropped ==> q1 == q0
            },
            None => out is Ignored && final(relay).channel == old(relay).channel,
        },
{
    match protocol::parse_command(text) {
        Some(c) => {
            let ghost q0 = relay.channel.queue@;
            if relay.enqueue_command(c) {
                proof {
                    assert(relay.channel.queue@.drop_last() =~= q0);
                }
                InboundOutcome::Queued
            } else {
                InboundOutcome::Dropped
            }
        },
        None => InboundOutcome::Ignored,
    }
}

} // verus!
