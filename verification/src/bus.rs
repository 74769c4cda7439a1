//! Frame/State Bus: a single-slot broadcast primitive.
//!
//! The bus holds exactly one "current" `SessionState`, overwritten (never
//! queued) on every publish. A subscriber that misses several rapid updates
//! only ever observes the latest value: there is no history and no replay.

use vstd::prelude::*;

verus! {

/// The session's published condition: the current page address together with
/// the latest captured frame. Frames are opaque byte sequences; equality is
/// byte-exact.
pub struct SessionState {
    pub url: String,
    pub frame: Vec<u8>,
}

/// Mathematical image of a `SessionState`: the address as a character
/// sequence, the frame as a byte sequence.
pub ghost struct SessionModel {
    pub url: Seq<char>,
    pub frame: Seq<u8>,
}

impl View for SessionState {
    type V = SessionModel;

    open spec fn view(&self) -> SessionModel {
        SessionModel { url: self.url@, frame: self.frame@ }
    }
}

impl SessionState {
    pub fn new(url: String, frame: Vec<u8>) -> (r: SessionState)
        ensures
            r@.url == url@,
            r@.frame == frame@,
    {
        SessionState { url, frame }
    }
}

/// An outbound binary message: the raw bytes of one frame, sent to a viewer
/// when the frame changes or when the viewer first connects.
pub struct SendScreenshot(pub Vec<u8>);

/// An outbound text message: the current page address, sent to a viewer when
/// it changes or when the viewer first connects.
pub struct SendUrl(pub String);

/// Single-slot broadcast bus. `current` is the latest published state;
/// `publishes` counts how many times a publish has replaced it, so that
/// contracts can say "no publish happened".
pub struct StateBus {
    pub current: SessionState,
    pub publishes: u64,
}

impl StateBus {
    pub fn new(initial: SessionState) -> (r: StateBus)
        ensures
            r.current@ == initial@,
            r.publishes == 0,
    {
        StateBus { current: initial, publishes: 0 }
    }

    /// Replace the slot with a new state. Late subscribers will only ever see
    /// this value until the next publish supersedes it.
    pub fn publish(&mut self, state: SessionState)
        requires
            old(self).publishes < u64::MAX,
        ensures
            final(self).current@ == state@,
            final(self).publishes == old(self).publishes + 1,
    {
        self.current = state;
        self.publishes = self.publishes + 1;
    }

    /// Read the current value. Pure: the slot is untouched.
    pub fn latest(&self) -> (r: &SessionState)
        ensures
            r@ == self.current@,
    {
        &self.current
    }
}

} // verus!
