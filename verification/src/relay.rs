//! The session relay's tick engine.
//!
//! One `Relay` composes the bounded command queue, the single-slot state
//! bus, and the connection registry. The outer layer owns the only handle to
//! the real session and drives the relay on a fixed cadence: each tick it
//! asks for at most one queued command ([`Relay::begin_tick`]), applies it to
//! the session, captures a frame, and hands frame and reported address back
//! ([`Relay::finish_tick`]), which diffs them against the last broadcast
//! state and says what to fan out. The relay never touches the session or
//! the network itself.
//!
//! An explicit `Navigate` command does not update the recorded address
//! speculatively: the address is reconciled from what the session reports at
//! the next capture, which also covers in-page navigation that no command
//! caused.

use vstd::prelude::*;
use crate::bus::{SendScreenshot, SendUrl, SessionModel, SessionState, StateBus};
use crate::channel;
use crate::channel::CommandChannel;
use crate::command::Command;
use crate::registry::{ConnectionInfo, Registry};

verus! {

/// The state a tick leaves behind: what the session reported, wholesale.
pub open spec fn spec_tick_state(before: SessionModel, frame: Seq<u8>, url: Seq<char>)
    -> SessionModel {
    SessionModel { url: url, frame: frame }
}

/// Is the captured frame broadcast? Only when its bytes differ from the last
/// broadcast frame: identical consecutive captures are deduplicated.
pub open spec fn spec_frame_published(before: SessionModel, frame: Seq<u8>) -> bool {
    frame != before.frame
}

/// Is the reported address broadcast? Only when it differs from the last
/// broadcast address.
pub open spec fn spec_url_published(before: SessionModel, url: Seq<char>) -> bool {
    url != before.url
}

/// What one tick tells the outer layer to send to every subscriber.
pub struct TickUpdate {
    pub screenshot: Option<SendScreenshot>,
    pub url: Option<SendUrl>,
}

/// What a newly connected subscriber is sent immediately: the current frame
/// and the current address, exactly once.
pub struct InitialPush {
    pub screenshot: SendScreenshot,
    pub url: SendUrl,
}

fn bytes_eq(a: &Vec<u8>, b: &Vec<u8>) -> (r: bool)
    ensures
        r == (a@ == b@),
{
    if a.len() != b.len() {
        proof {
            assert(a@ != b@);
        }
        return false;
    }
    let n = a.len();
    let mut i: usize = 0;
    while i < n
        invariant
            i <= n,
            n == a@.len() == b@.len(),
            forall|k: int| 0 <= k < i ==> a@[k] == b@[k],
        decreases n - i,
    {
        if a[i] != b[i] {
            return false;
        }
        i = i + 1;
    }
    proof {
        assert(a@ =~= b@);
    }
    true
}

fn clone_bytes(v: &Vec<u8>) -> (r: Vec<u8>)
    ensures
        r@ == v@,
{
    let r = v.clone();
    proof {
        assert forall|i: int| 0 <= i < v@.len() implies r@[i] == v@[i] by {
            assert(cloned::<u8>(v@[i], r@[i]));
        }
        assert(r@ =~= v@);
    }
    r
}

/// The session relay: the queue feeding the loop, the latest-value bus, and
/// the subscriber registry, all owned by the single session loop.
pub struct Relay {
    pub channel: CommandChannel,
    pub bus: StateBus,
    pub registry: Registry,
}

impl Relay {
    pub open spec fn wf(&self) -> bool {
        self.channel.wf() && self.registry.wf()
    }

    /// A fresh relay: empty queue of the given capacity, the given initial
    /// state in the bus slot, no subscribers, idle since `now`.
    pub fn new(initial_url: String, initial_frame: Vec<u8>, capacity: usize, now: u64) -> (r:
        Relay)
        ensures
            r.wf(),
            r.bus.current@ == (SessionModel { url: initial_url@, frame: initial_frame@ }),
            r.bus.publishes == 0,
            r.channel.queue@ == Seq::<Command>::empty(),
            r.channel.capacity == capacity,
            r.registry.subscribers@ == Seq::<u64>::empty(),
            r.registry.idle_since == Some(now),
    {
        Relay {
            channel: CommandChannel::new(capacity),
            bus: StateBus::new(SessionState::new(initial_url, initial_frame)),
            registry: Registry::new(now),
        }
    }

    /// A viewer handler feeds one parsed command in. Never blocks: a full
    /// queue drops the command and reports it.
    pub fn enqueue_command(&mut self, c: Command) -> (accepted: bool)
        requires
            old(self).wf(),
        ensures
            final(self).wf(),
            final(self).bus == old(self).bus,
            final(self).registry == old(self).registry,
            final(self).channel.capacity == old(self).channel.capacity,
            final(self).channel.queue@ == channel::spec_enqueue(
                old(self).channel.queue@,
                old(self).channel.capacity as nat,
                c,
            ),
            accepted == (old(self).channel.queue@.len() < old(self).channel.capacity),
    {
        self.channel.enqueue(c)
    }

    /// Start a tick: take at most one pending command, to be applied to the
    /// session before this tick's capture. An empty queue is not an error.
    pub fn begin_tick(&mut self) -> (r: Option<Command>)
        requires
            old(self).wf(),
        ensures
            final(self).wf(),
            final(self).bus == old(self).bus,
            final(self).registry == old(self).registry,
            final(self).channel.capacity == old(self).channel.capacity,
            (r, final(self).channel.queue@) == channel::spec_dequeue(old(self).channel.queue@),
    {
        self.channel.dequeue()
    }

    /// Finish a tick: diff the captured frame and the reported address
    /// against the last broadcast state, publish what changed, and say what
    /// to send to the subscribers. Identical frames are not re-broadcast,
    /// and an unchanged address sends nothing.
    pub fn finish_tick(&mut self, frame: Vec<u8>, url: String) -> (up: TickUpdate)
        requires
            old(self).wf(),
            old(self).bus.publishes + 2 <= u64::MAX,
        ensures
            final(self).wf(),
            final(self).channel == old(self).channel,
            final(self).registry == old(self).registry,
            final(self).bus.current@ == spec_tick_state(old(self).bus.current@, frame@, url@),
            (up.url is Some) == spec_url_published(old(self).bus.current@, url@),
            up.url matches Some(m) ==> m.0@ == url@,
            (up.screenshot is Some) == spec_frame_published(old(self).bus.current@, frame@),
            up.screenshot matches Some(m) ==> m.0@ == frame@,
            !spec_url_published(old(self).bus.current@, url@) && !spec_frame_published(
                old(self).bus.current@,
                frame@,
            ) ==> final(self).bus == old(self).bus,
            final(self).bus.publishes == old(self).bus.publishes + (
            if spec_url_published(old(self).bus.current@, url@) {
                1int
            } else {
                0int
            }) + (
            if spec_frame_published(old(self).bus.current@, frame@) {
                1int
            } else {
                0int
            }),
    {
        let mut up = TickUpdate { screenshot: None, url: None };
        let url_changed = !(url == self.bus.current.url);
        if url_changed {
            let state = SessionState::new(url.clone(), clone_bytes(&self.bus.current.frame));
            self.bus.publish(state);
            up.url = Some(SendUrl(url.clone()));
        }
        let frame_changed = !bytes_eq(&frame, &self.bus.current.frame);
        if frame_changed {
            let state = SessionState::new(url, clone_bytes(&frame));
            self.bus.publish(state);
            up.screenshot = Some(SendScreenshot(frame));
        }
        up
    }

    /// Register a new subscriber and hand back the current state to push to
    /// it at once, so a new viewer is never stuck without a frame.
    pub fn add_viewer(&mut self, id: u64) -> (push: InitialPush)
        requires
            old(self).wf(),
        ensures
            final(self).wf(),
            final(self).bus == old(self).bus,
            final(self).channel == old(self).channel,
            final(self).registry.idle_since is None,
            final(self).registry.subscribers@.contains(id),
            old(self).registry.subscribers@.contains(id) ==> final(self).registry.subscribers@
                == old(self).registry.subscribers@,
            !old(self).registry.subscribers@.contains(id) ==> final(self).registry.subscribers@
                == old(self).registry.subscribers@.push(id),
            push.screenshot.0@ == old(self).bus.current@.frame,
            push.url.0@ == old(self).bus.current@.url,
    {
        self.registry.add(id);
        InitialPush {
            screenshot: SendScreenshot(clone_bytes(&self.bus.current.frame)),
            url: SendUrl(self.bus.current.url.clone()),
        }
    }

    /// Unregister a subscriber; when the set becomes empty the idle clock
    /// starts at `now`.
    pub fn remove_viewer(&mut self, id: u64, now: u64)
        requires
            old(self).wf(),
        ensures
            final(self).wf(),
            final(self).bus == old(self).bus,
            final(self).channel == old(self).channel,
            final(self).registry.subscribers@ == old(
                self,
            ).registry.subscribers@.remove_value(id),
            !final(self).registry.subscribers@.contains(id),
            final(self).registry.subscribers@.len() == 0 ==> final(self).registry.idle_since
                == (if old(self).registry.subscribers@.len() == 0 {
                old(self).registry.idle_since
            } else {
                Some(now)
            }),
            final(self).registry.subscribers@.len() > 0 ==> final(self).registry.idle_since
                is None,
    {
        self.registry.remove(id, now);
    }

    /// The status snapshot: subscriber count, idle seconds, liveness. Pure.
    pub fn connection_info(&self, now: u64) -> (info: ConnectionInfo)
        ensures
            info.active_connections == if self.registry.subscribers@.len() <= u32::MAX {
                self.registry.subscribers@.len() as int
            } else {
                u32::MAX as int
            },
            info.seconds_inactive == crate::registry::spec_seconds_inactive(
                self.registry.idle_since,
                now,
            ),
            info.listening,
    {
        self.registry.snapshot(now)
    }

    /// The identifiers to fan one update out to.
    pub fn viewer_ids(&self) -> (r: &Vec<u64>)
        ensures
            r@ == self.registry.subscribers@,
    {
        &self.registry.subscribers
    }
}

/// Deduplication law: a capture whose bytes equal the last broadcast frame
/// is never published — the bus slot stays untouched and no screenshot
/// message goes out that tick.
pub proof fn lemma_identical_frame_not_republished(before: SessionModel)
    ensures
        !spec_frame_published(before, before.frame),
        spec_tick_state(before, before.frame, before.url) == before,
{
}

/// Idempotence law: re-sending `Navigate { url }` while the session is
/// already at `url` leaves the recorded address unchanged after the next
/// capture reports that same address, and broadcasts no address update.
pub proof fn lemma_navigate_idempotent(before: SessionModel, frame: Seq<u8>)
    ensures
        spec_tick_state(before, frame, before.url).url == before.url,
        !spec_url_published(before, before.url),
{
}

} // verus!
