//! Connection Registry: the set of live subscribers and the idle clock.
//!
//! Subscribers are opaque handles known here by a per-connection identifier;
//! no two live subscribers share one. The registry records the moment the
//! set last became empty, so that a status query can report how long the
//! relay has been idle. Times are plain seconds handed in by the caller.

use vstd::prelude::*;

verus! {

/// A read-only snapshot for the status query: how many subscribers are
/// connected, how long the set has been empty (0 while it is not), and a
/// liveness flag.
#[derive(Debug, Clone, PartialEq, Eq)]
pub struct ConnectionInfo {
    pub active_connections: u32,
    pub seconds_inactive: u32,
    pub listening: bool,
}

/// The set of live subscriber identifiers, and since when it has been empty.
pub struct Registry {
    pub subscribers: Vec<u64>,
    pub idle_since: Option<u64>,
}

/// How long the set has been empty at `now`, capped at what the snapshot
/// field can carry; 0 while subscribers remain.
pub open spec fn spec_seconds_inactive(idle_since: Option<u64>, now: u64) -> u32 {
    match idle_since {
        Some(t) => {
            let d: int = if now >= t {
                now - t
            } else {
                0
            };
            if d > u32::MAX {
                u32::MAX
            } else {
                d as u32
            }
        },
        None => 0u32,
    }
}

impl Registry {
    /// The registry's invariant: identifiers are unique, and the idle
    /// timestamp is present exactly while the subscriber set is empty.
    pub open spec fn wf(&self) -> bool {
        &&& forall|i: int, j: int|
            #![trigger self.subscribers@[i], self.subscribers@[j]]
            0 <= i < j < self.subscribers@.len() ==> self.subscribers@[i] != self.subscribers@[j]
        &&& (self.idle_since is Some <==> self.subscribers@.len() == 0)
    }

    /// A fresh registry is empty and idle since `now`.
    pub fn new(now: u64) -> (r: Registry)
        ensures
            r.wf(),
            r.subscribers@ == Seq::<u64>::empty(),
            r.idle_since == Some(now),
    {
        Registry { subscribers: Vec::new(), idle_since: Some(now) }
    }

    /// Is `id` registered?
    pub fn contains(&self, id: u64) -> (r: bool)
        ensures
            r == self.subscribers@.contains(id),
    {
        let n = self.subscribers.len();
        let mut i: usize = 0;
        while i < n
            invariant
                i <= n,
                n == self.subscribers@.len(),
                forall|k: int| 0 <= k < i ==> self.subscribers@[k] != id,
            decreases n - i,
        {
            if self.subscribers[i] == id {
                return true;
            }
            i = i + 1;
        }
        false
    }

    /// Register a subscriber. Whatever the set held before, the idle clock
    /// is cleared: the set is no longer empty.
    pub fn add(&mut self, id: u64)
        requires
            old(self).wf(),
        ensures
            final(self).wf(),
            final(self).idle_since is None,
            final(self).subscribers@.contains(id),
            old(self).subscribers@.contains(id) ==> final(self).subscribers@ == old(
                self,
            ).subscribers@,
            !old(self).subscribers@.contains(id) ==> final(self).subscribers@ == old(
                self,
            ).subscribers@.push(id),
    {
        if !self.contains(id) {
            self.subscribers.push(id);
            proof {
                assert(self.subscribers@[self.subscribers@.len() - 1] == id);
            }
        }
        self.idle_since = None;
    }

    /// Unregister a subscriber. When the set becomes (or stays) empty, the
    /// idle clock starts at `now`.
    #[verifier::loop_isolation(false)]
    pub fn remove(&mut self, id: u64, now: u64)
        requires
            old(self).wf(),
        ensures
            final(self).wf(),
            final(self).subscribers@ == old(self).subscribers@.remove_value(id),
            !final(self).subscribers@.contains(id),
            final(self).subscribers@.len() == 0 ==> final(self).idle_since == (
            if old(self).subscribers@.len() == 0 {
                old(self).idle_since
            } else {
                Some(now)
            }),
            final(self).subscribers@.len() > 0 ==> final(self).idle_since is None,
    {
        let ghost old_subs = self.subscribers@;
        let n = self.subscribers.len();
        let mut i: usize = 0;
        while i < n
            invariant
                i <= n,
                n == self.subscribers@.len(),
                self.subscribers@ == old_subs,
                self.idle_since == old(self).idle_since,
                forall|k: int| 0 <= k < i ==> self.subscribers@[k] != id,
            decreases n - i,
        {
            if self.subscribers[i] == id {
                self.subscribers.remove(i);
                proof {
                    old_subs.remove_ensures(i as int);
                    assert(old_subs.index_of_first(id) matches Some(f) && f == i) by {
                        old_subs.index_of_first_ensures(id);
                    }
                    assert(self.subscribers@ =~= old_subs.remove_value(id));
                    assert forall|k: int|
                        0 <= k < self.subscribers@.len() implies self.subscribers@[k]
                        != id by {
                        if k < i {
                            assert(self.subscribers@[k] == old_subs[k]);
                        } else {
                            assert(self.subscribers@[k] == old_subs[k + 1]);
                            assert(old_subs[i as int] == id);
                            assert(old(self).subscribers@[i as int] != old(
                                self,
                            ).subscribers@[k + 1]);
                        }
                    }
                    assert forall|a: int, b: int|
                        0 <= a < b < self.subscribers@.len() implies self.subscribers@[a]
                        != self.subscribers@[b] by {
                        let oa: int = if a < i {
                            a
                        } else {
                            a + 1
                        };
                        let ob: int = if b < i {
                            b
                        } else {
                            b + 1
                        };
                        assert(self.subscribers@[a] == old_subs[oa]);
                        assert(self.subscribers@[b] == old_subs[ob]);
                        assert(old(self).subscribers@[oa] != old(self).subscribers@[ob]);
                    }
                }
                if self.subscribers.len() == 0 {
                    self.idle_since = Some(now);
                }
                return ;
            }
            i = i + 1;
        }
        proof {
            assert(!old_subs.contains(id));
            old_subs.index_of_first_ensures(id);
            assert(self.subscribers@ =~= old_subs.remove_value(id));
        }
    }

    /// The status snapshot: a pure read, no side effects.
    pub fn snapshot(&self, now: u64) -> (info: ConnectionInfo)
        ensures
            info.active_connections == if self.subscribers@.len() <= u32::MAX {
                self.subscribers@.len() as int
            } else {
                u32::MAX as int
            },
            info.seconds_inactive == spec_seconds_inactive(self.idle_since, now),
            info.listening,
    {
        let n = self.subscribers.len();
        let active: u32 = if n <= u32::MAX as usize {
            n as u32
        } else {
            u32::MAX
        };
        let seconds: u32 = match self.idle_since {
            Some(t) => {
                let d: u64 = if now >= t {
                    now - t
                } else {
                    0
                };
                if d > u32::MAX as u64 {
                    u32::MAX
                } else {
                    d as u32
                }
            },
            None => 0,
        };
        ConnectionInfo { active_connections: active, seconds_inactive: seconds, listening: true }
    }
}

/// The registry law: under the invariant, the subscriber count is zero
/// exactly when the idle clock is running — `seconds_inactive` is measured
/// from a recorded timestamp if and only if no connection is active.
pub proof fn lemma_idle_clock_iff_empty(r: Registry)
    requires
        r.wf(),
    ensures
        r.subscribers@.len() == 0 <==> r.idle_since is Some,
{
}

/// Adding any subscriber clears the idle timestamp (see `Registry::add`),
/// and with the timestamp cleared the snapshot reads an idle duration of 0,
/// whatever the time of the query.
pub proof fn lemma_cleared_clock_reads_zero(now: u64)
    ensures
        spec_seconds_inactive(None, now) == 0,
{
}

} // verus!
