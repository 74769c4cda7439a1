//! Command Channel: a bounded, ordered queue of viewer commands.
//!
//! Any number of producers enqueue without blocking; when the queue is full
//! the attempt fails at once and the command is dropped (an intentional
//! backpressure valve, not a durability guarantee). The single consumer, the
//! session loop, removes at most one command per tick.

use vstd::prelude::*;
use crate::command::Command;

verus! {

/// What one enqueue attempt leaves in the queue: the command is appended
/// when there is room, and dropped when the queue is full.
pub open spec fn spec_enqueue(q: Seq<Command>, cap: nat, c: Command) -> Seq<Command> {
    if q.len() < cap {
        q.push(c)
    } else {
        q
    }
}

/// What one burst of enqueue attempts leaves in the queue, first command
/// first.
pub open spec fn spec_enqueue_all(q: Seq<Command>, cap: nat, cs: Seq<Command>) -> Seq<Command>
    decreases cs.len(),
{
    if cs.len() == 0 {
        q
    } else {
        spec_enqueue_all(spec_enqueue(q, cap, cs[0]), cap, cs.drop_first())
    }
}

/// The bounded command queue.
pub struct CommandChannel {
    pub queue: Vec<Command>,
    pub capacity: usize,
}

impl CommandChannel {
    /// The queue never holds more than its capacity.
    pub open spec fn wf(&self) -> bool {
        self.queue@.len() <= self.capacity
    }

    pub fn new(capacity: usize) -> (r: CommandChannel)
        ensures
            r.queue@ == Seq::<Command>::empty(),
            r.capacity == capacity,
            r.wf(),
    {
        CommandChannel { queue: Vec::new(), capacity }
    }

    /// Try to enqueue without blocking. Returns whether the command was
    /// accepted; a full queue drops it silently.
    pub fn enqueue(&mut self, c: Command) -> (accepted: bool)
        requires
            old(self).wf(),
        ensures
            final(self).capacity == old(self).capacity,
            final(self).queue@ == spec_enqueue(
                old(self).queue@,
                old(self).capacity as nat,
                c,
            ),
            accepted == (old(self).queue@.len() < old(self).capacity),
            final(self).wf(),
    {
        if self.queue.len() < self.capacity {
            self.queue.push(c);
            true
        } else {
            false
        }
    }

    /// Remove and return the oldest queued command; `None` on an empty queue
    /// (not a failure: the tick simply proceeds).
    pub fn dequeue(&mut self) -> (r: Option<Command>)
        ensures
            final(self).capacity == old(self).capacity,
            match r {
                Some(c) => old(self).queue@.len() > 0 && c == old(self).queue@[0]
                    && final(self).queue@ == old(self).queue@.drop_first(),
                None => old(self).queue@.len() == 0 && final(self).queue@ == old(self).queue@,
            },
            old(self).wf() ==> final(self).wf(),
    {
        if self.queue.len() > 0 {
            let c = self.queue.remove(0);
            assert(final(self).queue@ =~= old(self).queue@.drop_first());
            Some(c)
        } else {
            None
        }
    }

    /// How many commands are waiting.
    pub fn len(&self) -> (r: usize)
        ensures
            r == self.queue@.len(),
    {
        self.queue.len()
    }
}

/// A burst of `N` attempts within one tick interval fills the queue in order
/// up to its free room and drops the excess: what queues is exactly the
/// longest prefix of the burst that fits.
pub proof fn lemma_burst_queues_prefix(q: Seq<Command>, cap: nat, cs: Seq<Command>)
    requires
        q.len() <= cap,
    ensures
        spec_enqueue_all(q, cap, cs) == q + cs.take(
            if cs.len() <= cap - q.len() {
                cs.len() as int
            } else {
                cap - q.len()
            },
        ),
        spec_enqueue_all(q, cap, cs).len() <= cap,
    decreases cs.len(),
{
    if cs.len() == 0 {
        assert(spec_enqueue_all(q, cap, cs) =~= q + cs.take(0));
    } else {
        let q1 = spec_enqueue(q, cap, cs[0]);
        lemma_burst_queues_prefix(q1, cap, cs.drop_first());
        let room = cap - q.len();
        if q.len() < cap {
            let room1 = if cs.drop_first().len() <= cap - q1.len() {
                cs.drop_first().len() as int
            } else {
                cap - q1.len()
            };
            let keep = if cs.len() <= room {
                cs.len() as int
            } else {
                room
            };
            assert(q1 + cs.drop_first().take(room1) =~= q + cs.take(keep));
        } else {
            let keep1 = if cs.drop_first().len() <= cap - q.len() {
                cs.drop_first().len() as int
            } else {
                cap - q.len()
            };
            assert(q + cs.drop_first().take(keep1) =~= q + cs.take(0));
        }
    }
}

/// What one tick takes from the queue: the head alone, when there is one.
pub open spec fn spec_dequeue(q: Seq<Command>) -> (Option<Command>, Seq<Command>) {
    if q.len() > 0 {
        (Some(q[0]), q.drop_first())
    } else {
        (None, q)
    }
}

/// Of a burst of `N` commands enqueued within one tick interval (here: into
/// an idle, empty queue), at most one is applied before the next capture:
/// the tick takes exactly the first command, and the remaining `N - 1` stay
/// queued in order, up to the queue's capacity — the excess was dropped at
/// enqueue time, never queued.
pub proof fn lemma_at_most_one_applied_per_tick(cap: nat, cs: Seq<Command>)
    ensures
        ({
            let queued = spec_enqueue_all(Seq::empty(), cap, cs);
            let kept = if cs.len() <= cap {
                cs.len() as int
            } else {
                cap as int
            };
            let (applied, rest) = spec_dequeue(queued);
            &&& queued == cs.take(kept)
            &&& (cs.len() > 0 && cap > 0) ==> applied == Some(cs[0]) && rest == cs.subrange(
                1,
                kept,
            )
            &&& (cs.len() == 0 || cap == 0) ==> applied is None && rest == Seq::<
                Command,
            >::empty()
        }),
{
    lemma_burst_queues_prefix(Seq::empty(), cap, cs);
    let queued = spec_enqueue_all(Seq::<Command>::empty(), cap, cs);
    let kept = if cs.len() <= cap {
        cs.len() as int
    } else {
        cap as int
    };
    assert(queued =~= cs.take(kept));
    if cs.len() > 0 && cap > 0 {
        assert(queued.drop_first() =~= cs.subrange(1, kept));
    } else {
        assert(queued =~= Seq::<Command>::empty());
    }
}

} // verus!
