//! Bounded hand-off between pipeline stages.
//!
//! A channel never grows past the capacity fixed at construction. When the
//! buffer is full, the configured policy decides what a producer does:
//! a bounded-blocking producer waits for space (modelled here by requiring
//! the space, since a single thread of execution cannot wait on itself),
//! while a drop-and-warn producer discards the new item, counts a warning,
//! and returns at once. A disconnected consumer is a stop condition for
//! every producer, never a silent one.

use vstd::prelude::*;

verus! {

/// What a producer does when the buffer is full.
#[derive(Clone, Copy, PartialEq, Eq, Structural, Debug)]
pub enum Policy {
    /// Wait until space is free; loss is unacceptable here.
    Block,
    /// Discard the new item and record a warning; never stall.
    DropWarn,
}

/// What became of one produced item.
#[derive(Clone, Copy, PartialEq, Eq, Structural, Debug)]
pub enum SendOutcome {
    /// The item was queued.
    Accepted,
    /// The buffer was full; the item was discarded and a warning counted.
    Dropped,
    /// The consumer is gone; producing further is a stop condition.
    Disconnected,
}

impl SendOutcome {
    /// A disconnected consumer is the producer's stop condition; the other
    /// outcomes let it continue.
    pub fn is_fatal(&self) -> (r: bool)
        ensures
            r == (*self is Disconnected),
    {
        match self {
            SendOutcome::Disconnected => true,
            _ => false,
        }
    }
}

/// A bounded FIFO between one producer and one consumer, with the drop
/// policy fixed at construction. The view is the queue's content, oldest
/// first.
pub struct BoundedChannel<T> {
    buf: Vec<T>,
    cap: usize,
    policy: Policy,
    connected: bool,
    warnings: u64,
    sent: Ghost<nat>,
    received: Ghost<nat>,
    dropped: Ghost<nat>,
}

impl<T> View for BoundedChannel<T> {
    type V = Seq<T>;

    closed spec fn view(&self) -> Seq<T> {
        self.buf@
    }
}

impl<T> BoundedChannel<T> {
    pub closed spec fn spec_cap(&self) -> nat {
        self.cap as nat
    }

    pub closed spec fn spec_policy(&self) -> Policy {
        self.policy
    }

    pub closed spec fn spec_connected(&self) -> bool {
        self.connected
    }

    /// Items ever offered by the producer.
    pub closed spec fn spec_sent(&self) -> nat {
        self.sent@
    }

    /// Items ever handed to the consumer.
    pub closed spec fn spec_received(&self) -> nat {
        self.received@
    }

    /// Items discarded: by the drop policy, or offered after disconnection.
    pub closed spec fn spec_dropped(&self) -> nat {
        self.dropped@
    }

    /// The queue never outgrows its bound, and every item offered is in the
    /// queue, already consumed, or dropped.
    pub closed spec fn wf(&self) -> bool {
        &&& self.cap >= 1
        &&& self.buf@.len() <= self.cap
        &&& self.received@ + self.buf@.len() + self.dropped@ == self.sent@
    }

    pub fn new(cap: usize, policy: Policy) -> (r: BoundedChannel<T>)
        requires
            cap >= 1,
        ensures
            r.wf(),
            r@ == Seq::<T>::empty(),
            r.spec_cap() == cap,
            r.spec_policy() == policy,
            r.spec_connected(),
            r.spec_sent() == 0,
            r.spec_received() == 0,
            r.spec_dropped() == 0,
            r.spec_warnings() == 0,
    {
        let r = BoundedChannel {
            buf: Vec::new(),
            cap,
            policy,
            connected: true,
            warnings: 0,
            sent: Ghost(0),
            received: Ghost(0),
            dropped: Ghost(0),
        };
        proof {
            assert(r@ =~= Seq::<T>::empty());
        }
        r
    }

    /// Warnings recorded for dropped items (saturating at the counter's
    /// size; `spec_dropped` counts exactly).
    pub closed spec fn spec_warnings(&self) -> nat {
        self.warnings as nat
    }

    pub fn warnings(&self) -> (w: u64)
        ensures
            w == self.spec_warnings(),
    {
        self.warnings
    }

    pub fn len(&self) -> (l: usize)
        ensures
            l == self@.len(),
    {
        self.buf.len()
    }

    pub fn capacity(&self) -> (c: usize)
        ensures
            c == self.spec_cap(),
    {
        self.cap
    }

    /// The consumer has gone away; every later `produce` reports it.
    pub fn disconnect(&mut self)
        requires
            old(self).wf(),
        ensures
            final(self).wf(),
            !final(self).spec_connected(),
            final(self)@ == old(self)@,
            final(self).spec_cap() == old(self).spec_cap(),
            final(self).spec_policy() == old(self).spec_policy(),
            final(self).spec_sent() == old(self).spec_sent(),
            final(self).spec_received() == old(self).spec_received(),
            final(self).spec_dropped() == old(self).spec_dropped(),
    {
        self.connected = false;
    }

    /// Produce one item under the configured policy. This call never waits:
    /// a blocking producer may only call it when there is space (its wait
    /// has ended), which the precondition models; a drop-and-warn producer
    /// may call it at any time and is back immediately, with the item
    /// either queued or dropped and counted.
    pub fn produce(&mut self, item: T) -> (o: SendOutcome)
        requires
            old(self).wf(),
            old(self).spec_policy() == Policy::Block && old(self).spec_connected() ==> old(self)@.len() < old(self).spec_cap(),
        ensures
            final(self).wf(),
            final(self).spec_cap() == old(self).spec_cap(),
            final(self).spec_policy() == old(self).spec_policy(),
            final(self).spec_connected() == old(self).spec_connected(),
            final(self).spec_sent() == old(self).spec_sent() + 1,
            final(self).spec_received() == old(self).spec_received(),
            !old(self).spec_connected() ==> o == SendOutcome::Disconnected && final(self)@ == old(self)@ && final(self).spec_dropped() == old(self).spec_dropped() + 1,
            old(self).spec_connected() && old(self)@.len() < old(self).spec_cap() ==> o
                == SendOutcome::Accepted && final(self)@ == old(self)@.push(item) && final(self).spec_dropped() == old(self).spec_dropped(),
            old(self).spec_connected() && old(self)@.len() >= old(self).spec_cap() ==> o
                == SendOutcome::Dropped && final(self)@ == old(self)@ && final(self).spec_dropped() == old(self).spec_dropped() + 1,
            old(self).spec_connected() && old(self)@.len() >= old(self).spec_cap() ==> final(self).spec_warnings() == (if old(self).spec_warnings() < 0xffff_ffff_ffff_ffff {
                old(self).spec_warnings() + 1
            } else {
                old(self).spec_warnings()
            }),
            !(old(self).spec_connected() && old(self)@.len() >= old(self).spec_cap()) ==> final(self).spec_warnings() == old(self).spec_warnings(),
    {
        self.sent = Ghost(self.sent@ + 1);
        if !self.connected {
            self.dropped = Ghost(self.dropped@ + 1);
            return SendOutcome::Disconnected;
        }
        if self.buf.len() < self.cap {
            self.buf.push(item);
            SendOutcome::Accepted
        } else {
            self.dropped = Ghost(self.dropped@ + 1);
            if self.warnings < u64::MAX {
                self.warnings = self.warnings + 1;
            }
            SendOutcome::Dropped
        }
    }

    /// Take the oldest queued item, if any. Items come out in the order
    /// they were accepted.
    pub fn recv(&mut self) -> (r: Option<T>)
        requires
            old(self).wf(),
        ensures
            final(self).wf(),
            final(self).spec_cap() == old(self).spec_cap(),
            final(self).spec_policy() == old(self).spec_policy(),
            final(self).spec_connected() == old(self).spec_connected(),
            final(self).spec_sent() == old(self).spec_sent(),
            final(self).spec_dropped() == old(self).spec_dropped(),
            old(self)@.len() == 0 ==> r is None && final(self)@ == old(self)@ && final(self).spec_received() == old(self).spec_received(),
            old(self)@.len() > 0 ==> r == Some(old(self)@[0]) && final(self)@ == old(self)@.drop_first() && final(self).spec_received() == old(self).spec_received() + 1,
    {
        if self.buf.len() == 0 {
            None
        } else {
            let item = self.buf.remove(0);
            self.received = Ghost(self.received@ + 1);
            proof {
                assert(self.buf@ =~= old(self)@.drop_first());
            }
            Some(item)
        }
    }

    /// Backpressure safety: however fast the producer, the consumer never
    /// receives more items than were sent, and the queue never holds more
    /// than its bound.
    pub proof fn lemma_no_overdelivery(&self)
        requires
            self.wf(),
        ensures
            self.spec_received() <= self.spec_sent(),
            self@.len() <= self.spec_cap(),
            self.spec_received() + self.spec_dropped() + self@.len() == self.spec_sent(),
    {
    }
}

} // verus!
