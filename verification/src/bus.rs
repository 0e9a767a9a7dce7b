//! The contract of a fan-out bus: a bounded, lossy multi-subscriber queue.
//! Every subscriber sees a copy of each event published after it
//! subscribed; a subscriber that falls more than the capacity behind skips
//! ahead and misses events, but never sees them out of order.

use vstd::prelude::*;

verus! {

/// How many events a slow subscriber may lag behind before it is skipped
/// ahead.
pub const BUS_CAPACITY: usize = 100;

/// The model of one bus: the full sequence of events ever published on it.
pub struct Bus {
    events: Vec<String>,
}

/// One subscription: a cursor into the bus's event sequence.
pub struct Subscriber {
    cursor: usize,
}

/// What one receive step yields.
pub enum Received {
    /// The next event, in publish order.
    Event(String),
    /// The subscriber lagged behind the buffer and was skipped ahead.
    Lagged,
    /// Nothing published yet beyond the cursor.
    Empty,
}

impl Bus {
    /// Every event published so far, in publish order.
    pub closed spec fn log(&self) -> Seq<Seq<char>> {
        self.events@.map_values(|e: String| e@)
    }

    pub fn new() -> (r: Bus)
        ensures
            r.log() == Seq::<Seq<char>>::empty(),
    {
        let r = Bus { events: Vec::new() };
        proof {
            assert(r.log() =~= Seq::<Seq<char>>::empty());
        }
        r
    }

    /// Publish an event: it takes the next position in the log.
    pub fn publish(&mut self, event: String)
        ensures
            final(self).log() == old(self).log().push(event@),
    {
        let ghost pre = self.events@;
        self.events.push(event);
        proof {
            assert(self.log() =~= old(self).log().push(self.events@.last()@));
        }
    }

    /// Subscribe; the subscriber sees only events published from now on.
    pub fn subscribe(&self) -> (r: Subscriber)
        ensures
            r.position() == self.log().len(),
    {
        Subscriber { cursor: self.events.len() }
    }

    /// Receive the next event for a subscriber.
    ///
    /// A subscriber within the buffer receives the events one by one, each
    /// from the position its cursor names, in publish order: for any two
    /// events published at positions `i < j`, a subscriber that receives
    /// both receives the one at `i` first, since its cursor only grows. One
    /// that lagged more than the capacity is skipped ahead and misses the
    /// overwritten events; the connection stays open.
    pub fn receive(&self, sub: &mut Subscriber) -> (r: Received)
        requires
            old(sub).position() <= self.log().len(),
        ensures
            final(sub).position() <= self.log().len(),
            old(sub).position() <= final(sub).position(),
            match r {
                Received::Event(e) => e@ == self.log()[old(sub).position() as int] && final(sub).position() == old(sub).position() + 1,
                Received::Lagged => self.log().len() - old(sub).position() > BUS_CAPACITY && final(sub).position() == self.log().len() - BUS_CAPACITY,
                Received::Empty => old(sub).position() == self.log().len() && final(sub).position()
                    == old(sub).position(),
            },
    {
        let len = self.events.len();
        if sub.cursor == len {
            return Received::Empty;
        }
        if len - sub.cursor > BUS_CAPACITY {
            sub.cursor = len - BUS_CAPACITY;
            return Received::Lagged;
        }
        let event = self.events[sub.cursor].clone();
        proof {
            assert(event@ == self.log()[sub.cursor as int]);
        }
        sub.cursor = sub.cursor + 1;
        Received::Event(event)
    }
}

impl Subscriber {
    /// The position of the next event this subscriber would receive.
    pub closed spec fn position(&self) -> nat {
        self.cursor as nat
    }
}

} // verus!
