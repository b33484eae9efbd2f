use std::collections::VecDeque;

use vstd::prelude::*;

use crate::events::Event;
use crate::events::EventManager;
use crate::events::EventSpec;
use crate::events::bus_events;
use crate::events::bus_wakes;
use crate::track::Track;
use crate::track::TrackSpec;

verus! {

/// The ordered list of tracks awaiting playback, front first.
///
/// Every mutating operation that commits a change publishes exactly one
/// [`EventSpec::QueueUpdate`] on the bus it is handed, after the mutation,
/// so observers never see a stale view once notified. The bus is owned by
/// the orchestrator and passed in for the duration of each operation, which
/// keeps a single writer and mirrors the exclusive-access discipline the
/// queue needs.
pub struct Queue {
    items: VecDeque<Track>,
}

impl View for Queue {
    type V = Seq<TrackSpec>;

    closed spec fn view(&self) -> Seq<TrackSpec> {
        self.items@.map_values(|t: Track| t@)
    }
}

impl Queue {
    /// A queue holding nothing.
    pub fn new() -> (q: Queue)
        ensures
            q@ == Seq::<TrackSpec>::empty(),
    {
        let q = Queue { items: VecDeque::new() };
        proof {
            assert(q@ =~= Seq::<TrackSpec>::empty());
        }
        q
    }

    /// Whether nothing is queued.
    pub fn is_empty(&self) -> (r: bool)
        ensures
            r == (self@.len() == 0),
    {
        self.items.len() == 0
    }

    /// A read-only snapshot of the current contents, front first. The view
    /// is only valid until the queue is next mutated.
    pub fn iter(&self) -> (r: &VecDeque<Track>)
        ensures
            r@.map_values(|t: Track| t@) == self@,
    {
        &self.items
    }

    /// Appends `track` to the back; always succeeds; publishes one
    /// `QueueUpdate`.
    pub fn enqueue(&mut self, track: Track, ev: &mut EventManager)
        ensures
            final(self)@ == old(self)@.push(track@),
            bus_events(*final(ev)) == bus_events(*old(ev)).push(EventSpec::QueueUpdate),
            bus_wakes(*final(ev)) == bus_wakes(*old(ev)) + 1,
    {
        let ghost t_spec = track@;
        self.items.push_back(track);
        proof {
            assert(self@ =~= old(self)@.push(t_spec));
        }
        ev.send(Event::QueueUpdate);
    }

    /// Removes and returns the front element, or returns `None` when the
    /// queue is empty; publishes `QueueUpdate` only on success.
    pub fn dequeue(&mut self, ev: &mut EventManager) -> (r: Option<Track>)
        ensures
            match r {
                Some(t) => {
                    &&& old(self)@.len() > 0
                    &&& t@ == old(self)@[0]
                    &&& final(self)@ == old(self)@.drop_first()
                    &&& bus_events(*final(ev)) == bus_events(*old(ev)).push(
                        EventSpec::QueueUpdate,
                    )
                    &&& bus_wakes(*final(ev)) == bus_wakes(*old(ev)) + 1
                },
                None => {
                    &&& old(self)@.len() == 0
                    &&& final(self)@ == old(self)@
                    &&& *final(ev) == *old(ev)
                },
            },
    {
        match self.items.pop_front() {
            Some(track) => {
                proof {
                    assert(self@ =~= old(self)@.drop_first());
                }
                ev.send(Event::QueueUpdate);
                Some(track)
            },
            None => None,
        }
    }

    /// Removes and returns the element at `index` if `index` is in range;
    /// otherwise leaves the queue unchanged, publishes nothing, and signals
    /// "not found" by returning `None`.
    pub fn remove(&mut self, index: usize, ev: &mut EventManager) -> (r: Option<Track>)
        ensures
            match r {
                Some(t) => {
                    &&& index < old(self)@.len()
                    &&& t@ == old(self)@[index as int]
                    &&& final(self)@ == old(self)@.remove(index as int)
                    &&& bus_events(*final(ev)) == bus_events(*old(ev)).push(
                        EventSpec::QueueUpdate,
                    )
                    &&& bus_wakes(*final(ev)) == bus_wakes(*old(ev)) + 1
                },
                None => {
                    &&& old(self)@.len() <= index
                    &&& final(self)@ == old(self)@
                    &&& *final(ev) == *old(ev)
                },
            },
    {
        match self.items.remove(index) {
            Some(track) => {
                proof {
                    assert(self@ =~= old(self)@.remove(index as int));
                }
                ev.send(Event::QueueUpdate);
                Some(track)
            },
            None => None,
        }
    }

    /// Empties the queue unconditionally and publishes one `QueueUpdate`,
    /// even when it was already empty, so observers stay consistent.
    pub fn clear(&mut self, ev: &mut EventManager)
        ensures
            final(self)@ == Seq::<TrackSpec>::empty(),
            bus_events(*final(ev)) == bus_events(*old(ev)).push(EventSpec::QueueUpdate),
            bus_wakes(*final(ev)) == bus_wakes(*old(ev)) + 1,
    {
        self.items.clear();
        proof {
            assert(self@ =~= Seq::<TrackSpec>::empty());
        }
        ev.send(Event::QueueUpdate);
    }
}

/// FIFO law: tracks leave the queue in the order they entered it.
///
/// `enqueue` appends to the back of the model sequence and a successful
/// `dequeue` hands out its front, so after enqueuing `a`, `b` and `c` into
/// an empty queue, the dequeues return `a`, then `b`, then `c`, and then
/// find the queue empty.
pub proof fn lemma_queue_fifo(a: TrackSpec, b: TrackSpec, c: TrackSpec)
    ensures
        ({
            let q3 = Seq::<TrackSpec>::empty().push(a).push(b).push(c);
            &&& q3[0] == a
            &&& q3.drop_first()[0] == b
            &&& q3.drop_first().drop_first()[0] == c
            &&& q3.drop_first().drop_first().drop_first().len() == 0
        }),
{
    let q3 = Seq::<TrackSpec>::empty().push(a).push(b).push(c);
    assert(q3.drop_first() =~= seq![b, c]);
    assert(q3.drop_first().drop_first() =~= seq![c]);
    assert(q3.drop_first().drop_first().drop_first() =~= Seq::<TrackSpec>::empty());
}

} // verus!
