use vstd::prelude::*;

use crate::track::PlayerState;
use crate::track::Track;
use crate::track::TrackSpec;

verus! {

/// Everything that can change orchestration state: a closed set of immutable
/// value messages.
#[derive(Clone, Debug, PartialEq, Eq)]
pub enum Event {
    /// The queue's contents changed; observers should refresh their view.
    QueueUpdate,
    /// The authoritative playback mode changed, or is reported from outside.
    PlayState(PlayerState),
    /// Start playing this track now.
    Play(Track),
    /// Ask the orchestrator to advance the queue if nothing is playing.
    CheckQueue,
    /// Seek to an absolute position, in milliseconds.
    SeekTo(u32),
    /// Seek forward by this many milliseconds, saturating at the duration.
    SeekForward(u32),
    /// Seek backward by this many milliseconds, flooring at zero.
    SeekBackward(u32),
    /// Append a track to the queue, or play it at once if nothing is queued
    /// or playing.
    QueueAdd(Track),
    /// Remove the queue entry at this position, if there is one.
    QueueRemove(usize),
    /// A new track became the current one.
    SongChange(Track),
}

/// Mathematical model of an [`Event`].
#[verifier::ext_equal]
pub enum EventSpec {
    QueueUpdate,
    PlayState(PlayerState),
    Play(TrackSpec),
    CheckQueue,
    SeekTo(u32),
    SeekForward(u32),
    SeekBackward(u32),
    QueueAdd(TrackSpec),
    QueueRemove(usize),
    SongChange(TrackSpec),
}

impl View for Event {
    type V = EventSpec;

    open spec fn view(&self) -> EventSpec {
        match self {
            Event::QueueUpdate => EventSpec::QueueUpdate,
            Event::PlayState(s) => EventSpec::PlayState(*s),
            Event::Play(t) => EventSpec::Play(t@),
            Event::CheckQueue => EventSpec::CheckQueue,
            Event::SeekTo(ms) => EventSpec::SeekTo(*ms),
            Event::SeekForward(ms) => EventSpec::SeekForward(*ms),
            Event::SeekBackward(ms) => EventSpec::SeekBackward(*ms),
            Event::QueueAdd(t) => EventSpec::QueueAdd(t@),
            Event::QueueRemove(i) => EventSpec::QueueRemove(*i),
            Event::SongChange(t) => EventSpec::SongChange(t@),
        }
    }
}

/// The models of a sequence of events, in the same order.
pub open spec fn events_view(s: Seq<Event>) -> Seq<EventSpec> {
    s.map_values(|e: Event| e@)
}

/// The declaration of `crossbeam_channel::Sender`, so that the wake sink can
/// stand in a signature.
#[verifier::external_type_specification]
#[verifier::external_body]
#[verifier::reject_recursive_types(T)]
pub struct ExSender<T>(crossbeam_channel::Sender<T>);

/// The event bus: an unbounded multi-producer channel carrying [`Event`]s to
/// a single consumer, plus a side-channel wake signal that prods the owning
/// UI loop into running its step function promptly.
///
/// The bus owns both ends of its message channel, so a send can never find
/// the consumer gone.
#[verifier::external_body]
pub struct EventManager {
    tx: crossbeam_channel::Sender<Event>,
    rx: crossbeam_channel::Receiver<Event>,
    wake: crossbeam_channel::Sender<()>,
}

/// The messages currently buffered on the bus, oldest first.
pub uninterp spec fn bus_events(m: EventManager) -> Seq<EventSpec>;

/// How many wake signals the bus has emitted towards the UI loop so far.
pub uninterp spec fn bus_wakes(m: EventManager) -> nat;

impl EventManager {
    /// Relies on `crossbeam_channel::unbounded`: a freshly created channel
    /// holds no messages. `wake_sink` is the UI loop's side channel; nothing
    /// has been sent on it by this bus yet.
    #[verifier::external_body]
    pub fn new(wake_sink: crossbeam_channel::Sender<()>) -> (m: EventManager)
        ensures
            bus_events(m) == Seq::<EventSpec>::empty(),
            bus_wakes(m) == 0,
    {
        let (tx, rx) = crossbeam_channel::unbounded();
        EventManager { tx, rx, wake: wake_sink }
    }

    /// Relies on `crossbeam_channel::Sender::send`: on an unbounded channel
    /// it appends the message without blocking, and fails only when every
    /// receiver is gone — the bus holds its own receiver, so it succeeds.
    #[verifier::external_body]
    fn push_event(&mut self, event: Event)
        ensures
            bus_events(*final(self)) == bus_events(*old(self)).push(event@),
            bus_wakes(*final(self)) == bus_wakes(*old(self)),
    {
        self.tx.send(event).expect("event bus closed");
    }

    /// Relies on `crossbeam_channel::Sender::send` on the wake sink: emits
    /// one wake signal; a wake whose listener is already gone is dropped, as
    /// the signal only matters while the UI loop still runs.
    #[verifier::external_body]
    pub fn trigger(&mut self)
        ensures
            bus_events(*final(self)) == bus_events(*old(self)),
            bus_wakes(*final(self)) == bus_wakes(*old(self)) + 1,
    {
        let _ = self.wake.send(());
    }

    /// Publishes `event` for the consumer and signals the UI loop so the
    /// consumer is scheduled promptly even absent other input. Never blocks.
    pub fn send(&mut self, event: Event)
        ensures
            bus_events(*final(self)) == bus_events(*old(self)).push(event@),
            bus_wakes(*final(self)) == bus_wakes(*old(self)) + 1,
    {
        self.push_event(event);
        self.trigger();
    }

    /// Relies on `crossbeam_channel::Receiver::try_iter`: yields the messages
    /// currently in the channel in arrival order, never blocking; afterwards
    /// the channel is empty.
    #[verifier::external_body]
    pub fn msg_iter(&mut self) -> (events: Vec<Event>)
        ensures
            events_view(events@) == bus_events(*old(self)),
            bus_events(*final(self)) == Seq::<EventSpec>::empty(),
            bus_wakes(*final(self)) == bus_wakes(*old(self)),
    {
        self.rx.try_iter().collect()
    }
}

} // verus!
