use vstd::arithmetic::div_mod::lemma_div_by_multiple;
use vstd::arithmetic::div_mod::lemma_div_is_ordered;
use vstd::arithmetic::div_mod::lemma_div_pos_is_pos;
use vstd::arithmetic::div_mod::lemma_fundamental_div_mod;
use vstd::arithmetic::div_mod::lemma_mod_bound;
use vstd::prelude::*;

use crate::events::Event;
use crate::events::EventManager;
use crate::events::EventSpec;
use crate::events::bus_events;
use crate::events::events_view;
use crate::queue::Queue;
use crate::track::PlayerState;
use crate::track::Track;
use crate::track::TrackSpec;
use crate::track_id::b62_value;
use crate::track_id::resolve_track_id;

verus! {

/// A command the orchestrator issues to its surroundings: the external
/// player's control surface, plus the UI's "redraw now" signal and the
/// notification that a track had to be skipped. The caller performs these
/// in order; each is fire-and-forget.
#[derive(Clone, Copy, Debug, PartialEq, Eq, Structural)]
pub enum Action {
    /// Load this playable reference on the external player.
    Load(u128),
    /// Start or resume playback on the external player.
    Play,
    /// Pause the external player.
    Pause,
    /// Stop the external player.
    Stop,
    /// Seek the external player to this absolute position, in milliseconds.
    Seek(u32),
    /// Tell the UI to redraw.
    Redraw,
    /// Tell the UI that a track's identifier could not be resolved and the
    /// track was skipped.
    NotifyUnplayable,
}

/// Mathematical model of the whole orchestration state: the authoritative
/// player mode, the current track, the tick clock, the queue contents and
/// the events still waiting on the bus.
#[verifier::ext_equal]
pub struct OrchModel {
    pub state: PlayerState,
    pub current: Option<TrackSpec>,
    pub ticks: nat,
    pub fps: nat,
    pub queue: Seq<TrackSpec>,
    pub bus: Seq<EventSpec>,
}

/// The outcome of processing one event: the state afterwards and the
/// commands issued, in order.
#[verifier::ext_equal]
pub struct StepOut {
    pub post: OrchModel,
    pub actions: Seq<Action>,
}

/// The elapsed playback time the tick counter encodes, in milliseconds.
pub open spec fn elapsed_of(m: OrchModel) -> nat {
    m.ticks * 1000 / m.fps
}

/// Well-formedness of the orchestration state: the tick rate is a sane
/// frame rate, the clock never runs past the current track's duration, and
/// with no current track the clock sits at zero.
pub open spec fn wf_model(m: OrchModel) -> bool {
    &&& 0 < m.fps <= 1000
    &&& m.ticks <= u32::MAX as nat + 1
    &&& match m.current {
        Some(t) => elapsed_of(m) <= t.duration_ms,
        None => m.ticks == 0,
    }
}

/// The playable reference an identifier resolves to, if it is a base-62
/// numeral whose value fits 128 bits.
pub open spec fn resolved_ref(id: Seq<char>) -> Option<u128> {
    match b62_value(id) {
        Some(v) => if v <= u128::MAX as int {
            Some(v as u128)
        } else {
            None
        },
        None => None,
    }
}

/// The model of an optional track.
pub open spec fn opt_track_view(o: Option<Track>) -> Option<TrackSpec> {
    match o {
        Some(t) => Some(t@),
        None => None,
    }
}

/// The tick count that encodes an absolute position of `ms` milliseconds.
pub open spec fn ticks_for(ms: nat, fps: nat) -> nat {
    ms * fps / 1000
}

/// One transition of the orchestration state machine: the effect of
/// processing a single drained event. Events the handler publishes itself
/// (`Play`, `SongChange`, `CheckQueue`, and the `QueueUpdate` of each queue
/// mutation) are appended to the bus for a later drain; commands towards
/// the player and the UI come back as actions.
///
/// Seek positions clamp: an absolute or forward seek saturates at the
/// current track's duration, and a backward seek lands at
/// `max(elapsed, delta) - delta`, which floors at zero.
pub open spec fn step(m: OrchModel, e: EventSpec) -> StepOut {
    match e {
        EventSpec::QueueUpdate => {
            let post = if m.state == PlayerState::Stopped && m.queue.len() > 0 {
                OrchModel { bus: m.bus.push(EventSpec::CheckQueue), ..m }
            } else {
                m
            };
            StepOut { post, actions: seq![Action::Redraw] }
        },
        EventSpec::QueueAdd(t) => {
            if m.queue.len() == 0 && m.current is None {
                StepOut {
                    post: OrchModel { bus: m.bus.push(EventSpec::Play(t)), ..m },
                    actions: Seq::empty(),
                }
            } else {
                StepOut {
                    post: OrchModel {
                        queue: m.queue.push(t),
                        bus: m.bus.push(EventSpec::QueueUpdate),
                        ..m
                    },
                    actions: Seq::empty(),
                }
            }
        },
        EventSpec::QueueRemove(i) => {
            if i < m.queue.len() {
                StepOut {
                    post: OrchModel {
                        queue: m.queue.remove(i as int),
                        bus: m.bus.push(EventSpec::QueueUpdate),
                        ..m
                    },
                    actions: Seq::empty(),
                }
            } else {
                StepOut { post: m, actions: Seq::empty() }
            }
        },
        EventSpec::SongChange(t) => StepOut {
            post: OrchModel { current: Some(t), ticks: 0, ..m },
            actions: Seq::empty(),
        },
        EventSpec::PlayState(s) => match s {
            PlayerState::Playing => StepOut {
                post: OrchModel { state: s, ..m },
                actions: seq![Action::Play],
            },
            PlayerState::Paused => StepOut {
                post: OrchModel { state: s, ..m },
                actions: seq![Action::Pause],
            },
            PlayerState::Stopped => {
                let bus = if m.queue.len() > 0 {
                    m.bus.push(EventSpec::CheckQueue)
                } else {
                    m.bus
                };
                StepOut {
                    post: OrchModel { state: s, current: None, ticks: 0, bus, ..m },
                    actions: seq![Action::Stop],
                }
            },
        },
        EventSpec::Play(t) => match resolved_ref(t.id) {
            Some(r) => StepOut {
                post: OrchModel {
                    state: PlayerState::Playing,
                    bus: m.bus.push(EventSpec::SongChange(t)),
                    ..m
                },
                actions: seq![Action::Load(r), Action::Play],
            },
            None => StepOut {
                post: OrchModel { bus: m.bus.push(EventSpec::CheckQueue), ..m },
                actions: seq![Action::NotifyUnplayable],
            },
        },
        EventSpec::CheckQueue => {
            if m.state == PlayerState::Stopped {
                if m.queue.len() > 0 {
                    StepOut {
                        post: OrchModel {
                            queue: m.queue.drop_first(),
                            bus: m.bus.push(EventSpec::QueueUpdate).push(
                                EventSpec::Play(m.queue[0]),
                            ),
                            ..m
                        },
                        actions: Seq::empty(),
                    }
                } else {
                    StepOut { post: m, actions: seq![Action::Stop] }
                }
            } else {
                StepOut { post: m, actions: Seq::empty() }
            }
        },
        EventSpec::SeekTo(ms) => match m.current {
            Some(t) => {
                let target: nat = if ms <= t.duration_ms {
                    ms as nat
                } else {
                    t.duration_ms as nat
                };
                StepOut {
                    post: OrchModel { ticks: ticks_for(target, m.fps), ..m },
                    actions: seq![Action::Seek(target as u32)],
                }
            },
            None => StepOut { post: m, actions: Seq::empty() },
        },
        EventSpec::SeekForward(d) => match m.current {
            Some(t) => {
                let target: nat = if elapsed_of(m) + d <= t.duration_ms {
                    (elapsed_of(m) + d) as nat
                } else {
                    t.duration_ms as nat
                };
                StepOut {
                    post: OrchModel { ticks: ticks_for(target, m.fps), ..m },
                    actions: seq![Action::Seek(target as u32)],
                }
            },
            None => StepOut { post: m, actions: Seq::empty() },
        },
        EventSpec::SeekBackward(d) => match m.current {
            Some(t) => {
                let target: nat = if elapsed_of(m) >= d {
                    (elapsed_of(m) - d) as nat
                } else {
                    0
                };
                StepOut {
                    post: OrchModel { ticks: ticks_for(target, m.fps), ..m },
                    actions: seq![Action::Seek(target as u32)],
                }
            },
            None => StepOut { post: m, actions: Seq::empty() },
        },
    }
}

/// One transition of the periodic clock: while playing, the tick counter
/// advances unless the next tick would push the elapsed time past the
/// current track's duration; the UI is asked to redraw whenever a track is
/// loaded.
pub open spec fn step_tick(m: OrchModel) -> StepOut {
    let advance = m.state == PlayerState::Playing && match m.current {
        Some(t) => (m.ticks + 1) * 1000 / m.fps <= t.duration_ms,
        None => false,
    };
    let post = if advance {
        OrchModel { ticks: m.ticks + 1, ..m }
    } else {
        m
    };
    let actions = if m.current is Some {
        seq![Action::Redraw]
    } else {
        Seq::<Action>::empty()
    };
    StepOut { post, actions }
}

/// The model with an emptied bus: what draining leaves behind.
pub open spec fn clear_bus(m: OrchModel) -> OrchModel {
    OrchModel { bus: Seq::empty(), ..m }
}

/// The effect of processing a list of drained events in order, starting
/// from `m`: one consumer pass over the bus.
pub open spec fn run(m: OrchModel, evs: Seq<EventSpec>) -> StepOut
    decreases evs.len(),
{
    if evs.len() == 0 {
        StepOut { post: m, actions: Seq::empty() }
    } else {
        let first = step(m, evs[0]);
        let rest = run(first.post, evs.drop_first());
        StepOut { post: rest.post, actions: first.actions + rest.actions }
    }
}

/// Converting a clamped millisecond position to ticks and back never lands
/// past the position itself.
pub(crate) proof fn lemma_ticks_roundtrip(ms: int, fps: int)
    requires
        0 <= ms,
        0 < fps,
    ensures
        0 <= ms * fps / 1000,
        (ms * fps / 1000) * 1000 / fps <= ms,
{
    let t = ms * fps / 1000;
    assert(0 <= ms * fps) by (nonlinear_arith)
        requires
            0 <= ms,
            0 < fps,
    ;
    lemma_div_pos_is_pos(ms * fps, 1000);
    lemma_fundamental_div_mod(ms * fps, 1000);
    lemma_mod_bound(ms * fps, 1000);
    assert(t * 1000 <= ms * fps) by (nonlinear_arith)
        requires
            ms * fps == 1000 * t + (ms * fps) % 1000,
            0 <= (ms * fps) % 1000,
    ;
    lemma_div_is_ordered(t * 1000, ms * fps, fps);
    lemma_div_by_multiple(ms, fps);
    assert(ms * fps == fps * ms) by (nonlinear_arith);
}

/// A tick count computed from a position within `u32` range stays within
/// `u32` range itself, for any sane frame rate.
proof fn lemma_ticks_fit(ms: int, fps: int)
    requires
        0 <= ms <= u32::MAX as int,
        0 < fps <= 1000,
    ensures
        0 <= ms * fps / 1000 <= u32::MAX as int,
{
    assert(0 <= ms * fps <= u32::MAX as int * 1000) by (nonlinear_arith)
        requires
            0 <= ms <= u32::MAX as int,
            0 < fps <= 1000,
    ;
    lemma_div_pos_is_pos(ms * fps, 1000);
    lemma_div_is_ordered(ms * fps, u32::MAX as int * 1000, 1000);
    lemma_div_by_multiple(u32::MAX as int, 1000);
}

/// Scaling a count by `1000 / fps` never shrinks it while `fps` stays a
/// sane frame rate.
proof fn lemma_le_scaled(a: int, fps: int)
    requires
        0 <= a,
        0 < fps <= 1000,
    ensures
        a <= a * 1000 / fps,
{
    assert(a * fps <= a * 1000) by (nonlinear_arith)
        requires
            0 <= a,
            fps <= 1000,
    ;
    lemma_div_is_ordered(a * fps, a * 1000, fps);
    lemma_div_by_multiple(a, fps);
}

/// Every transition keeps the orchestration state well-formed.
pub proof fn lemma_step_preserves_wf(m: OrchModel, e: EventSpec)
    requires
        wf_model(m),
    ensures
        wf_model(step(m, e).post),
{
    match e {
        EventSpec::SeekTo(ms) => {
            if m.current is Some {
                let t = m.current->0;
                let target: nat = if ms <= t.duration_ms {
                    ms as nat
                } else {
                    t.duration_ms as nat
                };
                lemma_ticks_roundtrip(target as int, m.fps as int);
                lemma_ticks_fit(target as int, m.fps as int);
            }
        },
        EventSpec::SeekForward(d) => {
            if m.current is Some {
                let t = m.current->0;
                let target: nat = if elapsed_of(m) + d <= t.duration_ms {
                    (elapsed_of(m) + d) as nat
                } else {
                    t.duration_ms as nat
                };
                lemma_ticks_roundtrip(target as int, m.fps as int);
                lemma_ticks_fit(target as int, m.fps as int);
            }
        },
        EventSpec::SeekBackward(d) => {
            if m.current is Some {
                let t = m.current->0;
                let target: nat = if elapsed_of(m) >= d {
                    (elapsed_of(m) - d) as nat
                } else {
                    0
                };
                assert(target <= elapsed_of(m));
                lemma_ticks_roundtrip(target as int, m.fps as int);
                lemma_ticks_fit(target as int, m.fps as int);
            }
        },
        _ => {},
    }
}

/// The periodic clock keeps the orchestration state well-formed.
pub proof fn lemma_tick_preserves_wf(m: OrchModel)
    requires
        wf_model(m),
    ensures
        wf_model(step_tick(m).post),
{
    if step_tick(m).post != m {
        lemma_le_scaled(m.ticks as int + 1, m.fps as int);
    }
}

/// A whole consumer pass keeps the orchestration state well-formed.
pub proof fn lemma_run_preserves_wf(m: OrchModel, evs: Seq<EventSpec>)
    requires
        wf_model(m),
    ensures
        wf_model(run(m, evs).post),
    decreases evs.len(),
{
    if evs.len() > 0 {
        lemma_step_preserves_wf(m, evs[0]);
        lemma_run_preserves_wf(step(m, evs[0]).post, evs.drop_first());
    }
}

/// The playback orchestrator: the sole consumer of the event bus. It owns
/// the authoritative player state, the elapsed-time clock, the current
/// track, the queue, and the bus itself; it turns drained events into state
/// transitions and into [`Action`]s for the external player and the UI.
pub struct Orchestrator {
    state: PlayerState,
    current: Option<Track>,
    ticks: u64,
    fps: u64,
    /// The play queue. UI handlers may mutate it directly through the
    /// documented operations, each of which publishes its own update on the
    /// bus.
    pub queue: Queue,
    /// The event bus. UI handlers publish events here; only the
    /// orchestrator drains it.
    pub em: EventManager,
}

impl View for Orchestrator {
    type V = OrchModel;

    closed spec fn view(&self) -> OrchModel {
        OrchModel {
            state: self.state,
            current: opt_track_view(self.current),
            ticks: self.ticks as nat,
            fps: self.fps as nat,
            queue: self.queue@,
            bus: bus_events(self.em),
        }
    }
}

impl Orchestrator {
    /// A fresh orchestrator: stopped, with no current track, the clock at
    /// zero and an empty queue, consuming `em`. `fps` is the fixed tick
    /// rate of the host loop, in ticks per second.
    pub fn new(em: EventManager, fps: u64) -> (o: Orchestrator)
        requires
            0 < fps <= 1000,
        ensures
            o@.state == PlayerState::Stopped,
            o@.current is None,
            o@.ticks == 0,
            o@.fps == fps,
            o@.queue == Seq::<TrackSpec>::empty(),
            o@.bus == bus_events(em),
            wf_model(o@),
    {
        Orchestrator {
            state: PlayerState::Stopped,
            current: None,
            ticks: 0,
            fps,
            queue: Queue::new(),
            em,
        }
    }

    /// The authoritative player state.
    pub fn state(&self) -> (s: PlayerState)
        ensures
            s == self@.state,
    {
        self.state
    }

    /// The track currently loaded, if any.
    pub fn current_track(&self) -> (t: &Option<Track>)
        ensures
            opt_track_view(*t) == self@.current,
    {
        &self.current
    }

    /// The elapsed playback time the clock encodes, in milliseconds.
    pub fn elapsed_ms(&self) -> (e: u64)
        requires
            wf_model(self@),
        ensures
            e == elapsed_of(self@),
    {
        proof {
            assert(self.ticks * 1000 <= (u32::MAX as int + 1) * 1000) by (nonlinear_arith)
                requires
                    self.ticks <= u32::MAX as int + 1,
            ;
        }
        self.ticks * 1000 / self.fps
    }

    /// Processes one drained event, exactly as [`step`] describes, and
    /// returns the commands to perform.
    pub fn handle_event(&mut self, event: Event) -> (acts: Vec<Action>)
        requires
            wf_model(old(self)@),
        ensures
            final(self)@ == step(old(self)@, event@).post,
            acts@ == step(old(self)@, event@).actions,
            wf_model(final(self)@),
    {
        proof {
            lemma_step_preserves_wf(old(self)@, event@);
        }
        let ghost out = step(self@, event@);
        let mut acts: Vec<Action> = Vec::new();
        match event {
            Event::QueueUpdate => {
                acts.push(Action::Redraw);
                if self.state == PlayerState::Stopped && !self.queue.is_empty() {
                    self.em.send(Event::CheckQueue);
                }
                proof {
                    assert(self@ =~= out.post);
                    assert(acts@ =~= out.actions);
                }
            },
            Event::QueueAdd(track) => {
                if self.queue.is_empty() && self.current.is_none() {
                    self.em.send(Event::Play(track));
                } else {
                    self.queue.enqueue(track, &mut self.em);
                }
                proof {
                    assert(self@ =~= out.post);
                    assert(acts@ =~= out.actions);
                }
            },
            Event::QueueRemove(index) => {
                let _ = self.queue.remove(index, &mut self.em);
                proof {
                    assert(self@ =~= out.post);
                    assert(acts@ =~= out.actions);
                }
            },
            Event::SongChange(track) => {
                self.current = Some(track);
                self.ticks = 0;
                proof {
                    assert(self@ =~= out.post);
                    assert(acts@ =~= out.actions);
                }
            },
            Event::PlayState(s) => {
                self.state = s;
                match s {
                    PlayerState::Playing => {
                        acts.push(Action::Play);
                    },
                    PlayerState::Paused => {
                        acts.push(Action::Pause);
                    },
                    PlayerState::Stopped => {
                        self.current = None;
                        self.ticks = 0;
                        acts.push(Action::Stop);
                        if !self.queue.is_empty() {
                            self.em.send(Event::CheckQueue);
                        }
                    },
                }
                proof {
                    assert(self@ =~= out.post);
                    assert(acts@ =~= out.actions);
                }
            },
            Event::Play(track) => {
                match resolve_track_id(track.id.as_str()) {
                    Ok(r) => {
                        proof {
                            assert(resolved_ref(track@.id) == Some(r));
                        }
                        self.state = PlayerState::Playing;
                        acts.push(Action::Load(r));
                        acts.push(Action::Play);
                        self.em.send(Event::SongChange(track));
                    },
                    Err(_) => {
                        proof {
                            assert(resolved_ref(track@.id) is None);
                        }
                        acts.push(Action::NotifyUnplayable);
                        self.em.send(Event::CheckQueue);
                    },
                }
                proof {
                    assert(self@ =~= out.post);
                    assert(acts@ =~= out.actions);
                }
            },
            Event::CheckQueue => {
                if self.state == PlayerState::Stopped {
                    match self.queue.dequeue(&mut self.em) {
                        Some(front) => {
                            self.em.send(Event::Play(front));
                        },
                        None => {
                            acts.push(Action::Stop);
                        },
                    }
                }
                proof {
                    assert(self@ =~= out.post);
                    assert(acts@ =~= out.actions);
                }
            },
            Event::SeekTo(ms) => {
                let dur: Option<u32> = match &self.current {
                    Some(t) => Some(t.duration_ms),
                    None => None,
                };
                if let Some(duration) = dur {
                    let target: u32 = if ms <= duration {
                        ms
                    } else {
                        duration
                    };
                    self.set_clock(target);
                    acts.push(Action::Seek(target));
                }
                proof {
                    assert(self@ =~= out.post);
                    assert(acts@ =~= out.actions);
                }
            },
            Event::SeekForward(d) => {
                let dur: Option<u32> = match &self.current {
                    Some(t) => Some(t.duration_ms),
                    None => None,
                };
                if let Some(duration) = dur {
                    let e = self.elapsed_ms();
                    let sum: u64 = e + d as u64;
                    let target: u32 = if sum <= duration as u64 {
                        sum as u32
                    } else {
                        duration
                    };
                    self.set_clock(target);
                    acts.push(Action::Seek(target));
                }
                proof {
                    assert(self@ =~= out.post);
                    assert(acts@ =~= out.actions);
                }
            },
            Event::SeekBackward(d) => {
                let dur: Option<u32> = match &self.current {
                    Some(t) => Some(t.duration_ms),
                    None => None,
                };
                if let Some(duration) = dur {
                    let e = self.elapsed_ms();
                    let floored: u64 = if e >= d as u64 {
                        e - d as u64
                    } else {
                        0
                    };
                    let target: u32 = floored as u32;
                    self.set_clock(target);
                    acts.push(Action::Seek(target));
                }
                proof {
                    assert(self@ =~= out.post);
                    assert(acts@ =~= out.actions);
                }
            },
        }
        acts
    }

    /// Rewinds or advances the clock to encode an absolute position of
    /// `ms` milliseconds.
    fn set_clock(&mut self, ms: u32)
        requires
            0 < old(self)@.fps <= 1000,
        ensures
            final(self)@ == (OrchModel { ticks: ticks_for(ms as nat, old(self)@.fps), ..old(self)@ }),
    {
        proof {
            let f = self.fps as int;
            assert(ms as int * f <= u32::MAX as int * 1000) by (nonlinear_arith)
                requires
                    0 <= ms <= u32::MAX as int,
                    0 < f <= 1000,
            ;
        }
        self.ticks = ms as u64 * self.fps / 1000;
        proof {
            assert(self@ =~= OrchModel { ticks: ticks_for(ms as nat, old(self)@.fps), ..old(self)@ });
        }
    }

    /// One periodic clock tick, exactly as [`step_tick`] describes:
    /// advances the clock while playing (stopping short of the current
    /// track's duration) and asks the UI to redraw while a track is loaded.
    pub fn tick(&mut self) -> (acts: Vec<Action>)
        requires
            wf_model(old(self)@),
        ensures
            final(self)@ == step_tick(old(self)@).post,
            acts@ == step_tick(old(self)@).actions,
            wf_model(final(self)@),
    {
        proof {
            lemma_tick_preserves_wf(old(self)@);
        }
        let ghost out = step_tick(self@);
        let mut acts: Vec<Action> = Vec::new();
        if self.state == PlayerState::Playing {
            let dur: Option<u32> = match &self.current {
                Some(t) => Some(t.duration_ms),
                None => None,
            };
            if let Some(duration) = dur {
                proof {
                    assert((self.ticks + 1) * 1000 <= (u32::MAX as int + 2) * 1000)
                        by (nonlinear_arith)
                        requires
                            self.ticks <= u32::MAX as int + 1,
                    ;
                }
                if (self.ticks + 1) * 1000 / self.fps <= duration as u64 {
                    self.ticks = self.ticks + 1;
                }
            }
        }
        if self.current.is_some() {
            acts.push(Action::Redraw);
        }
        proof {
            assert(self@ =~= out.post);
            assert(acts@ =~= out.actions);
        }
        acts
    }

    /// Drains the bus once and processes every drained event in arrival
    /// order: one consumer pass, exactly as [`run`] describes. Events the
    /// handlers publish during the pass stay on the bus for the next one.
    pub fn process_events(&mut self) -> (acts: Vec<Action>)
        requires
            wf_model(old(self)@),
        ensures
            final(self)@ == run(clear_bus(old(self)@), old(self)@.bus).post,
            acts@ == run(clear_bus(old(self)@), old(self)@.bus).actions,
            wf_model(final(self)@),
    {
        let ghost target = run(clear_bus(old(self)@), old(self)@.bus);
        let mut evs: Vec<Event> = self.em.msg_iter();
        let mut acts: Vec<Action> = Vec::new();
        proof {
            assert(self@ =~= clear_bus(old(self)@));
            assert(events_view(evs@) == old(self)@.bus);
        }
        while evs.len() > 0
            invariant
                wf_model(self@),
                target == run(clear_bus(old(self)@), old(self)@.bus),
                target.post == run(self@, events_view(evs@)).post,
                target.actions == acts@ + run(self@, events_view(evs@)).actions,
            decreases evs.len(),
        {
            let ghost pre = self@;
            let ghost evs_pre = events_view(evs@);
            let e = evs.remove(0);
            proof {
                assert(events_view(evs@) =~= evs_pre.drop_first());
                assert(evs_pre[0] == e@);
            }
            let mut step_acts = self.handle_event(e);
            proof {
                assert(run(pre, evs_pre).post == run(self@, events_view(evs@)).post);
                assert(run(pre, evs_pre).actions =~= step_acts@ + run(
                    self@,
                    events_view(evs@),
                ).actions);
            }
            acts.append(&mut step_acts);
            proof {
                assert(target.actions =~= acts@ + run(self@, events_view(evs@)).actions);
            }
        }
        proof {
            assert(events_view(evs@) =~= Seq::<EventSpec>::empty());
            assert(run(self@, events_view(evs@)).post == self@);
            assert(target.actions =~= acts@);
        }
        acts
    }
}

} // verus!
