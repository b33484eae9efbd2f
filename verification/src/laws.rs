use vstd::prelude::*;

use crate::events::EventSpec;
use crate::orchestrator::Action;
use crate::orchestrator::OrchModel;
use crate::orchestrator::clear_bus;
use crate::orchestrator::elapsed_of;
use crate::orchestrator::lemma_ticks_roundtrip;
use crate::orchestrator::resolved_ref;
use crate::orchestrator::run;
use crate::orchestrator::step;
use crate::orchestrator::wf_model;
use crate::track::PlayerState;
use crate::track::TrackSpec;

verus! {

/// Whether an event would let observers see a player-state report.
pub open spec fn is_play_state(e: EventSpec) -> bool {
    e matches EventSpec::PlayState(_)
}

/// Auto-play-on-add: with an empty queue, no current track and an idle
/// bus, `QueueAdd(t)` for a track whose identifier resolves leads — across
/// the cascade of events it publishes — to state `Playing` with current
/// track `t`. No `PlayState` message is published anywhere along the way,
/// so observers see no intermediate `Paused` or `Stopped` report.
pub proof fn lemma_auto_play_on_add(m: OrchModel, t: TrackSpec)
    requires
        wf_model(m),
        m.queue.len() == 0,
        m.current is None,
        m.bus.len() == 0,
        resolved_ref(t.id) is Some,
    ensures
        ({
            let s1 = step(m, EventSpec::QueueAdd(t));
            let s2 = step(clear_bus(s1.post), s1.post.bus[0]);
            let s3 = step(clear_bus(s2.post), s2.post.bus[0]);
            &&& s1.post.bus =~= seq![EventSpec::Play(t)]
            &&& s1.post.state == m.state
            &&& s2.post.state == PlayerState::Playing
            &&& s2.post.bus =~= seq![EventSpec::SongChange(t)]
            &&& s3.post.state == PlayerState::Playing
            &&& s3.post.current == Some(t)
            &&& s3.post.bus.len() == 0
            &&& forall|i: int|
                0 <= i < s1.post.bus.len() ==> !is_play_state(#[trigger] s1.post.bus[i])
            &&& forall|i: int|
                0 <= i < s2.post.bus.len() ==> !is_play_state(#[trigger] s2.post.bus[i])
        }),
{
    let s1 = step(m, EventSpec::QueueAdd(t));
    assert(s1.post.bus =~= seq![EventSpec::Play(t)]);
    assert(s1.post.bus[0] == EventSpec::Play(t));
    let s2 = step(clear_bus(s1.post), s1.post.bus[0]);
    assert(s2.post.bus =~= seq![EventSpec::SongChange(t)]);
    let s3 = step(clear_bus(s2.post), s2.post.bus[0]);
    assert(s3.post.bus.len() == 0);
}

/// Seek clamping: with a track loaded, a forward seek targets
/// `min(elapsed + delta, duration)` and so never passes the track's end;
/// a backward seek targets `max(elapsed, delta) - delta` and so floors at
/// zero rather than going negative; an absolute seek clamps to the
/// duration. In every case the clock afterwards encodes at most the
/// target, and never more than the duration.
pub proof fn lemma_seek_clamping(m: OrchModel, d: u32)
    requires
        wf_model(m),
        m.current is Some,
    ensures
        ({
            let dur = m.current->0.duration_ms;
            let e = elapsed_of(m);
            let fwd_target: nat = if e + d <= dur {
                (e + d) as nat
            } else {
                dur as nat
            };
            let back_target: nat = if e >= d {
                (e - d) as nat
            } else {
                0
            };
            let to_target: nat = if d <= dur {
                d as nat
            } else {
                dur as nat
            };
            let fwd = step(m, EventSpec::SeekForward(d));
            let back = step(m, EventSpec::SeekBackward(d));
            let to = step(m, EventSpec::SeekTo(d));
            &&& fwd.actions =~= seq![Action::Seek(fwd_target as u32)]
            &&& fwd_target <= dur
            &&& elapsed_of(fwd.post) <= fwd_target
            &&& back.actions =~= seq![Action::Seek(back_target as u32)]
            &&& back_target <= e <= dur
            &&& elapsed_of(back.post) <= back_target
            &&& to.actions =~= seq![Action::Seek(to_target as u32)]
            &&& to_target <= dur
            &&& elapsed_of(to.post) <= to_target
        }),
{
    let dur = m.current->0.duration_ms;
    let e = elapsed_of(m);
    let fwd_target: nat = if e + d <= dur {
        (e + d) as nat
    } else {
        dur as nat
    };
    let back_target: nat = if e >= d {
        (e - d) as nat
    } else {
        0
    };
    let to_target: nat = if d <= dur {
        d as nat
    } else {
        dur as nat
    };
    lemma_ticks_roundtrip(fwd_target as int, m.fps as int);
    lemma_ticks_roundtrip(back_target as int, m.fps as int);
    lemma_ticks_roundtrip(to_target as int, m.fps as int);
}

/// Auto-advance: when `PlayState(Stopped)` arrives while the queue is
/// non-empty, the orchestrator publishes a `CheckQueue`; processing it
/// dequeues the front track and publishes `Play` for it; and the consumer
/// pass over those publications ends with the player state `Playing` and
/// the commands to load and start the front track.
pub proof fn lemma_auto_advance(m: OrchModel)
    requires
        wf_model(m),
        m.queue.len() > 0,
        m.bus.len() == 0,
        resolved_ref(m.queue[0].id) is Some,
    ensures
        ({
            let front = m.queue[0];
            let s1 = step(m, EventSpec::PlayState(PlayerState::Stopped));
            let s2 = step(clear_bus(s1.post), s1.post.bus[0]);
            let s3 = run(clear_bus(s2.post), s2.post.bus);
            &&& s1.post.bus =~= seq![EventSpec::CheckQueue]
            &&& s1.post.state == PlayerState::Stopped
            &&& s2.post.queue =~= m.queue.drop_first()
            &&& s2.post.bus =~= seq![EventSpec::QueueUpdate, EventSpec::Play(front)]
            &&& s3.post.state == PlayerState::Playing
            &&& s3.actions =~= seq![
                Action::Redraw,
                Action::Load(resolved_ref(front.id)->0),
                Action::Play,
            ]
        }),
{
    let front = m.queue[0];
    let s1 = step(m, EventSpec::PlayState(PlayerState::Stopped));
    assert(s1.post.bus =~= seq![EventSpec::CheckQueue]);
    let s2 = step(clear_bus(s1.post), s1.post.bus[0]);
    assert(s2.post.bus =~= seq![EventSpec::QueueUpdate, EventSpec::Play(front)]);
    let pass = clear_bus(s2.post);
    let evs = s2.post.bus;
    let u1 = step(pass, evs[0]);
    let u2 = step(u1.post, EventSpec::Play(front));
    assert(evs.drop_first() =~= seq![EventSpec::Play(front)]);
    assert(evs.drop_first().drop_first() =~= Seq::<EventSpec>::empty());
    let s3 = run(pass, evs);
    assert(run(u2.post, Seq::<EventSpec>::empty()).actions =~= Seq::<Action>::empty());
    assert(run(u1.post, evs.drop_first()).actions =~= u2.actions);
    assert(s3.actions =~= u1.actions + u2.actions);
    assert(s3.post == u2.post);
    assert(u2.post.state == PlayerState::Playing);
    assert(s3.actions =~= seq![
        Action::Redraw,
        Action::Load(resolved_ref(front.id)->0),
        Action::Play,
    ]);
}

} // verus!
