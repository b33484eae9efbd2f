use ncspot::{Action, Event, EventManager, Orchestrator, PlayerState, Track};

fn fresh(fps: u64) -> Orchestrator {
    let (wake, _) = crossbeam_channel::unbounded();
    Orchestrator::new(EventManager::new(wake), fps)
}

fn track(id: &str, name: &str, duration_ms: u32) -> Track {
    Track {
        id: id.to_string(),
        name: name.to_string(),
        artists: vec!["Artist".to_string()],
        duration_ms,
    }
}

#[test]
fn starts_stopped_and_idle() {
    let orch = fresh(60);
    assert_eq!(orch.state(), PlayerState::Stopped);
    assert!(orch.current_track().is_none());
    assert!(orch.queue.is_empty());
}

#[test]
fn auto_play_on_add() {
    let mut orch = fresh(10);
    let t = track("1", "a", 180_000);
    orch.em.send(Event::QueueAdd(t.clone()));
    let mut acts: Vec<Action> = Vec::new();
    for _ in 0..4 {
        acts.extend(orch.process_events());
    }
    assert_eq!(orch.state(), PlayerState::Playing);
    assert_eq!(orch.current_track().as_ref().unwrap(), &t);
    assert!(orch.queue.is_empty());
    assert!(acts.contains(&Action::Load(1)));
    assert!(acts.contains(&Action::Play));
    // No intermediate pause or stop was ever commanded or observable.
    assert!(!acts.contains(&Action::Stop));
    assert!(!acts.contains(&Action::Pause));
}

#[test]
fn queue_add_enqueues_while_playing() {
    let mut orch = fresh(10);
    let a = track("1", "a", 180_000);
    let b = track("2", "b", 180_000);
    orch.handle_event(Event::SongChange(a));
    orch.handle_event(Event::PlayState(PlayerState::Playing));
    orch.em.send(Event::QueueAdd(b.clone()));
    for _ in 0..4 {
        orch.process_events();
    }
    // The playing track keeps playing; the new one waits in the queue.
    assert_eq!(orch.current_track().as_ref().unwrap().id, "1");
    let queued: Vec<&Track> = orch.queue.iter().iter().collect();
    assert_eq!(queued, vec![&b]);
}

#[test]
fn seek_clamping() {
    let mut orch = fresh(10);
    let t = track("1", "a", 200_000);
    orch.handle_event(Event::SongChange(t));
    let acts = orch.handle_event(Event::SeekTo(5_000));
    assert_eq!(acts, vec![Action::Seek(5_000)]);
    assert_eq!(orch.elapsed_ms(), 5_000);
    let acts = orch.handle_event(Event::SeekBackward(10_000));
    assert_eq!(acts, vec![Action::Seek(0)]);
    assert_eq!(orch.elapsed_ms(), 0);
    let acts = orch.handle_event(Event::SeekForward(300_000));
    assert_eq!(acts, vec![Action::Seek(200_000)]);
    assert_eq!(orch.elapsed_ms(), 200_000);
}

#[test]
fn seek_without_track_does_nothing() {
    let mut orch = fresh(10);
    assert_eq!(orch.handle_event(Event::SeekForward(10_000)), vec![]);
    assert_eq!(orch.handle_event(Event::SeekBackward(10_000)), vec![]);
    assert_eq!(orch.handle_event(Event::SeekTo(10_000)), vec![]);
    assert_eq!(orch.elapsed_ms(), 0);
}

#[test]
fn auto_advance_after_stop() {
    let mut orch = fresh(10);
    let a = track("1", "a", 180_000);
    let b = track("2", "b", 180_000);
    orch.handle_event(Event::SongChange(a));
    orch.handle_event(Event::PlayState(PlayerState::Playing));
    orch.queue.enqueue(b.clone(), &mut orch.em);
    orch.process_events();
    assert_eq!(orch.state(), PlayerState::Playing);
    // The track ends: the player reports Stopped while the queue is
    // non-empty; the next passes dequeue and play the front track.
    orch.em.send(Event::PlayState(PlayerState::Stopped));
    let mut acts: Vec<Action> = Vec::new();
    for _ in 0..5 {
        acts.extend(orch.process_events());
    }
    assert_eq!(orch.state(), PlayerState::Playing);
    assert_eq!(orch.current_track().as_ref().unwrap(), &b);
    assert!(orch.queue.is_empty());
    assert!(acts.contains(&Action::Load(2)));
}

#[test]
fn unresolvable_track_is_skipped() {
    let mut orch = fresh(10);
    let bad = track("not/a/base62/id", "bad", 180_000);
    let good = track("3", "good", 180_000);
    orch.queue.enqueue(bad, &mut orch.em);
    orch.queue.enqueue(good.clone(), &mut orch.em);
    orch.em.send(Event::PlayState(PlayerState::Stopped));
    let mut acts: Vec<Action> = Vec::new();
    for _ in 0..8 {
        acts.extend(orch.process_events());
    }
    assert!(acts.contains(&Action::NotifyUnplayable));
    assert_eq!(orch.state(), PlayerState::Playing);
    assert_eq!(orch.current_track().as_ref().unwrap(), &good);
    assert!(orch.queue.is_empty());
}

#[test]
fn check_queue_on_empty_queue_stops() {
    let mut orch = fresh(10);
    let acts = orch.handle_event(Event::CheckQueue);
    assert_eq!(acts, vec![Action::Stop]);
    assert_eq!(orch.state(), PlayerState::Stopped);
}

#[test]
fn remove_event_drops_the_row() {
    let mut orch = fresh(10);
    let a = track("1", "a", 180_000);
    let b = track("2", "b", 180_000);
    orch.handle_event(Event::SongChange(a));
    orch.handle_event(Event::PlayState(PlayerState::Playing));
    orch.queue.enqueue(b, &mut orch.em);
    orch.process_events();
    orch.em.send(Event::QueueRemove(0));
    for _ in 0..3 {
        orch.process_events();
    }
    assert!(orch.queue.is_empty());
    // Removing from the now-empty queue is signalled, not fatal.
    let acts = orch.handle_event(Event::QueueRemove(7));
    assert_eq!(acts, vec![]);
}

#[test]
fn clock_advances_only_while_playing() {
    let mut orch = fresh(10);
    let t = track("1", "a", 180_000);
    orch.handle_event(Event::SongChange(t));
    // Paused: the clock stands still, but the UI still redraws.
    assert_eq!(orch.tick(), vec![Action::Redraw]);
    assert_eq!(orch.elapsed_ms(), 0);
    orch.handle_event(Event::PlayState(PlayerState::Playing));
    for _ in 0..10 {
        assert_eq!(orch.tick(), vec![Action::Redraw]);
    }
    // Ten ticks at 10 ticks per second encode one second.
    assert_eq!(orch.elapsed_ms(), 1_000);
}

#[test]
fn clock_never_passes_the_duration() {
    let mut orch = fresh(10);
    let t = track("1", "a", 1_000);
    orch.handle_event(Event::SongChange(t));
    orch.handle_event(Event::PlayState(PlayerState::Playing));
    for _ in 0..25 {
        orch.tick();
    }
    assert_eq!(orch.elapsed_ms(), 1_000);
}

#[test]
fn tick_without_track_is_silent() {
    let mut orch = fresh(10);
    assert_eq!(orch.tick(), vec![]);
    assert_eq!(orch.elapsed_ms(), 0);
}

#[test]
fn stop_clears_current_track_and_clock() {
    let mut orch = fresh(10);
    let t = track("1", "a", 180_000);
    orch.handle_event(Event::SongChange(t));
    orch.handle_event(Event::PlayState(PlayerState::Playing));
    orch.handle_event(Event::SeekTo(5_000));
    let acts = orch.handle_event(Event::PlayState(PlayerState::Stopped));
    assert_eq!(acts, vec![Action::Stop]);
    assert!(orch.current_track().is_none());
    assert_eq!(orch.elapsed_ms(), 0);
}

#[test]
fn song_change_resets_the_clock() {
    let mut orch = fresh(10);
    let a = track("1", "a", 180_000);
    let b = track("2", "b", 180_000);
    orch.handle_event(Event::SongChange(a));
    orch.handle_event(Event::PlayState(PlayerState::Playing));
    orch.handle_event(Event::SeekTo(9_000));
    assert_eq!(orch.elapsed_ms(), 9_000);
    orch.handle_event(Event::SongChange(b));
    assert_eq!(orch.elapsed_ms(), 0);
}
