use ncspot::{Event, EventManager, Queue, Track};

fn wake_sink() -> crossbeam_channel::Sender<()> {
    // The listening end is dropped: these tests watch the message channel,
    // not the wake signal, and a wake without a listener is simply dropped.
    crossbeam_channel::unbounded().0
}

fn track(id: &str, name: &str) -> Track {
    Track {
        id: id.to_string(),
        name: name.to_string(),
        artists: vec!["Artist".to_string()],
        duration_ms: 180_000,
    }
}

#[test]
fn fifo_order() {
    let mut em = EventManager::new(wake_sink());
    let mut q = Queue::new();
    let a = track("1", "a");
    let b = track("2", "b");
    let c = track("3", "c");
    q.enqueue(a.clone(), &mut em);
    q.enqueue(b.clone(), &mut em);
    q.enqueue(c.clone(), &mut em);
    assert_eq!(q.dequeue(&mut em), Some(a));
    assert_eq!(q.dequeue(&mut em), Some(b));
    assert_eq!(q.dequeue(&mut em), Some(c));
    assert_eq!(q.dequeue(&mut em), None);
    assert!(q.is_empty());
}

#[test]
fn one_queue_update_per_mutation_in_commit_order() {
    let mut em = EventManager::new(wake_sink());
    let mut q = Queue::new();
    q.enqueue(track("1", "a"), &mut em);
    assert_eq!(em.msg_iter(), vec![Event::QueueUpdate]);
    q.enqueue(track("2", "b"), &mut em);
    q.dequeue(&mut em).unwrap();
    q.clear(&mut em);
    // Three mutations committed since the last drain: exactly three
    // updates, in the order the mutations committed.
    assert_eq!(
        em.msg_iter(),
        vec![Event::QueueUpdate, Event::QueueUpdate, Event::QueueUpdate]
    );
}

#[test]
fn dequeue_empty_publishes_nothing() {
    let mut em = EventManager::new(wake_sink());
    let mut q = Queue::new();
    assert_eq!(q.dequeue(&mut em), None);
    assert_eq!(em.msg_iter(), vec![]);
}

#[test]
fn clear_on_empty_queue_is_harmless() {
    let mut em = EventManager::new(wake_sink());
    let mut q = Queue::new();
    q.clear(&mut em);
    assert!(q.is_empty());
    // The unconditional update still goes out, for UI consistency.
    assert_eq!(em.msg_iter(), vec![Event::QueueUpdate]);
    q.clear(&mut em);
    assert!(q.is_empty());
    assert_eq!(em.msg_iter(), vec![Event::QueueUpdate]);
}

#[test]
fn remove_out_of_range_leaves_queue_unchanged() {
    let mut em = EventManager::new(wake_sink());
    let mut q = Queue::new();
    q.enqueue(track("1", "a"), &mut em);
    q.enqueue(track("2", "b"), &mut em);
    em.msg_iter();
    assert_eq!(q.remove(5, &mut em), None);
    let contents: Vec<&Track> = q.iter().iter().collect();
    assert_eq!(contents.len(), 2);
    assert_eq!(contents[0].name, "a");
    assert_eq!(contents[1].name, "b");
    // "Not found" publishes nothing.
    assert_eq!(em.msg_iter(), vec![]);
}

#[test]
fn remove_in_range_returns_the_row() {
    let mut em = EventManager::new(wake_sink());
    let mut q = Queue::new();
    q.enqueue(track("1", "a"), &mut em);
    q.enqueue(track("2", "b"), &mut em);
    q.enqueue(track("3", "c"), &mut em);
    em.msg_iter();
    let removed = q.remove(1, &mut em).unwrap();
    assert_eq!(removed.name, "b");
    let contents: Vec<&Track> = q.iter().iter().collect();
    assert_eq!(contents.len(), 2);
    assert_eq!(contents[0].name, "a");
    assert_eq!(contents[1].name, "c");
    assert_eq!(em.msg_iter(), vec![Event::QueueUpdate]);
}
