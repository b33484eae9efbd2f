use ncspot::{Event, EventManager};

#[test]
fn send_delivers_in_fifo_order() {
    let (wake, _wake_rx) = crossbeam_channel::unbounded();
    let mut em = EventManager::new(wake);
    em.send(Event::CheckQueue);
    em.send(Event::SeekTo(500));
    em.send(Event::QueueUpdate);
    assert_eq!(
        em.msg_iter(),
        vec![Event::CheckQueue, Event::SeekTo(500), Event::QueueUpdate]
    );
    // A drain empties the bus.
    assert_eq!(em.msg_iter(), vec![]);
}

#[test]
fn every_send_wakes_the_ui_loop() {
    let (wake, wake_rx) = crossbeam_channel::unbounded();
    let mut em = EventManager::new(wake);
    em.send(Event::QueueUpdate);
    em.send(Event::CheckQueue);
    assert_eq!(wake_rx.try_iter().count(), 2);
    em.trigger();
    assert_eq!(wake_rx.try_iter().count(), 1);
    // Draining messages does not wake anyone.
    em.msg_iter();
    assert_eq!(wake_rx.try_iter().count(), 0);
}

#[test]
fn fresh_bus_is_empty() {
    let (wake, _wake_rx) = crossbeam_channel::unbounded();
    let mut em = EventManager::new(wake);
    assert_eq!(em.msg_iter(), vec![]);
}
