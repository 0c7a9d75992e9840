use scene_controller::events::Events;
use scene_controller::playback::MapSelectEvent;
use scene_controller::state::{AppState, NextState};

#[test]
fn events_come_out_in_the_order_they_went_in() {
    let mut events: Events<u32> = Events::new();
    assert!(events.is_empty());
    events.send(3);
    events.send(1);
    events.send(2);
    assert_eq!(events.len(), 3);
    assert_eq!(events.drain(), vec![3, 1, 2]);
}

#[test]
fn events_are_handed_out_once() {
    let mut events: Events<u32> = Events::new();
    events.send(7);
    assert_eq!(events.drain(), vec![7]);
    assert!(events.is_empty());
    assert_eq!(events.drain(), Vec::<u32>::new());
    events.send(8);
    assert_eq!(events.drain(), vec![8]);
}

#[test]
fn two_equal_events_are_two_events() {
    let mut events: Events<MapSelectEvent> = Events::new();
    events.send(MapSelectEvent(String::from("Dust2")));
    events.send(MapSelectEvent(String::from("Dust2")));
    let read = events.drain();
    assert_eq!(read.len(), 2);
    assert_eq!(read[0].0, "Dust2");
    assert_eq!(read[1].0, "Dust2");
}

#[test]
fn events_without_reader_are_dropped_by_clear() {
    let mut events: Events<u32> = Events::new();
    events.send(1);
    events.send(2);
    events.clear();
    assert_eq!(events.len(), 0);
    assert_eq!(events.drain(), Vec::<u32>::new());
}

#[test]
fn application_starts_in_the_main_menu_by_default() {
    assert_eq!(AppState::default(), AppState::MainMenu);
}

#[test]
fn requests_for_a_mode_wait_in_line() {
    let mut next = NextState::new();
    assert_eq!(next.pending(), 0);
    assert_eq!(next.take(), None);
    next.set(AppState::Playback);
    next.set(AppState::MainMenu);
    next.set(AppState::Playback);
    assert_eq!(next.pending(), 3);
    assert_eq!(next.take(), Some(AppState::Playback));
    assert_eq!(next.take(), Some(AppState::MainMenu));
    assert_eq!(next.pending(), 1);
    assert_eq!(next.take(), Some(AppState::Playback));
    assert_eq!(next.take(), None);
}
