use audio_server::{ObservablePlaybackState, PlaybackEvent, Track};

fn track(id: u64, title: &str) -> Track {
    Track { id, title: title.to_string(), duration_ms: 1000, source_path: format!("{id}.wav") }
}

#[test]
fn fresh_state_is_stopped_and_empty() {
    let state = ObservablePlaybackState::new();
    assert!(!state.is_playing());
    assert!(state.session().is_empty());
    assert!(state.current_track().is_none());
    assert!(state.queue().is_empty());
}

#[test]
fn set_playing_notifies_only_on_a_change() {
    let mut state = ObservablePlaybackState::new();
    let handle = state.on_is_playing_changed();
    state.set_playing(true);
    assert!(state.is_playing());
    // once playing, further calls leave the state untouched and stay silent
    state.set_playing(false);
    assert!(state.is_playing());
    let notes = state.take_notifications();
    assert_eq!(notes.len(), 1);
    assert_eq!(notes[0].listener, handle);
    assert!(matches!(notes[0].event, PlaybackEvent::IsPlayingChanged { playing: true }));
}

#[test]
fn enqueue_inserts_after_cursor() {
    let mut state = ObservablePlaybackState::new();
    state.enqueue(track(1, "a"), 0);
    state.enqueue(track(2, "b"), 0);
    state.enqueue(track(3, "c"), 9);
    let ids: Vec<u64> = state.session().into_iter().map(|t| t.id).collect();
    // the first lands at the end, the second right after the cursor,
    // the third's oversized offset clips to the end
    assert_eq!(ids, vec![1, 2, 3]);
}

#[test]
fn skip_clips_at_both_ends() {
    let mut state = ObservablePlaybackState::new();
    state.enqueue(track(1, "a"), 0);
    state.enqueue(track(2, "b"), 1);
    state.enqueue(track(3, "c"), 2);
    state.skip(2);
    assert_eq!(state.current_track().unwrap().id, 3);
    state.skip(100);
    // the cursor stops one past the last track: nothing is current
    assert!(state.current_track().is_none());
    state.skip(-100);
    assert_eq!(state.current_track().unwrap().id, 1);
}

#[test]
fn play_now_moves_onto_the_new_track() {
    let mut state = ObservablePlaybackState::new();
    state.enqueue(track(1, "a"), 0);
    state.play_now(track(2, "b"));
    // the new track lands right after the old cursor and becomes current
    assert_eq!(state.current_track().unwrap().id, 2);
    let ids: Vec<u64> = state.session().into_iter().map(|t| t.id).collect();
    assert_eq!(ids, vec![1, 2]);
    let history: Vec<u64> = state.history().into_iter().map(|t| t.id).collect();
    assert_eq!(history, vec![1]);
}

#[test]
fn queue_and_history_split_around_cursor() {
    let mut state = ObservablePlaybackState::new();
    state.enqueue(track(1, "a"), 0);
    state.enqueue(track(2, "b"), 1);
    state.enqueue(track(3, "c"), 2);
    state.skip(1);
    let history: Vec<u64> = state.history().into_iter().map(|t| t.id).collect();
    let queue: Vec<u64> = state.queue().into_iter().map(|t| t.id).collect();
    assert_eq!(history, vec![1]);
    assert_eq!(state.current_track().unwrap().id, 2);
    assert_eq!(queue, vec![3]);
}

#[test]
fn dequeue_removes_after_cursor_or_does_nothing() {
    let mut state = ObservablePlaybackState::new();
    state.enqueue(track(1, "a"), 0);
    state.enqueue(track(2, "b"), 1);
    state.enqueue(track(3, "c"), 2);
    state.dequeue(0);
    let ids: Vec<u64> = state.session().into_iter().map(|t| t.id).collect();
    assert_eq!(ids, vec![1, 3]);
    // past the end: a no-op
    state.dequeue(5);
    assert_eq!(state.session().len(), 2);
}

#[test]
fn notifications_arrive_in_registration_order() {
    let mut state = ObservablePlaybackState::new();
    let first = state.on_enqueue();
    let second = state.on_enqueue();
    state.enqueue(track(1, "a"), 0);
    let notes = state.take_notifications();
    assert_eq!(notes.len(), 2);
    assert_eq!(notes[0].listener, first);
    assert_eq!(notes[1].listener, second);
    assert!(matches!(notes[0].event, PlaybackEvent::Enqueued { position: 0, .. }));
    // the log was drained
    assert!(state.take_notifications().is_empty());
}

#[test]
fn unsubscribe_stops_deliveries() {
    let mut state = ObservablePlaybackState::new();
    let kept = state.on_dequeue();
    let dropped = state.on_dequeue();
    state.unsubscribe(dropped);
    state.enqueue(track(1, "a"), 0);
    state.enqueue(track(2, "b"), 0);
    // removes the track right after the cursor
    state.dequeue(0);
    let notes = state.take_notifications();
    let dequeue_listeners: Vec<u64> = notes
        .iter()
        .filter(|n| matches!(n.event, PlaybackEvent::Dequeued { .. }))
        .map(|n| n.listener)
        .collect();
    assert_eq!(dequeue_listeners, vec![kept]);
}

#[test]
fn skip_announces_the_track_under_the_cursor() {
    let mut state = ObservablePlaybackState::new();
    state.enqueue(track(1, "a"), 0);
    state.enqueue(track(2, "b"), 1);
    let handle = state.on_current_track_changed();
    state.skip(1);
    let notes = state.take_notifications();
    assert_eq!(notes.len(), 1);
    assert_eq!(notes[0].listener, handle);
    match &notes[0].event {
        PlaybackEvent::CurrentTrackChanged { track: Some(t) } => assert_eq!(t.id, 2),
        other => panic!("unexpected event: {:?}", other),
    }
}
