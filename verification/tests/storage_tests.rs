use audio_server::{AudioStorage, FSAudioStorage, Track, TrackQuery};

fn track(id: u64, title: &str) -> Track {
    Track { id, title: title.to_string(), duration_ms: 1000, source_path: format!("{id}.wav") }
}

fn query(title: &str, read_cursor: u32, max_response: u32) -> TrackQuery {
    TrackQuery { title: title.to_string(), read_cursor, max_response }
}

fn loaded() -> FSAudioStorage {
    let mut storage = FSAudioStorage::new("public");
    storage.load_records(vec![
        track(1, "Electric Prince"),
        track(2, "Morning Dew"),
        track(3, "Electric Morning"),
    ]);
    storage
}

#[test]
fn get_track_finds_loaded_records() {
    let storage = loaded();
    let found = storage.get_track(2).unwrap();
    assert_eq!(found, track(2, "Morning Dew"));
    assert!(storage.get_track(9).is_err());
}

#[test]
fn load_records_replaces_same_id() {
    let mut storage = loaded();
    storage.load_records(vec![track(2, "Evening Dew")]);
    assert_eq!(storage.get_track(2).unwrap().title, "Evening Dew");
    // the other records are untouched
    assert_eq!(storage.get_track(1).unwrap().title, "Electric Prince");
    // and the replaced record keeps its position in query order
    let all = storage.query_tracks(&query("", 0, 10)).unwrap();
    let titles: Vec<String> = all.into_iter().map(|t| t.title).collect();
    assert_eq!(titles, vec!["Electric Prince", "Evening Dew", "Electric Morning"]);
}

#[test]
fn query_filters_case_insensitively_in_order() {
    let storage = loaded();
    let found = storage.query_tracks(&query("ELECTRIC", 0, 10)).unwrap();
    assert_eq!(found.len(), 2);
    assert_eq!(found[0].id, 1);
    assert_eq!(found[1].id, 3);
}

#[test]
fn query_pages_with_cursor_and_cap() {
    let storage = loaded();
    assert_eq!(storage.query_tracks(&query("", 0, 2)).unwrap().len(), 2);
    let second_page = storage.query_tracks(&query("", 2, 2)).unwrap();
    assert_eq!(second_page.len(), 1);
    assert_eq!(second_page[0].id, 3);
    // a cursor past the end yields nothing
    assert!(storage.query_tracks(&query("", 7, 2)).unwrap().is_empty());
    // a zero cap yields nothing
    assert!(storage.query_tracks(&query("", 0, 0)).unwrap().is_empty());
}

#[test]
fn sources_resolve_after_loading() {
    let mut storage = loaded();
    assert!(storage.get_track_source(1).is_err());
    storage.load_source(1, vec![1, 2, 3]);
    assert_eq!(storage.get_track_source(1).unwrap(), vec![1, 2, 3]);
}
