use audio_server::providers::FsAudioProvider;
use audio_server::{
    AudioError, AudioLibrary, AudioReader, BlobProvider, CodecParameters, DecoderOptions,
    DecoderRegistry, FSAudioStorage, FormatSource, StorageBackend, Track, TrackInfo, TrackQuery,
    WriteableBlobProvider,
};

fn track(id: u64, title: &str) -> Track {
    Track { id, title: title.to_string(), duration_ms: 1000, source_path: format!("{id}.wav") }
}

fn query(title: &str, read_cursor: u32, max_response: u32) -> TrackQuery {
    TrackQuery { title: title.to_string(), read_cursor, max_response }
}

fn storage_with(tracks: Vec<Track>) -> StorageBackend {
    let mut storage = FSAudioStorage::new("public");
    storage.load_records(tracks);
    StorageBackend::Fs(storage)
}

#[test]
fn get_track_takes_the_first_backend_that_has_it() {
    let mut library = AudioLibrary::builder()
        .add_storage(storage_with(vec![track(1, "First Copy")]))
        .add_storage(storage_with(vec![track(1, "Second Copy"), track(2, "Other")]))
        .build()
        .unwrap();
    assert_eq!(library.get_track(1).unwrap().title, "First Copy");
    assert_eq!(library.get_track(2).unwrap().title, "Other");
    assert!(matches!(library.get_track(5), Err(AudioError::NotFound)));
}

#[test]
fn repeated_lookups_return_identical_records() {
    let mut library = AudioLibrary::builder()
        .add_storage(storage_with(vec![track(1, "Electric Prince")]))
        .build()
        .unwrap();
    let first = library.get_track(1).unwrap();
    let second = library.get_track(1).unwrap();
    let third = library.get_track(1).unwrap();
    assert_eq!(first, second);
    assert_eq!(second, third);
}

#[test]
fn query_merges_all_backends_and_repeats_stably() {
    let mut library = AudioLibrary::builder()
        .add_storage(storage_with(vec![track(1, "Electric Prince"), track(2, "Dew")]))
        .add_storage(storage_with(vec![track(3, "Electric Morning")]))
        .build()
        .unwrap();
    let q = query("", 0, 10);
    let first: Vec<u64> = library.query(&q).into_iter().map(|t| t.id).collect();
    let second: Vec<u64> = library.query(&q).into_iter().map(|t| t.id).collect();
    assert_eq!(first, vec![1, 2, 3]);
    assert_eq!(first, second);
    let filtered: Vec<u64> =
        library.query(&query("electric", 0, 10)).into_iter().map(|t| t.id).collect();
    assert_eq!(filtered, vec![1, 3]);
}

#[test]
fn get_track_source_is_first_match_and_uncached() {
    let mut with_source = FSAudioStorage::new("public");
    with_source.load_records(vec![track(1, "A")]);
    with_source.load_source(1, vec![9, 8, 7]);
    let mut library = AudioLibrary::builder()
        .add_storage(storage_with(vec![track(2, "B")]))
        .add_storage(StorageBackend::Fs(with_source))
        .build()
        .unwrap();
    assert_eq!(library.get_track_source(1).unwrap(), vec![9, 8, 7]);
    assert!(matches!(library.get_track_source(2), Err(AudioError::NotFound)));
    // resolving the metadata does not make the blob appear
    let _ = library.get_track(2);
    assert!(matches!(library.get_track_source(2), Err(AudioError::NotFound)));
}

#[test]
fn cover_art_round_trips_through_the_designated_provider() {
    let mut writer = FsAudioProvider::new("public");
    let art_id = WriteableBlobProvider::create_cover_art(&mut writer, &vec![1, 2, 3]).unwrap();
    let mut library = AudioLibrary::builder()
        .add_readable_blob_provider("disk", BlobProvider::Fs(writer))
        .build()
        .unwrap();
    assert_eq!(library.get_cover_art(art_id).unwrap(), vec![1, 2, 3]);
    assert!(matches!(library.get_cover_art(art_id + 1), Err(AudioError::NotFound)));
    // without a writeable provider, writes have nowhere to go
    assert!(matches!(library.create_cover_art(&vec![5]), Err(AudioError::NotFound)));
    assert!(matches!(library.delete_cover_art(art_id), Err(AudioError::NotFound)));
}

#[test]
fn writes_route_to_the_designated_provider() {
    let mut library = AudioLibrary::builder()
        .add_writeable_blob_provider("disk", BlobProvider::Fs(FsAudioProvider::new("public")))
        .build()
        .unwrap();
    let art_id = library.create_cover_art(&vec![4, 4]).unwrap();
    assert!(library.delete_cover_art(art_id).is_ok());
    assert!(library.delete_audio(7).is_ok());
}

#[test]
fn build_initializes_the_whole_registry() {
    // every provider this crate ships prepares cleanly, so a fully built
    // registry comes back whole; a failing preparation would abort instead
    let library = AudioLibrary::builder()
        .add_storage(storage_with(vec![track(1, "A")]))
        .add_readable_blob_provider("disk", BlobProvider::Fs(FsAudioProvider::new("public")))
        .add_writeable_blob_provider("disk", BlobProvider::Fs(FsAudioProvider::new("public")))
        .build();
    assert!(library.is_ok());
}

#[test]
fn same_name_registration_replaces_the_provider() {
    let mut first = FsAudioProvider::new("one");
    let first_art = WriteableBlobProvider::create_cover_art(&mut first, &vec![1]).unwrap();
    let mut second = FsAudioProvider::new("two");
    let second_art = WriteableBlobProvider::create_cover_art(&mut second, &vec![2, 2]).unwrap();
    assert_eq!(first_art, second_art);
    let library = AudioLibrary::builder()
        .add_readable_blob_provider("disk", BlobProvider::Fs(first))
        .add_readable_blob_provider("disk", BlobProvider::Fs(second))
        .build()
        .unwrap();
    // the second registration under "disk" replaced the first, in place
    assert_eq!(library.get_cover_art(second_art).unwrap(), vec![2, 2]);
}

#[test]
fn distinct_names_register_side_by_side() {
    let mut first = FsAudioProvider::new("one");
    let art_id = WriteableBlobProvider::create_cover_art(&mut first, &vec![7]).unwrap();
    let library = AudioLibrary::builder()
        .add_readable_blob_provider("left", BlobProvider::Fs(first))
        .add_readable_blob_provider("right", BlobProvider::Fs(FsAudioProvider::new("two")))
        .build()
        .unwrap();
    assert_eq!(library.get_cover_art(art_id).unwrap(), vec![7]);
}

#[test]
fn create_audio_rejects_uncarriable_sessions() {
    // a session whose codec reports no channel count cannot be persisted
    let source = FormatSource {
        tracks: vec![TrackInfo {
            id: 0,
            codec_params: CodecParameters { codec: 1, sample_rate: Some(44100), channels: None },
        }],
        packets: Vec::new(),
        pos: 0,
    };
    let codecs = DecoderRegistry::with_defaults();
    let session = AudioReader::new(source, &codecs, &DecoderOptions { verify: false }).unwrap();
    let mut library = AudioLibrary::builder()
        .add_writeable_blob_provider("disk", BlobProvider::Fs(FsAudioProvider::new("public")))
        .build()
        .unwrap();
    assert!(matches!(library.create_audio(session), Err(AudioError::IoError)));
}
