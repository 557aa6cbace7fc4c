use audio_server::providers::FsAudioProvider;
use audio_server::WriteableBlobProvider;
use audio_server::{
    AudioLibrary, AudioReader, BlobProvider, CodecParameters, DecoderOptions, DecoderRegistry,
    FSAudioStorage, FormatSource, Packet, StorageBackend, Track, TrackInfo,
};

/// One second of a mono 440 Hz sine wave at 44100 Hz, amplitude 0.25,
/// as 32-bit float bit patterns.
fn sine_bits() -> Vec<u32> {
    let rate = 44100u32;
    (0..rate)
        .map(|i| {
            let t = i as f32 / rate as f32;
            let sample = 0.25 * (2.0 * std::f32::consts::PI * 440.0 * t).sin();
            sample.to_bits()
        })
        .collect()
}

fn session_over(samples: &[u32]) -> AudioReader {
    let mut payload = Vec::new();
    for s in samples {
        payload.extend_from_slice(&s.to_le_bytes());
    }
    let source = FormatSource {
        tracks: vec![TrackInfo {
            id: 0,
            codec_params: CodecParameters {
                codec: 3,
                sample_rate: Some(44100),
                channels: Some(1),
            },
        }],
        packets: vec![Packet { track_id: 0, payload }],
        pos: 0,
    };
    let codecs = DecoderRegistry::with_defaults();
    AudioReader::new(source, &codecs, &DecoderOptions { verify: false }).unwrap()
}

#[test]
fn sine_survives_store_and_decode() {
    let original = sine_bits();
    assert_eq!(original.len(), 44100);

    // encode the synthetic signal into the designated writeable provider
    let mut library = AudioLibrary::builder()
        .add_writeable_blob_provider("disk", BlobProvider::Fs(FsAudioProvider::new("public")))
        .build()
        .unwrap();
    let id = library.create_audio(session_over(&original)).unwrap();

    // a second deployment reads the provider's file back
    let mut writer = FsAudioProvider::new("public");
    let id2 = WriteableBlobProvider::create_audio(&mut writer, session_over(&original)).unwrap();
    let stored = writer.blob_bytes(id2).unwrap();

    // the stored container reaches the structured backend as a track source
    let mut storage = FSAudioStorage::new("public");
    storage.load_records(vec![Track {
        id,
        title: "Sine".to_string(),
        duration_ms: 1000,
        source_path: format!("{id}.wav"),
    }]);
    storage.load_source(id, stored);
    let mut reading_library =
        AudioLibrary::builder().add_storage(StorageBackend::Fs(storage)).build().unwrap();

    // decode it back through a fresh session
    let bytes = reading_library.get_track_source(id).unwrap();
    let source = FormatSource::from_wave(&bytes).unwrap();
    let codecs = DecoderRegistry::with_defaults();
    let mut reader = AudioReader::new(source, &codecs, &DecoderOptions { verify: false }).unwrap();
    let spec = reader.signal_spec();
    assert_eq!(spec.rate, 44100);
    assert_eq!(spec.channels, 1);
    let decoded = reader.read_all_samples().unwrap();
    assert_eq!(decoded.len(), original.len());
    for (a, b) in original.iter().zip(decoded.iter()) {
        let diff = (f32::from_bits(*a) - f32::from_bits(*b)).abs();
        assert!(diff <= 1e-5);
    }
    // the read side also resolves the metadata it was loaded with
    assert_eq!(reading_library.get_track(id).unwrap().title, "Sine");
}

#[test]
fn blob_provider_round_trips_audio() {
    let samples: Vec<u32> = vec![1, 2, 3, 4, 5];
    let mut provider = FsAudioProvider::new("public");
    let id = WriteableBlobProvider::create_audio(&mut provider, session_over(&samples)).unwrap();
    let mut library = AudioLibrary::builder()
        .add_readable_blob_provider("disk", BlobProvider::Fs(provider))
        .build()
        .unwrap();
    let mut reader = library.get_audio(id).unwrap();
    assert_eq!(reader.read_all_samples().unwrap(), samples);
    assert_eq!(reader.signal_spec().rate, 44100);
}
