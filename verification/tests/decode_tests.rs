use audio_server::{
    AudioError, AudioReader, CodecParameters, ConsumeOutcome, DecoderOptions, DecoderRegistry,
    FormatSource, Packet, TrackInfo,
};

fn pcm_params(codec: u16, rate: Option<u32>, channels: Option<u16>) -> CodecParameters {
    CodecParameters { codec, sample_rate: rate, channels }
}

fn payload(samples: &[u32]) -> Vec<u8> {
    let mut bytes = Vec::new();
    for s in samples {
        bytes.extend_from_slice(&s.to_le_bytes());
    }
    bytes
}

fn source(track_id: u32, packets: Vec<Packet>) -> FormatSource {
    FormatSource {
        tracks: vec![TrackInfo { id: track_id, codec_params: pcm_params(1, Some(48000), Some(2)) }],
        packets,
        pos: 0,
    }
}

#[test]
fn construction_needs_a_default_track() {
    let empty = FormatSource { tracks: Vec::new(), packets: Vec::new(), pos: 0 };
    let codecs = DecoderRegistry::with_defaults();
    let result = AudioReader::new(empty, &codecs, &DecoderOptions { verify: false });
    assert!(matches!(result, Err(AudioError::NoDefaultTrack)));
}

#[test]
fn construction_needs_a_supported_codec() {
    let odd = FormatSource {
        tracks: vec![TrackInfo { id: 0, codec_params: pcm_params(77, None, None) }],
        packets: Vec::new(),
        pos: 0,
    };
    let codecs = DecoderRegistry::with_defaults();
    let result = AudioReader::new(odd, &codecs, &DecoderOptions { verify: false });
    assert!(matches!(result, Err(AudioError::UnsupportedCodec)));
}

#[test]
fn signal_spec_falls_back_to_cd_rate() {
    let src = FormatSource {
        tracks: vec![TrackInfo { id: 0, codec_params: pcm_params(1, None, None) }],
        packets: Vec::new(),
        pos: 0,
    };
    let codecs = DecoderRegistry::with_defaults();
    let reader = AudioReader::new(src, &codecs, &DecoderOptions { verify: false }).unwrap();
    let spec = reader.signal_spec();
    assert_eq!(spec.rate, 44100);
    assert_eq!(spec.channels, 0);
}

#[test]
fn consume_next_skips_foreign_and_malformed_packets() {
    let packets = vec![
        Packet { track_id: 9, payload: payload(&[111]) },
        Packet { track_id: 0, payload: vec![1, 2, 3] },
        Packet { track_id: 0, payload: payload(&[5, 6]) },
    ];
    let codecs = DecoderRegistry::with_defaults();
    let mut reader =
        AudioReader::new(source(0, packets), &codecs, &DecoderOptions { verify: false }).unwrap();
    match reader.consume_next().unwrap() {
        ConsumeOutcome::Frame(samples) => assert_eq!(samples, vec![5, 6]),
        ConsumeOutcome::Eof => panic!("expected a frame"),
    }
    assert!(matches!(reader.consume_next().unwrap(), ConsumeOutcome::Eof));
}

#[test]
fn read_all_samples_drains_exactly_the_stream() {
    let packets = vec![
        Packet { track_id: 0, payload: payload(&[1, 2]) },
        Packet { track_id: 7, payload: payload(&[99]) },
        Packet { track_id: 0, payload: payload(&[3]) },
        Packet { track_id: 0, payload: payload(&[]) },
        Packet { track_id: 0, payload: payload(&[4, 5]) },
    ];
    let codecs = DecoderRegistry::with_defaults();
    let mut reader =
        AudioReader::new(source(0, packets), &codecs, &DecoderOptions { verify: false }).unwrap();
    assert_eq!(reader.read_all_samples().unwrap(), vec![1, 2, 3, 4, 5]);
    // the stream stays drained
    assert!(matches!(reader.consume_next().unwrap(), ConsumeOutcome::Eof));
    assert!(reader.read_all_samples().unwrap().is_empty());
}

#[test]
fn from_wave_rejects_noise_and_reads_containers() {
    assert!(matches!(
        FormatSource::from_wave(&vec![9, 9, 9]),
        Err(AudioError::IoError)
    ));
    let spec = audio_server::WaveSpec { rate: 44100, channels: 1, format_tag: 1 };
    let bytes = audio_server::encode_wave(spec, &vec![10, 20, 30]);
    let src = FormatSource::from_wave(&bytes).unwrap();
    let codecs = DecoderRegistry::with_defaults();
    let mut reader = AudioReader::new(src, &codecs, &DecoderOptions { verify: false }).unwrap();
    assert_eq!(reader.codec_params().sample_rate, Some(44100));
    assert_eq!(reader.read_all_samples().unwrap(), vec![10, 20, 30]);
}

#[test]
fn read_next_as_samples_fills_a_caller_buffer() {
    let packets = vec![
        Packet { track_id: 0, payload: payload(&[8, 9]) },
        Packet { track_id: 0, payload: payload(&[10]) },
    ];
    let codecs = DecoderRegistry::with_defaults();
    let mut reader =
        AudioReader::new(source(0, packets), &codecs, &DecoderOptions { verify: false }).unwrap();
    let mut dst = audio_server::SampleBuffer::new(64 * 1024);
    assert_eq!(dst.capacity(), 64 * 1024);
    match reader.read_next_as_samples(&mut dst).unwrap() {
        audio_server::ReadOutcome::Read(n) => assert_eq!(n, 2),
        audio_server::ReadOutcome::Eof => panic!("expected a frame"),
    }
    assert_eq!(dst.samples(), &[8, 9]);
    match reader.read_next_as_samples(&mut dst).unwrap() {
        audio_server::ReadOutcome::Read(n) => assert_eq!(n, 1),
        audio_server::ReadOutcome::Eof => panic!("expected a frame"),
    }
    assert_eq!(dst.samples(), &[10]);
    assert!(matches!(
        reader.read_next_as_samples(&mut dst).unwrap(),
        audio_server::ReadOutcome::Eof
    ));
    assert_eq!(dst.len(), 1);
}
