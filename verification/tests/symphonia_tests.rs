use std::io::Cursor;

/// The reference demuxer/decoder stack decodes the library's canonical
/// container back to exactly the samples that went in.
#[test]
fn symphonia_decodes_the_encoded_container() {
    let spec = audio_server::WaveSpec { rate: 44100, channels: 1, format_tag: 3 };
    let samples: Vec<u32> =
        (0..2000).map(|i| ((i as f32) / 2000.0 * 0.25 - 0.125).to_bits()).collect();
    let bytes = audio_server::encode_wave(spec, &samples);

    let mss = symphonia::core::io::MediaSourceStream::new(
        Box::new(Cursor::new(bytes)),
        Default::default(),
    );
    let probed = symphonia::default::get_probe()
        .format(
            &symphonia::core::probe::Hint::new(),
            mss,
            &symphonia::core::formats::FormatOptions::default(),
            &symphonia::core::meta::MetadataOptions::default(),
        )
        .expect("the container should probe as WAVE");
    let mut format = probed.format;
    let track = format.default_track().expect("one default track");
    let track_id = track.id;
    assert_eq!(track.codec_params.sample_rate, Some(44100));
    let mut decoder = symphonia::default::get_codecs()
        .make(&track.codec_params, &symphonia::core::codecs::DecoderOptions::default())
        .expect("a PCM decoder");

    let mut decoded: Vec<u32> = Vec::new();
    loop {
        let packet = match format.next_packet() {
            Ok(p) => p,
            Err(symphonia::core::errors::Error::IoError(ref e))
                if e.kind() == std::io::ErrorKind::UnexpectedEof =>
            {
                break;
            }
            Err(e) => panic!("error reading packet: {e}"),
        };
        if packet.track_id() != track_id {
            continue;
        }
        let buffer = decoder.decode(&packet).expect("a clean frame");
        let mut sample_buffer =
            symphonia::core::audio::SampleBuffer::<f32>::new(64 * 1024, *buffer.spec());
        sample_buffer.copy_interleaved_ref(buffer);
        decoded.extend(sample_buffer.samples().iter().map(|s| s.to_bits()));
    }
    assert_eq!(decoded, samples);
}
