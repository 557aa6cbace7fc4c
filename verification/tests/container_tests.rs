use audio_server::{encode_wave, parse_wave, WaveSpec};
use std::io::Cursor;

#[test]
fn encode_then_parse_returns_the_input() {
    let spec = WaveSpec { rate: 44100, channels: 2, format_tag: 1 };
    let samples: Vec<u32> = vec![0, 1, 0xdeadbeef, u32::MAX, 7];
    let bytes = encode_wave(spec, &samples);
    let (parsed_spec, parsed_samples) = parse_wave(&bytes).unwrap();
    assert_eq!(parsed_spec, spec);
    assert_eq!(parsed_samples, samples);
}

#[test]
fn encode_then_parse_handles_an_empty_payload() {
    let spec = WaveSpec { rate: 8000, channels: 1, format_tag: 3 };
    let bytes = encode_wave(spec, &Vec::new());
    assert_eq!(bytes.len(), 44);
    let (parsed_spec, parsed_samples) = parse_wave(&bytes).unwrap();
    assert_eq!(parsed_spec, spec);
    assert!(parsed_samples.is_empty());
}

#[test]
fn parse_rejects_corrupted_bytes() {
    let spec = WaveSpec { rate: 44100, channels: 1, format_tag: 3 };
    let bytes = encode_wave(spec, &vec![1, 2, 3]);
    assert!(parse_wave(&Vec::new()).is_none());
    assert!(parse_wave(&bytes[..20].to_vec()).is_none());
    let mut broken_magic = bytes.clone();
    broken_magic[0] = b'X';
    assert!(parse_wave(&broken_magic).is_none());
    let mut broken_length = bytes.clone();
    broken_length[40] = broken_length[40].wrapping_add(1);
    assert!(parse_wave(&broken_length).is_none());
    let mut truncated = bytes.clone();
    truncated.pop();
    assert!(parse_wave(&truncated).is_none());
}

#[test]
fn hound_reads_the_encoded_container() {
    let spec = WaveSpec { rate: 44100, channels: 1, format_tag: 3 };
    let samples: Vec<u32> = vec![0.25f32.to_bits(), (-0.5f32).to_bits(), 0f32.to_bits()];
    let bytes = encode_wave(spec, &samples);
    let mut reader = hound::WavReader::new(Cursor::new(bytes)).unwrap();
    let wav_spec = reader.spec();
    assert_eq!(wav_spec.sample_rate, 44100);
    assert_eq!(wav_spec.channels, 1);
    assert_eq!(wav_spec.bits_per_sample, 32);
    assert_eq!(wav_spec.sample_format, hound::SampleFormat::Float);
    let read: Vec<u32> = reader.samples::<f32>().map(|s| s.unwrap().to_bits()).collect();
    assert_eq!(read, samples);
}
