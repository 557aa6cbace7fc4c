use vstd::prelude::*;

verus! {

use crate::audio::{
    remaining_samples,
    signal_spec_of,
    AudioReader,
    DecoderOptions,
    DecoderRegistry,
    FormatSource,
};
use crate::container::{encode_wave, encode_wave_spec, parse_wave_spec, wave_wf, WaveSpec};
use crate::gateway::{parse_hex_id, parse_hex_spec};
use crate::provider::{ProviderError, ReadableProvider, WriteableProvider};
use std::collections::HashMap;
use vstd::string::StringSliceAdditionalSpecFns;

broadcast use vstd::std_specs::hash::group_hash_axioms;

/// The container a decode session would persist as: the session's signal
/// shape and its codec's payload representation.
pub open spec fn wave_spec_of_reader(a: AudioReader) -> WaveSpec {
    WaveSpec {
        rate: signal_spec_of(a.decoder.params).rate,
        channels: signal_spec_of(a.decoder.params).channels,
        format_tag: a.decoder.params.codec,
    }
}

/// Every sample a decode session still has to offer.
pub open spec fn reader_samples(a: AudioReader) -> Seq<u32> {
    remaining_samples(a.format_reader.packets@, a.format_reader.pos as int, a.track_id)
}

/// A session built over the given signal shape and samples, rewound to the
/// start of its stream.
pub open spec fn reader_reads(a: AudioReader, sp: WaveSpec, samples: Seq<u32>) -> bool {
    &&& signal_spec_of(a.decoder.params).rate == sp.rate
    &&& signal_spec_of(a.decoder.params).channels == sp.channels
    &&& a.decoder.params.codec == sp.format_tag
    &&& reader_samples(a) == samples
}

/// The directory-backed audio provider: ids name waveform containers. The
/// in-memory table mirrors the directory's files; the surrounding process
/// keeps the two in step through `load_file` and `file_bytes`.
pub struct FsAudioProvider {
    path: String,
    files: HashMap<u64, Vec<u8>>,
}

impl FsAudioProvider {
    /// The stored containers, keyed by track id.
    pub closed spec fn files(&self) -> Map<u64, Seq<u8>> {
        self.files@.map_values(|v: Vec<u8>| v@)
    }

    /// The directory this provider was created for, as spec-level text.
    pub closed spec fn spec_path(&self) -> Seq<char> {
        self.path@
    }

    pub fn new(path: &str) -> (r: Self)
        ensures
            r.files() =~= Map::<u64, Seq<u8>>::empty(),
            r.spec_path() == path@,
    {
        FsAudioProvider { path: path.to_owned(), files: HashMap::new() }
    }

    /// One-time preparation. Creating the directory itself is the
    /// surrounding process's concern, so nothing changes here.
    pub fn init(&mut self) -> (r: Result<(), String>)
        ensures
            r is Ok,
            *final(self) == *old(self),
    {
        Ok(())
    }

    /// The directory this provider was created for.
    pub fn path(&self) -> (r: &str)
        ensures
            r@ == self.spec_path(),
    {
        self.path.as_str()
    }

    /// Puts one stored container into the table, as read from the directory.
    pub fn load_file(&mut self, id: u64, bytes: Vec<u8>) -> (nothing: ())
        ensures
            final(self).files() =~= old(self).files().insert(id, bytes@),
            final(self).spec_path() == old(self).spec_path(),
    {
        self.files.insert(id, bytes);
    }

    /// The stored container under `id`, for the surrounding process to
    /// persist.
    pub fn file_bytes(&self, id: u64) -> (r: Option<Vec<u8>>)
        ensures
            r matches Some(v) ==> self.files().contains_key(id) && v@ == self.files()[id],
            r is None ==> !self.files().contains_key(id),
    {
        match self.files.get(&id) {
            Some(bytes) => {
                let mut out: Vec<u8> = Vec::new();
                out.extend_from_slice(bytes.as_slice());
                assert(out@ =~= self.files()[id]);
                Some(out)
            },
            None => None,
        }
    }
}

impl ReadableProvider<AudioReader> for FsAudioProvider {
    /// Resolves a hexadecimal id to a stored container and opens a decode
    /// session over it: fails on an unparsable id, an unknown id, and a
    /// stored blob that is no canonical container.
    fn get(&self, id: &str) -> (r: Result<AudioReader, ProviderError>)
        ensures
            match parse_hex_spec(id.spec_bytes()) {
                None => r is Err,
                Some(n) => {
                    if !self.files().contains_key(n) {
                        r is Err
                    } else {
                        match parse_wave_spec(self.files()[n]) {
                            None => r is Err,
                            Some(parsed) => (r matches Ok(a) && reader_reads(
                                a,
                                parsed.0,
                                parsed.1,
                            )),
                        }
                    }
                },
            },
    {
        let n = match parse_hex_id(id) {
            Some(n) => n,
            None => {
                return Err(ProviderError::Other("error reading source file"));
            },
        };
        let bytes = match self.files.get(&n) {
            Some(bytes) => bytes,
            None => {
                return Err(ProviderError::Other("error reading source file"));
            },
        };
        let source = match FormatSource::from_wave(bytes) {
            Ok(source) => source,
            Err(_) => {
                return Err(ProviderError::Other("error formatting audio"));
            },
        };
        let codecs = DecoderRegistry::with_defaults();
        proof {
            let tag = source.tracks@[0].codec_params.codec;
            assert(codecs.supported@[0] == 1 && codecs.supported@[1] == 3);
            if tag == 1 {
                assert(codecs.supported@[0] == tag);
            } else {
                assert(codecs.supported@[1] == tag);
            }
            assert(codecs.supported@.contains(tag));
        }
        match AudioReader::new(source, &codecs, &DecoderOptions { verify: false }) {
            Ok(reader) => Ok(reader),
            Err(_) => Err(ProviderError::Other("error constructing reader")),
        }
    }
}

impl WriteableProvider<AudioReader> for FsAudioProvider {
    /// Drains a decode session and stores it as a canonical waveform
    /// container under the hexadecimal id: fails on an unparsable id and on
    /// a signal shape or sample count the container cannot carry.
    fn set(&mut self, id: &str, value: AudioReader) -> (r: Result<(), ProviderError>)
        ensures
            match parse_hex_spec(id.spec_bytes()) {
                None => r is Err && final(self).files() == old(self).files(),
                Some(n) => {
                    if wave_wf(wave_spec_of_reader(value), reader_samples(value).len() as int) {
                        r is Ok && final(self).files() =~= old(self).files().insert(
                            n,
                            encode_wave_spec(wave_spec_of_reader(value), reader_samples(value)),
                        )
                    } else {
                        r is Err && final(self).files() == old(self).files()
                    }
                },
            },
            final(self).spec_path() == old(self).spec_path(),
    {
        let ghost entry = value;
        let mut audio = value;
        let n = match parse_hex_id(id) {
            Some(n) => n,
            None => {
                return Err(ProviderError::Other("error reading samples"));
            },
        };
        let spec = audio.signal_spec();
        let format_tag = audio.codec_params().codec;
        let samples = match audio.read_all_samples() {
            Ok(samples) => samples,
            Err(_) => {
                return Err(ProviderError::Other("error reading samples"));
            },
        };
        let wave = WaveSpec { rate: spec.rate, channels: spec.channels, format_tag };
        assert(wave == wave_spec_of_reader(entry));
        assert(samples@ == reader_samples(entry));
        assert(self.files@ == old(self).files@);
        if !(1 <= wave.channels && wave.channels <= 16383) {
            return Err(ProviderError::Other("error writing sample"));
        }
        if wave.rate < 1 {
            return Err(ProviderError::Other("error writing sample"));
        }
        assert((wave.rate as u64) * (wave.channels as u64) * 4 < 0x1_0000_0000_0000u64)
            by (nonlinear_arith)
            requires
                wave.rate <= u32::MAX,
                wave.channels <= 16383,
        ;
        if (wave.rate as u64) * (wave.channels as u64) * 4 > (u32::MAX as u64) {
            return Err(ProviderError::Other("error writing sample"));
        }
        if !(wave.format_tag == 1 || wave.format_tag == 3) {
            return Err(ProviderError::Other("error writing sample"));
        }
        if samples.len() as u64 > 1073741812u64 {
            return Err(ProviderError::Other("error writing sample"));
        }
        assert(wave_wf(wave, samples@.len() as int));
        let encoded = encode_wave(wave, &samples);
        let ghost before = self.files@;
        self.files.insert(n, encoded);
        assert(self.files@.map_values(|v: Vec<u8>| v@) =~= before.map_values(
            |v: Vec<u8>| v@,
        ).insert(n, encode_wave_spec(wave_spec_of_reader(entry), reader_samples(entry))));
        Ok(())
    }
}

} // verus!
