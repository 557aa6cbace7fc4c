use vstd::prelude::*;

verus! {

use crate::audio::AudioReader;
use crate::container::{encode_wave, wave_wf, WaveSpec};
use crate::fs_provider::{reader_samples, wave_spec_of_reader};
use crate::library::{AudioProvider, ReadableBlobProvider, WriteableBlobProvider};
use std::collections::HashMap;

broadcast use vstd::std_specs::hash::group_hash_axioms;

/// The reference blob provider: audio and cover art held in an in-memory
/// table that mirrors a directory's files. Reading the directory into the
/// table and writing changed entries back are the surrounding process's
/// concern (`load_blob`, `load_art`, `blob_bytes`).
pub struct FsAudioProvider {
    path: String,
    blobs: HashMap<u64, Vec<u8>>,
    art: HashMap<u64, Vec<u8>>,
    next_id: u64,
}

impl FsAudioProvider {
    /// The stored audio containers, keyed by track id.
    pub closed spec fn spec_blobs(&self) -> Map<u64, Seq<u8>> {
        self.blobs@.map_values(|v: Vec<u8>| v@)
    }

    /// The stored cover art, keyed by track id.
    pub closed spec fn spec_art(&self) -> Map<u64, Seq<u8>> {
        self.art@.map_values(|v: Vec<u8>| v@)
    }

    /// The directory this provider was created for, as spec-level text.
    pub closed spec fn spec_path(&self) -> Seq<char> {
        self.path@
    }

    /// The id the next stored entry would be filed under.
    pub closed spec fn spec_next_id(&self) -> u64 {
        self.next_id
    }

    /// A write can allocate its id: the counter has room and nothing sits
    /// under it yet.
    pub open spec fn can_allocate(&self, taken: Map<u64, Seq<u8>>) -> bool {
        &&& self.spec_next_id() < u64::MAX
        &&& !taken.contains_key(self.spec_next_id())
    }

    pub fn new(path: &str) -> (r: Self)
        ensures
            r.spec_blobs() =~= Map::<u64, Seq<u8>>::empty(),
            r.spec_art() =~= Map::<u64, Seq<u8>>::empty(),
            r.spec_path() == path@,
    {
        FsAudioProvider {
            path: path.to_owned(),
            blobs: HashMap::new(),
            art: HashMap::new(),
            next_id: 0,
        }
    }

    /// Puts one stored audio container into the table, as read from the
    /// directory.
    pub fn load_blob(&mut self, id: u64, bytes: Vec<u8>) -> (nothing: ())
        ensures
            final(self).spec_blobs() =~= old(self).spec_blobs().insert(id, bytes@),
            final(self).spec_art() == old(self).spec_art(),
            final(self).spec_path() == old(self).spec_path(),
    {
        self.blobs.insert(id, bytes);
    }

    /// Puts one cover-art entry into the table.
    pub fn load_art(&mut self, id: u64, bytes: Vec<u8>) -> (nothing: ())
        ensures
            final(self).spec_art() =~= old(self).spec_art().insert(id, bytes@),
            final(self).spec_blobs() == old(self).spec_blobs(),
            final(self).spec_path() == old(self).spec_path(),
    {
        self.art.insert(id, bytes);
    }

    /// The stored container under `id`, for the surrounding process to
    /// persist.
    pub fn blob_bytes(&self, id: u64) -> (r: Option<Vec<u8>>)
        ensures
            r matches Some(v) ==> self.spec_blobs().contains_key(id) && v@ == self.spec_blobs()[id],
            r is None ==> !self.spec_blobs().contains_key(id),
    {
        match self.blobs.get(&id) {
            Some(bytes) => {
                let mut out: Vec<u8> = Vec::new();
                out.extend_from_slice(bytes.as_slice());
                assert(out@ =~= self.spec_blobs()[id]);
                Some(out)
            },
            None => None,
        }
    }
}

impl AudioProvider for FsAudioProvider {
    /// The in-memory reference provider needs no preparation of its own:
    /// the surrounding process loads the directory before use.
    fn init(&mut self) -> (r: Result<(), String>)
        ensures
            r is Ok,
            *final(self) == *old(self),
    {
        Ok(())
    }
}

impl ReadableBlobProvider for FsAudioProvider {
    open spec fn blobs(&self) -> Map<u64, Seq<u8>> {
        self.spec_blobs()
    }

    open spec fn art(&self) -> Map<u64, Seq<u8>> {
        self.spec_art()
    }

    fn get_audio(&self, id: u64) -> (r: Result<Vec<u8>, String>)
        ensures
            r is Ok <==> self.spec_blobs().contains_key(id),
    {
        match self.blobs.get(&id) {
            Some(bytes) => {
                let mut out: Vec<u8> = Vec::new();
                out.extend_from_slice(bytes.as_slice());
                assert(out@ =~= self.spec_blobs()[id]);
                Ok(out)
            },
            None => Err("error reading source file".to_owned()),
        }
    }

    fn get_cover_art(&self, id: u64) -> (r: Result<Vec<u8>, String>)
        ensures
            r is Ok <==> self.spec_art().contains_key(id),
    {
        match self.art.get(&id) {
            Some(bytes) => {
                let mut out: Vec<u8> = Vec::new();
                out.extend_from_slice(bytes.as_slice());
                assert(out@ =~= self.spec_art()[id]);
                Ok(out)
            },
            None => Err("cannot provide cover art".to_owned()),
        }
    }
}

impl WriteableBlobProvider for FsAudioProvider {
    open spec fn blobs(&self) -> Map<u64, Seq<u8>> {
        self.spec_blobs()
    }

    open spec fn art(&self) -> Map<u64, Seq<u8>> {
        self.spec_art()
    }

    /// Drains the session and stores it as a canonical container under a
    /// fresh id; fails exactly when no free id is at hand or the signal shape
    /// or sample count cannot be carried by the container.
    fn create_audio(&mut self, audio: AudioReader) -> (r: Result<u64, String>)
        ensures
            r is Ok <==> old(self).can_allocate(old(self).spec_blobs()) && wave_wf(
                wave_spec_of_reader(audio),
                reader_samples(audio).len() as int,
            ),
            r matches Ok(id) ==> id == old(self).spec_next_id() && final(self).spec_next_id()
                == old(self).spec_next_id() + 1 && final(self).spec_path() == old(self).spec_path(),
            r is Err ==> *final(self) == *old(self),
    {
        let ghost entry = audio;
        let mut session = audio;
        let id = self.next_id;
        if self.blobs.contains_key(&id) {
            return Err("error writing sample".to_owned());
        }
        if id == u64::MAX {
            return Err("error writing sample".to_owned());
        }
        let spec = session.signal_spec();
        let format_tag = session.codec_params().codec;
        let samples = match session.read_all_samples() {
            Ok(samples) => samples,
            Err(_) => {
                proof {
                    assert(false);
                }
                return Err("error reading samples".to_owned());
            },
        };
        let wave = WaveSpec { rate: spec.rate, channels: spec.channels, format_tag };
        assert(wave == wave_spec_of_reader(entry));
        assert(samples@ == reader_samples(entry));
        if !(1 <= wave.channels && wave.channels <= 16383) {
            return Err("error writing sample".to_owned());
        }
        if wave.rate < 1 {
            return Err("error writing sample".to_owned());
        }
        assert((wave.rate as u64) * (wave.channels as u64) * 4 < 0x1_0000_0000_0000u64)
            by (nonlinear_arith)
            requires
                wave.rate <= u32::MAX,
                wave.channels <= 16383,
        ;
        if (wave.rate as u64) * (wave.channels as u64) * 4 > (u32::MAX as u64) {
            return Err("error writing sample".to_owned());
        }
        if !(wave.format_tag == 1 || wave.format_tag == 3) {
            return Err("error writing sample".to_owned());
        }
        if samples.len() as u64 > 1073741812u64 {
            return Err("error writing sample".to_owned());
        }
        let encoded = encode_wave(wave, &samples);
        let ghost before = self.blobs@;
        self.blobs.insert(id, encoded);
        self.next_id = id + 1;
        assert(self.blobs@.map_values(|v: Vec<u8>| v@) =~= before.map_values(
            |v: Vec<u8>| v@,
        ).insert(id, crate::container::encode_wave_spec(
            wave_spec_of_reader(entry),
            reader_samples(entry),
        )));
        Ok(id)
    }

    /// Removing a stored container never fails: an absent id is already gone.
    fn delete_audio(&mut self, id: u64) -> (r: Result<(), String>)
        ensures
            r is Ok,
            final(self).spec_next_id() == old(self).spec_next_id(),
            final(self).spec_path() == old(self).spec_path(),
    {
        let ghost before = self.blobs@;
        self.blobs.remove(&id);
        assert(self.blobs@.map_values(|v: Vec<u8>| v@) =~= before.map_values(
            |v: Vec<u8>| v@,
        ).remove(id));
        Ok(())
    }

    /// Stores cover art under a fresh id; fails exactly when no free id is
    /// at hand.
    fn create_cover_art(&mut self, value: &Vec<u8>) -> (r: Result<u64, String>)
        ensures
            r is Ok <==> old(self).can_allocate(old(self).spec_art()),
            r matches Ok(id) ==> id == old(self).spec_next_id() && final(self).spec_next_id()
                == old(self).spec_next_id() + 1 && final(self).spec_path() == old(self).spec_path(),
            r is Err ==> *final(self) == *old(self),
    {
        let id = self.next_id;
        if self.art.contains_key(&id) {
            return Err("error writing sample".to_owned());
        }
        if id == u64::MAX {
            return Err("error writing sample".to_owned());
        }
        let mut copy: Vec<u8> = Vec::new();
        copy.extend_from_slice(value.as_slice());
        let ghost cvec = copy;
        let ghost before = self.art@;
        self.art.insert(id, copy);
        assert(self.art@ == before.insert(id, cvec));
        assert(cvec@ == value@);
        self.next_id = id + 1;
        assert(self.art@.map_values(|v: Vec<u8>| v@) =~= before.map_values(
            |v: Vec<u8>| v@,
        ).insert(id, value@));
        Ok(id)
    }

    /// Removing stored cover art never fails: an absent id is already gone.
    fn delete_cover_art(&mut self, id: u64) -> (r: Result<(), String>)
        ensures
            r is Ok,
            final(self).spec_next_id() == old(self).spec_next_id(),
            final(self).spec_path() == old(self).spec_path(),
    {
        let ghost before = self.art@;
        self.art.remove(&id);
        assert(self.art@.map_values(|v: Vec<u8>| v@) =~= before.map_values(
            |v: Vec<u8>| v@,
        ).remove(id));
        Ok(())
    }
}

} // verus!
