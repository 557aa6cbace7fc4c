use vstd::prelude::*;

verus! {

use crate::audio::{AudioError, AudioReader, DecoderOptions, DecoderRegistry, FormatSource};
use crate::container::{encode_wave_spec, parse_wave_spec, wave_wf};
use crate::fs_provider::{reader_reads, reader_samples, wave_spec_of_reader};
use crate::storage::{
    find_track,
    matching_tracks,
    query_spec,
    AudioStorage,
    FSAudioStorage,
    Track,
    TrackQuery,
};
use std::collections::HashMap;

broadcast use vstd::std_specs::hash::group_hash_axioms;

/// A provider taking part in the library's one-time preparation.
pub trait AudioProvider {
    /// One-time preparation, run at library construction.
    fn init(&mut self) -> (r: Result<(), String>);
}

/// A provider audio and art can be read back from.
pub trait ReadableBlobProvider {
    /// The stored audio containers the provider can resolve.
    spec fn blobs(&self) -> Map<u64, Seq<u8>>;

    /// The stored cover-art images the provider can resolve.
    spec fn art(&self) -> Map<u64, Seq<u8>>;

    fn get_audio(&self, id: u64) -> (r: Result<Vec<u8>, String>)
        ensures
            r matches Ok(v) ==> self.blobs().contains_key(id) && v@ == self.blobs()[id],
    ;

    fn get_cover_art(&self, id: u64) -> (r: Result<Vec<u8>, String>)
        ensures
            r matches Ok(v) ==> self.art().contains_key(id) && v@ == self.art()[id],
    ;
}

/// A provider audio and art can be stored into. Audio arrives as a decode
/// session and is persisted as the canonical waveform container.
pub trait WriteableBlobProvider {
    /// The stored audio containers the provider holds.
    spec fn blobs(&self) -> Map<u64, Seq<u8>>;

    /// The stored cover-art images the provider holds.
    spec fn art(&self) -> Map<u64, Seq<u8>>;

    fn create_audio(&mut self, audio: AudioReader) -> (r: Result<u64, String>)
        ensures
            r matches Ok(id) ==> final(self).blobs() == old(self).blobs().insert(
                id,
                encode_wave_spec(wave_spec_of_reader(audio), reader_samples(audio)),
            ) && !old(self).blobs().contains_key(id) && final(self).art() == old(self).art(),
    ;

    fn delete_audio(&mut self, id: u64) -> (r: Result<(), String>)
        ensures
            r is Ok ==> final(self).blobs() == old(self).blobs().remove(id) && final(self).art()
                == old(self).art(),
    ;

    fn create_cover_art(&mut self, value: &Vec<u8>) -> (r: Result<u64, String>)
        ensures
            r matches Ok(id) ==> final(self).art() == old(self).art().insert(id, value@)
                && final(self).blobs() == old(self).blobs(),
    ;

    fn delete_cover_art(&mut self, id: u64) -> (r: Result<(), String>)
        ensures
            r is Ok ==> final(self).art() == old(self).art().remove(id) && final(self).blobs()
                == old(self).blobs(),
    ;
}

/// A structured backend the library can register: one tagged variant per
/// backend implementation this crate ships.
pub enum StorageBackend {
    Fs(FSAudioStorage),
}

impl StorageBackend {
    /// The records the backend can resolve, in registration order.
    pub open spec fn records(&self) -> Seq<Track> {
        match self {
            StorageBackend::Fs(s) => s.spec_records(),
        }
    }

    /// The raw source bytes the backend can resolve, keyed by track id.
    pub open spec fn sources(&self) -> Map<u64, Seq<u8>> {
        match self {
            StorageBackend::Fs(s) => s.spec_sources(),
        }
    }

    fn init(&mut self) -> (r: Result<(), String>)
        ensures
            r is Ok,
            *final(self) == *old(self),
    {
        match self {
            StorageBackend::Fs(s) => AudioStorage::init(s),
        }
    }

    fn query_tracks(&self, query: &TrackQuery) -> (r: Result<Vec<Track>, String>)
        ensures
            r is Ok,
            r matches Ok(v) ==> v@ == query_spec(self.records(), *query),
    {
        match self {
            StorageBackend::Fs(s) => s.query_tracks(query),
        }
    }

    fn get_track(&self, id: u64) -> (r: Result<Track, String>)
        ensures
            r is Ok <==> find_track(self.records(), id) is Some,
            r matches Ok(t) ==> find_track(self.records(), id) == Some(t),
    {
        match self {
            StorageBackend::Fs(s) => s.get_track(id),
        }
    }

    fn get_track_source(&self, id: u64) -> (r: Result<Vec<u8>, String>)
        ensures
            r is Ok <==> self.sources().contains_key(id),
            r matches Ok(v) ==> v@ == self.sources()[id],
    {
        match self {
            StorageBackend::Fs(s) => s.get_track_source(id),
        }
    }
}

/// A blob provider the library can register: one tagged variant per provider
/// implementation this crate ships.
pub enum BlobProvider {
    Fs(crate::providers::FsAudioProvider),
}

impl BlobProvider {
    /// The stored audio containers the provider can resolve.
    pub open spec fn blobs(&self) -> Map<u64, Seq<u8>> {
        match self {
            BlobProvider::Fs(p) => p.spec_blobs(),
        }
    }

    /// The stored cover art the provider can resolve.
    pub open spec fn art(&self) -> Map<u64, Seq<u8>> {
        match self {
            BlobProvider::Fs(p) => p.spec_art(),
        }
    }

    /// A write into this provider can allocate a fresh id over `taken`.
    pub open spec fn can_allocate(&self, taken: Map<u64, Seq<u8>>) -> bool {
        match self {
            BlobProvider::Fs(p) => p.can_allocate(taken),
        }
    }

    fn init(&mut self) -> (r: Result<(), String>)
        ensures
            r is Ok,
            *final(self) == *old(self),
    {
        match self {
            BlobProvider::Fs(p) => AudioProvider::init(p),
        }
    }

    fn get_audio(&self, id: u64) -> (r: Result<Vec<u8>, String>)
        ensures
            r is Ok <==> self.blobs().contains_key(id),
            r matches Ok(v) ==> v@ == self.blobs()[id],
    {
        match self {
            BlobProvider::Fs(p) => ReadableBlobProvider::get_audio(p, id),
        }
    }

    fn get_cover_art(&self, id: u64) -> (r: Result<Vec<u8>, String>)
        ensures
            r is Ok <==> self.art().contains_key(id),
            r matches Ok(v) ==> v@ == self.art()[id],
    {
        match self {
            BlobProvider::Fs(p) => ReadableBlobProvider::get_cover_art(p, id),
        }
    }

    fn create_audio(&mut self, audio: AudioReader) -> (r: Result<u64, String>)
        ensures
            r is Ok <==> old(self).can_allocate(old(self).blobs()) && wave_wf(
                wave_spec_of_reader(audio),
                reader_samples(audio).len() as int,
            ),
            r matches Ok(id) ==> final(self).blobs() == old(self).blobs().insert(
                id,
                encode_wave_spec(wave_spec_of_reader(audio), reader_samples(audio)),
            ) && !old(self).blobs().contains_key(id) && final(self).art() == old(self).art(),
            r is Err ==> *final(self) == *old(self),
    {
        match self {
            BlobProvider::Fs(p) => WriteableBlobProvider::create_audio(p, audio),
        }
    }

    fn delete_audio(&mut self, id: u64) -> (r: Result<(), String>)
        ensures
            r is Ok,
            final(self).blobs() == old(self).blobs().remove(id),
            final(self).art() == old(self).art(),
    {
        match self {
            BlobProvider::Fs(p) => WriteableBlobProvider::delete_audio(p, id),
        }
    }

    fn create_cover_art(&mut self, value: &Vec<u8>) -> (r: Result<u64, String>)
        ensures
            r is Ok <==> old(self).can_allocate(old(self).art()),
            r matches Ok(id) ==> final(self).art() == old(self).art().insert(id, value@)
                && final(self).blobs() == old(self).blobs(),
            r is Err ==> *final(self) == *old(self),
    {
        match self {
            BlobProvider::Fs(p) => WriteableBlobProvider::create_cover_art(p, value),
        }
    }

    fn delete_cover_art(&mut self, id: u64) -> (r: Result<(), String>)
        ensures
            r is Ok,
            final(self).art() == old(self).art().remove(id),
            final(self).blobs() == old(self).blobs(),
    {
        match self {
            BlobProvider::Fs(p) => WriteableBlobProvider::delete_cover_art(p, id),
        }
    }
}

/// A readable blob provider, registered under a name.
pub struct NamedReadable {
    pub name: String,
    pub provider: BlobProvider,
}

/// A writeable blob provider, registered under a name.
pub struct NamedWriteable {
    pub name: String,
    pub provider: BlobProvider,
}

/// The records of every registered structured backend, in registration order.
pub open spec fn models_of(storages: Seq<StorageBackend>) -> Seq<Seq<Track>> {
    storages.map_values(|b: StorageBackend| b.records())
}

/// What a fan-out query merges: each backend's answer in registration order,
/// with a backend that failed (`oks` false) contributing nothing.
pub open spec fn merged_responses(models: Seq<Seq<Track>>, oks: Seq<bool>, q: TrackQuery) -> Seq<
    Track,
>
    decreases models.len(),
{
    if models.len() == 0 {
        Seq::empty()
    } else {
        (if oks[0] {
            query_spec(models[0], q)
        } else {
            Seq::empty()
        }) + merged_responses(models.skip(1), oks.skip(1), q)
    }
}

/// The merge reads only the first `models.len()` answer flags.
pub proof fn lemma_merged_prefix(
    models: Seq<Seq<Track>>,
    oks1: Seq<bool>,
    oks2: Seq<bool>,
    q: TrackQuery,
)
    requires
        oks1.len() >= models.len(),
        oks2.len() >= models.len(),
        forall|k: int| 0 <= k < models.len() ==> oks1[k] == oks2[k],
    ensures
        merged_responses(models, oks1, q) == merged_responses(models, oks2, q),
    decreases models.len(),
{
    if models.len() > 0 {
        assert(forall|k: int|
            0 <= k < models.skip(1).len() ==> oks1.skip(1)[k] == oks2.skip(1)[k]);
        lemma_merged_prefix(models.skip(1), oks1.skip(1), oks2.skip(1), q);
    }
}

/// One more backend on the right adds its own answer on the right.
pub proof fn lemma_merged_push(
    models: Seq<Seq<Track>>,
    oks: Seq<bool>,
    m: Seq<Track>,
    q: TrackQuery,
)
    requires
        oks.len() > models.len(),
    ensures
        merged_responses(models.push(m), oks, q) == merged_responses(models, oks, q) + (if oks[models.len() as int] {
            query_spec(m, q)
        } else {
            Seq::<Track>::empty()
        }),
    decreases models.len(),
{
    let with = models.push(m);
    if models.len() == 0 {
        assert(with[0] == m);
        assert(with.skip(1) =~= Seq::<Seq<Track>>::empty());
        assert(merged_responses(with.skip(1), oks.skip(1), q) =~= Seq::<Track>::empty());
        assert(merged_responses(models, oks, q) =~= Seq::<Track>::empty());
        assert(merged_responses(with, oks, q) =~= merged_responses(models, oks, q) + (if oks[0] {
            query_spec(m, q)
        } else {
            Seq::<Track>::empty()
        }));
    } else {
        assert(with[0] == models[0]);
        assert(with.skip(1) =~= models.skip(1).push(m));
        lemma_merged_push(models.skip(1), oks.skip(1), m, q);
        assert(oks.skip(1)[models.skip(1).len() as int] == oks[models.len() as int]);
        assert(merged_responses(with, oks, q) =~= merged_responses(models, oks, q) + (if oks[models.len() as int] {
            query_spec(m, q)
        } else {
            Seq::<Track>::empty()
        }));
    }
}

/// Query stability: when every backend answers, the merged response is a
/// function of the backends' contents and the query alone — the cache plays
/// no part — so two fan-outs over unchanged backends return the same ordered
/// records.
pub proof fn lemma_query_stability(
    models: Seq<Seq<Track>>,
    oks1: Seq<bool>,
    oks2: Seq<bool>,
    q: TrackQuery,
)
    requires
        oks1.len() >= models.len(),
        oks2.len() >= models.len(),
        forall|k: int| 0 <= k < models.len() ==> oks1[k] && oks2[k],
    ensures
        matching_tracks(merged_responses(models, oks1, q), q) == matching_tracks(
            merged_responses(models, oks2, q),
            q,
        ),
{
    lemma_merged_prefix(models, oks1, oks2, q);
}

/// A batch of records written into the cache, first to last, each under its
/// own id.
pub open spec fn cache_with(cache: Map<u64, Track>, ts: Seq<Track>) -> Map<u64, Track>
    decreases ts.len(),
{
    if ts.len() == 0 {
        cache
    } else {
        cache_with(cache.insert(ts[0].id, ts[0]), ts.skip(1))
    }
}

/// The answer flags of backends that all responded.
pub open spec fn all_answering(n: int) -> Seq<bool> {
    Seq::new(n as nat, |i: int| true)
}

/// The position of the first readable entry registered under `name`, or the
/// registry's length when the name is new.
pub open spec fn readable_name_index(entries: Seq<NamedReadable>, name: Seq<char>) -> int
    decreases entries.len(),
{
    if entries.len() == 0 {
        0
    } else if entries[0].name@ == name {
        0
    } else {
        1 + readable_name_index(entries.skip(1), name)
    }
}

/// The position of the first writeable entry registered under `name`, or the
/// registry's length when the name is new.
pub open spec fn writeable_name_index(entries: Seq<NamedWriteable>, name: Seq<char>) -> int
    decreases entries.len(),
{
    if entries.len() == 0 {
        0
    } else if entries[0].name@ == name {
        0
    } else {
        1 + writeable_name_index(entries.skip(1), name)
    }
}

/// The index of the first registered readable provider holding a blob under
/// `id`, or the registry's length when none does.
pub open spec fn first_blob_holder(entries: Seq<NamedReadable>, id: u64) -> int
    decreases entries.len(),
{
    if entries.len() == 0 {
        0
    } else if entries[0].provider.blobs().contains_key(id) {
        0
    } else {
        1 + first_blob_holder(entries.skip(1), id)
    }
}

/// What the cache alone answers a lookup with.
pub open spec fn cached_answer(lib: AudioLibrary, id: u64) -> Option<Track> {
    if lib.cache_spec().contains_key(id) {
        Some(lib.cache_spec()[id])
    } else {
        None
    }
}

/// Idempotence of resolution: once a lookup of `id` has succeeded with `t`,
/// the library's cache holds `t` under `id`, and any later library state that
/// keeps that cache entry answers the same lookup with the same record —
/// whatever became of the backends in between, including removal of the one
/// that originally served it.
pub proof fn lemma_get_track_idempotent(before: AudioLibrary, later: AudioLibrary, id: u64, t: Track)
    requires
        before.cache_spec().contains_key(id),
        before.cache_spec()[id] == t,
        later.cache_spec() == before.cache_spec(),
    ensures
        cached_answer(before, id) == Some(t),
        cached_answer(later, id) == Some(t),
{
}

/// The library: a registry of structured backends and blob providers, fixed
/// after construction, and a read-through cache of resolved track records.
pub struct AudioLibrary {
    storages: Vec<StorageBackend>,
    cache: HashMap<u64, Track>,
    readable_blob_providers: Vec<NamedReadable>,
    writeable_blob_providers: Vec<NamedWriteable>,
}

impl AudioLibrary {
    /// The cached records, keyed by id.
    pub closed spec fn cache_spec(&self) -> Map<u64, Track> {
        self.cache@
    }

    /// The registered structured backends, in registration order.
    pub closed spec fn storages_spec(&self) -> Seq<StorageBackend> {
        self.storages@
    }

    /// The registered readable blob providers, with their names.
    pub closed spec fn readable_spec(&self) -> Seq<NamedReadable> {
        self.readable_blob_providers@
    }

    /// The registered writeable blob providers, with their names.
    pub closed spec fn writeable_spec(&self) -> Seq<NamedWriteable> {
        self.writeable_blob_providers@
    }

    pub fn builder() -> (r: AudioLibraryBuilder)
        ensures
            r.storages@.len() == 0,
            r.readable_blob_providers@.len() == 0,
            r.writeable_blob_providers@.len() == 0,
    {
        AudioLibraryBuilder::new()
    }

    /// Resolves a track record: the cache answers a hit at once and the
    /// library is left untouched; on a miss the backends are consulted in
    /// registration order, the first success is cached and returned, and
    /// `NotFound` comes only once every backend has failed or missed.
    pub fn get_track(&mut self, id: u64) -> (r: Result<Track, AudioError>)
        ensures
            final(self).storages_spec() == old(self).storages_spec(),
            final(self).readable_spec() == old(self).readable_spec(),
            final(self).writeable_spec() == old(self).writeable_spec(),
            cached_answer(*old(self), id) matches Some(t) ==> r == Result::<
                Track,
                AudioError,
            >::Ok(t) && final(self).cache_spec() == old(self).cache_spec(),
            cached_answer(*old(self), id) is None ==> match r {
                Ok(t) => (exists|k: int|
                    {
                        &&& 0 <= k < old(self).storages_spec().len()
                        &&& find_track(#[trigger] old(self).storages_spec()[k].records(), id)
                            == Some(t)
                        &&& forall|m: int|
                            0 <= m < k ==> find_track(
                                #[trigger] old(self).storages_spec()[m].records(),
                                id,
                            ) is None
                    }) && final(self).cache_spec() == old(self).cache_spec().insert(id, t),
                Err(e) => e == AudioError::NotFound && final(self).cache_spec() == old(
                    self,
                ).cache_spec() && (forall|m: int|
                    0 <= m < old(self).storages_spec().len() ==> find_track(
                        #[trigger] old(self).storages_spec()[m].records(),
                        id,
                    ) is None),
            },
    {
        match self.cache.get(&id) {
            Some(t) => {
                return Ok(t.clone());
            },
            None => {},
        }
        let n = self.storages.len();
        let mut i: usize = 0;
        while i < n
            invariant
                *self == *old(self),
                i <= n,
                n == self.storages@.len(),
                !old(self).cache_spec().contains_key(id),
                forall|m: int|
                    0 <= m < i ==> find_track(
                        #[trigger] old(self).storages_spec()[m].records(),
                        id,
                    ) is None,
            decreases n - i,
        {
            match self.storages[i].get_track(id) {
                Ok(t) => {
                    let cached = t.clone();
                    self.cache.insert(id, cached);
                    assert(find_track(old(self).storages_spec()[i as int].records(), id) == Some(
                        t,
                    ));
                    return Ok(t);
                },
                Err(_) => {},
            }
            i = i + 1;
        }
        Err(AudioError::NotFound)
    }

    /// Fans a query out to every structured backend, merges the answers in
    /// registration order, refreshes the cache with every merged record, and
    /// returns the merged records filtered once more against the query — so
    /// the response always reflects what was just cached.
    pub fn query(&mut self, query: &TrackQuery) -> (r: Vec<Track>)
        ensures
            final(self).storages_spec() == old(self).storages_spec(),
            final(self).readable_spec() == old(self).readable_spec(),
            final(self).writeable_spec() == old(self).writeable_spec(),
            ({
                let merged = merged_responses(
                    models_of(old(self).storages_spec()),
                    all_answering(old(self).storages_spec().len() as int),
                    *query,
                );
                &&& r@ == matching_tracks(merged, *query)
                &&& final(self).cache_spec() == cache_with(old(self).cache_spec(), merged)
            }),
    {
        let ghost models = models_of(self.storages@);
        let n = self.storages.len();
        let mut merged: Vec<Track> = Vec::new();
        let ghost mut oks: Seq<bool> = Seq::empty();
        let mut i: usize = 0;
        proof {
            assert(models.take(0) =~= Seq::<Seq<Track>>::empty());
            assert(merged@ =~= merged_responses(models.take(0), oks, *query));
        }
        while i < n
            invariant
                *self == *old(self),
                i <= n,
                n == self.storages@.len(),
                models == models_of(self.storages@),
                oks.len() == i,
                oks =~= all_answering(i as int),
                merged@ == merged_responses(models.take(i as int), oks, *query),
            decreases n - i,
        {
            let ghost oks_before = oks;
            match self.storages[i].query_tracks(query) {
                Ok(mut found) => {
                    proof {
                        oks = oks.push(true);
                    }
                    assert(found@ == query_spec(models[i as int], *query));
                    merged.append(&mut found);
                },
                Err(_) => {
                    proof {
                        assert(false);
                    }
                },
            }
            proof {
                lemma_merged_prefix(models.take(i as int), oks_before, oks, *query);
                lemma_merged_push(models.take(i as int), oks, models[i as int], *query);
                assert(models.take(i as int).push(models[i as int]) =~= models.take(i as int + 1));
                assert(merged@ =~= merged_responses(models.take(i as int + 1), oks, *query));
            }
            i = i + 1;
        }
        proof {
            assert(models.take(n as int) =~= models);
            assert(oks =~= all_answering(n as int));
            lemma_merged_prefix(models, oks, all_answering(n as int), *query);
        }
        let ghost full_merged = merged@;
        let mut j: usize = 0;
        proof {
            assert(full_merged.skip(0) =~= full_merged);
        }
        while j < merged.len()
            invariant
                j <= merged@.len(),
                merged@ == full_merged,
                self.storages@ == old(self).storages@,
                self.readable_blob_providers@ == old(self).readable_blob_providers@,
                self.writeable_blob_providers@ == old(self).writeable_blob_providers@,
                cache_with(self.cache@, full_merged.skip(j as int)) == cache_with(
                    old(self).cache@,
                    full_merged,
                ),
            decreases merged@.len() - j,
        {
            proof {
                assert(full_merged.skip(j as int).skip(1) =~= full_merged.skip(j as int + 1));
                assert(full_merged.skip(j as int)[0] == full_merged[j as int]);
            }
            let t = merged[j].clone();
            self.cache.insert(t.id, t);
            j = j + 1;
        }
        proof {
            assert(full_merged.skip(merged@.len() as int) =~= Seq::<Track>::empty());
        }
        let mut out: Vec<Track> = Vec::new();
        let mut k: usize = 0;
        proof {
            assert(merged@.take(0) =~= Seq::<Track>::empty());
        }
        while k < merged.len()
            invariant
                k <= merged@.len(),
                merged@ == full_merged,
                self.storages@ == old(self).storages@,
                self.readable_blob_providers@ == old(self).readable_blob_providers@,
                self.writeable_blob_providers@ == old(self).writeable_blob_providers@,
                cache_with(self.cache@, Seq::<Track>::empty()) == cache_with(
                    old(self).cache@,
                    full_merged,
                ),
                out@ == matching_tracks(merged@.take(k as int), *query),
            decreases merged@.len() - k,
        {
            proof {
                assert(merged@.take(k as int + 1).drop_last() =~= merged@.take(k as int));
                assert(merged@.take(k as int + 1).last() == merged@[k as int]);
            }
            if merged[k].matches(query) {
                out.push(merged[k].clone());
            }
            k = k + 1;
        }
        proof {
            assert(merged@.take(merged@.len() as int) =~= merged@);
        }
        out
    }

    /// Resolves the raw source bytes of a track: first backend to succeed
    /// wins, nothing is cached, and `NotFound` comes only once every backend
    /// has failed or missed.
    pub fn get_track_source(&self, id: u64) -> (r: Result<Vec<u8>, AudioError>)
        ensures
            r matches Ok(v) ==> exists|k: int|
                {
                    &&& 0 <= k < self.storages_spec().len()
                    &&& (#[trigger] self.storages_spec()[k].sources()).contains_key(id)
                    &&& v@ == self.storages_spec()[k].sources()[id]
                    &&& forall|m: int|
                        0 <= m < k ==> !(#[trigger] self.storages_spec()[m].sources()).contains_key(
                            id,
                        )
                },
            r matches Err(e) ==> e == AudioError::NotFound && (forall|m: int|
                0 <= m < self.storages_spec().len() ==> !(
                #[trigger] self.storages_spec()[m].sources()).contains_key(id)),
    {
        let n = self.storages.len();
        let mut i: usize = 0;
        while i < n
            invariant
                i <= n,
                n == self.storages@.len(),
                forall|m: int|
                    0 <= m < i ==> !(#[trigger] self.storages_spec()[m].sources()).contains_key(
                        id,
                    ),
            decreases n - i,
        {
            match self.storages[i].get_track_source(id) {
                Ok(v) => {
                    assert((self.storages_spec()[i as int].sources()).contains_key(id) && v@
                        == self.storages_spec()[i as int].sources()[id]);
                    return Ok(v);
                },
                Err(_) => {},
            }
            i = i + 1;
        }
        Err(AudioError::NotFound)
    }

    /// Opens a decode session over a stored blob: readable providers are
    /// consulted in registration order and the first holding the blob wins;
    /// `NotFound` comes exactly when no provider holds it, and the blob of
    /// the first holder being no canonical container fails the whole call at
    /// once, as an I/O-level error.
    pub fn get_audio(&self, id: u64) -> (r: Result<AudioReader, AudioError>)
        ensures
            ({
                let k0 = first_blob_holder(self.readable_spec(), id);
                if k0 == self.readable_spec().len() {
                    r == Result::<AudioReader, AudioError>::Err(AudioError::NotFound)
                } else {
                    match parse_wave_spec(self.readable_spec()[k0].provider.blobs()[id]) {
                        Some(parsed) => (r matches Ok(a) && reader_reads(a, parsed.0, parsed.1)),
                        None => r == Result::<AudioReader, AudioError>::Err(AudioError::IoError),
                    }
                }
            }),
    {
        let n = self.readable_blob_providers.len();
        proof {
            assert(self.readable_spec().skip(0) =~= self.readable_spec());
        }
        let mut i: usize = 0;
        while i < n
            invariant
                i <= n,
                n == self.readable_blob_providers@.len(),
                first_blob_holder(self.readable_spec(), id) == first_blob_holder(
                    self.readable_spec().skip(i as int),
                    id,
                ) + i,
            decreases n - i,
        {
            proof {
                assert(self.readable_spec().skip(i as int).skip(1) =~= self.readable_spec().skip(
                    i as int + 1,
                ));
                assert(self.readable_spec().skip(i as int)[0] == self.readable_spec()[i as int]);
            }
            match self.readable_blob_providers[i].provider.get_audio(id) {
                Ok(bytes) => {
                    assert(first_blob_holder(self.readable_spec(), id) == i);
                    let source = match FormatSource::from_wave(&bytes) {
                        Ok(source) => source,
                        Err(_) => {
                            return Err(AudioError::IoError);
                        },
                    };
                    let codecs = DecoderRegistry::with_defaults();
                    proof {
                        let tag = source.tracks@[0].codec_params.codec;
                        assert(codecs.supported@[0] == 1 && codecs.supported@[1] == 3);
                        if tag == 1 {
                            assert(codecs.supported@[0] == tag);
                        } else {
                            assert(codecs.supported@[1] == tag);
                        }
                        assert(codecs.supported@.contains(tag));
                    }
                    match AudioReader::new(source, &codecs, &DecoderOptions { verify: false }) {
                        Ok(reader) => {
                            assert((self.readable_spec()[i as int].provider.blobs()).contains_key(id)
                                && bytes@ == self.readable_spec()[i as int].provider.blobs()[id]);
                            assert(parse_wave_spec(bytes@) is Some);
                            return Ok(reader);
                        },
                        Err(_) => {
                            proof {
                                assert(false);
                            }
                            return Err(AudioError::IoError);
                        },
                    }
                },
                Err(_) => {},
            }
            i = i + 1;
        }
        proof {
            assert(self.readable_spec().skip(n as int) =~= Seq::<NamedReadable>::empty());
        }
        Err(AudioError::NotFound)
    }

    /// Stores a decoded session through the designated writeable provider
    /// (the first registered one): the session is drained and persisted as
    /// the canonical waveform container under a fresh id.
    #[verifier::rlimit(60)]
    pub fn create_audio(&mut self, audio: AudioReader) -> (r: Result<u64, AudioError>)
        ensures
            final(self).storages_spec() == old(self).storages_spec(),
            final(self).cache_spec() == old(self).cache_spec(),
            final(self).readable_spec() == old(self).readable_spec(),
            old(self).writeable_spec().len() == 0 ==> r == Result::<u64, AudioError>::Err(
                AudioError::NotFound,
            ) && final(self).writeable_spec() == old(self).writeable_spec(),
            old(self).writeable_spec().len() > 0 ==> {
                let designated = old(self).writeable_spec()[0];
                &&& (r is Ok <==> designated.provider.can_allocate(designated.provider.blobs())
                    && wave_wf(
                    wave_spec_of_reader(audio),
                    reader_samples(audio).len() as int,
                ))
                &&& (r matches Ok(id) ==> {
                    &&& final(self).writeable_spec().len() == old(self).writeable_spec().len()
                    &&& final(self).writeable_spec()[0].name == designated.name
                    &&& final(self).writeable_spec()[0].provider.blobs()
                        == designated.provider.blobs().insert(
                        id,
                        encode_wave_spec(wave_spec_of_reader(audio), reader_samples(audio)),
                    )
                    &&& !designated.provider.blobs().contains_key(id)
                    &&& final(self).writeable_spec()[0].provider.art()
                        == designated.provider.art()
                    &&& final(self).writeable_spec().skip(1) == old(self).writeable_spec().skip(1)
                })
                &&& (r is Err ==> r == Result::<u64, AudioError>::Err(AudioError::IoError)
                    && final(self).writeable_spec() == old(self).writeable_spec())
            },
    {
        if self.writeable_blob_providers.len() == 0 {
            return Err(AudioError::NotFound);
        }
        let ghost orig = self.writeable_blob_providers@;
        let result = self.writeable_blob_providers[0].provider.create_audio(audio);
        proof {
            if result is Err {
                assert(self.writeable_blob_providers@ =~= orig);
            }
        }
        proof {
            assert(self.writeable_blob_providers@.skip(1) =~= old(self).writeable_spec().skip(1));
        }
        match result {
            Ok(id) => Ok(id),
            Err(_) => Err(AudioError::IoError),
        }
    }

    /// Removes a stored blob through the designated writeable provider.
    #[verifier::rlimit(60)]
    pub fn delete_audio(&mut self, id: u64) -> (r: Result<(), AudioError>)
        ensures
            final(self).storages_spec() == old(self).storages_spec(),
            final(self).cache_spec() == old(self).cache_spec(),
            final(self).readable_spec() == old(self).readable_spec(),
            old(self).writeable_spec().len() == 0 ==> r == Result::<(), AudioError>::Err(
                AudioError::NotFound,
            ) && final(self).writeable_spec() == old(self).writeable_spec(),
            old(self).writeable_spec().len() > 0 ==> r is Ok && {
                let designated = old(self).writeable_spec()[0];
                &&& final(self).writeable_spec().len() == old(self).writeable_spec().len()
                &&& final(self).writeable_spec()[0].name == designated.name
                &&& final(self).writeable_spec()[0].provider.blobs() == designated.provider.blobs().remove(id)
                &&& final(self).writeable_spec()[0].provider.art() == designated.provider.art()
                &&& final(self).writeable_spec().skip(1) == old(self).writeable_spec().skip(1)
            },
    {
        if self.writeable_blob_providers.len() == 0 {
            return Err(AudioError::NotFound);
        }
        let result = self.writeable_blob_providers[0].provider.delete_audio(id);
        proof {
            assert(self.writeable_blob_providers@.skip(1) =~= old(self).writeable_spec().skip(1));
        }
        match result {
            Ok(nothing) => Ok(nothing),
            Err(_) => Err(AudioError::IoError),
        }
    }

    /// Resolves cover art: first readable provider to succeed wins.
    pub fn get_cover_art(&self, id: u64) -> (r: Result<Vec<u8>, AudioError>)
        ensures
            r matches Ok(v) ==> exists|k: int|
                {
                    &&& 0 <= k < self.readable_spec().len()
                    &&& (#[trigger] self.readable_spec()[k].provider.art()).contains_key(id)
                    &&& v@ == self.readable_spec()[k].provider.art()[id]
                    &&& forall|m: int|
                        0 <= m < k ==> !(
                        #[trigger] self.readable_spec()[m].provider.art()).contains_key(id)
                },
            r matches Err(e) ==> e == AudioError::NotFound && (forall|m: int|
                0 <= m < self.readable_spec().len() ==> !(
                #[trigger] self.readable_spec()[m].provider.art()).contains_key(id)),
    {
        let n = self.readable_blob_providers.len();
        let mut i: usize = 0;
        while i < n
            invariant
                i <= n,
                n == self.readable_blob_providers@.len(),
                forall|m: int|
                    0 <= m < i ==> !(
                    #[trigger] self.readable_spec()[m].provider.art()).contains_key(id),
            decreases n - i,
        {
            match self.readable_blob_providers[i].provider.get_cover_art(id) {
                Ok(v) => {
                    assert((self.readable_spec()[i as int].provider.art()).contains_key(id) && v@
                        == self.readable_spec()[i as int].provider.art()[id]);
                    return Ok(v);
                },
                Err(_) => {},
            }
            i = i + 1;
        }
        Err(AudioError::NotFound)
    }

    /// Stores cover art through the designated writeable provider.
    #[verifier::rlimit(60)]
    pub fn create_cover_art(&mut self, value: &Vec<u8>) -> (r: Result<u64, AudioError>)
        ensures
            final(self).storages_spec() == old(self).storages_spec(),
            final(self).cache_spec() == old(self).cache_spec(),
            final(self).readable_spec() == old(self).readable_spec(),
            old(self).writeable_spec().len() == 0 ==> r == Result::<u64, AudioError>::Err(
                AudioError::NotFound,
            ) && final(self).writeable_spec() == old(self).writeable_spec(),
            old(self).writeable_spec().len() > 0 ==> {
                let designated = old(self).writeable_spec()[0];
                &&& (r is Ok <==> designated.provider.can_allocate(designated.provider.art()))
                &&& (r matches Ok(id) ==> {
                    &&& final(self).writeable_spec().len() == old(self).writeable_spec().len()
                    &&& final(self).writeable_spec()[0].name == designated.name
                    &&& final(self).writeable_spec()[0].provider.art()
                        == designated.provider.art().insert(id, value@)
                    &&& final(self).writeable_spec()[0].provider.blobs()
                        == designated.provider.blobs()
                    &&& final(self).writeable_spec().skip(1) == old(self).writeable_spec().skip(1)
                })
                &&& (r is Err ==> r == Result::<u64, AudioError>::Err(AudioError::IoError)
                    && final(self).writeable_spec() == old(self).writeable_spec())
            },
    {
        if self.writeable_blob_providers.len() == 0 {
            return Err(AudioError::NotFound);
        }
        let ghost orig = self.writeable_blob_providers@;
        let result = self.writeable_blob_providers[0].provider.create_cover_art(value);
        proof {
            assert(self.writeable_blob_providers@.skip(1) =~= old(self).writeable_spec().skip(1));
            if result is Err {
                assert(self.writeable_blob_providers@ =~= orig);
            }
        }
        match result {
            Ok(id) => Ok(id),
            Err(_) => Err(AudioError::IoError),
        }
    }

    /// Removes stored cover art through the designated writeable provider.
    #[verifier::rlimit(60)]
    pub fn delete_cover_art(&mut self, id: u64) -> (r: Result<(), AudioError>)
        ensures
            final(self).storages_spec() == old(self).storages_spec(),
            final(self).cache_spec() == old(self).cache_spec(),
            final(self).readable_spec() == old(self).readable_spec(),
            old(self).writeable_spec().len() == 0 ==> r == Result::<(), AudioError>::Err(
                AudioError::NotFound,
            ) && final(self).writeable_spec() == old(self).writeable_spec(),
            old(self).writeable_spec().len() > 0 ==> r is Ok && {
                let designated = old(self).writeable_spec()[0];
                &&& final(self).writeable_spec().len() == old(self).writeable_spec().len()
                &&& final(self).writeable_spec()[0].name == designated.name
                &&& final(self).writeable_spec()[0].provider.art() == designated.provider.art().remove(id)
                &&& final(self).writeable_spec()[0].provider.blobs() == designated.provider.blobs()
                &&& final(self).writeable_spec().skip(1) == old(self).writeable_spec().skip(1)
            },
    {
        if self.writeable_blob_providers.len() == 0 {
            return Err(AudioError::NotFound);
        }
        let result = self.writeable_blob_providers[0].provider.delete_cover_art(id);
        proof {
            assert(self.writeable_blob_providers@.skip(1) =~= old(self).writeable_spec().skip(1));
        }
        match result {
            Ok(nothing) => Ok(nothing),
            Err(_) => Err(AudioError::IoError),
        }
    }
}

/// Gathers backends and providers, then builds the library: every entry's
/// one-time preparation runs in registration order, and a failure would abort
/// construction with that entry's own error — the backends this crate ships
/// all prepare cleanly, so construction is owed to succeed.
pub struct AudioLibraryBuilder {
    pub storages: Vec<StorageBackend>,
    pub readable_blob_providers: Vec<NamedReadable>,
    pub writeable_blob_providers: Vec<NamedWriteable>,
}

impl AudioLibraryBuilder {
    pub fn new() -> (r: Self)
        ensures
            r.storages@.len() == 0,
            r.readable_blob_providers@.len() == 0,
            r.writeable_blob_providers@.len() == 0,
    {
        AudioLibraryBuilder {
            storages: Vec::new(),
            readable_blob_providers: Vec::new(),
            writeable_blob_providers: Vec::new(),
        }
    }

    /// Registers a structured backend; later lookups consult backends in
    /// this order.
    pub fn add_storage(self, storage: StorageBackend) -> (r: Self)
        ensures
            r.storages@ == self.storages@.push(storage),
            r.readable_blob_providers@ == self.readable_blob_providers@,
            r.writeable_blob_providers@ == self.writeable_blob_providers@,
    {
        let mut this = self;
        this.storages.push(storage);
        this
    }

    /// Registers a named readable blob provider, consulted in registration
    /// order; a second registration under an already-used name replaces the
    /// earlier entry in place.
    pub fn add_readable_blob_provider(
        self,
        name: &str,
        provider: BlobProvider,
    ) -> (r: Self)
        ensures
            ({
                let i = readable_name_index(self.readable_blob_providers@, name@);
                &&& (i < self.readable_blob_providers@.len() ==> {
                    &&& r.readable_blob_providers@.len() == self.readable_blob_providers@.len()
                    &&& forall|m: int|
                        0 <= m < self.readable_blob_providers@.len() && m != i
                            ==> #[trigger] r.readable_blob_providers@[m]
                            == self.readable_blob_providers@[m]
                })
                &&& (i == self.readable_blob_providers@.len() ==> {
                    &&& r.readable_blob_providers@.len() == self.readable_blob_providers@.len()
                        + 1
                    &&& r.readable_blob_providers@.take(i) == self.readable_blob_providers@
                })
                &&& r.readable_blob_providers@[i].name@ == name@
                &&& r.readable_blob_providers@[i].provider == provider
            }),
            r.storages@ == self.storages@,
            r.writeable_blob_providers@ == self.writeable_blob_providers@,
    {
        let mut this = self;
        let ghost orig = this.readable_blob_providers@;
        let ghost st_orig = this.storages@;
        let ghost wr_orig = this.writeable_blob_providers@;
        let entry = NamedReadable { name: name.to_owned(), provider };
        let ghost esnap = entry;
        proof {
            assert(orig.skip(0) =~= orig);
        }
        let mut i: usize = 0;
        while i < this.readable_blob_providers.len()
            invariant
                i <= orig.len(),
                self.readable_blob_providers@ == orig,
                self.storages@ == st_orig,
                self.writeable_blob_providers@ == wr_orig,
                this.readable_blob_providers@ == orig,
                this.storages@ == st_orig,
                this.writeable_blob_providers@ == wr_orig,
                entry == esnap,
                esnap.name@ == name@,
                esnap.provider == provider,
                readable_name_index(orig, name@) == readable_name_index(
                    orig.skip(i as int),
                    name@,
                ) + i,
                forall|m: int| 0 <= m < i ==> (#[trigger] orig[m]).name@ != name@,
            decreases orig.len() - i,
        {
            proof {
                assert(orig.skip(i as int).skip(1) =~= orig.skip(i as int + 1));
                assert(orig.skip(i as int)[0] == orig[i as int]);
            }
            if this.readable_blob_providers[i].name == entry.name {
                assert(readable_name_index(orig.skip(i as int), name@) == 0);
                assert(readable_name_index(orig, name@) == i);
                this.readable_blob_providers[i] = entry;
                assert(this.readable_blob_providers@ == orig.update(i as int, esnap));
                return this;
            }
            i = i + 1;
        }
        proof {
            assert(orig.skip(orig.len() as int) =~= Seq::<NamedReadable>::empty());
            assert(readable_name_index(orig, name@) == orig.len());
        }
        this.readable_blob_providers.push(entry);
        proof {
            assert(this.readable_blob_providers@.take(orig.len() as int) =~= orig);
        }
        this
    }

    /// Registers a named writeable blob provider; the first one registered is
    /// the designated target of write operations, and a second registration
    /// under an already-used name replaces the earlier entry in place.
    pub fn add_writeable_blob_provider(
        self,
        name: &str,
        provider: BlobProvider,
    ) -> (r: Self)
        ensures
            ({
                let i = writeable_name_index(self.writeable_blob_providers@, name@);
                &&& (i < self.writeable_blob_providers@.len() ==> {
                    &&& r.writeable_blob_providers@.len() == self.writeable_blob_providers@.len()
                    &&& forall|m: int|
                        0 <= m < self.writeable_blob_providers@.len() && m != i
                            ==> #[trigger] r.writeable_blob_providers@[m]
                            == self.writeable_blob_providers@[m]
                })
                &&& (i == self.writeable_blob_providers@.len() ==> {
                    &&& r.writeable_blob_providers@.len() == self.writeable_blob_providers@.len()
                        + 1
                    &&& r.writeable_blob_providers@.take(i) == self.writeable_blob_providers@
                })
                &&& r.writeable_blob_providers@[i].name@ == name@
                &&& r.writeable_blob_providers@[i].provider == provider
            }),
            r.storages@ == self.storages@,
            r.readable_blob_providers@ == self.readable_blob_providers@,
    {
        let mut this = self;
        let ghost orig = this.writeable_blob_providers@;
        let ghost st_orig = this.storages@;
        let ghost rd_orig = this.readable_blob_providers@;
        let entry = NamedWriteable { name: name.to_owned(), provider };
        let ghost esnap = entry;
        proof {
            assert(orig.skip(0) =~= orig);
        }
        let mut i: usize = 0;
        while i < this.writeable_blob_providers.len()
            invariant
                i <= orig.len(),
                self.writeable_blob_providers@ == orig,
                self.storages@ == st_orig,
                self.readable_blob_providers@ == rd_orig,
                this.writeable_blob_providers@ == orig,
                this.storages@ == st_orig,
                this.readable_blob_providers@ == rd_orig,
                entry == esnap,
                esnap.name@ == name@,
                esnap.provider == provider,
                writeable_name_index(orig, name@) == writeable_name_index(
                    orig.skip(i as int),
                    name@,
                ) + i,
                forall|m: int| 0 <= m < i ==> (#[trigger] orig[m]).name@ != name@,
            decreases orig.len() - i,
        {
            proof {
                assert(orig.skip(i as int).skip(1) =~= orig.skip(i as int + 1));
                assert(orig.skip(i as int)[0] == orig[i as int]);
            }
            if this.writeable_blob_providers[i].name == entry.name {
                assert(writeable_name_index(orig.skip(i as int), name@) == 0);
                assert(writeable_name_index(orig, name@) == i);
                this.writeable_blob_providers[i] = entry;
                assert(this.writeable_blob_providers@ == orig.update(i as int, esnap));
                return this;
            }
            i = i + 1;
        }
        proof {
            assert(orig.skip(orig.len() as int) =~= Seq::<NamedWriteable>::empty());
            assert(writeable_name_index(orig, name@) == orig.len());
        }
        this.writeable_blob_providers.push(entry);
        proof {
            assert(this.writeable_blob_providers@.take(orig.len() as int) =~= orig);
        }
        this
    }

    pub fn build(self) -> (r: Result<AudioLibrary, String>)
        ensures
            r is Ok,
            r matches Ok(lib) ==> {
                &&& lib.cache_spec() =~= Map::<u64, Track>::empty()
                &&& lib.storages_spec() == self.storages@
                &&& lib.readable_spec() == self.readable_blob_providers@
                &&& lib.writeable_spec() == self.writeable_blob_providers@
            },
    {
        let AudioLibraryBuilder { storages, readable_blob_providers, writeable_blob_providers } =
            self;
        let ghost orig_storages = storages@;
        let ghost orig_readable = readable_blob_providers@;
        let ghost orig_writeable = writeable_blob_providers@;
        let mut inited_storages: Vec<StorageBackend> = Vec::new();
        let mut rest_storages = storages;
        while rest_storages.len() > 0
            invariant
                inited_storages@ + rest_storages@ == orig_storages,
            decreases rest_storages@.len(),
        {
            let mut s = rest_storages.remove(0);
            match s.init() {
                Ok(_) => {},
                Err(e) => {
                    return Err(e);
                },
            }
            inited_storages.push(s);
            proof {
                assert(inited_storages@ + rest_storages@ =~= orig_storages);
            }
        }
        proof {
            assert(inited_storages@ =~= orig_storages);
        }
        let mut inited_readable: Vec<NamedReadable> = Vec::new();
        let mut rest_readable = readable_blob_providers;
        while rest_readable.len() > 0
            invariant
                inited_readable@ + rest_readable@ == orig_readable,
            decreases rest_readable@.len(),
        {
            let mut entry = rest_readable.remove(0);
            match entry.provider.init() {
                Ok(_) => {},
                Err(e) => {
                    return Err(e);
                },
            }
            inited_readable.push(entry);
            proof {
                assert(inited_readable@ + rest_readable@ =~= orig_readable);
            }
        }
        proof {
            assert(inited_readable@ =~= orig_readable);
        }
        let mut inited_writeable: Vec<NamedWriteable> = Vec::new();
        let mut rest_writeable = writeable_blob_providers;
        while rest_writeable.len() > 0
            invariant
                inited_writeable@ + rest_writeable@ == orig_writeable,
            decreases rest_writeable@.len(),
        {
            let mut entry = rest_writeable.remove(0);
            match entry.provider.init() {
                Ok(_) => {},
                Err(e) => {
                    return Err(e);
                },
            }
            inited_writeable.push(entry);
            proof {
                assert(inited_writeable@ + rest_writeable@ =~= orig_writeable);
            }
        }
        proof {
            assert(inited_writeable@ =~= orig_writeable);
        }
        Ok(
            AudioLibrary {
                storages: inited_storages,
                cache: HashMap::new(),
                readable_blob_providers: inited_readable,
                writeable_blob_providers: inited_writeable,
            },
        )
    }
}

} // verus!

