use vstd::prelude::*;

verus! {

use crate::text::{contains_bytes, is_substring_of, lower_bytes, lowercase_bytes};
use std::collections::HashMap;

broadcast use vstd::std_specs::hash::group_hash_axioms;

/// A single playable audio item's metadata record.
#[derive(Debug)]
pub struct Track {
    pub id: u64,
    pub title: String,
    pub duration_ms: i32,
    pub source_path: String,
}

impl Clone for Track {
    fn clone(&self) -> (r: Self)
        ensures
            r == *self,
    {
        Track {
            id: self.id,
            title: self.title.clone(),
            duration_ms: self.duration_ms,
            source_path: self.source_path.clone(),
        }
    }
}

impl PartialEq for Track {
    fn eq(&self, other: &Self) -> (r: bool) {
        self.id == other.id && self.title == other.title && self.duration_ms == other.duration_ms
            && self.source_path == other.source_path
    }
}

impl vstd::std_specs::cmp::PartialEqSpecImpl for Track {
    open spec fn obeys_eq_spec() -> bool {
        true
    }

    open spec fn eq_spec(&self, other: &Self) -> bool {
        self.id == other.id && self.title@ == other.title@
            && self.duration_ms == other.duration_ms && self.source_path@ == other.source_path@
    }
}

/// A title filter with a pagination window.
#[derive(Debug)]
pub struct TrackQuery {
    pub title: String,
    pub read_cursor: u32,
    pub max_response: u32,
}

impl Clone for TrackQuery {
    fn clone(&self) -> (r: Self)
        ensures
            r == *self,
    {
        TrackQuery {
            title: self.title.clone(),
            read_cursor: self.read_cursor,
            max_response: self.max_response,
        }
    }
}

/// A track matches a query when the lowercased query title occurs inside
/// the lowercased track title.
pub open spec fn track_matches(t: Track, q: TrackQuery) -> bool {
    is_substring_of(lower_bytes(q.title@), lower_bytes(t.title@))
}

impl Track {
    /// Case-insensitive substring containment on the title.
    pub fn matches(&self, query: &TrackQuery) -> (r: bool)
        ensures
            r == track_matches(*self, *query),
    {
        let title_lower = lowercase_bytes(self.title.as_str());
        let query_lower = lowercase_bytes(query.title.as_str());
        contains_bytes(&title_lower, &query_lower)
    }
}

/// The first record carrying `id`, scanning in registration order.
pub open spec fn find_track(records: Seq<Track>, id: u64) -> Option<Track>
    decreases records.len(),
{
    if records.len() == 0 {
        None
    } else if records[0].id == id {
        Some(records[0])
    } else {
        find_track(records.skip(1), id)
    }
}

/// The records of `records` that match `q`, in their original order.
pub open spec fn matching_tracks(records: Seq<Track>, q: TrackQuery) -> Seq<Track>
    decreases records.len(),
{
    if records.len() == 0 {
        Seq::empty()
    } else {
        let rest = matching_tracks(records.drop_last(), q);
        if track_matches(records.last(), q) {
            rest.push(records.last())
        } else {
            rest
        }
    }
}

/// The pagination window `[cursor, cursor + max)` of a sequence, clipped
/// to its length; empty when the cursor lies past the end.
pub open spec fn paged(s: Seq<Track>, cursor: int, max: int) -> Seq<Track> {
    if cursor >= s.len() || cursor < 0 || max < 0 {
        Seq::empty()
    } else if cursor + max <= s.len() {
        s.subrange(cursor, cursor + max)
    } else {
        s.subrange(cursor, s.len() as int)
    }
}

/// What one structured storage backend answers a query with: the matching
/// records, paged by the query's cursor and response cap.
pub open spec fn query_spec(records: Seq<Track>, q: TrackQuery) -> Seq<Track> {
    paged(matching_tracks(records, q), q.read_cursor as int, q.max_response as int)
}

/// A readable structured storage backend: a pure resolver over a set of
/// track records and their raw audio sources, owning no cache of its own.
pub trait AudioStorage {
    /// The records the backend can resolve, in registration order.
    spec fn records(&self) -> Seq<Track>;

    /// The raw source bytes the backend can resolve, keyed by track id.
    spec fn sources(&self) -> Map<u64, Seq<u8>>;

    /// One-time preparation, run at library construction.
    fn init(&mut self) -> (r: Result<(), String>);

    /// Matching records, paged by the query's window.
    fn query_tracks(&self, query: &TrackQuery) -> (r: Result<Vec<Track>, String>)
        ensures
            r matches Ok(v) ==> v@ == query_spec(self.records(), *query),
    ;

    /// The record carrying `id`, if the backend has one.
    fn get_track(&self, id: u64) -> (r: Result<Track, String>)
        ensures
            r matches Ok(t) ==> find_track(self.records(), id) == Some(t),
    ;

    /// The raw source bytes of the track carrying `id`.
    fn get_track_source(&self, id: u64) -> (r: Result<Vec<u8>, String>)
        ensures
            r matches Ok(v) ==> self.sources().contains_key(id) && v@ == self.sources()[id],
    ;
}

/// The reference structured storage backend: an in-memory index of records
/// and source blobs. The surrounding process reads them from disk and hands
/// them in through `load_records` and `load_source`.
pub struct FSAudioStorage {
    dir: String,
    records: Vec<Track>,
    blobs: HashMap<u64, Vec<u8>>,
}

/// The index of the first record carrying `id`, or the length when none does.
pub open spec fn find_index(records: Seq<Track>, id: u64) -> int
    decreases records.len(),
{
    if records.len() == 0 {
        0
    } else if records[0].id == id {
        0
    } else {
        1 + find_index(records.skip(1), id)
    }
}

/// Inserting one record: replaces the first record with the same id, or
/// appends when the id is new.
pub open spec fn upsert_track(records: Seq<Track>, t: Track) -> Seq<Track> {
    let i = find_index(records, t.id);
    if i < records.len() {
        records.update(i, t)
    } else {
        records.push(t)
    }
}

/// Inserting a batch of records, first to last.
pub open spec fn upsert_all(records: Seq<Track>, ts: Seq<Track>) -> Seq<Track>
    decreases ts.len(),
{
    if ts.len() == 0 {
        records
    } else {
        upsert_all(upsert_track(records, ts[0]), ts.skip(1))
    }
}

impl FSAudioStorage {
    /// The directory this storage was created for, as spec-level text.
    pub closed spec fn spec_dir(&self) -> Seq<char> {
        self.dir@
    }

    /// The records of the in-memory index, in insertion order.
    pub closed spec fn spec_records(&self) -> Seq<Track> {
        self.records@
    }

    /// The loaded source blobs, keyed by track id.
    pub closed spec fn spec_sources(&self) -> Map<u64, Seq<u8>> {
        self.blobs@.map_values(|v: Vec<u8>| v@)
    }

    pub fn new(path: &str) -> (r: Self)
        ensures
            r.spec_records() =~= Seq::<Track>::empty(),
            r.spec_sources() =~= Map::<u64, Seq<u8>>::empty(),
            r.spec_dir() == path@,
    {
        FSAudioStorage { dir: path.to_owned(), records: Vec::new(), blobs: HashMap::new() }
    }

    /// The directory this storage was created for.
    pub fn dir(&self) -> (r: &str)
        ensures
            r@ == self.spec_dir(),
    {
        self.dir.as_str()
    }

    /// Inserts one record, replacing an existing record with the same id.
    pub fn upsert_record(&mut self, t: Track) -> (nothing: ())
        ensures
            final(self).spec_records() == upsert_track(old(self).spec_records(), t),
            final(self).spec_sources() == old(self).spec_sources(),
            final(self).spec_dir() == old(self).spec_dir(),
    {
        let ghost orig = self.records@;
        let ghost tsnap = t;
        proof {
            assert(orig.skip(0) =~= orig);
        }
        let mut i: usize = 0;
        while i < self.records.len()
            invariant
                i <= self.records@.len(),
                self.records@ == orig,
                old(self).records@ == orig,
                self.blobs@ == old(self).blobs@,
                self.dir@ == old(self).dir@,
                t == tsnap,
                find_index(orig, t.id) == find_index(orig.skip(i as int), t.id) + i,
                forall|m: int| 0 <= m < i ==> orig[m].id != t.id,
            decreases self.records@.len() - i,
        {
            proof {
                assert(orig.skip(i as int).skip(1) =~= orig.skip(i as int + 1));
            }
            if self.records[i].id == t.id {
                assert(orig.skip(i as int)[0] == orig[i as int]);
                assert(find_index(orig.skip(i as int), t.id) == 0);
                assert(find_index(orig, t.id) == i);
                self.records[i] = t;
                assert(self.records@ =~= upsert_track(orig, tsnap));
                return ;
            }
            i = i + 1;
        }
        proof {
            assert(orig.skip(i as int) =~= Seq::<Track>::empty());
        }
        self.records.push(t);
        assert(self.records@ =~= upsert_track(orig, tsnap));
    }

    /// Loads a batch of records into the index, first to last, replacing
    /// records whose ids are already present.
    pub fn load_records(&mut self, tracks: Vec<Track>) -> (nothing: ())
        ensures
            final(self).spec_records() == upsert_all(old(self).spec_records(), tracks@),
            final(self).spec_sources() == old(self).spec_sources(),
            final(self).spec_dir() == old(self).spec_dir(),
    {
        let ghost orig = self.records@;
        let ghost ts = tracks@;
        proof {
            assert(ts.skip(0) =~= ts);
        }
        for i in 0..tracks.len()
            invariant
                ts == tracks@,
                upsert_all(self.records@, ts.skip(i as int)) == upsert_all(orig, ts),
                self.spec_sources() == old(self).spec_sources(),
                self.spec_dir() == old(self).spec_dir(),
        {
            proof {
                assert(ts.skip(i as int).skip(1) =~= ts.skip(i as int + 1));
                assert(ts.skip(i as int)[0] == ts[i as int]);
            }
            let t = tracks[i].clone();
            self.upsert_record(t);
        }
        proof {
            assert(ts.skip(tracks@.len() as int) =~= Seq::<Track>::empty());
        }
    }

    /// Makes the raw source bytes for track `id` resolvable.
    pub fn load_source(&mut self, id: u64, bytes: Vec<u8>) -> (nothing: ())
        ensures
            final(self).spec_sources() =~= old(self).spec_sources().insert(id, bytes@),
            final(self).spec_records() == old(self).spec_records(),
            final(self).spec_dir() == old(self).spec_dir(),
    {
        self.blobs.insert(id, bytes);
    }
}

impl AudioStorage for FSAudioStorage {
    open spec fn records(&self) -> Seq<Track> {
        self.spec_records()
    }

    open spec fn sources(&self) -> Map<u64, Seq<u8>> {
        self.spec_sources()
    }

    /// The in-memory reference storage needs no preparation of its own:
    /// the surrounding process loads records and sources before use.
    fn init(&mut self) -> (r: Result<(), String>)
        ensures
            r is Ok,
            *final(self) == *old(self),
    {
        Ok(())
    }

    fn query_tracks(&self, query: &TrackQuery) -> (r: Result<Vec<Track>, String>)
        ensures
            r is Ok,
    {
        let mut found: Vec<Track> = Vec::new();
        proof {
            assert(self.records@.take(0) =~= Seq::<Track>::empty());
            assert(matching_tracks(Seq::<Track>::empty(), *query) =~= Seq::<Track>::empty());
        }
        let mut i: usize = 0;
        while i < self.records.len()
            invariant
                i <= self.records@.len(),
                found@ == matching_tracks(self.records@.take(i as int), *query),
            decreases self.records@.len() - i,
        {
            proof {
                assert(self.records@.take(i as int + 1).drop_last() =~= self.records@.take(
                    i as int,
                ));
                assert(self.records@.take(i as int + 1).last() == self.records@[i as int]);
            }
            if self.records[i].matches(query) {
                found.push(self.records[i].clone());
            }
            i = i + 1;
        }
        proof {
            assert(self.records@.take(self.records@.len() as int) =~= self.records@);
        }
        let ghost all = matching_tracks(self.records@, *query);
        let cursor = query.read_cursor as usize;
        let max = query.max_response as usize;
        let mut out: Vec<Track> = Vec::new();
        if cursor >= found.len() {
            assert(out@ =~= query_spec(self.records(), *query));
            return Ok(out);
        }
        let stop = if found.len() - cursor < max {
            found.len()
        } else {
            cursor + max
        };
        let mut j: usize = cursor;
        while j < stop
            invariant
                cursor <= j <= stop <= found@.len(),
                found@ == all,
                out@ == all.subrange(cursor as int, j as int),
            decreases stop - j,
        {
            out.push(found[j].clone());
            proof {
                assert(out@ =~= all.subrange(cursor as int, j as int + 1));
            }
            j = j + 1;
        }
        assert(out@ =~= query_spec(self.records(), *query));
        Ok(out)
    }

    fn get_track(&self, id: u64) -> (r: Result<Track, String>)
        ensures
            r is Ok <==> find_track(self.records(), id) is Some,
    {
        proof {
            assert(self.records@.skip(0) =~= self.records@);
        }
        let mut i: usize = 0;
        while i < self.records.len()
            invariant
                i <= self.records@.len(),
                find_track(self.records@, id) == find_track(self.records@.skip(i as int), id),
            decreases self.records@.len() - i,
        {
            proof {
                assert(self.records@.skip(i as int).skip(1) =~= self.records@.skip(i as int + 1));
                assert(self.records@.skip(i as int)[0] == self.records@[i as int]);
            }
            if self.records[i].id == id {
                return Ok(self.records[i].clone());
            }
            i = i + 1;
        }
        proof {
            assert(self.records@.skip(self.records@.len() as int) =~= Seq::<Track>::empty());
        }
        Err("track not found".to_owned())
    }

    fn get_track_source(&self, id: u64) -> (r: Result<Vec<u8>, String>)
        ensures
            r is Ok <==> self.sources().contains_key(id),
    {
        match self.blobs.get(&id) {
            Some(bytes) => {
                let mut out: Vec<u8> = Vec::new();
                out.extend_from_slice(bytes.as_slice());
                assert(out@ =~= self.sources()[id]);
                Ok(out)
            },
            None => Err("error reading source file".to_owned()),
        }
    }
}

} // verus!
