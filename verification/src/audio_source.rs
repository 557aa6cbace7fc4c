use vstd::prelude::*;

verus! {

use crate::storage::Track;

/// A place audio can be looked up in: metadata first, raw bytes on demand.
pub trait AudioSource {
    fn find(&self, id: u64) -> (r: Option<Track>);

    fn get(&self, id: u64) -> (r: Option<Vec<u8>>);
}

} // verus!
