use vstd::prelude::*;

verus! {

/// A codec that shrinks raw audio bytes and restores them.
pub trait AudioCompression {
    fn compress(source: &Vec<u8>) -> (r: Vec<u8>);

    fn decompress(source: &Vec<u8>) -> (r: Vec<u8>);
}

} // verus!
