use vstd::prelude::*;

verus! {

use crate::audio::AudioReader;

/// A value a provider can hand out or take in.
pub trait ProviderObject {

}

impl ProviderObject for AudioReader {

}

/// What a provider reports when it cannot serve a request.
#[derive(Clone, Copy, Debug, PartialEq, Eq)]
pub enum ProviderError {
    Other(&'static str),
}

/// A provider that resolves ids to objects.
pub trait ReadableProvider<O: ProviderObject> {
    fn get(&self, id: &str) -> (r: Result<O, ProviderError>);
}

/// A provider that stores objects under ids.
pub trait WriteableProvider<O: ProviderObject> {
    fn set(&mut self, id: &str, value: O) -> (r: Result<(), ProviderError>);
}

} // verus!
