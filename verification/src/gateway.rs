use vstd::prelude::*;

verus! {

use crate::fs_provider::FsAudioProvider;
use std::sync::Arc;
use vstd::string::StringSliceAdditionalSpecFns;

/// The value of one hexadecimal digit byte, if the byte is one.
pub open spec fn hex_digit_spec(b: u8) -> Option<u8> {
    if 48u8 <= b && b <= 57u8 {
        Some((b - 48u8) as u8)
    } else if 97u8 <= b && b <= 102u8 {
        Some((b - 97u8 + 10) as u8)
    } else if 65u8 <= b && b <= 70u8 {
        Some((b - 65u8 + 10) as u8)
    } else {
        None
    }
}

/// Digits folded left to right from position `i` with accumulator `acc`:
/// `None` on a non-digit byte or when the value no longer fits in a `u64`.
pub open spec fn parse_hex_partial(s: Seq<u8>, i: int, acc: u64) -> Option<u64>
    decreases s.len() - i,
{
    if i < 0 || i >= s.len() {
        Some(acc)
    } else {
        match hex_digit_spec(s[i]) {
            Some(d) => {
                if acc * 16 + d <= u64::MAX {
                    parse_hex_partial(s, i + 1, (acc * 16 + d) as u64)
                } else {
                    None
                }
            },
            None => None,
        }
    }
}

/// The meaning of a hexadecimal byte string: `None` when empty, on a
/// non-digit byte, or when the value overflows a `u64`.
pub open spec fn parse_hex_spec(s: Seq<u8>) -> Option<u64> {
    if s.len() == 0 {
        None
    } else {
        parse_hex_partial(s, 0, 0)
    }
}

fn hex_digit(b: u8) -> (r: Option<u8>)
    ensures
        r == hex_digit_spec(b),
        r is Some ==> r.unwrap() < 16,
{
    if 48u8 <= b && b <= 57u8 {
        Some(b - 48u8)
    } else if 97u8 <= b && b <= 102u8 {
        Some(b - 97u8 + 10)
    } else if 65u8 <= b && b <= 70u8 {
        Some(b - 65u8 + 10)
    } else {
        None
    }
}

/// Parses a track id written in hexadecimal digits (either case),
/// as a request handler receives it in a query string.
pub fn parse_hex_id(s: &str) -> (r: Option<u64>)
    ensures
        r == parse_hex_spec(s.spec_bytes()),
{
    let bytes = s.as_bytes();
    if bytes.len() == 0 {
        return None;
    }
    let mut acc: u64 = 0;
    let mut i: usize = 0;
    while i < bytes.len()
        invariant
            i <= bytes.len(),
            bytes@ == s.spec_bytes(),
            parse_hex_spec(s.spec_bytes()) == parse_hex_partial(bytes@, i as int, acc),
        decreases bytes.len() - i,
    {
        let d = match hex_digit(bytes[i]) {
            Some(d) => d,
            None => {
                return None;
            },
        };
        let shifted = match acc.checked_mul(16) {
            Some(v) => v,
            None => {
                return None;
            },
        };
        acc = match shifted.checked_add(d as u64) {
            Some(v) => v,
            None => {
                return None;
            },
        };
        i = i + 1;
    }
    Some(acc)
}

} // verus!


verus! {

/// The network-facing gateway: it owns the provider that request handlers
/// resolve tracks against. Serving requests is wiring around the library and
/// lives with the process, not here.
pub struct HttpGateway {
    pub provider: Arc<FsAudioProvider>,
}

impl HttpGateway {
    pub fn new(provider: FsAudioProvider) -> (r: Self)
        ensures
            r.provider == provider,
    {
        HttpGateway { provider: Arc::new(provider) }
    }

    /// The provider requests are answered from.
    pub fn provider(&self) -> (r: &FsAudioProvider)
        ensures
            *r == self.provider,
    {
        &self.provider
    }
}

} // verus!
