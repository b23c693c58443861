//! Keys and initialisation vectors of the supported widths.

use vstd::prelude::*;
use crate::error::H2Error;

verus! {

/// A key or IV of 64, 128, 192 or 256 bits.
#[derive(Clone, Copy, Debug)]
pub enum KeyOrIV {
    Bits64([u8; 8]),
    Bits128([u8; 16]),
    Bits192([u8; 24]),
    Bits256([u8; 32]),
}

impl View for KeyOrIV {
    type V = Seq<u8>;

    /// The bytes of the key, whatever its width.
    open spec fn view(&self) -> Seq<u8> {
        match *self {
            KeyOrIV::Bits64(a) => a@,
            KeyOrIV::Bits128(a) => a@,
            KeyOrIV::Bits192(a) => a@,
            KeyOrIV::Bits256(a) => a@,
        }
    }
}

/// Whether a key or IV of `len` bytes has a supported width.
pub open spec fn supported_width(len: nat) -> bool {
    len == 8 || len == 16 || len == 24 || len == 32
}

/// The bytes of `key` as an array of exactly its length.
pub fn to_array<const N: usize>(key: &Vec<u8>) -> (a: [u8; N])
    requires
        key.len() == N,
    ensures
        a@ == key@,
{
    let mut a = [0u8; N];
    let mut i: usize = 0;
    while i < N
        invariant
            i <= N,
            key.len() == N,
            a@.len() == N,
            forall|j: int| 0 <= j < i ==> a@[j] == key@[j],
        decreases N - i,
    {
        a[i] = key[i];
        i += 1;
    }
    assert(a@ =~= key@);
    a
}

impl KeyOrIV {
    /// A key made of the bytes of `key`, if their number is a supported width.
    pub fn new(key: Vec<u8>) -> (r: Result<Self, H2Error>)
        ensures
            supported_width(key@.len()) ==> r is Ok && r->Ok_0@ == key@,
            !supported_width(key@.len()) ==> r == Err::<Self, H2Error>(H2Error::BadKeyLength),
            r matches Ok(k) ==> (k is Bits64 <==> key@.len() == 8) && (k is Bits128 <==> key@.len()
                == 16) && (k is Bits192 <==> key@.len() == 24),
    {
        let n = key.len();
        if n == 8 {
            Ok(KeyOrIV::Bits64(to_array::<8>(&key)))
        } else if n == 16 {
            Ok(KeyOrIV::Bits128(to_array::<16>(&key)))
        } else if n == 24 {
            Ok(KeyOrIV::Bits192(to_array::<24>(&key)))
        } else if n == 32 {
            Ok(KeyOrIV::Bits256(to_array::<32>(&key)))
        } else {
            Err(H2Error::BadKeyLength)
        }
    }

    /// The value as a 64-bit key or IV.
    pub fn get64(self) -> (r: Result<[u8; 8], H2Error>)
        ensures
            r == (match self {
                KeyOrIV::Bits64(v) => Ok::<[u8; 8], H2Error>(v),
                _ => Err(H2Error::BadKeyLength),
            }),
    {
        match self {
            KeyOrIV::Bits64(v) => Ok(v),
            _ => Err(H2Error::BadKeyLength),
        }
    }

    /// The value as a 128-bit key or IV.
    pub fn get128(self) -> (r: Result<[u8; 16], H2Error>)
        ensures
            r == (match self {
                KeyOrIV::Bits128(v) => Ok::<[u8; 16], H2Error>(v),
                _ => Err(H2Error::BadKeyLength),
            }),
    {
        match self {
            KeyOrIV::Bits128(v) => Ok(v),
            _ => Err(H2Error::BadKeyLength),
        }
    }
}

} // verus!
