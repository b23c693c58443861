//! A string that ends at the first zero byte.

use vstd::prelude::*;
use vstd::string::StringExecFns;
use crate::datatype::{H2Type, H2Types, OffsetView, ResolveOffset};
use crate::error::H2Error;

verus! {

/// Single-byte characters up to and including a terminating zero byte. Its
/// size depends on the data.
#[derive(Debug, PartialEq, Eq, Structural)]
pub struct NTString {}

impl Clone for NTString {
    fn clone(&self) -> (r: Self)
        ensures
            r == *self,
    {
        NTString {  }
    }
}

/// The number of bytes from `from` up to the first zero byte, which is not
/// counted; `None` if no zero byte follows.
pub open spec fn nul_distance(data: Seq<u8>, from: nat) -> Option<nat>
    decreases data.len() - from,
{
    if from >= data.len() {
        None
    } else if data[from as int] == 0 {
        Some(0)
    } else {
        match nul_distance(data, from + 1) {
            Some(n) => Some(n + 1),
            None => None,
        }
    }
}

/// The zero byte found is where it is said to be, and no byte before it is
/// zero.
pub proof fn lemma_nul_distance(data: Seq<u8>, from: nat)
    ensures
        nul_distance(data, from) matches Some(n) ==> (from + n < data.len() && data[(from
            + n) as int] == 0 && forall|i: int| from <= i < from + n ==> data[i] != 0),
        nul_distance(data, from) is None ==> forall|i: int| from <= i < data.len() ==> data[i] != 0,
    decreases data.len() - from,
{
    if from < data.len() && data[from as int] != 0 {
        lemma_nul_distance(data, from + 1);
    }
}

/// If the first zero byte at or after `from` is at `from + n`, that is the
/// distance.
pub proof fn lemma_nul_found(data: Seq<u8>, from: nat, n: nat)
    requires
        from + n < data.len(),
        data[(from + n) as int] == 0,
        forall|i: int| from <= i < from + n ==> data[i] != 0,
    ensures
        nul_distance(data, from) == Some(n),
    decreases n,
{
    if n > 0 {
        lemma_nul_found(data, from + 1, (n - 1) as nat);
    }
}

/// If no byte at or after `from` is zero, there is no distance.
pub proof fn lemma_nul_missing(data: Seq<u8>, from: nat)
    requires
        forall|i: int| from <= i < data.len() ==> data[i] != 0,
    ensures
        nul_distance(data, from) is None,
    decreases data.len() - from,
{
    if from < data.len() {
        lemma_nul_missing(data, from + 1);
    }
}

impl From<NTString> for H2Type {
    fn from(o: NTString) -> (t: H2Type) {
        H2Type::new(H2Types::NTString(o))
    }
}

impl vstd::std_specs::convert::FromSpecImpl<NTString> for H2Type {
    open spec fn obeys_from_spec() -> bool {
        true
    }

    /// The type of this kind, without an alignment.
    open spec fn from_spec(o: NTString) -> H2Type {
        H2Type { field: H2Types::NTString(o), byte_alignment: None }
    }
}

impl From<(u64, NTString)> for H2Type {
    fn from(o: (u64, NTString)) -> (t: H2Type) {
        H2Type::new_aligned(Some(o.0), H2Types::NTString(o.1))
    }
}

impl vstd::std_specs::convert::FromSpecImpl<(u64, NTString)> for H2Type {
    open spec fn obeys_from_spec() -> bool {
        true
    }

    /// The type of this kind, aligned to the given number of bytes.
    open spec fn from_spec(o: (u64, NTString)) -> H2Type {
        H2Type { field: H2Types::NTString(o.1), byte_alignment: Some(o.0) }
    }
}

impl NTString {
    pub fn new() -> (s: Self)
        ensures
            s == (NTString {  }),
    {
        NTString {  }
    }

    pub fn is_static(&self) -> (b: bool)
        ensures
            !b,
    {
        false
    }

    /// The size of the string with its terminator. It cannot be told
    /// without data, nor where the data holds no terminator.
    pub open spec fn size_spec(offset: OffsetView) -> Result<nat, H2Error> {
        match offset.data {
            None => Err(H2Error::NeedsDynamicContext),
            Some(data) => match nul_distance(data, offset.position) {
                Some(n) => Ok(n + 1),
                None => Err(H2Error::ReadOutOfBounds),
            },
        }
    }

    /// The text of the string: without data its name; with data the
    /// characters before the terminator.
    pub open spec fn to_string_spec(offset: OffsetView) -> Result<Seq<char>, H2Error> {
        match offset.data {
            None => Ok("NTString"@),
            Some(data) => match nul_distance(data, offset.position) {
                Some(n) => Ok(
                    Seq::new(n, |i: int| data[offset.position + i] as char),
                ),
                None => Err(H2Error::ReadOutOfBounds),
            },
        }
    }

    /// The distance to the terminator at or after the cursor.
    fn scan(offset: &ResolveOffset) -> (r: Result<u64, H2Error>)
        ensures
            r matches Ok(n) ==> (offset@.data matches Some(data) && nul_distance(
                data,
                offset@.position,
            ) == Some(n as nat) && offset@.position + n < data.len() && offset@.position + n
                < u64::MAX),
            r matches Err(e) ==> (match offset@.data {
                None => e == H2Error::NeedsDynamicContext,
                Some(data) => e == H2Error::ReadOutOfBounds && nul_distance(
                    data,
                    offset@.position,
                ) is None,
            }),
    {
        match offset {
            ResolveOffset::Static(_) => Err(H2Error::NeedsDynamicContext),
            ResolveOffset::Dynamic(context) => {
                let start = context.position();
                let len = context.len();
                let ghost data = context.bytes();
                if start >= len as u64 {
                    proof {
                        lemma_nul_missing(data, start as nat);
                    }
                    return Err(H2Error::ReadOutOfBounds);
                }
                let mut n: u64 = 0;
                while start + n < len as u64
                    invariant
                        offset@ == (OffsetView { data: Some(data), position: start as nat }),
                        start == context.offset(),
                        data == context.bytes(),
                        data.len() == len,
                        start + n <= len,
                        forall|i: int| start <= i < start + n ==> data[i] != 0,
                    decreases len - n,
                {
                    let byte = context.at(start + n).read_u8().unwrap();
                    if byte == 0 {
                        proof {
                            lemma_nul_found(data, start as nat, n as nat);
                        }
                        return Ok(n);
                    }
                    n += 1;
                }
                proof {
                    lemma_nul_missing(data, start as nat);
                }
                Err(H2Error::ReadOutOfBounds)
            },
        }
    }

    pub fn size(&self, offset: &ResolveOffset) -> (r: Result<u64, H2Error>)
        ensures
            r matches Ok(n) ==> Self::size_spec(offset@) == Ok::<nat, H2Error>(n as nat),
            r matches Err(e) ==> Self::size_spec(offset@) == Err::<nat, H2Error>(e),
    {
        match Self::scan(offset) {
            Ok(n) => Ok(n + 1),
            Err(e) => Err(e),
        }
    }

    pub fn to_string(&self, offset: &ResolveOffset) -> (r: Result<String, H2Error>)
        ensures
            r matches Ok(s) ==> Self::to_string_spec(offset@) == Ok::<Seq<char>, H2Error>(s@),
            r matches Err(e) ==> Self::to_string_spec(offset@) == Err::<Seq<char>, H2Error>(e),
    {
        match offset {
            ResolveOffset::Static(_) => Ok(String::from_str("NTString")),
            ResolveOffset::Dynamic(context) => {
                let n = match Self::scan(offset) {
                    Ok(n) => n,
                    Err(e) => {
                        return Err(e);
                    },
                };
                let start = context.position();
                let ghost data = context.bytes();
                let ghost origin = context.offset();
                let mut s = String::new();
                let mut i: u64 = 0;
                while i < n
                    invariant
                        i <= n,
                        start == context.offset(),
                        data == context.bytes(),
                        start + n < data.len(),
                        start + n < u64::MAX,
                        s@ =~= Seq::new(i as nat, |k: int| data[origin + k] as char),
                        origin == start,
                    decreases n - i,
                {
                    let byte = context.at(start + i).read_u8().unwrap();
                    s.push(byte as char);
                    i += 1;
                }
                Ok(s)
            },
        }
    }
}

} // verus!
