//! An IPv4 address.

use vstd::prelude::*;
use vstd::string::StringExecFns;
use crate::datatype::{H2Type, H2Types, OffsetView, ResolveOffset};
use crate::error::H2Error;
use crate::generic_number::context::{unsigned_value, Endian};
use crate::generic_number::generic_reader::GenericReader;
use crate::text::{digits, push_number};

verus! {

/// Four bytes that are an IPv4 address, stored in the given byte order.
#[derive(Debug, Clone, Copy, PartialEq, Eq, Structural)]
pub struct IPv4 {
    pub endian: Endian,
}

/// An address in dotted decimal: its four bytes, the most significant
/// first, each in decimal, with a dot between each two.
pub open spec fn ipv4_text(v: nat) -> Seq<char> {
    digits(v / 0x100_0000 % 256, 10, false) + seq!['.'] + digits(v / 0x1_0000 % 256, 10, false)
        + seq!['.'] + digits(v / 0x100 % 256, 10, false) + seq!['.'] + digits(v % 256, 10, false)
}

/// Appends to `s` the address `v` in dotted decimal.
pub fn push_ipv4(s: &mut String, v: u32)
    ensures
        final(s)@ == old(s)@ + ipv4_text(v as nat),
{
    let ghost start = s@;
    push_number(s, (v / 0x100_0000 % 256) as u128, 10, false, 0);
    s.push('.');
    push_number(s, (v / 0x1_0000 % 256) as u128, 10, false, 0);
    s.push('.');
    push_number(s, (v / 0x100 % 256) as u128, 10, false, 0);
    s.push('.');
    push_number(s, (v % 256) as u128, 10, false, 0);
    assert(s@ =~= start + ipv4_text(v as nat));
}

impl From<IPv4> for H2Type {
    fn from(o: IPv4) -> (t: H2Type) {
        H2Type::new(H2Types::IPv4(o))
    }
}

impl vstd::std_specs::convert::FromSpecImpl<IPv4> for H2Type {
    open spec fn obeys_from_spec() -> bool {
        true
    }

    /// The type of this kind, without an alignment.
    open spec fn from_spec(o: IPv4) -> H2Type {
        H2Type { field: H2Types::IPv4(o), byte_alignment: None }
    }
}

impl From<(u64, IPv4)> for H2Type {
    fn from(o: (u64, IPv4)) -> (t: H2Type) {
        H2Type::new_aligned(Some(o.0), H2Types::IPv4(o.1))
    }
}

impl vstd::std_specs::convert::FromSpecImpl<(u64, IPv4)> for H2Type {
    open spec fn obeys_from_spec() -> bool {
        true
    }

    /// The type of this kind, aligned to the given number of bytes.
    open spec fn from_spec(o: (u64, IPv4)) -> H2Type {
        H2Type { field: H2Types::IPv4(o.1), byte_alignment: Some(o.0) }
    }
}

impl IPv4 {
    pub fn new(endian: Endian) -> (a: Self)
        ensures
            a == (IPv4 { endian }),
    {
        IPv4 { endian }
    }

    pub fn is_static(&self) -> (b: bool)
        ensures
            b,
    {
        true
    }

    pub fn size(&self, _offset: &ResolveOffset) -> (r: Result<u64, H2Error>)
        ensures
            r == Ok::<u64, H2Error>(4),
    {
        Ok(4)
    }

    /// The text of an address: without data its name; with data the four
    /// bytes at the position in dotted decimal.
    pub open spec fn to_string_spec(self, offset: OffsetView) -> Result<Seq<char>, H2Error> {
        match offset.data {
            None => Ok("IPv4"@),
            Some(data) => if offset.position + 4 <= data.len() {
                Ok(
                    ipv4_text(
                        unsigned_value(
                            self.endian,
                            data.subrange(offset.position as int, (offset.position + 4) as int),
                        ),
                    ),
                )
            } else {
                Err(H2Error::ReadOutOfBounds)
            },
        }
    }

    pub fn to_string(&self, offset: &ResolveOffset) -> (r: Result<String, H2Error>)
        ensures
            r matches Ok(s) ==> self.to_string_spec(offset@) == Ok::<Seq<char>, H2Error>(s@),
            r matches Err(e) ==> self.to_string_spec(offset@) == Err::<Seq<char>, H2Error>(e),
    {
        match offset {
            ResolveOffset::Static(_) => Ok(String::from_str("IPv4")),
            ResolveOffset::Dynamic(context) => {
                let v = match context.read_unsigned(4, self.endian) {
                    Ok(v) => v,
                    Err(e) => {
                        return Err(e);
                    },
                };
                proof {
                    crate::generic_number::context::lemma_pow256_values();
                }
                let mut s = String::new();
                push_ipv4(&mut s, v as u32);
                Ok(s)
            },
        }
    }
}

} // verus!
