//! A character of sixteen bits.

use vstd::prelude::*;
use vstd::string::StringExecFns;
use crate::datatype::{H2Type, H2Types, OffsetView, ResolveOffset};
use crate::error::H2Error;
use crate::generic_number::context::{unsigned_value, Endian};

verus! {

/// `char::from_u32` gives the character with the given code, and `None`
/// for a number that is the code of no character: a surrogate, or a number
/// above `0x10FFFF`.
pub assume_specification[ char::from_u32 ](i: u32) -> (r: Option<char>)
    ensures
        is_scalar_value(i as nat) ==> r == Some(i as char),
        !is_scalar_value(i as nat) ==> r is None,
;

/// Whether a number is the code of a character.
pub open spec fn is_scalar_value(code: nat) -> bool {
    code <= 0xD7FF || 0xE000 <= code <= 0x10FFFF
}

/// Two bytes that are the code of a character, stored in the given byte
/// order.
#[derive(Debug, Clone, Copy, PartialEq, Eq, Structural)]
pub struct Unicode {
    pub endian: Endian,
}

impl From<Unicode> for H2Type {
    fn from(o: Unicode) -> (t: H2Type) {
        H2Type::new(H2Types::Unicode(o))
    }
}

impl vstd::std_specs::convert::FromSpecImpl<Unicode> for H2Type {
    open spec fn obeys_from_spec() -> bool {
        true
    }

    /// The type of this kind, without an alignment.
    open spec fn from_spec(o: Unicode) -> H2Type {
        H2Type { field: H2Types::Unicode(o), byte_alignment: None }
    }
}

impl From<(u64, Unicode)> for H2Type {
    fn from(o: (u64, Unicode)) -> (t: H2Type) {
        H2Type::new_aligned(Some(o.0), H2Types::Unicode(o.1))
    }
}

impl vstd::std_specs::convert::FromSpecImpl<(u64, Unicode)> for H2Type {
    open spec fn obeys_from_spec() -> bool {
        true
    }

    /// The type of this kind, aligned to the given number of bytes.
    open spec fn from_spec(o: (u64, Unicode)) -> H2Type {
        H2Type { field: H2Types::Unicode(o.1), byte_alignment: Some(o.0) }
    }
}

impl Unicode {
    pub fn new(endian: Endian) -> (a: Self)
        ensures
            a == (Unicode { endian }),
    {
        Unicode { endian }
    }

    pub fn is_static(&self) -> (b: bool)
        ensures
            b,
    {
        true
    }

    pub fn size(&self, _offset: &ResolveOffset) -> (r: Result<u64, H2Error>)
        ensures
            r == Ok::<u64, H2Error>(2),
    {
        Ok(2)
    }

    /// The text of the character with the code `code`, or a placeholder for
    /// half of a surrogate pair, which is no character by itself.
    pub open spec fn code_text(code: nat) -> Seq<char> {
        if is_scalar_value(code) {
            seq![code as char]
        } else {
            "<invalid>"@
        }
    }

    /// The text of a character: without data its name; with data the
    /// character whose code the two bytes at the position spell.
    pub open spec fn to_string_spec(self, offset: OffsetView) -> Result<Seq<char>, H2Error> {
        match offset.data {
            None => Ok("Unicode"@),
            Some(data) => if offset.position + 2 <= data.len() {
                Ok(
                    Self::code_text(
                        unsigned_value(
                            self.endian,
                            data.subrange(offset.position as int, (offset.position + 2) as int),
                        ),
                    ),
                )
            } else {
                Err(H2Error::ReadOutOfBounds)
            },
        }
    }

    pub fn to_string(&self, offset: &ResolveOffset) -> (r: Result<String, H2Error>)
        ensures
            r matches Ok(s) ==> self.to_string_spec(offset@) == Ok::<Seq<char>, H2Error>(s@),
            r matches Err(e) ==> self.to_string_spec(offset@) == Err::<Seq<char>, H2Error>(e),
    {
        match offset {
            ResolveOffset::Static(_) => Ok(String::from_str("Unicode")),
            ResolveOffset::Dynamic(context) => {
                let v = match context.read_unsigned(2, self.endian) {
                    Ok(v) => v,
                    Err(e) => {
                        return Err(e);
                    },
                };
                proof {
                    crate::generic_number::context::lemma_pow256_values();
                }
                match char::from_u32(v as u32) {
                    Some(c) => {
                        let mut s = String::new();
                        s.push(c);
                        assert(s@ =~= seq![c]);
                        Ok(s)
                    },
                    None => Ok(String::from_str("<invalid>")),
                }
            },
        }
    }
}

} // verus!
