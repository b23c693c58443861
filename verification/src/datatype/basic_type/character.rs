//! A single-byte character.

use vstd::prelude::*;
use vstd::string::StringExecFns;
use crate::datatype::{H2Type, H2Types, OffsetView, ResolveOffset};
use crate::error::H2Error;

verus! {

/// One byte, shown as the character it stands for if that is printable.
#[derive(Debug, PartialEq, Eq, Structural)]
pub struct Character {}

impl Clone for Character {
    fn clone(&self) -> (r: Self)
        ensures
            r == *self,
    {
        Character {  }
    }
}

/// Whether a byte stands for a printable character: above `0x1F` and below `0x7F`.
pub open spec fn printable(byte: u8) -> bool {
    byte > 0x1F && byte < 0x7F
}

impl From<Character> for H2Type {
    fn from(o: Character) -> (t: H2Type) {
        H2Type::new(H2Types::Character(o))
    }
}

impl vstd::std_specs::convert::FromSpecImpl<Character> for H2Type {
    open spec fn obeys_from_spec() -> bool {
        true
    }

    /// The type of this kind, without an alignment.
    open spec fn from_spec(o: Character) -> H2Type {
        H2Type { field: H2Types::Character(o), byte_alignment: None }
    }
}

impl From<(u64, Character)> for H2Type {
    fn from(o: (u64, Character)) -> (t: H2Type) {
        H2Type::new_aligned(Some(o.0), H2Types::Character(o.1))
    }
}

impl vstd::std_specs::convert::FromSpecImpl<(u64, Character)> for H2Type {
    open spec fn obeys_from_spec() -> bool {
        true
    }

    /// The type of this kind, aligned to the given number of bytes.
    open spec fn from_spec(o: (u64, Character)) -> H2Type {
        H2Type { field: H2Types::Character(o.1), byte_alignment: Some(o.0) }
    }
}

impl Character {
    pub fn new() -> (c: Self)
        ensures
            c == (Character {  }),
    {
        Character {  }
    }

    pub fn is_static(&self) -> (b: bool)
        ensures
            b,
    {
        true
    }

    pub fn size(&self, _offset: &ResolveOffset) -> (r: Result<u64, H2Error>)
        ensures
            r == Ok::<u64, H2Error>(1),
    {
        Ok(1)
    }

    /// The text of a character: without data its name; with data the
    /// character at the position if it is printable, a placeholder if not.
    pub open spec fn to_string_spec(offset: OffsetView) -> Result<Seq<char>, H2Error> {
        match offset.data {
            None => Ok("Character"@),
            Some(data) => if offset.position < data.len() {
                let byte = data[offset.position as int];
                if printable(byte) {
                    Ok(seq![byte as char])
                } else {
                    Ok("<invalid>"@)
                }
            } else {
                Err(H2Error::ReadOutOfBounds)
            },
        }
    }

    pub fn to_string(&self, offset: &ResolveOffset) -> (r: Result<String, H2Error>)
        ensures
            r matches Ok(s) ==> Self::to_string_spec(offset@) == Ok::<Seq<char>, H2Error>(s@),
            r matches Err(e) ==> Self::to_string_spec(offset@) == Err::<Seq<char>, H2Error>(e),
    {
        match offset {
            ResolveOffset::Static(_) => Ok(String::from_str("Character")),
            ResolveOffset::Dynamic(context) => {
                let number = match context.read_u8() {
                    Ok(n) => n,
                    Err(e) => {
                        return Err(e);
                    },
                };
                if number > 0x1F && number < 0x7F {
                    let mut s = String::new();
                    s.push(number as char);
                    assert(s@ =~= seq![number as char]);
                    Ok(s)
                } else {
                    Ok(String::from_str("<invalid>"))
                }
            },
        }
    }
}

} // verus!
