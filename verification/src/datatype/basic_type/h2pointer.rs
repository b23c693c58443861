//! A pointer: a number that is the address of a value of another type.

use vstd::prelude::*;
use vstd::string::StringExecFns;
use crate::datatype::{H2Type, H2Types, OffsetView, ResolveOffset};
use crate::error::H2Error;
use crate::generic_number::generic_reader::GenericReader;
use crate::sized_number::sized_display::SizedDisplay;

verus! {

/// A number read with `definition` and shown with `display`, whose value is
/// the address of a `target_type`.
#[derive(Debug)]
pub struct H2Pointer {
    pub definition: GenericReader,
    pub display: SizedDisplay,
    pub target_type: Box<H2Type>,
}

impl Clone for H2Pointer {
    fn clone(&self) -> (r: Self)
        ensures
            r == *self,
        decreases self,
    {
        H2Pointer {
            definition: self.definition,
            display: self.display,
            target_type: Box::new((*self.target_type).clone()),
        }
    }
}

impl From<H2Pointer> for H2Type {
    fn from(o: H2Pointer) -> (t: H2Type) {
        H2Type::new(H2Types::H2Pointer(o))
    }
}

impl vstd::std_specs::convert::FromSpecImpl<H2Pointer> for H2Type {
    open spec fn obeys_from_spec() -> bool {
        true
    }

    /// The type of this kind, without an alignment.
    open spec fn from_spec(o: H2Pointer) -> H2Type {
        H2Type { field: H2Types::H2Pointer(o), byte_alignment: None }
    }
}

impl From<(u64, H2Pointer)> for H2Type {
    fn from(o: (u64, H2Pointer)) -> (t: H2Type) {
        H2Type::new_aligned(Some(o.0), H2Types::H2Pointer(o.1))
    }
}

impl vstd::std_specs::convert::FromSpecImpl<(u64, H2Pointer)> for H2Type {
    open spec fn obeys_from_spec() -> bool {
        true
    }

    /// The type of this kind, aligned to the given number of bytes.
    open spec fn from_spec(o: (u64, H2Pointer)) -> H2Type {
        H2Type { field: H2Types::H2Pointer(o.1), byte_alignment: Some(o.0) }
    }
}

impl H2Pointer {
    pub fn new(definition: GenericReader, display: SizedDisplay, target_type: H2Type) -> (p: Self)
        ensures
            p == (H2Pointer { definition, display, target_type: Box::new(target_type) }),
    {
        H2Pointer { definition, display, target_type: Box::new(target_type) }
    }

    pub fn is_static(&self) -> (b: bool)
        ensures
            b,
    {
        true
    }

    /// The number of bytes that the pointer itself takes.
    pub fn size(&self) -> (n: u64)
        ensures
            n == self.definition.size_spec(),
    {
        self.definition.size()
    }

    /// The text of a pointer: without data its name; with data the address
    /// read at the position, rendered in the chosen display.
    pub open spec fn to_string_spec(self, offset: OffsetView) -> Result<Seq<char>, H2Error> {
        match offset.data {
            None => Ok("Pointer"@),
            Some(data) => match self.definition.read_at(data, offset.position) {
                Ok(number) => self.display.options_spec().render_spec(number),
                Err(e) => Err(e),
            },
        }
    }

    pub fn to_string(&self, offset: &ResolveOffset) -> (r: Result<String, H2Error>)
        ensures
            r matches Ok(s) ==> self.to_string_spec(offset@) == Ok::<Seq<char>, H2Error>(s@),
            r matches Err(e) ==> self.to_string_spec(offset@) == Err::<Seq<char>, H2Error>(e),
    {
        match offset {
            ResolveOffset::Static(_) => Ok(String::from_str("Pointer")),
            ResolveOffset::Dynamic(context) => {
                match self.definition.read(*context) {
                    Ok(number) => self.display.to_string(number),
                    Err(e) => Err(e),
                }
            },
        }
    }

    /// What the pointer points to: the address read at the position, which
    /// has to be an unsigned number of at most 64 bits, with the type of the
    /// target. It cannot be told without data.
    pub open spec fn related_spec(self, offset: OffsetView) -> Result<Seq<(u64, H2Type)>, H2Error> {
        match offset.data {
            None => Err(H2Error::NeedsDynamicContext),
            Some(data) => match self.definition.read_at(data, offset.position) {
                Err(e) => Err(e),
                Ok(number) => if number.is_small_unsigned() {
                    Ok(seq![(number.value() as u64, *self.target_type)])
                } else {
                    Err(H2Error::NotConvertible)
                },
            },
        }
    }

    pub fn related(&self, offset: &ResolveOffset) -> (r: Result<Vec<(u64, H2Type)>, H2Error>)
        ensures
            r matches Ok(v) ==> self.related_spec(offset@) == Ok::<Seq<(u64, H2Type)>, H2Error>(v@),
            r matches Err(e) ==> self.related_spec(offset@) == Err::<Seq<(u64, H2Type)>, H2Error>(
                e,
            ),
    {
        match offset {
            ResolveOffset::Static(_) => Err(H2Error::NeedsDynamicContext),
            ResolveOffset::Dynamic(context) => {
                let number = match self.definition.read(*context) {
                    Ok(n) => n,
                    Err(e) => {
                        return Err(e);
                    },
                };
                let address = match number.as_u64() {
                    Ok(a) => a,
                    Err(e) => {
                        return Err(e);
                    },
                };
                let mut v: Vec<(u64, H2Type)> = Vec::new();
                v.push((address, (*self.target_type).clone()));
                assert(v@ =~= seq![(address, *self.target_type)]);
                Ok(v)
            },
        }
    }
}

} // verus!
