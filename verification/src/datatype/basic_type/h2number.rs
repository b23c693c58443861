//! A number: how to read it and how to show it.

use vstd::prelude::*;
use vstd::string::StringExecFns;
use crate::datatype::{H2Type, H2Types, OffsetView, ResolveOffset};
use crate::error::H2Error;
use crate::generic_number::generic_reader::GenericReader;
use crate::sized_number::sized_display::SizedDisplay;

verus! {

#[derive(Debug, Clone, Copy, PartialEq, Eq, Structural)]
pub struct H2Number {
    pub definition: GenericReader,
    pub display: SizedDisplay,
}

impl From<H2Number> for H2Type {
    fn from(o: H2Number) -> (t: H2Type) {
        H2Type::new(H2Types::H2Number(o))
    }
}

impl vstd::std_specs::convert::FromSpecImpl<H2Number> for H2Type {
    open spec fn obeys_from_spec() -> bool {
        true
    }

    /// The type of this kind, without an alignment.
    open spec fn from_spec(o: H2Number) -> H2Type {
        H2Type { field: H2Types::H2Number(o), byte_alignment: None }
    }
}

impl From<(u64, H2Number)> for H2Type {
    fn from(o: (u64, H2Number)) -> (t: H2Type) {
        H2Type::new_aligned(Some(o.0), H2Types::H2Number(o.1))
    }
}

impl vstd::std_specs::convert::FromSpecImpl<(u64, H2Number)> for H2Type {
    open spec fn obeys_from_spec() -> bool {
        true
    }

    /// The type of this kind, aligned to the given number of bytes.
    open spec fn from_spec(o: (u64, H2Number)) -> H2Type {
        H2Type { field: H2Types::H2Number(o.1), byte_alignment: Some(o.0) }
    }
}

impl H2Number {
    pub fn new(definition: GenericReader, display: SizedDisplay) -> (n: Self)
        ensures
            n == (H2Number { definition, display }),
    {
        Self { definition, display }
    }

    /// The text of a number: without data its name; with data the number
    /// read at the position, rendered in the chosen display.
    pub open spec fn to_string_spec(self, offset: OffsetView) -> Result<Seq<char>, H2Error> {
        match offset.data {
            None => Ok("Number"@),
            Some(data) => match self.definition.read_at(data, offset.position) {
                Ok(number) => self.display.options_spec().render_spec(number),
                Err(e) => Err(e),
            },
        }
    }

    pub fn to_string(&self, offset: &ResolveOffset) -> (r: Result<String, H2Error>)
        ensures
            r matches Ok(s) ==> self.to_string_spec(offset@) == Ok::<Seq<char>, H2Error>(s@),
            r matches Err(e) ==> self.to_string_spec(offset@) == Err::<Seq<char>, H2Error>(e),
    {
        match offset {
            ResolveOffset::Static(_) => Ok(String::from_str("Number")),
            ResolveOffset::Dynamic(context) => {
                match self.definition.read(*context) {
                    Ok(number) => self.display.to_string(number),
                    Err(e) => Err(e),
                }
            },
        }
    }

    pub fn is_static(&self) -> (b: bool)
        ensures
            b,
    {
        true
    }

    /// The number of bytes that the number takes.
    pub fn size(&self) -> (n: u64)
        ensures
            n == self.definition.size_spec(),
    {
        self.definition.size()
    }

    /// A number refers to nothing else.
    pub fn related(&self, _offset: &ResolveOffset) -> (r: Result<Vec<(u64, H2Type)>, H2Error>)
        ensures
            r is Ok,
            r->Ok_0@.len() == 0,
    {
        Ok(Vec::new())
    }
}

} // verus!
