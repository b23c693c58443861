//! The display of a number: a format chosen by name, with its options.

use vstd::prelude::*;
use crate::error::H2Error;
use crate::generic_number::generic_formatter::binary_formatter::BinaryFormatter;
use crate::generic_number::generic_formatter::decimal_formatter::DecimalFormatter;
use crate::generic_number::generic_formatter::hex_formatter::HexFormatter;
use crate::generic_number::generic_formatter::octal_formatter::OctalFormatter;
use crate::generic_number::generic_formatter::scientific_formatter::ScientificFormatter;
use crate::generic_number::generic_formatter::GenericFormatter;
use crate::generic_number::generic_number::GenericNumber;

verus! {

/// Display options with their configurations. A padded value is padded to
/// the exact width of its type, whatever that is.
#[derive(Debug, Clone, Copy, PartialEq, Eq, Structural)]
pub enum SizedDisplay {
    /// In hexadecimal.
    Hex(HexFormatter),
    /// In decimal; whether a sign is shown depends on the kind of number.
    Decimal,
    /// In octal.
    Octal(OctalFormatter),
    /// In binary.
    Binary(BinaryFormatter),
    /// In scientific notation.
    Scientific(ScientificFormatter),
}

impl SizedDisplay {
    /// The formatter that renders this display.
    pub open spec fn options_spec(self) -> GenericFormatter {
        match self {
            SizedDisplay::Hex(o) => GenericFormatter::Hex(o),
            SizedDisplay::Decimal => GenericFormatter::Decimal(DecimalFormatter {  }),
            SizedDisplay::Octal(o) => GenericFormatter::Octal(o),
            SizedDisplay::Binary(o) => GenericFormatter::Binary(o),
            SizedDisplay::Scientific(o) => GenericFormatter::Scientific(o),
        }
    }

    pub fn to_options(&self) -> (f: GenericFormatter)
        ensures
            f == self.options_spec(),
    {
        match self {
            SizedDisplay::Hex(o) => GenericFormatter::Hex(*o),
            SizedDisplay::Decimal => GenericFormatter::Decimal(DecimalFormatter {  }),
            SizedDisplay::Octal(o) => GenericFormatter::Octal(*o),
            SizedDisplay::Binary(o) => GenericFormatter::Binary(*o),
            SizedDisplay::Scientific(o) => GenericFormatter::Scientific(*o),
        }
    }

    /// The text of `number` in this display.
    pub fn to_string(&self, number: GenericNumber) -> (r: Result<String, H2Error>)
        ensures
            r matches Ok(s) ==> self.options_spec().render_spec(number) == Ok::<
                Seq<char>,
                H2Error,
            >(s@),
            r matches Err(e) ==> self.options_spec().render_spec(number) == Err::<
                Seq<char>,
                H2Error,
            >(e),
    {
        self.to_options().render(number)
    }
}

} // verus!
