//! Numbers in hexadecimal.

use vstd::prelude::*;
use crate::error::H2Error;
use crate::generic_number::generic_formatter::{bits_of, radix_text, render_radix, GenericFormatter};
use crate::generic_number::generic_number::GenericNumber;

verus! {

/// Renders an integer in hexadecimal: a negative value in two's complement.
/// Floating-point values and characters are refused.
#[derive(Debug, Clone, Copy, PartialEq, Eq, Structural)]
pub struct HexFormatter {
    /// Use `A`-`F` in place of `a`-`f`.
    pub uppercase: bool,
    /// Put `0x` in front.
    pub prefix: bool,
    /// Put zeros in front up to the full width of the type.
    pub padded: bool,
}

impl Default for HexFormatter {
    /// Lower case, with the prefix, padded.
    fn default() -> (f: Self)
        ensures
            f == (HexFormatter { uppercase: false, prefix: true, padded: true }),
    {
        HexFormatter { uppercase: false, prefix: true, padded: true }
    }
}

impl HexFormatter {
    pub fn new(uppercase: bool, prefix: bool, padded: bool) -> (f: GenericFormatter)
        ensures
            f == GenericFormatter::Hex(HexFormatter { uppercase, prefix, padded }),
    {
        GenericFormatter::Hex(HexFormatter { uppercase, prefix, padded })
    }

    /// Lower case, with the prefix, padded.
    pub fn pretty() -> (f: GenericFormatter)
        ensures
            f == GenericFormatter::Hex(
                HexFormatter { uppercase: false, prefix: true, padded: true },
            ),
    {
        Self::new(false, true, true)
    }

    /// The prefix, if one is asked for.
    pub open spec fn mark(self) -> Option<char> {
        if self.prefix {
            Some('x')
        } else {
            None
        }
    }

    /// The digits that `number` is padded to: one for every four bits.
    pub open spec fn width(self, number: GenericNumber) -> nat {
        if self.padded {
            number.bits() / 4
        } else {
            0
        }
    }

    /// The text for `number`, or why it has none.
    pub open spec fn render_spec(self, number: GenericNumber) -> Result<Seq<char>, H2Error> {
        radix_text(number, 16, self.uppercase, self.mark(), self.width(number))
    }

    pub fn render(&self, number: GenericNumber) -> (r: Result<String, H2Error>)
        ensures
            r matches Ok(s) ==> self.render_spec(number) == Ok::<Seq<char>, H2Error>(s@),
            r matches Err(e) ==> self.render_spec(number) == Err::<Seq<char>, H2Error>(e),
    {
        let mark = if self.prefix {
            Some('x')
        } else {
            None
        };
        match number {
            GenericNumber::F32(_) | GenericNumber::F64(_) | GenericNumber::Char(_, _) => Err(
                H2Error::BadFormatter,
            ),
            _ => {
                let width: usize = if self.padded {
                    bits_of(&number) / 4
                } else {
                    0
                };
                render_radix(number, 16, self.uppercase, mark, width)
            },
        }
    }
}

} // verus!
