//! Numbers in octal.

use vstd::prelude::*;
use crate::error::H2Error;
use crate::generic_number::generic_formatter::{bits_of, radix_text, render_radix, GenericFormatter};
use crate::generic_number::generic_number::GenericNumber;

verus! {

/// Renders an integer in octal: a negative value in two's complement.
/// Floating-point values and characters are refused.
#[derive(Debug, Clone, Copy, PartialEq, Eq, Structural)]
pub struct OctalFormatter {
    /// Put `0o` in front.
    pub prefix: bool,
    /// Put zeros in front up to the full width of the type.
    pub padded: bool,
}

impl OctalFormatter {
    pub fn new(prefix: bool, padded: bool) -> (f: GenericFormatter)
        ensures
            f == GenericFormatter::Octal(OctalFormatter { prefix, padded }),
    {
        GenericFormatter::Octal(OctalFormatter { prefix, padded })
    }

    /// With the prefix, not padded.
    pub fn pretty() -> (f: GenericFormatter)
        ensures
            f == GenericFormatter::Octal(OctalFormatter { prefix: true, padded: false }),
    {
        Self::new(true, false)
    }

    /// The prefix, if one is asked for.
    pub open spec fn mark(self) -> Option<char> {
        if self.prefix {
            Some('o')
        } else {
            None
        }
    }

    /// The digits that `number` is padded to: one for every three bits, the
    /// last may stand for fewer.
    pub open spec fn width(self, number: GenericNumber) -> nat {
        if self.padded {
            (number.bits() + 2) / 3
        } else {
            0
        }
    }

    /// The text for `number`, or why it has none.
    pub open spec fn render_spec(self, number: GenericNumber) -> Result<Seq<char>, H2Error> {
        radix_text(number, 8, false, self.mark(), self.width(number))
    }

    pub fn render(&self, number: GenericNumber) -> (r: Result<String, H2Error>)
        ensures
            r matches Ok(s) ==> self.render_spec(number) == Ok::<Seq<char>, H2Error>(s@),
            r matches Err(e) ==> self.render_spec(number) == Err::<Seq<char>, H2Error>(e),
    {
        let mark = if self.prefix {
            Some('o')
        } else {
            None
        };
        match number {
            GenericNumber::F32(_) | GenericNumber::F64(_) | GenericNumber::Char(_, _) => Err(
                H2Error::BadFormatter,
            ),
            _ => {
                let width: usize = if self.padded {
                    (bits_of(&number) + 2) / 3
                } else {
                    0
                };
                render_radix(number, 8, false, mark, width)
            },
        }
    }
}

} // verus!
