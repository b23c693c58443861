//! The formats a number can be rendered in.

use vstd::prelude::*;
use crate::error::H2Error;
use crate::generic_number::generic_number::GenericNumber;
use crate::text::{digits, padded, push_number};

pub mod binary_formatter;
pub mod decimal_formatter;
pub mod hex_formatter;
pub mod octal_formatter;
pub mod scientific_formatter;

use binary_formatter::BinaryFormatter;
use decimal_formatter::DecimalFormatter;
use hex_formatter::HexFormatter;
use octal_formatter::OctalFormatter;
use scientific_formatter::ScientificFormatter;

verus! {

/// A format together with its options.
#[derive(Debug, Clone, Copy, PartialEq, Eq, Structural)]
pub enum GenericFormatter {
    Hex(HexFormatter),
    Decimal(DecimalFormatter),
    Octal(OctalFormatter),
    Binary(BinaryFormatter),
    Scientific(ScientificFormatter),
}

/// The prefix of a radix: `0` and the radix's letter, or nothing.
pub open spec fn radix_mark(mark: Option<char>) -> Seq<char> {
    match mark {
        Some(c) => seq!['0', c],
        None => Seq::empty(),
    }
}

/// An integer in a radix: the prefix, then the digits of its bits read as
/// an unsigned number, zero padded to `width`. Other kinds have no such text.
pub open spec fn radix_text(
    number: GenericNumber,
    radix: nat,
    upper: bool,
    mark: Option<char>,
    width: nat,
) -> Result<Seq<char>, H2Error> {
    if number.is_integer() {
        Ok(radix_mark(mark) + padded(digits(number.raw(), radix, upper), width))
    } else {
        Err(H2Error::BadFormatter)
    }
}

/// The width of an integer kind in bits.
pub fn bits_of(number: &GenericNumber) -> (b: usize)
    requires
        number.is_integer(),
    ensures
        b == number.bits(),
{
    match number {
        GenericNumber::U8(_) | GenericNumber::I8(_) => 8,
        GenericNumber::U16(_) | GenericNumber::I16(_) => 16,
        GenericNumber::U32(_) | GenericNumber::I32(_) => 32,
        GenericNumber::U64(_) | GenericNumber::I64(_) => 64,
        _ => 128,
    }
}

/// Renders an integer in a radix.
pub fn render_radix(
    number: GenericNumber,
    radix: u8,
    upper: bool,
    mark: Option<char>,
    width: usize,
) -> (r: Result<String, H2Error>)
    requires
        2 <= radix <= 36,
    ensures
        r matches Ok(s) ==> radix_text(number, radix as nat, upper, mark, width as nat) == Ok::<
            Seq<char>,
            H2Error,
        >(s@),
        r matches Err(e) ==> radix_text(number, radix as nat, upper, mark, width as nat) == Err::<
            Seq<char>,
            H2Error,
        >(e),
{
    let raw: u128 = match number.raw_bits() {
        Some(v) => v,
        None => {
            return Err(H2Error::BadFormatter);
        },
    };
    let mut s = String::new();
    match mark {
        Some(c) => {
            s.push('0');
            s.push(c);
        },
        None => {},
    }
    assert(s@ =~= radix_mark(mark));
    push_number(&mut s, raw, radix, upper, width);
    Ok(s)
}

impl GenericFormatter {
    /// The text for `number` in this format, or why it has none.
    pub open spec fn render_spec(self, number: GenericNumber) -> Result<Seq<char>, H2Error> {
        match self {
            GenericFormatter::Hex(f) => f.render_spec(number),
            GenericFormatter::Decimal(f) => f.render_spec(number),
            GenericFormatter::Octal(f) => f.render_spec(number),
            GenericFormatter::Binary(f) => f.render_spec(number),
            GenericFormatter::Scientific(f) => f.render_spec(number),
        }
    }

    pub fn render(&self, number: GenericNumber) -> (r: Result<String, H2Error>)
        ensures
            r matches Ok(s) ==> self.render_spec(number) == Ok::<Seq<char>, H2Error>(s@),
            r matches Err(e) ==> self.render_spec(number) == Err::<Seq<char>, H2Error>(e),
    {
        match self {
            GenericFormatter::Hex(f) => f.render(number),
            GenericFormatter::Decimal(f) => f.render(number),
            GenericFormatter::Octal(f) => f.render(number),
            GenericFormatter::Binary(f) => f.render(number),
            GenericFormatter::Scientific(f) => f.render(number),
        }
    }
}

} // verus!
