//! Numbers in decimal.

use vstd::prelude::*;
use crate::error::H2Error;
use crate::generic_number::generic_formatter::GenericFormatter;
use crate::generic_number::generic_number::GenericNumber;
use crate::text::{digits, push_number};

verus! {

/// Renders an integer in decimal, with a minus sign where it is negative.
/// Characters are refused. The text of a floating-point value is not made
/// here: the caller renders it from the bits.
#[derive(Debug, Clone, Copy, PartialEq, Eq, Structural)]
pub struct DecimalFormatter {}

/// A minus sign for a negative value, nothing otherwise.
pub open spec fn sign_text(negative: bool) -> Seq<char> {
    if negative {
        seq!['-']
    } else {
        Seq::empty()
    }
}

impl DecimalFormatter {
    pub fn new() -> (f: GenericFormatter)
        ensures
            f == GenericFormatter::Decimal(DecimalFormatter {  }),
    {
        GenericFormatter::Decimal(DecimalFormatter {  })
    }

    /// The text for `number`, or why it has none.
    pub open spec fn render_spec(self, number: GenericNumber) -> Result<Seq<char>, H2Error> {
        if number.is_integer() {
            Ok(sign_text(number.value() < 0) + digits(number.magnitude(), 10, false))
        } else if number is Char {
            Err(H2Error::BadFormatter)
        } else {
            Err(H2Error::FloatRendering)
        }
    }

    pub fn render(&self, number: GenericNumber) -> (r: Result<String, H2Error>)
        ensures
            r matches Ok(s) ==> self.render_spec(number) == Ok::<Seq<char>, H2Error>(s@),
            r matches Err(e) ==> self.render_spec(number) == Err::<Seq<char>, H2Error>(e),
    {
        match number {
            GenericNumber::F32(_) | GenericNumber::F64(_) => Err(H2Error::FloatRendering),
            GenericNumber::Char(_, _) => Err(H2Error::BadFormatter),
            _ => {
                let parts = number.sign_and_magnitude().unwrap();
                let mut s = String::new();
                if parts.0 {
                    s.push('-');
                }
                assert(s@ =~= sign_text(number.value() < 0));
                push_number(&mut s, parts.1, 10, false, 0);
                Ok(s)
            },
        }
    }
}

} // verus!
