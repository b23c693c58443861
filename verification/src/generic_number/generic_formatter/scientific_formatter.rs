//! Numbers in scientific notation.

use vstd::prelude::*;
use crate::error::H2Error;
use crate::generic_number::generic_formatter::decimal_formatter::sign_text;
use crate::generic_number::generic_formatter::GenericFormatter;
use crate::generic_number::generic_number::GenericNumber;
use crate::text::{digit_char, digits, digits_of, push_number};

verus! {

/// Renders an integer as a mantissa of one digit before the point, the
/// letter `e` and a decimal exponent. Nothing is rounded: every digit of the
/// value but its trailing zeros is written. Characters are refused. The text
/// of a floating-point value is not made here: the caller renders it from
/// the bits.
#[derive(Debug, Clone, Copy, PartialEq, Eq, Structural)]
pub struct ScientificFormatter {
    /// Write `E` in place of `e`.
    pub uppercase: bool,
}

/// `s` without the zeros at its end, of which one stays if `s` is all zeros.
pub open spec fn without_trailing_zeros(s: Seq<char>) -> Seq<char>
    decreases s.len(),
{
    if s.len() > 1 && s.last() == '0' {
        without_trailing_zeros(s.drop_last())
    } else {
        s
    }
}

/// The letter between mantissa and exponent.
pub open spec fn exponent_letter(uppercase: bool) -> char {
    if uppercase {
        'E'
    } else {
        'e'
    }
}

/// The mantissa made of significant digits: the first, then a point and the
/// others if there are others.
pub open spec fn mantissa(significant: Seq<char>) -> Seq<char> {
    if significant.len() > 1 {
        seq![significant[0], '.'] + significant.subrange(1, significant.len() as int)
    } else {
        significant
    }
}

/// A number at the distance `magnitude` from zero in scientific notation,
/// without its sign.
pub open spec fn scientific_text(magnitude: nat, uppercase: bool) -> Seq<char> {
    let all = digits(magnitude, 10, false);
    mantissa(without_trailing_zeros(all)) + seq![exponent_letter(uppercase)] + digits(
        (all.len() - 1) as nat,
        10,
        false,
    )
}

/// Taking a factor of ten off a number takes a zero off the end of its
/// digits.
proof fn lemma_tenfold(m: nat)
    requires
        m >= 1,
    ensures
        digits(10 * m, 10, false) == digits(m, 10, false).push('0'),
        without_trailing_zeros(digits(10 * m, 10, false)) == without_trailing_zeros(
            digits(m, 10, false),
        ),
{
    assert((10 * m) / 10 == m);
    assert((10 * m) % 10 == 0);
    assert(digit_char(0, false) == '0');
    let d = digits(m, 10, false);
    lemma_digits_nonempty(m);
    assert(d.push('0').drop_last() =~= d);
}

/// A number has at least one digit.
proof fn lemma_digits_nonempty(m: nat)
    ensures
        digits(m, 10, false).len() >= 1,
    decreases m,
{
    if m >= 10 {
        lemma_digits_nonempty(m / 10);
    }
}

/// The digits of a number that is no multiple of ten, or is below ten, end
/// in no zero that could be taken off.
proof fn lemma_no_trailing_zero(m: nat)
    requires
        m < 10 || m % 10 != 0,
    ensures
        without_trailing_zeros(digits(m, 10, false)) == digits(m, 10, false),
{
    if m >= 10 {
        let d = (m % 10) as int;
        assert(digits(m, 10, false).last() == digit_char(d, false));
        assert(digit_char(d, false) != '0');
    }
}

impl ScientificFormatter {
    pub fn new(uppercase: bool) -> (f: GenericFormatter)
        ensures
            f == GenericFormatter::Scientific(ScientificFormatter { uppercase }),
    {
        GenericFormatter::Scientific(ScientificFormatter { uppercase })
    }

    /// With a lower-case `e`.
    pub fn pretty() -> (f: GenericFormatter)
        ensures
            f == GenericFormatter::Scientific(ScientificFormatter { uppercase: false }),
    {
        Self::new(false)
    }

    /// The text for `number`, or why it has none.
    pub open spec fn render_spec(self, number: GenericNumber) -> Result<Seq<char>, H2Error> {
        if number.is_integer() {
            Ok(sign_text(number.value() < 0) + scientific_text(number.magnitude(), self.uppercase))
        } else if number is Char {
            Err(H2Error::BadFormatter)
        } else {
            Err(H2Error::FloatRendering)
        }
    }

    pub fn render(&self, number: GenericNumber) -> (r: Result<String, H2Error>)
        ensures
            r matches Ok(s) ==> self.render_spec(number) == Ok::<Seq<char>, H2Error>(s@),
            r matches Err(e) ==> self.render_spec(number) == Err::<Seq<char>, H2Error>(e),
    {
        match number {
            GenericNumber::F32(_) | GenericNumber::F64(_) => Err(H2Error::FloatRendering),
            GenericNumber::Char(_, _) => Err(H2Error::BadFormatter),
            _ => {
                let parts = number.sign_and_magnitude().unwrap();
                let magnitude: u128 = parts.1;
                let ghost all = digits(magnitude as nat, 10, false);
                // Take the trailing zeros off, counting them.
                let mut m: u128 = magnitude;
                let mut zeros: usize = 0;
                while m >= 10 && m % 10 == 0
                    invariant
                        all.len() == digits(m as nat, 10, false).len() + zeros,
                        without_trailing_zeros(all) == without_trailing_zeros(
                            digits(m as nat, 10, false),
                        ),
                        zeros <= 40,
                        (m as nat) * pow10(zeros as nat) == magnitude,
                    decreases m,
                {
                    proof {
                        lemma_tenfold((m / 10) as nat);
                        assert(10 * (m / 10) == m);
                        lemma_pow10_bound(zeros as nat, (m / 10) as nat, m as nat);
                    }
                    m = m / 10;
                    zeros += 1;
                }
                proof {
                    lemma_no_trailing_zero(m as nat);
                    lemma_digits_nonempty(m as nat);
                }
                let significant = digits_of(m, 10, false);
                let mut s = String::new();
                if parts.0 {
                    s.push('-');
                }
                assert(s@ =~= sign_text(number.value() < 0));
                let ghost head = s@;
                s.push(significant[0]);
                if significant.len() > 1 {
                    s.push('.');
                    let mut i: usize = 1;
                    while i < significant.len()
                        invariant
                            1 <= i <= significant.len(),
                            s@ =~= head + seq![significant@[0], '.'] + significant@.subrange(
                                1,
                                i as int,
                            ),
                        decreases significant.len() - i,
                    {
                        s.push(significant[i]);
                        i += 1;
                    }
                }
                assert(s@ =~= head + mantissa(significant@));
                proof {
                    lemma_digit_count(m);
                }
                let exponent: usize = zeros + (significant.len() - 1);
                s.push(
                    if self.uppercase {
                        'E'
                    } else {
                        'e'
                    },
                );
                push_number(&mut s, exponent as u128, 10, false, 0);
                assert(s@ =~= head + scientific_text(magnitude as nat, self.uppercase));
                Ok(s)
            },
        }
    }
}

/// Ten to the power `n`.
pub open spec fn pow10(n: nat) -> nat
    decreases n,
{
    if n == 0 {
        1
    } else {
        10 * pow10((n - 1) as nat)
    }
}

/// A number that fits 128 bits is no multiple of more than forty tens.
proof fn lemma_pow10_bound(zeros: nat, next: nat, m: nat)
    requires
        m == 10 * next,
        next >= 1,
        m * pow10(zeros) <= u128::MAX,
    ensures
        zeros + 1 <= 40,
        next * pow10(zeros + 1) == m * pow10(zeros),
{
    assert(pow10(zeros + 1) == 10 * pow10(zeros));
    assert(next * (10 * pow10(zeros)) == (10 * next) * pow10(zeros)) by (nonlinear_arith);
    if zeros >= 40 {
        lemma_pow10_grows(40, zeros);
        lemma_pow10_40();
        assert(m * pow10(zeros) >= pow10(zeros)) by (nonlinear_arith)
            requires
                m >= 1,
        ;
    }
}

proof fn lemma_pow10_grows(a: nat, b: nat)
    requires
        a <= b,
    ensures
        pow10(a) <= pow10(b),
    decreases b,
{
    if a < b {
        lemma_pow10_grows(a, (b - 1) as nat);
    }
}

proof fn lemma_pow10_40()
    ensures
        pow10(40) > u128::MAX,
{
    reveal_with_fuel(pow10, 41);
}

/// A number that fits 128 bits has no more than forty digits.
proof fn lemma_digit_count_bound(m: nat, k: nat)
    requires
        m < pow10(k),
        k >= 1,
    ensures
        digits(m, 10, false).len() <= k,
    decreases k,
{
    if m >= 10 {
        assert(pow10(k) == 10 * pow10((k - 1) as nat));
        if k == 1 {
            assert(pow10(0) == 1);
        } else {
            lemma_digit_count_bound(m / 10, (k - 1) as nat);
        }
    }
}

proof fn lemma_digit_count(m: u128)
    ensures
        digits(m as nat, 10, false).len() <= 40,
{
    lemma_pow10_40();
    lemma_digit_count_bound(m as nat, 40);
}

} // verus!
