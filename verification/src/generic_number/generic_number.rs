//! A number of any of the widths that can be read.

use vstd::prelude::*;
use crate::error::H2Error;

verus! {

/// A value read from bytes. The floating-point kinds hold the bits of the
/// value as they were stored; a character comes with the number of bytes it
/// took.
#[derive(Debug, Clone, Copy, PartialEq, Eq, Structural)]
pub enum GenericNumber {
    U8(u8),
    U16(u16),
    U32(u32),
    U64(u64),
    U128(u128),
    I8(i8),
    I16(i16),
    I32(i32),
    I64(i64),
    I128(i128),
    F32(u32),
    F64(u64),
    Char(char, usize),
}

/// Two to the power `n`.
pub open spec fn pow2(n: nat) -> nat
    decreases n,
{
    if n == 0 {
        1
    } else {
        2 * pow2((n - 1) as nat)
    }
}

impl GenericNumber {
    /// Whether this is one of the ten integer kinds.
    pub open spec fn is_integer(self) -> bool {
        !(self is F32 || self is F64 || self is Char)
    }

    /// The width of an integer kind in bits.
    pub open spec fn bits(self) -> nat {
        match self {
            GenericNumber::U8(_) | GenericNumber::I8(_) => 8,
            GenericNumber::U16(_) | GenericNumber::I16(_) => 16,
            GenericNumber::U32(_) | GenericNumber::I32(_) | GenericNumber::F32(_) => 32,
            GenericNumber::U64(_) | GenericNumber::I64(_) | GenericNumber::F64(_) => 64,
            GenericNumber::U128(_) | GenericNumber::I128(_) => 128,
            GenericNumber::Char(_, size) => 8 * size as nat,
        }
    }

    /// The value of an integer kind.
    pub open spec fn value(self) -> int {
        match self {
            GenericNumber::U8(v) => v as int,
            GenericNumber::U16(v) => v as int,
            GenericNumber::U32(v) => v as int,
            GenericNumber::U64(v) => v as int,
            GenericNumber::U128(v) => v as int,
            GenericNumber::I8(v) => v as int,
            GenericNumber::I16(v) => v as int,
            GenericNumber::I32(v) => v as int,
            GenericNumber::I64(v) => v as int,
            GenericNumber::I128(v) => v as int,
            _ => 0,
        }
    }

    /// The bits of an integer kind read as an unsigned number: a negative
    /// value is taken in two's complement.
    pub open spec fn raw(self) -> nat {
        if self.value() < 0 {
            (self.value() + pow2(self.bits())) as nat
        } else {
            self.value() as nat
        }
    }

    /// The distance of an integer kind's value from zero.
    pub open spec fn magnitude(self) -> nat {
        if self.value() < 0 {
            (-self.value()) as nat
        } else {
            self.value() as nat
        }
    }
}

/// The powers of two that the supported widths reach.
pub proof fn lemma_pow2_values()
    ensures
        pow2(7) == 0x80,
        pow2(8) == 0x100,
        pow2(15) == 0x8000,
        pow2(16) == 0x1_0000,
        pow2(31) == 0x8000_0000,
        pow2(32) == 0x1_0000_0000,
        pow2(63) == 0x8000_0000_0000_0000,
        pow2(64) == 0x1_0000_0000_0000_0000,
        pow2(127) == 0x8000_0000_0000_0000_0000_0000_0000_0000,
        pow2(128) == 0x1_0000_0000_0000_0000_0000_0000_0000_0000,
{
    reveal_with_fuel(pow2, 33);
    assert(pow2(32) == 0x1_0000_0000);
    assert(pow2(64) == 0x1_0000_0000 * pow2(32)) by {
        lemma_pow2_adds(32, 32);
    }
    assert(pow2(128) == pow2(64) * pow2(64)) by {
        lemma_pow2_adds(64, 64);
    }
    assert(pow2(63) * 2 == pow2(64));
    assert(pow2(127) * 2 == pow2(128));
}

/// Exponents add where powers of two are multiplied.
pub proof fn lemma_pow2_adds(a: nat, b: nat)
    ensures
        pow2(a + b) == pow2(a) * pow2(b),
    decreases a,
{
    if a > 0 {
        let a1 = (a - 1) as nat;
        lemma_pow2_adds(a1, b);
        assert((a + b - 1) as nat == a1 + b);
        assert(pow2(a + b) == 2 * pow2(a1 + b));
        assert(pow2(a) == 2 * pow2(a1));
        let x = pow2(a1);
        let y = pow2(b);
        assert(2 * (x * y) == (2 * x) * y) by (nonlinear_arith);
    } else {
        assert(a + b == b);
        assert(pow2(a) == 1);
        let y = pow2(b);
        assert(1 * y == y) by (nonlinear_arith);
    }
}

impl GenericNumber {
    /// Whether this is an unsigned integer of at most 64 bits.
    pub open spec fn is_small_unsigned(self) -> bool {
        self is U8 || self is U16 || self is U32 || self is U64
    }

    /// Whether this is a signed integer of at most 64 bits.
    pub open spec fn is_small_signed(self) -> bool {
        self is I8 || self is I16 || self is I32 || self is I64
    }

    /// The value of an unsigned integer of at most 64 bits.
    pub fn as_u64(&self) -> (r: Result<u64, H2Error>)
        ensures
            self.is_small_unsigned() ==> r == Ok::<u64, H2Error>(self.value() as u64),
            !self.is_small_unsigned() ==> r == Err::<u64, H2Error>(H2Error::NotConvertible),
    {
        match *self {
            GenericNumber::U8(v) => Ok(v as u64),
            GenericNumber::U16(v) => Ok(v as u64),
            GenericNumber::U32(v) => Ok(v as u64),
            GenericNumber::U64(v) => Ok(v),
            _ => Err(H2Error::NotConvertible),
        }
    }

    /// The value of a signed integer of at most 64 bits.
    pub fn as_i64(&self) -> (r: Result<i64, H2Error>)
        ensures
            self.is_small_signed() ==> r == Ok::<i64, H2Error>(self.value() as i64),
            !self.is_small_signed() ==> r == Err::<i64, H2Error>(H2Error::NotConvertible),
    {
        match *self {
            GenericNumber::I8(v) => Ok(v as i64),
            GenericNumber::I16(v) => Ok(v as i64),
            GenericNumber::I32(v) => Ok(v as i64),
            GenericNumber::I64(v) => Ok(v),
            _ => Err(H2Error::NotConvertible),
        }
    }

    /// The bits of the number as an unsigned value, for the integer kinds.
    pub fn raw_bits(&self) -> (r: Option<u128>)
        ensures
            self.is_integer() ==> (r matches Some(x) && x == self.raw() && self.raw() < pow2(
                self.bits(),
            )),
            !self.is_integer() ==> r is None,
    {
        proof {
            lemma_pow2_values();
        }
        match *self {
            GenericNumber::U8(v) => Some(v as u128),
            GenericNumber::U16(v) => Some(v as u128),
            GenericNumber::U32(v) => Some(v as u128),
            GenericNumber::U64(v) => Some(v as u128),
            GenericNumber::U128(v) => Some(v),
            GenericNumber::I8(v) => Some(
                if v < 0 {
                    (v as i128 + 0x100) as u128
                } else {
                    v as u128
                },
            ),
            GenericNumber::I16(v) => Some(
                if v < 0 {
                    (v as i128 + 0x1_0000) as u128
                } else {
                    v as u128
                },
            ),
            GenericNumber::I32(v) => Some(
                if v < 0 {
                    (v as i128 + 0x1_0000_0000) as u128
                } else {
                    v as u128
                },
            ),
            GenericNumber::I64(v) => Some(
                if v < 0 {
                    (v as i128 + 0x1_0000_0000_0000_0000) as u128
                } else {
                    v as u128
                },
            ),
            GenericNumber::I128(v) => Some(
                if v < 0 {
                    ((v - i128::MIN) as u128) + 0x8000_0000_0000_0000_0000_0000_0000_0000
                } else {
                    v as u128
                },
            ),
            _ => None,
        }
    }

    /// Whether the value is below zero, and its distance from zero, for the
    /// integer kinds.
    pub fn sign_and_magnitude(&self) -> (r: Option<(bool, u128)>)
        ensures
            self.is_integer() ==> (r matches Some(p) && p.0 == (self.value() < 0) && p.1
                == self.magnitude()),
            !self.is_integer() ==> r is None,
    {
        match *self {
            GenericNumber::U8(v) => Some((false, v as u128)),
            GenericNumber::U16(v) => Some((false, v as u128)),
            GenericNumber::U32(v) => Some((false, v as u128)),
            GenericNumber::U64(v) => Some((false, v as u128)),
            GenericNumber::U128(v) => Some((false, v)),
            GenericNumber::I8(v) => Some(signed_parts(v as i128)),
            GenericNumber::I16(v) => Some(signed_parts(v as i128)),
            GenericNumber::I32(v) => Some(signed_parts(v as i128)),
            GenericNumber::I64(v) => Some(signed_parts(v as i128)),
            GenericNumber::I128(v) => Some(signed_parts(v)),
            _ => None,
        }
    }
}

/// Whether `v` is below zero, and its distance from zero.
pub fn signed_parts(v: i128) -> (r: (bool, u128))
    ensures
        r.0 == (v < 0),
        r.1 == (if v < 0 {
            -(v as int)
        } else {
            v as int
        }),
{
    if v < 0 {
        (true, ((-(v + 1)) as u128) + 1)
    } else {
        (false, v as u128)
    }
}

} // verus!
