//! Which number to read: its kind, its width and its byte order.

use vstd::prelude::*;
use crate::error::H2Error;
use crate::generic_number::context::{
    lemma_pow256_values,
    pow256,
    unsigned_value,
    Context,
    Endian,
};
use crate::generic_number::generic_number::{lemma_pow2_values, pow2, GenericNumber};

verus! {

/// A description of a number in bytes. It holds no data and can be used on
/// any context, any number of times.
#[derive(Debug, Clone, Copy, PartialEq, Eq, Structural)]
pub enum GenericReader {
    I8,
    I16(Endian),
    I32(Endian),
    I64(Endian),
    I128(Endian),
    U8,
    U16(Endian),
    U32(Endian),
    U64(Endian),
    U128(Endian),
    F32(Endian),
    F64(Endian),
}

/// The value of `raw`, read as `bits` bits in two's complement.
pub open spec fn signed_value(raw: nat, bits: nat) -> int {
    if bits > 0 && raw >= pow2((bits - 1) as nat) {
        raw - pow2(bits)
    } else {
        raw as int
    }
}

/// What a read gives depends on the bytes and on the position alone. A
/// context is handed over as a copy, so a read has nothing of the caller's
/// to change.
pub proof fn lemma_read_depends_on_cursor_alone(reader: GenericReader, a: Context, b: Context)
    requires
        a.bytes() == b.bytes(),
        a.offset() == b.offset(),
    ensures
        reader.read_spec(a) == reader.read_spec(b),
{
}

impl GenericReader {
    /// The number of bytes that the number takes.
    pub open spec fn size_spec(self) -> nat {
        match self {
            GenericReader::I8 | GenericReader::U8 => 1,
            GenericReader::I16(_) | GenericReader::U16(_) => 2,
            GenericReader::I32(_) | GenericReader::U32(_) | GenericReader::F32(_) => 4,
            GenericReader::I64(_) | GenericReader::U64(_) | GenericReader::F64(_) => 8,
            GenericReader::I128(_) | GenericReader::U128(_) => 16,
        }
    }

    /// The byte order. A single byte has none; it counts as big-endian.
    pub open spec fn endian_spec(self) -> Endian {
        match self {
            GenericReader::I8 | GenericReader::U8 => Endian::Big,
            GenericReader::I16(e)
            | GenericReader::I32(e)
            | GenericReader::I64(e)
            | GenericReader::I128(e)
            | GenericReader::U16(e)
            | GenericReader::U32(e)
            | GenericReader::U64(e)
            | GenericReader::U128(e)
            | GenericReader::F32(e)
            | GenericReader::F64(e) => e,
        }
    }

    /// The number that this reader makes of bytes that spell `raw`.
    pub open spec fn number_of(self, raw: nat) -> GenericNumber {
        match self {
            GenericReader::U8 => GenericNumber::U8(raw as u8),
            GenericReader::U16(_) => GenericNumber::U16(raw as u16),
            GenericReader::U32(_) => GenericNumber::U32(raw as u32),
            GenericReader::U64(_) => GenericNumber::U64(raw as u64),
            GenericReader::U128(_) => GenericNumber::U128(raw as u128),
            GenericReader::I8 => GenericNumber::I8(signed_value(raw, 8) as i8),
            GenericReader::I16(_) => GenericNumber::I16(signed_value(raw, 16) as i16),
            GenericReader::I32(_) => GenericNumber::I32(signed_value(raw, 32) as i32),
            GenericReader::I64(_) => GenericNumber::I64(signed_value(raw, 64) as i64),
            GenericReader::I128(_) => GenericNumber::I128(signed_value(raw, 128) as i128),
            GenericReader::F32(_) => GenericNumber::F32(raw as u32),
            GenericReader::F64(_) => GenericNumber::F64(raw as u64),
        }
    }

    /// What reading at `position` in `data` gives: the number that the
    /// bytes there spell, if there are enough of them.
    pub open spec fn read_at(self, data: Seq<u8>, position: nat) -> Result<GenericNumber, H2Error> {
        if position + self.size_spec() <= data.len() {
            Ok(
                self.number_of(
                    unsigned_value(
                        self.endian_spec(),
                        data.subrange(position as int, (position + self.size_spec()) as int),
                    ),
                ),
            )
        } else {
            Err(H2Error::ReadOutOfBounds)
        }
    }

    /// What reading at `context` gives.
    pub open spec fn read_spec(self, context: Context) -> Result<GenericNumber, H2Error> {
        self.read_at(context.bytes(), context.offset())
    }

    pub fn size(&self) -> (n: u64)
        ensures
            n == self.size_spec(),
    {
        match self {
            GenericReader::I8 | GenericReader::U8 => 1,
            GenericReader::I16(_) | GenericReader::U16(_) => 2,
            GenericReader::I32(_) | GenericReader::U32(_) | GenericReader::F32(_) => 4,
            GenericReader::I64(_) | GenericReader::U64(_) | GenericReader::F64(_) => 8,
            GenericReader::I128(_) | GenericReader::U128(_) => 16,
        }
    }

    pub fn endian(&self) -> (e: Endian)
        ensures
            e == self.endian_spec(),
    {
        match self {
            GenericReader::I8 | GenericReader::U8 => Endian::Big,
            GenericReader::I16(e)
            | GenericReader::I32(e)
            | GenericReader::I64(e)
            | GenericReader::I128(e)
            | GenericReader::U16(e)
            | GenericReader::U32(e)
            | GenericReader::U64(e)
            | GenericReader::U128(e)
            | GenericReader::F32(e)
            | GenericReader::F64(e) => *e,
        }
    }

    /// Reads the number at the cursor. The context is taken as a copy, so
    /// the caller's cursor stays where it was.
    pub fn read(&self, context: Context) -> (r: Result<GenericNumber, H2Error>)
        ensures
            r == self.read_spec(context),
    {
        let size = self.size() as usize;
        let raw: u128 = match context.read_unsigned(size, self.endian()) {
            Ok(v) => v,
            Err(e) => {
                return Err(e);
            },
        };
        proof {
            lemma_pow256_values();
            lemma_pow2_values();
        }
        let ghost spelt = unsigned_value(self.endian_spec(), context.window(self.size_spec()));
        assert(raw == spelt);
        assert(spelt < pow256(self.size_spec()));
        let n = match self {
            GenericReader::U8 => GenericNumber::U8(raw as u8),
            GenericReader::U16(_) => GenericNumber::U16(raw as u16),
            GenericReader::U32(_) => GenericNumber::U32(raw as u32),
            GenericReader::U64(_) => GenericNumber::U64(raw as u64),
            GenericReader::U128(_) => GenericNumber::U128(raw),
            GenericReader::I8 => GenericNumber::I8(
                if raw >= 0x80 {
                    (raw as i128 - 0x100) as i8
                } else {
                    raw as i8
                },
            ),
            GenericReader::I16(_) => GenericNumber::I16(
                if raw >= 0x8000 {
                    (raw as i128 - 0x1_0000) as i16
                } else {
                    raw as i16
                },
            ),
            GenericReader::I32(_) => GenericNumber::I32(
                if raw >= 0x8000_0000 {
                    (raw as i128 - 0x1_0000_0000) as i32
                } else {
                    raw as i32
                },
            ),
            GenericReader::I64(_) => GenericNumber::I64(
                if raw >= 0x8000_0000_0000_0000 {
                    (raw as i128 - 0x1_0000_0000_0000_0000) as i64
                } else {
                    raw as i64
                },
            ),
            GenericReader::I128(_) => GenericNumber::I128(
                if raw >= 0x8000_0000_0000_0000_0000_0000_0000_0000 {
                    ((raw - 0x8000_0000_0000_0000_0000_0000_0000_0000) as i128) + i128::MIN
                } else {
                    raw as i128
                },
            ),
            GenericReader::F32(_) => GenericNumber::F32(raw as u32),
            GenericReader::F64(_) => GenericNumber::F64(raw as u64),
        };
        Ok(n)
    }
}

} // verus!
