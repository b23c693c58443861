//! Bytes written as pairs of hexadecimal digits.

use vstd::prelude::*;
use crate::error::H2Error;

verus! {

/// The value of a hexadecimal digit in either case, if the byte is one.
pub open spec fn hex_value(b: u8) -> Option<u8> {
    if 0x30 <= b <= 0x39 {
        Some((b - 0x30) as u8)
    } else if 0x61 <= b <= 0x66 {
        Some((b - 0x61 + 10) as u8)
    } else if 0x41 <= b <= 0x46 {
        Some((b - 0x41 + 10) as u8)
    } else {
        None
    }
}

/// The lower-case hexadecimal digit for a value below 16.
pub open spec fn hex_digit(v: u8) -> u8 {
    if v < 10 {
        (0x30 + v) as u8
    } else {
        (0x61 + v - 10) as u8
    }
}

/// Whether `data` is made of pairs of hexadecimal digits.
pub open spec fn is_hex(data: Seq<u8>) -> bool {
    data.len() % 2 == 0 && forall|i: int| 0 <= i < data.len() ==> hex_value(#[trigger] data[i]) is Some
}

/// Whether `data` holds no upper-case hexadecimal digit.
pub open spec fn is_lower_hex(data: Seq<u8>) -> bool {
    forall|i: int| 0 <= i < data.len() ==> !(0x41 <= #[trigger] data[i] <= 0x46)
}

/// The byte that two hexadecimal digits spell.
pub open spec fn hex_pair(high: u8, low: u8) -> u8 {
    (hex_value(high).unwrap() * 16 + hex_value(low).unwrap()) as u8
}

/// The bytes that the digits in `data` spell.
pub open spec fn hex_decoded(data: Seq<u8>) -> Seq<u8> {
    Seq::new(data.len() / 2, |i: int| hex_pair(data[2 * i], data[2 * i + 1]))
}

/// `data` with each byte written as two lower-case hexadecimal digits.
pub open spec fn hex_encoded(data: Seq<u8>) -> Seq<u8> {
    Seq::new(
        2 * data.len(),
        |i: int|
            if i % 2 == 0 {
                hex_digit(data[i / 2] / 16)
            } else {
                hex_digit(data[i / 2] % 16)
            },
    )
}

/// Decoding succeeds on pairs of hexadecimal digits and on nothing else.
pub open spec fn from_hex_spec(data: Seq<u8>) -> Result<Seq<u8>, H2Error> {
    if is_hex(data) {
        Ok(hex_decoded(data))
    } else {
        Err(H2Error::TransformFailed)
    }
}

/// Encoding what was decoded from lower-case digits gives the digits back.
pub proof fn lemma_hex_round_trip(data: Seq<u8>)
    requires
        is_hex(data),
        is_lower_hex(data),
    ensures
        hex_encoded(hex_decoded(data)) == data,
{
    let back = hex_encoded(hex_decoded(data));
    assert(back.len() == data.len());
    assert forall|i: int| 0 <= i < data.len() implies back[i] == data[i] by {
        let p = i / 2;
        let high = data[2 * p];
        let low = data[2 * p + 1];
        assert(hex_value(high) is Some);
        assert(hex_value(low) is Some);
        let h = hex_value(high).unwrap();
        let l = hex_value(low).unwrap();
        assert(hex_decoded(data)[p] == (h * 16 + l) as u8);
        assert((h * 16 + l) / 16 == h && (h * 16 + l) % 16 == l) by (nonlinear_arith)
            requires
                0 <= h < 16,
                0 <= l < 16,
        ;
    }
    assert(back =~= data);
}

/// Decoding what was encoded gives the bytes back.
pub proof fn lemma_hex_decodes_encoded(data: Seq<u8>)
    ensures
        is_hex(hex_encoded(data)),
        is_lower_hex(hex_encoded(data)),
        hex_decoded(hex_encoded(data)) == data,
{
    let text = hex_encoded(data);
    assert forall|i: int| 0 <= i < text.len() implies hex_value(#[trigger] text[i]) is Some && !(
    0x41 <= text[i] <= 0x46) by {
        let b = data[i / 2];
        assert(b / 16 < 16 && b % 16 < 16);
    }
    let back = hex_decoded(text);
    assert forall|i: int| 0 <= i < data.len() implies back[i] == data[i] by {
        let b = data[i];
        assert((2 * i) / 2 == i && (2 * i + 1) / 2 == i);
        assert((2 * i) % 2 == 0 && (2 * i + 1) % 2 == 1);
        assert(text[2 * i] == hex_digit(b / 16));
        assert(text[2 * i + 1] == hex_digit(b % 16));
        assert(hex_value(hex_digit(b / 16)) == Some(b / 16));
        assert(hex_value(hex_digit(b % 16)) == Some(b % 16));
        assert((b / 16) * 16 + b % 16 == b);
    }
    assert(back =~= data);
}

/// The value of a hexadecimal digit.
pub fn hex_value_of(b: u8) -> (r: Option<u8>)
    ensures
        r == hex_value(b),
        r matches Some(v) ==> v < 16,
{
    if 0x30 <= b && b <= 0x39 {
        Some(b - 0x30)
    } else if 0x61 <= b && b <= 0x66 {
        Some(b - 0x61 + 10)
    } else if 0x41 <= b && b <= 0x46 {
        Some(b - 0x41 + 10)
    } else {
        None
    }
}

/// Whether `buffer` is made of pairs of hexadecimal digits.
pub fn check_hex(buffer: &Vec<u8>) -> (b: bool)
    ensures
        b == is_hex(buffer@),
{
    if buffer.len() % 2 != 0 {
        return false;
    }
    let mut i: usize = 0;
    while i < buffer.len()
        invariant
            i <= buffer.len(),
            buffer.len() % 2 == 0,
            forall|j: int| 0 <= j < i ==> hex_value(#[trigger] buffer@[j]) is Some,
        decreases buffer.len() - i,
    {
        if hex_value_of(buffer[i]).is_none() {
            return false;
        }
        i += 1;
    }
    true
}

pub fn from_hex(buffer: &Vec<u8>) -> (r: Result<Vec<u8>, H2Error>)
    ensures
        r matches Ok(v) ==> from_hex_spec(buffer@) == Ok::<Seq<u8>, H2Error>(v@),
        r matches Err(e) ==> from_hex_spec(buffer@) == Err::<Seq<u8>, H2Error>(e),
{
    if !check_hex(buffer) {
        return Err(H2Error::TransformFailed);
    }
    let n = buffer.len() / 2;
    let mut out: Vec<u8> = Vec::new();
    let mut i: usize = 0;
    while i < n
        invariant
            i <= n,
            n == buffer.len() / 2,
            is_hex(buffer@),
            out@ =~= hex_decoded(buffer@).subrange(0, i as int),
        decreases n - i,
    {
        let high = hex_value_of(buffer[2 * i]).unwrap();
        let low = hex_value_of(buffer[2 * i + 1]).unwrap();
        out.push(high * 16 + low);
        i += 1;
    }
    assert(hex_decoded(buffer@).subrange(0, n as int) =~= hex_decoded(buffer@));
    Ok(out)
}

/// The lower-case hexadecimal digit for a value below 16.
pub fn hex_digit_of(v: u8) -> (d: u8)
    requires
        v < 16,
    ensures
        d == hex_digit(v),
{
    if v < 10 {
        0x30 + v
    } else {
        0x61 + v - 10
    }
}

pub fn to_hex(buffer: &Vec<u8>) -> (out: Vec<u8>)
    ensures
        out@ == hex_encoded(buffer@),
{
    let mut out: Vec<u8> = Vec::new();
    let mut i: usize = 0;
    while i < buffer.len()
        invariant
            i <= buffer.len(),
            out@ =~= hex_encoded(buffer@).subrange(0, 2 * i),
        decreases buffer.len() - i,
    {
        let b = buffer[i];
        out.push(hex_digit_of(b / 16));
        out.push(hex_digit_of(b % 16));
        proof {
            assert((2 * i) / 2 == i && (2 * i + 1) / 2 == i);
        }
        i += 1;
    }
    assert(hex_encoded(buffer@).subrange(0, 2 * (buffer@.len() as int)) =~= hex_encoded(buffer@));
    out
}

} // verus!
