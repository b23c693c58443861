//! Base64 with the standard alphabet and padding.

use vstd::prelude::*;
use crate::error::H2Error;

verus! {

/// The padding character.
pub const PAD: u8 = 0x3d;

/// The six bits that a character of the alphabet stands for, if the byte is
/// one: `A`-`Z`, `a`-`z`, `0`-`9`, `+` and `/`, in that order.
pub open spec fn sextet(c: u8) -> Option<u8> {
    if 0x41 <= c <= 0x5a {
        Some((c - 0x41) as u8)
    } else if 0x61 <= c <= 0x7a {
        Some((c - 0x61 + 26) as u8)
    } else if 0x30 <= c <= 0x39 {
        Some((c - 0x30 + 52) as u8)
    } else if c == 0x2b {
        Some(62)
    } else if c == 0x2f {
        Some(63)
    } else {
        None
    }
}

/// The character of the alphabet that stands for six bits.
pub open spec fn symbol(v: u8) -> u8 {
    if v < 26 {
        (0x41 + v) as u8
    } else if v < 52 {
        (0x61 + v - 26) as u8
    } else if v < 62 {
        (0x30 + v - 52) as u8
    } else if v == 62 {
        0x2b
    } else {
        0x2f
    }
}

/// The three bytes that four characters spell, if all four are of the
/// alphabet.
pub open spec fn decoded_quad(a: u8, b: u8, c: u8, d: u8) -> Option<Seq<u8>> {
    match (sextet(a), sextet(b), sextet(c), sextet(d)) {
        (Some(p), Some(q), Some(r), Some(s)) => Some(
            seq![
                (p * 4 + q / 16) as u8,
                ((q % 16) * 16 + r / 4) as u8,
                ((r % 4) * 64 + s) as u8,
            ],
        ),
        _ => None,
    }
}

/// The bytes that the last four characters of a text spell: three, or two
/// before one padding character, or one before two. The bits that stand
/// for no byte are zero.
pub open spec fn decoded_last(a: u8, b: u8, c: u8, d: u8) -> Option<Seq<u8>> {
    if c == PAD && d == PAD {
        match (sextet(a), sextet(b)) {
            (Some(p), Some(q)) => if q % 16 == 0 {
                Some(seq![(p * 4 + q / 16) as u8])
            } else {
                None
            },
            _ => None,
        }
    } else if d == PAD {
        match (sextet(a), sextet(b), sextet(c)) {
            (Some(p), Some(q), Some(r)) => if r % 4 == 0 {
                Some(seq![(p * 4 + q / 16) as u8, ((q % 16) * 16 + r / 4) as u8])
            } else {
                None
            },
            _ => None,
        }
    } else {
        decoded_quad(a, b, c, d)
    }
}

/// The bytes that a text spells: its characters four by four, with padding
/// in the last four only. A text whose length is no multiple of four
/// spells nothing.
pub open spec fn base64_decoded(text: Seq<u8>) -> Option<Seq<u8>>
    decreases text.len(),
{
    if text.len() == 0 {
        Some(Seq::empty())
    } else if text.len() < 4 {
        None
    } else if text.len() == 4 {
        decoded_last(text[0], text[1], text[2], text[3])
    } else {
        match decoded_quad(text[0], text[1], text[2], text[3]) {
            None => None,
            Some(head) => match base64_decoded(text.skip(4)) {
                None => None,
                Some(tail) => Some(head + tail),
            },
        }
    }
}

/// The text that spells `data`: four characters for every three bytes, the
/// last four padded where fewer than three bytes are left.
pub open spec fn base64_encoded(data: Seq<u8>) -> Seq<u8>
    decreases data.len(),
{
    if data.len() == 0 {
        Seq::empty()
    } else if data.len() == 1 {
        seq![symbol(data[0] / 4), symbol(((data[0] % 4) * 16) as u8), PAD, PAD]
    } else if data.len() == 2 {
        seq![
            symbol(data[0] / 4),
            symbol(((data[0] % 4) * 16 + data[1] / 16) as u8),
            symbol(((data[1] % 16) * 4) as u8),
            PAD,
        ]
    } else {
        seq![
            symbol(data[0] / 4),
            symbol(((data[0] % 4) * 16 + data[1] / 16) as u8),
            symbol(((data[1] % 16) * 4 + data[2] / 64) as u8),
            symbol(data[2] % 64),
        ] + base64_encoded(data.skip(3))
    }
}

/// Decoding succeeds on a well-formed text and on nothing else.
pub open spec fn from_base64_spec(text: Seq<u8>) -> Result<Seq<u8>, H2Error> {
    match base64_decoded(text) {
        Some(data) => Ok(data),
        None => Err(H2Error::TransformFailed),
    }
}

/// A character and the six bits it stands for determine each other, and
/// the padding character is none of the alphabet.
pub proof fn lemma_symbols(v: u8, c: u8)
    ensures
        v < 64 ==> sextet(symbol(v)) == Some(v) && symbol(v) != PAD,
        sextet(c) matches Some(w) ==> w < 64 && symbol(w) == c,
        sextet(PAD) is None,
{
}

/// A text whose length is no multiple of four spells nothing.
pub proof fn lemma_partial_quads(text: Seq<u8>)
    requires
        text.len() % 4 != 0,
    ensures
        base64_decoded(text) is None,
    decreases text.len(),
{
    if text.len() > 4 {
        lemma_partial_quads(text.skip(4));
    }
}

/// The sextets that three bytes spell give the three bytes back.
proof fn lemma_bytes_back(b: u8, c: u8, d: u8)
    ensures
        ({
            let p = b / 4;
            let q = ((b % 4) * 16 + c / 16) as u8;
            let r = ((c % 16) * 4 + d / 64) as u8;
            let s = d % 64;
            &&& p < 64 && q < 64 && r < 64 && s < 64
            &&& p * 4 + q / 16 == b
            &&& (q % 16) * 16 + r / 4 == c
            &&& (r % 4) * 64 + s == d
        }),
        ({
            let q = ((b % 4) * 16) as u8;
            q < 64 && q % 16 == 0 && (b / 4) * 4 + q / 16 == b
        }),
        ({
            let q = ((b % 4) * 16 + c / 16) as u8;
            let r = ((c % 16) * 4) as u8;
            q < 64 && r < 64 && r % 4 == 0 && (b / 4) * 4 + q / 16 == b && (q % 16) * 16 + r / 4 == c
        }),
{
}

/// Four characters that spell three bytes decode to them.
proof fn lemma_triple_decodes(b: u8, c: u8, d: u8)
    ensures
        ({
            let p = b / 4;
            let q = ((b % 4) * 16 + c / 16) as u8;
            let r = ((c % 16) * 4 + d / 64) as u8;
            let s = d % 64;
            &&& decoded_quad(symbol(p), symbol(q), symbol(r), symbol(s)) == Some(seq![b, c, d])
            &&& decoded_last(symbol(p), symbol(q), symbol(r), symbol(s)) == Some(seq![b, c, d])
        }),
{
    let p = b / 4;
    let q = ((b % 4) * 16 + c / 16) as u8;
    let r = ((c % 16) * 4 + d / 64) as u8;
    let s = d % 64;
    lemma_bytes_back(b, c, d);
    lemma_symbols(p, 0);
    lemma_symbols(q, 0);
    lemma_symbols(r, 0);
    lemma_symbols(s, 0);
    assert(decoded_quad(symbol(p), symbol(q), symbol(r), symbol(s))->Some_0 =~= seq![b, c, d]);
}

/// The padded four characters that spell one or two bytes decode to them.
proof fn lemma_padded_decodes(b: u8, c: u8)
    ensures
        decoded_last(symbol(b / 4), symbol(((b % 4) * 16) as u8), PAD, PAD) == Some(seq![b]),
        decoded_last(
            symbol(b / 4),
            symbol(((b % 4) * 16 + c / 16) as u8),
            symbol(((c % 16) * 4) as u8),
            PAD,
        ) == Some(seq![b, c]),
{
    lemma_bytes_back(b, c, 0);
    lemma_symbols(b / 4, 0);
    lemma_symbols(((b % 4) * 16) as u8, 0);
    lemma_symbols(((b % 4) * 16 + c / 16) as u8, 0);
    lemma_symbols(((c % 16) * 4) as u8, 0);
    assert(decoded_last(symbol(b / 4), symbol(((b % 4) * 16) as u8), PAD, PAD)->Some_0 =~= seq![b]);
    assert(decoded_last(
        symbol(b / 4),
        symbol(((b % 4) * 16 + c / 16) as u8),
        symbol(((c % 16) * 4) as u8),
        PAD,
    )->Some_0 =~= seq![b, c]);
}

/// Decoding an encoded text gives the bytes back.
pub proof fn lemma_base64_decodes_encoded(data: Seq<u8>)
    ensures
        base64_decoded(base64_encoded(data)) == Some(data),
        base64_encoded(data).len() % 4 == 0,
        data.len() > 0 ==> base64_encoded(data).len() >= 4,
    decreases data.len(),
{
    let text = base64_encoded(data);
    if data.len() == 0 {
    } else if data.len() == 1 {
        lemma_padded_decodes(data[0], 0);
        assert(text.len() == 4);
        assert(seq![data[0]] =~= data);
    } else if data.len() == 2 {
        lemma_padded_decodes(data[0], data[1]);
        assert(text.len() == 4);
        assert(seq![data[0], data[1]] =~= data);
    } else {
        let rest = data.skip(3);
        lemma_base64_decodes_encoded(rest);
        lemma_triple_decodes(data[0], data[1], data[2]);
        let quad = seq![
            symbol(data[0] / 4),
            symbol(((data[0] % 4) * 16 + data[1] / 16) as u8),
            symbol(((data[1] % 16) * 4 + data[2] / 64) as u8),
            symbol(data[2] % 64),
        ];
        assert(text == quad + base64_encoded(rest));
        assert(text[0] == quad[0] && text[1] == quad[1] && text[2] == quad[2] && text[3] == quad[3]);
        if rest.len() == 0 {
            assert(text.len() == 4);
            assert(seq![data[0], data[1], data[2]] =~= data);
        } else {
            assert(text.len() > 4);
            assert(text.skip(4) =~= base64_encoded(rest));
            assert(seq![data[0], data[1], data[2]] + rest =~= data);
        }
    }
}

/// The bytes that four sextets spell give the four sextets back.
proof fn lemma_sextets_back(p: u8, q: u8, r: u8, s: u8)
    requires
        p < 64,
        q < 64,
        r < 64,
        s < 64,
    ensures
        ({
            let x = (p * 4 + q / 16) as u8;
            let y = ((q % 16) * 16 + r / 4) as u8;
            let z = ((r % 4) * 64 + s) as u8;
            &&& x / 4 == p
            &&& (x % 4) * 16 + y / 16 == q
            &&& (y % 16) * 4 + z / 64 == r
            &&& z % 64 == s
            &&& (q % 16 == 0 ==> (x % 4) * 16 == q)
            &&& (r % 4 == 0 ==> (y % 16) * 4 == r)
        }),
{
}

/// Encoding the bytes that four characters of the alphabet spell, with
/// more bytes after them, starts with the four characters.
proof fn lemma_quad_back(a: u8, b: u8, c: u8, d: u8, tail: Seq<u8>)
    requires
        decoded_quad(a, b, c, d) is Some,
    ensures
        base64_encoded(decoded_quad(a, b, c, d)->Some_0 + tail) == seq![a, b, c, d]
            + base64_encoded(tail),
{
    lemma_symbols(0, a);
    lemma_symbols(0, b);
    lemma_symbols(0, c);
    lemma_symbols(0, d);
    let p = sextet(a)->Some_0;
    let q = sextet(b)->Some_0;
    let r = sextet(c)->Some_0;
    let s = sextet(d)->Some_0;
    lemma_sextets_back(p, q, r, s);
    let head = decoded_quad(a, b, c, d)->Some_0;
    let data = head + tail;
    assert(data[0] == head[0] && data[1] == head[1] && data[2] == head[2]);
    assert(data.skip(3) =~= tail);
    assert(data.len() >= 3);
    let first = seq![
        symbol(data[0] / 4),
        symbol(((data[0] % 4) * 16 + data[1] / 16) as u8),
        symbol(((data[1] % 16) * 4 + data[2] / 64) as u8),
        symbol(data[2] % 64),
    ];
    assert(first =~= seq![a, b, c, d]);
    assert(base64_encoded(data) == first + base64_encoded(data.skip(3)));
}

/// Encoding the bytes that the last four characters of a text spell gives
/// the four characters back.
proof fn lemma_last_back(a: u8, b: u8, c: u8, d: u8)
    requires
        decoded_last(a, b, c, d) is Some,
    ensures
        base64_encoded(decoded_last(a, b, c, d)->Some_0) == seq![a, b, c, d],
{
    lemma_symbols(0, a);
    lemma_symbols(0, b);
    lemma_symbols(0, c);
    lemma_symbols(0, d);
    let data = decoded_last(a, b, c, d)->Some_0;
    let p = sextet(a)->Some_0;
    let q = sextet(b)->Some_0;
    if c == PAD && d == PAD {
        lemma_sextets_back(p, q, 0, 0);
        assert(data.len() == 1);
        assert(base64_encoded(data) =~= seq![a, b, c, d]);
    } else if d == PAD {
        let r = sextet(c)->Some_0;
        lemma_sextets_back(p, q, r, 0);
        assert(data.len() == 2);
        assert(base64_encoded(data) =~= seq![a, b, c, d]);
    } else {
        lemma_quad_back(a, b, c, d, Seq::empty());
        assert(data + Seq::<u8>::empty() =~= data);
        assert(base64_encoded(Seq::<u8>::empty()) =~= Seq::<u8>::empty());
        assert(seq![a, b, c, d] + Seq::<u8>::empty() =~= seq![a, b, c, d]);
    }
}

/// Encoding what a text spells gives the text back.
pub proof fn lemma_base64_round_trip(text: Seq<u8>)
    requires
        base64_decoded(text) is Some,
    ensures
        base64_encoded(base64_decoded(text)->Some_0) == text,
    decreases text.len(),
{
    if text.len() == 0 {
    } else if text.len() == 4 {
        lemma_last_back(text[0], text[1], text[2], text[3]);
        assert(seq![text[0], text[1], text[2], text[3]] =~= text);
    } else {
        let rest = text.skip(4);
        lemma_base64_round_trip(rest);
        lemma_quad_back(text[0], text[1], text[2], text[3], base64_decoded(rest)->Some_0);
        assert(seq![text[0], text[1], text[2], text[3]] + rest =~= text);
    }
}

/// The six bits that a character stands for.
pub fn sextet_of(c: u8) -> (r: Option<u8>)
    ensures
        r == sextet(c),
        r matches Some(v) ==> v < 64,
{
    if 0x41 <= c && c <= 0x5a {
        Some(c - 0x41)
    } else if 0x61 <= c && c <= 0x7a {
        Some(c - 0x61 + 26)
    } else if 0x30 <= c && c <= 0x39 {
        Some(c - 0x30 + 52)
    } else if c == 0x2b {
        Some(62)
    } else if c == 0x2f {
        Some(63)
    } else {
        None
    }
}

/// The character that stands for six bits.
pub fn symbol_of(v: u8) -> (c: u8)
    requires
        v < 64,
    ensures
        c == symbol(v),
{
    if v < 26 {
        0x41 + v
    } else if v < 52 {
        0x61 + v - 26
    } else if v < 62 {
        0x30 + v - 52
    } else if v == 62 {
        0x2b
    } else {
        0x2f
    }
}

/// What is decoded so far, followed by what the rest of the text spells.
pub open spec fn continued(done: Seq<u8>, rest: Option<Seq<u8>>) -> Option<Seq<u8>> {
    match rest {
        Some(tail) => Some(done + tail),
        None => None,
    }
}

pub fn from_base64(buffer: &Vec<u8>) -> (r: Result<Vec<u8>, H2Error>)
    ensures
        r matches Ok(v) ==> from_base64_spec(buffer@) == Ok::<Seq<u8>, H2Error>(v@),
        r matches Err(e) ==> from_base64_spec(buffer@) == Err::<Seq<u8>, H2Error>(e),
{
    let n = buffer.len();
    if n % 4 != 0 {
        proof {
            lemma_partial_quads(buffer@);
        }
        return Err(H2Error::TransformFailed);
    }
    let mut out: Vec<u8> = Vec::new();
    if n == 0 {
        return Ok(out);
    }
    let mut i: usize = 0;
    assert(buffer@.skip(0) =~= buffer@);
    assert(continued(out@, base64_decoded(buffer@.skip(0))) =~= base64_decoded(buffer@)) by {
        if base64_decoded(buffer@) is Some {
            assert(out@ + base64_decoded(buffer@)->Some_0 =~= base64_decoded(buffer@)->Some_0);
        }
    }
    while i + 4 < n
        invariant
            i + 4 <= n,
            n == buffer.len(),
            n % 4 == 0,
            i % 4 == 0,
            base64_decoded(buffer@) == continued(out@, base64_decoded(buffer@.skip(i as int))),
        decreases n - i,
    {
        let ghost rest = buffer@.skip(i as int);
        assert(rest.len() > 4);
        assert(rest[0] == buffer@[i as int] && rest[1] == buffer@[i + 1] && rest[2] == buffer@[i
            + 2] && rest[3] == buffer@[i + 3]);
        assert(rest.skip(4) =~= buffer@.skip(i + 4));
        let p = sextet_of(buffer[i]);
        let q = sextet_of(buffer[i + 1]);
        let r = sextet_of(buffer[i + 2]);
        let s = sextet_of(buffer[i + 3]);
        match (p, q, r, s) {
            (Some(p), Some(q), Some(r), Some(s)) => {
                let ghost before = out@;
                out.push(p * 4 + q / 16);
                out.push((q % 16) * 16 + r / 4);
                out.push((r % 4) * 64 + s);
                proof {
                    let head = decoded_quad(rest[0], rest[1], rest[2], rest[3])->Some_0;
                    assert(out@ =~= before + head);
                    if base64_decoded(rest.skip(4)) is Some {
                        let tail = base64_decoded(rest.skip(4))->Some_0;
                        assert(before + (head + tail) =~= out@ + tail);
                    }
                }
            },
            _ => {
                return Err(H2Error::TransformFailed);
            },
        }
        i += 4;
    }
    let ghost rest = buffer@.skip(i as int);
    assert(rest.len() == 4);
    assert(rest[0] == buffer@[i as int] && rest[1] == buffer@[i + 1] && rest[2] == buffer@[i + 2]
        && rest[3] == buffer@[i + 3]);
    let a = buffer[i];
    let b = buffer[i + 1];
    let c = buffer[i + 2];
    let d = buffer[i + 3];
    let ghost before = out@;
    let p = match sextet_of(a) {
        Some(v) => v,
        None => {
            return Err(H2Error::TransformFailed);
        },
    };
    let q = match sextet_of(b) {
        Some(v) => v,
        None => {
            return Err(H2Error::TransformFailed);
        },
    };
    if c == PAD && d == PAD {
        if q % 16 != 0 {
            return Err(H2Error::TransformFailed);
        }
        out.push(p * 4 + q / 16);
        assert(out@ =~= before + decoded_last(a, b, c, d)->Some_0);
        return Ok(out);
    }
    let r = match sextet_of(c) {
        Some(v) => v,
        None => {
            return Err(H2Error::TransformFailed);
        },
    };
    if d == PAD {
        if r % 4 != 0 {
            return Err(H2Error::TransformFailed);
        }
        out.push(p * 4 + q / 16);
        out.push((q % 16) * 16 + r / 4);
        assert(out@ =~= before + decoded_last(a, b, c, d)->Some_0);
        return Ok(out);
    }
    let s = match sextet_of(d) {
        Some(v) => v,
        None => {
            return Err(H2Error::TransformFailed);
        },
    };
    out.push(p * 4 + q / 16);
    out.push((q % 16) * 16 + r / 4);
    out.push((r % 4) * 64 + s);
    assert(out@ =~= before + decoded_last(a, b, c, d)->Some_0);
    Ok(out)
}

pub fn to_base64(buffer: &Vec<u8>) -> (out: Vec<u8>)
    ensures
        out@ == base64_encoded(buffer@),
{
    let n = buffer.len();
    let mut out: Vec<u8> = Vec::new();
    let mut i: usize = 0;
    assert(buffer@.skip(0) =~= buffer@);
    while n - i >= 3
        invariant
            i <= n,
            n == buffer.len(),
            base64_encoded(buffer@) =~= out@ + base64_encoded(buffer@.skip(i as int)),
        decreases n - i,
    {
        let ghost rest = buffer@.skip(i as int);
        assert(rest[0] == buffer@[i as int] && rest[1] == buffer@[i + 1] && rest[2] == buffer@[i
            + 2]);
        assert(rest.skip(3) =~= buffer@.skip(i + 3));
        let b = buffer[i];
        let c = buffer[i + 1];
        let d = buffer[i + 2];
        out.push(symbol_of(b / 4));
        out.push(symbol_of((b % 4) * 16 + c / 16));
        out.push(symbol_of((c % 16) * 4 + d / 64));
        out.push(symbol_of(d % 64));
        i += 3;
    }
    let ghost rest = buffer@.skip(i as int);
    if n - i == 1 {
        assert(rest[0] == buffer@[i as int]);
        let b = buffer[i];
        out.push(symbol_of(b / 4));
        out.push(symbol_of((b % 4) * 16));
        out.push(PAD);
        out.push(PAD);
    } else if n - i == 2 {
        assert(rest[0] == buffer@[i as int] && rest[1] == buffer@[i + 1]);
        let b = buffer[i];
        let c = buffer[i + 1];
        out.push(symbol_of(b / 4));
        out.push(symbol_of((b % 4) * 16 + c / 16));
        out.push(symbol_of((c % 16) * 4));
        out.push(PAD);
    }
    out
}

/// Whether `buffer` is a well-formed text.
pub fn check_base64(buffer: &Vec<u8>) -> (b: bool)
    ensures
        b == base64_decoded(buffer@) is Some,
{
    from_base64(buffer).is_ok()
}

} // verus!
