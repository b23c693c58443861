//! Building text: digits of a number in a radix, zero padding.

use vstd::prelude::*;

verus! {

/// `String::push` appends the given character to the end of the string and
/// changes nothing else.
pub assume_specification[ String::push ](s: &mut String, c: char)
    ensures
        final(s)@ == old(s)@.push(c),
;

/// `String::push_str` appends the given text to the end of the string and
/// changes nothing else.
pub assume_specification[ String::push_str ](s: &mut String, other: &str)
    ensures
        final(s)@ == old(s)@ + other@,
;

/// The character that stands for a digit below 36: `0`-`9`, then `a`-`z`, or
/// `A`-`Z` where `upper` is set.
pub open spec fn digit_char(d: int, upper: bool) -> char {
    if d < 10 {
        ((48 + d) as u8) as char
    } else if upper {
        ((55 + d) as u8) as char
    } else {
        ((87 + d) as u8) as char
    }
}

/// The digits of `n` in `radix`, most significant first, without leading
/// zeros; a single `0` for zero.
pub open spec fn digits(n: nat, radix: nat, upper: bool) -> Seq<char>
    decreases n,
    via digits_terminates
{
    if radix < 2 || n < radix {
        seq![digit_char(n as int, upper)]
    } else {
        digits(n / radix, radix, upper).push(digit_char((n % radix) as int, upper))
    }
}

#[via_fn]
proof fn digits_terminates(n: nat, radix: nat, upper: bool) {
    if radix >= 2 && n >= radix {
        assert(n / radix < n) by (nonlinear_arith)
            requires
                radix >= 2,
                n >= radix,
        ;
    }
}

/// `k` times the character `0`.
pub open spec fn zeros(k: nat) -> Seq<char> {
    Seq::new(k, |i: int| '0')
}

/// `s`, with zeros put in front until it is `width` characters long.
pub open spec fn padded(s: Seq<char>, width: nat) -> Seq<char> {
    if s.len() >= width {
        s
    } else {
        zeros((width - s.len()) as nat) + s
    }
}

/// `s` read backwards.
pub open spec fn backwards(s: Seq<char>) -> Seq<char> {
    Seq::new(s.len(), |i: int| s[s.len() - 1 - i])
}

pub fn digit_to_char(d: u8, upper: bool) -> (c: char)
    requires
        d < 36,
    ensures
        c == digit_char(d as int, upper),
{
    if d < 10 {
        (48 + d) as char
    } else if upper {
        (55 + d) as char
    } else {
        (87 + d) as char
    }
}

/// The digits of `value` in `radix`, most significant first.
pub fn digits_of(value: u128, radix: u8, upper: bool) -> (out: Vec<char>)
    requires
        2 <= radix <= 36,
    ensures
        out@ == digits(value as nat, radix as nat, upper),
        out@.len() >= 1,
{
    let ghost all = digits(value as nat, radix as nat, upper);
    let r: u128 = radix as u128;
    let mut rev: Vec<char> = Vec::new();
    let mut n: u128 = value;
    while n >= r
        invariant
            r == radix,
            2 <= radix <= 36,
            all =~= digits(n as nat, radix as nat, upper) + backwards(rev@),
        decreases n,
    {
        let d: u8 = (n % r) as u8;
        proof {
            let c = digit_char(d as int, upper);
            assert(digits(n as nat, radix as nat, upper) =~= digits(
                (n / r) as nat,
                radix as nat,
                upper,
            ).push(c));
            assert(backwards(rev@.push(c)) =~= seq![c] + backwards(rev@));
        }
        rev.push(digit_to_char(d, upper));
        n = n / r;
    }
    proof {
        let c = digit_char(n as int, upper);
        assert(backwards(rev@.push(c)) =~= seq![c] + backwards(rev@));
    }
    rev.push(digit_to_char(n as u8, upper));
    assert(all =~= backwards(rev@));
    let len: usize = rev.len();
    let mut out: Vec<char> = Vec::new();
    let mut i: usize = len;
    while i > 0
        invariant
            i <= len,
            len == rev.len(),
            out@ =~= backwards(rev@).subrange(0, len - i),
        decreases i,
    {
        i -= 1;
        out.push(rev[i]);
    }
    assert(backwards(rev@).subrange(0, len as int) =~= backwards(rev@));
    out
}

/// Appends the characters of `chars` to `s`.
pub fn push_chars(s: &mut String, chars: &Vec<char>)
    ensures
        final(s)@ == old(s)@ + chars@,
{
    let ghost start = s@;
    let mut i: usize = 0;
    while i < chars.len()
        invariant
            i <= chars.len(),
            s@ =~= start + chars@.subrange(0, i as int),
        decreases chars.len() - i,
    {
        s.push(chars[i]);
        i += 1;
    }
    assert(chars@.subrange(0, chars@.len() as int) =~= chars@);
}

/// Appends to `s` the digits of `value` in `radix`, zero padded to `width`.
pub fn push_number(s: &mut String, value: u128, radix: u8, upper: bool, width: usize)
    requires
        2 <= radix <= 36,
    ensures
        final(s)@ == old(s)@ + padded(digits(value as nat, radix as nat, upper), width as nat),
{
    let ghost start = s@;
    let ds = digits_of(value, radix, upper);
    let len: usize = ds.len();
    let mut k: usize = len;
    while k < width
        invariant
            len <= k,
            k <= width || k == len,
            s@ =~= start + zeros((k - len) as nat),
        decreases width - k,
    {
        s.push('0');
        k += 1;
    }
    assert(s@ =~= start + zeros(if len >= width { 0nat } else { (width - len) as nat }));
    push_chars(s, &ds);
    assert(s@ =~= start + padded(ds@, width as nat));
}

} // verus!
