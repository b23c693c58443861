//! A position in a sequence of bytes.

use vstd::prelude::*;
use crate::error::H2Error;

verus! {

/// The order in which the bytes of a number are stored.
#[derive(Debug, Clone, Copy, PartialEq, Eq, Structural)]
pub enum Endian {
    /// Most significant byte first.
    Big,
    /// Least significant byte first.
    Little,
}

/// A cursor: some bytes and a position in them. A context is a small value
/// that is copied freely; reading through one never moves another.
#[derive(Debug, Clone, Copy)]
pub struct Context<'a> {
    data: &'a Vec<u8>,
    position: u64,
}

/// The number that `bytes` spell with the most significant byte first.
pub open spec fn be_value(bytes: Seq<u8>) -> nat
    decreases bytes.len(),
{
    if bytes.len() == 0 {
        0
    } else {
        be_value(bytes.drop_last()) * 256 + bytes.last() as nat
    }
}

/// The number that `bytes` spell with the least significant byte first.
pub open spec fn le_value(bytes: Seq<u8>) -> nat
    decreases bytes.len(),
{
    if bytes.len() == 0 {
        0
    } else {
        bytes.first() as nat + 256 * le_value(bytes.drop_first())
    }
}

/// The number that `bytes` spell in the given byte order.
pub open spec fn unsigned_value(endian: Endian, bytes: Seq<u8>) -> nat {
    match endian {
        Endian::Big => be_value(bytes),
        Endian::Little => le_value(bytes),
    }
}

/// 256 to the power `n`.
pub open spec fn pow256(n: nat) -> nat
    decreases n,
{
    if n == 0 {
        1
    } else {
        256 * pow256((n - 1) as nat)
    }
}

/// A number spelt by `n` bytes is below 256 to the power `n`.
pub proof fn lemma_value_bound(endian: Endian, bytes: Seq<u8>)
    ensures
        unsigned_value(endian, bytes) < pow256(bytes.len()),
    decreases bytes.len(),
{
    if bytes.len() > 0 {
        lemma_value_bound(endian, bytes.drop_last());
        lemma_value_bound(endian, bytes.drop_first());
    }
}

/// The powers of 256 that the supported widths reach.
pub proof fn lemma_pow256_values()
    ensures
        pow256(0) == 1,
        pow256(1) == 0x100,
        pow256(2) == 0x1_0000,
        pow256(4) == 0x1_0000_0000,
        pow256(8) == 0x1_0000_0000_0000_0000,
        pow256(16) == 0x1_0000_0000_0000_0000_0000_0000_0000_0000,
{
    reveal_with_fuel(pow256, 17);
}

/// The powers of 256 grow.
pub proof fn lemma_pow256_grows(a: nat, b: nat)
    requires
        a <= b,
    ensures
        pow256(a) <= pow256(b),
    decreases b,
{
    if a < b {
        lemma_pow256_grows(a, (b - 1) as nat);
    }
}

impl<'a> Context<'a> {
    /// The bytes behind the cursor.
    pub closed spec fn bytes(self) -> Seq<u8> {
        self.data@
    }

    /// Where the cursor stands.
    pub closed spec fn offset(self) -> nat {
        self.position as nat
    }

    /// A cursor at the start of `data`.
    pub fn new(data: &'a Vec<u8>) -> (c: Self)
        ensures
            c.bytes() == data@,
            c.offset() == 0,
    {
        Context { data, position: 0 }
    }

    /// A cursor at `position` in `data`.
    pub fn new_at(data: &'a Vec<u8>, position: u64) -> (c: Self)
        ensures
            c.bytes() == data@,
            c.offset() == position,
    {
        Context { data, position }
    }

    /// The cursor over the same bytes at `offset`.
    pub closed spec fn at_spec(self, offset: u64) -> Self {
        Context { data: self.data, position: offset }
    }

    /// A cursor over the same bytes at `offset`.
    pub fn at(&self, offset: u64) -> (c: Self)
        ensures
            c == self.at_spec(offset),
            c.bytes() == self.bytes(),
            c.offset() == offset,
    {
        Context { data: self.data, position: offset }
    }

    pub fn position(&self) -> (p: u64)
        ensures
            p == self.offset(),
    {
        self.position
    }

    /// The number of bytes behind the cursor, from the start.
    pub fn len(&self) -> (n: usize)
        ensures
            n == self.bytes().len(),
    {
        self.data.len()
    }

    /// Whether `size` bytes can be read at the cursor.
    pub open spec fn can_read(self, size: nat) -> bool {
        self.offset() + size <= self.bytes().len()
    }

    /// The `size` bytes at the cursor.
    pub open spec fn window(self, size: nat) -> Seq<u8> {
        self.bytes().subrange(self.offset() as int, (self.offset() + size) as int)
    }

    /// The byte at the cursor.
    pub fn read_u8(&self) -> (r: Result<u8, H2Error>)
        ensures
            self.can_read(1) ==> r == Ok::<u8, H2Error>(self.bytes()[self.offset() as int]),
            !self.can_read(1) ==> r == Err::<u8, H2Error>(H2Error::ReadOutOfBounds),
    {
        let n = self.data.len();
        if self.position >= n as u64 {
            return Err(H2Error::ReadOutOfBounds);
        }
        Ok(self.data[self.position as usize])
    }

    /// The number that the `size` bytes at the cursor spell.
    pub fn read_unsigned(&self, size: usize, endian: Endian) -> (r: Result<u128, H2Error>)
        requires
            size <= 16,
        ensures
            self.can_read(size as nat) ==> r == Ok::<u128, H2Error>(
                unsigned_value(endian, self.window(size as nat)) as u128,
            ) && unsigned_value(endian, self.window(size as nat)) < pow256(size as nat),
            !self.can_read(size as nat) ==> r == Err::<u128, H2Error>(H2Error::ReadOutOfBounds),
    {
        let n = self.data.len();
        if self.position > n as u64 || n - (self.position as usize) < size {
            return Err(H2Error::ReadOutOfBounds);
        }
        let start: usize = self.position as usize;
        let ghost w = self.window(size as nat);
        proof {
            lemma_pow256_values();
            lemma_value_bound(endian, w);
        }
        let mut acc: u128 = 0;
        match endian {
            Endian::Big => {
                let mut i: usize = 0;
                while i < size
                    invariant
                        i <= size <= 16,
                        start + size <= self.data.len(),
                        w == self.data@.subrange(start as int, start + size),
                        acc == be_value(w.subrange(0, i as int)),
                        acc < pow256(i as nat),
                        pow256(16) == 0x1_0000_0000_0000_0000_0000_0000_0000_0000,
                    decreases size - i,
                {
                    proof {
                        assert(w.subrange(0, i + 1).drop_last() =~= w.subrange(0, i as int));
                        lemma_pow256_grows((i + 1) as nat, 16);
                        assert(pow256((i + 1) as nat) == 256 * pow256(i as nat));
                    }
                    acc = acc * 256 + self.data[start + i] as u128;
                    i += 1;
                }
                assert(w.subrange(0, size as int) =~= w);
            },
            Endian::Little => {
                let mut i: usize = size;
                while i > 0
                    invariant
                        i <= size <= 16,
                        start + size <= self.data.len(),
                        w == self.data@.subrange(start as int, start + size),
                        acc == le_value(w.subrange(i as int, size as int)),
                        acc < pow256((size - i) as nat),
                        pow256(16) == 0x1_0000_0000_0000_0000_0000_0000_0000_0000,
                    decreases i,
                {
                    i -= 1;
                    proof {
                        assert(w.subrange(i as int, size as int).drop_first() =~= w.subrange(
                            i + 1,
                            size as int,
                        ));
                        lemma_pow256_grows((size - i) as nat, 16);
                        assert(pow256((size - i) as nat) == 256 * pow256((size - i - 1) as nat));
                    }
                    acc = acc * 256 + self.data[start + i] as u128;
                }
                assert(w.subrange(0, size as int) =~= w);
            },
        }
        Ok(acc)
    }
}

} // verus!
