//! An IPv6 address.

use vstd::prelude::*;
use vstd::string::StringExecFns;
use crate::datatype::basic_type::ipv4::{ipv4_text, push_ipv4};
use crate::datatype::{H2Type, H2Types, OffsetView, ResolveOffset};
use crate::error::H2Error;
use crate::generic_number::context::Endian;
use crate::text::{digits, push_number};

verus! {

/// Sixteen bytes that are an IPv6 address, stored in the given byte order.
#[derive(Debug, Clone, Copy, PartialEq, Eq, Structural)]
pub struct IPv6 {
    pub endian: Endian,
}

/// The bytes of an address with the most significant first: as they are
/// stored if that is big-endian, in reverse if it is little-endian.
pub open spec fn network_order(endian: Endian, stored: Seq<u8>) -> Seq<u8> {
    match endian {
        Endian::Big => stored,
        Endian::Little => Seq::new(stored.len(), |i: int| stored[stored.len() - 1 - i]),
    }
}

/// The eight groups of sixteen bits that sixteen bytes make.
pub open spec fn groups_of(bytes: Seq<u8>) -> Seq<u16> {
    Seq::new(8, |i: int| (bytes[2 * i] * 256 + bytes[2 * i + 1]) as u16)
}

/// The number of groups that are zero from the group `i` on, up to the
/// first that is not.
pub open spec fn zeros_from(groups: Seq<u16>, i: nat) -> nat
    decreases groups.len() - i,
{
    if i < groups.len() && groups[i as int] == 0 {
        1 + zeros_from(groups, i + 1)
    } else {
        0
    }
}

/// The longest run of zero groups at or after the group `i`, as its start
/// and its length; the first of them where several are as long. Without a
/// zero group the length is zero.
pub open spec fn longest_zero_run(groups: Seq<u16>, i: nat) -> (nat, nat)
    decreases groups.len() - i,
{
    if i >= groups.len() {
        (i, 0)
    } else {
        let here = zeros_from(groups, i);
        let later = longest_zero_run(groups, i + 1);
        if here > 0 && here >= later.1 {
            (i, here)
        } else {
            later
        }
    }
}

/// Groups in hexadecimal without leading zeros, with a colon between each
/// two.
pub open spec fn groups_text(groups: Seq<u16>) -> Seq<char>
    decreases groups.len(),
{
    if groups.len() == 0 {
        Seq::empty()
    } else if groups.len() == 1 {
        digits(groups[0] as nat, 16, false)
    } else {
        groups_text(groups.drop_last()) + seq![':'] + digits(groups.last() as nat, 16, false)
    }
}

/// Whether the groups are those of an IPv4 address mapped into IPv6: five
/// zero groups, then one of all ones.
pub open spec fn is_mapped_ipv4(groups: Seq<u16>) -> bool {
    groups[0] == 0 && groups[1] == 0 && groups[2] == 0 && groups[3] == 0 && groups[4] == 0
        && groups[5] == 0xffff
}

/// The text of the address with the given eight groups: a mapped IPv4
/// address as `::ffff:` and the address in dotted decimal; any other with
/// its groups in hexadecimal, the longest run of two or more zero groups
/// shortened to two colons.
pub open spec fn ipv6_text(groups: Seq<u16>) -> Seq<char> {
    if is_mapped_ipv4(groups) {
        seq![':', ':', 'f', 'f', 'f', 'f', ':'] + ipv4_text(
            (groups[6] * 0x1_0000 + groups[7]) as nat,
        )
    } else {
        let run = longest_zero_run(groups, 0);
        if run.1 > 1 {
            groups_text(groups.subrange(0, run.0 as int)) + seq![':', ':'] + groups_text(
                groups.subrange((run.0 + run.1) as int, 8),
            )
        } else {
            groups_text(groups)
        }
    }
}

/// A run of zero groups ends within the groups.
pub proof fn lemma_zero_run_fits(groups: Seq<u16>, i: nat)
    requires
        i <= groups.len(),
    ensures
        i + zeros_from(groups, i) <= groups.len(),
        longest_zero_run(groups, i).0 >= i,
        longest_zero_run(groups, i).0 + longest_zero_run(groups, i).1 <= groups.len(),
    decreases groups.len() - i,
{
    if i < groups.len() {
        lemma_zero_run_fits(groups, i + 1);
    }
}

/// Appends to `s` the groups from `from` to `to` in hexadecimal, with
/// colons between them.
pub fn push_groups(s: &mut String, groups: &Vec<u16>, from: usize, to: usize)
    requires
        from <= to <= groups.len(),
    ensures
        final(s)@ == old(s)@ + groups_text(groups@.subrange(from as int, to as int)),
{
    let ghost start = s@;
    let mut i: usize = from;
    while i < to
        invariant
            from <= i <= to <= groups.len(),
            s@ =~= start + groups_text(groups@.subrange(from as int, i as int)),
        decreases to - i,
    {
        if i > from {
            s.push(':');
        }
        push_number(s, groups[i] as u128, 16, false, 0);
        proof {
            let longer = groups@.subrange(from as int, i + 1);
            assert(longer.drop_last() =~= groups@.subrange(from as int, i as int));
            assert(longer.last() == groups@[i as int]);
        }
        i += 1;
    }
}

impl From<IPv6> for H2Type {
    fn from(o: IPv6) -> (t: H2Type) {
        H2Type::new(H2Types::IPv6(o))
    }
}

impl vstd::std_specs::convert::FromSpecImpl<IPv6> for H2Type {
    open spec fn obeys_from_spec() -> bool {
        true
    }

    /// The type of this kind, without an alignment.
    open spec fn from_spec(o: IPv6) -> H2Type {
        H2Type { field: H2Types::IPv6(o), byte_alignment: None }
    }
}

impl From<(u64, IPv6)> for H2Type {
    fn from(o: (u64, IPv6)) -> (t: H2Type) {
        H2Type::new_aligned(Some(o.0), H2Types::IPv6(o.1))
    }
}

impl vstd::std_specs::convert::FromSpecImpl<(u64, IPv6)> for H2Type {
    open spec fn obeys_from_spec() -> bool {
        true
    }

    /// The type of this kind, aligned to the given number of bytes.
    open spec fn from_spec(o: (u64, IPv6)) -> H2Type {
        H2Type { field: H2Types::IPv6(o.1), byte_alignment: Some(o.0) }
    }
}

impl IPv6 {
    pub fn new(endian: Endian) -> (a: Self)
        ensures
            a == (IPv6 { endian }),
    {
        IPv6 { endian }
    }

    pub fn is_static(&self) -> (b: bool)
        ensures
            b,
    {
        true
    }

    pub fn size(&self, _offset: &ResolveOffset) -> (r: Result<u64, H2Error>)
        ensures
            r == Ok::<u64, H2Error>(16),
    {
        Ok(16)
    }

    /// The text of an address: without data its name; with data the text of
    /// the sixteen bytes at the position.
    pub open spec fn to_string_spec(self, offset: OffsetView) -> Result<Seq<char>, H2Error> {
        match offset.data {
            None => Ok("IPv6"@),
            Some(data) => if offset.position + 16 <= data.len() {
                Ok(
                    ipv6_text(
                        groups_of(
                            network_order(
                                self.endian,
                                data.subrange(
                                    offset.position as int,
                                    (offset.position + 16) as int,
                                ),
                            ),
                        ),
                    ),
                )
            } else {
                Err(H2Error::ReadOutOfBounds)
            },
        }
    }

    /// The eight groups of the address at the cursor.
    fn read_groups(&self, offset: &ResolveOffset) -> (r: Result<Vec<u16>, H2Error>)
        requires
            offset@.data is Some,
        ensures
            r matches Ok(g) ==> offset@.position + 16 <= offset@.data->Some_0.len() && g@
                == groups_of(
                network_order(
                    self.endian,
                    offset@.data->Some_0.subrange(
                        offset@.position as int,
                        (offset@.position + 16) as int,
                    ),
                ),
            ),
            r matches Err(e) ==> e == H2Error::ReadOutOfBounds && offset@.position + 16
                > offset@.data->Some_0.len(),
    {
        match offset {
            ResolveOffset::Static(_) => Err(H2Error::ReadOutOfBounds),
            ResolveOffset::Dynamic(context) => {
                let start = context.position();
                let len = context.len();
                if start > len as u64 || len - (start as usize) < 16 {
                    return Err(H2Error::ReadOutOfBounds);
                }
                let ghost stored = context.bytes().subrange(start as int, start + 16);
                let ghost ordered = network_order(self.endian, stored);
                let mut groups: Vec<u16> = Vec::new();
                let mut i: u64 = 0;
                while i < 8
                    invariant
                        i <= 8,
                        start + 16 <= context.bytes().len(),
                        len == context.bytes().len(),
                        start == context.offset(),
                        stored == context.bytes().subrange(start as int, start + 16),
                        ordered == network_order(self.endian, stored),
                        groups@ =~= groups_of(ordered).subrange(0, i as int),
                    decreases 8 - i,
                {
                    let (high_at, low_at) = match self.endian {
                        Endian::Big => (2 * i, 2 * i + 1),
                        Endian::Little => (15 - 2 * i, 14 - 2 * i),
                    };
                    let high = context.at(start + high_at).read_u8().unwrap();
                    let low = context.at(start + low_at).read_u8().unwrap();
                    assert(high == ordered[2 * i] && low == ordered[2 * i + 1]);
                    groups.push((high as u16) * 256 + low as u16);
                    i += 1;
                }
                assert(groups_of(ordered).subrange(0, 8) =~= groups_of(ordered));
                Ok(groups)
            },
        }
    }

    pub fn to_string(&self, offset: &ResolveOffset) -> (r: Result<String, H2Error>)
        ensures
            r matches Ok(s) ==> self.to_string_spec(offset@) == Ok::<Seq<char>, H2Error>(s@),
            r matches Err(e) ==> self.to_string_spec(offset@) == Err::<Seq<char>, H2Error>(e),
    {
        match offset {
            ResolveOffset::Static(_) => Ok(String::from_str("IPv6")),
            ResolveOffset::Dynamic(_) => {
                let groups = match self.read_groups(offset) {
                    Ok(g) => g,
                    Err(e) => {
                        return Err(e);
                    },
                };
                let mut s = String::new();
                if groups[0] == 0 && groups[1] == 0 && groups[2] == 0 && groups[3] == 0
                    && groups[4] == 0 && groups[5] == 0xffff {
                    s.push(':');
                    s.push(':');
                    s.push('f');
                    s.push('f');
                    s.push('f');
                    s.push('f');
                    s.push(':');
                    assert(s@ =~= seq![':', ':', 'f', 'f', 'f', 'f', ':']);
                    push_ipv4(&mut s, (groups[6] as u32) * 0x1_0000 + groups[7] as u32);
                    return Ok(s);
                }
                // The longest run of zero groups, found from the last group
                // backwards.
                let mut run_start: usize = 8;
                let mut run_len: usize = 0;
                let mut zeros: usize = 0;
                let mut i: usize = 8;
                while i > 0
                    invariant
                        i <= 8,
                        groups@.len() == 8,
                        zeros == zeros_from(groups@, i as nat),
                        (run_start as nat, run_len as nat) == longest_zero_run(groups@, i as nat),
                        zeros <= 8 - i,
                        run_len <= 8,
                    decreases i,
                {
                    i -= 1;
                    proof {
                        lemma_zero_run_fits(groups@, (i + 1) as nat);
                    }
                    if groups[i] == 0 {
                        zeros += 1;
                    } else {
                        zeros = 0;
                    }
                    if zeros > 0 && zeros >= run_len {
                        run_start = i;
                        run_len = zeros;
                    }
                }
                proof {
                    lemma_zero_run_fits(groups@, 0);
                }
                if run_len > 1 {
                    push_groups(&mut s, &groups, 0, run_start);
                    s.push(':');
                    s.push(':');
                    push_groups(&mut s, &groups, run_start + run_len, 8);
                    assert(s@ =~= ipv6_text(groups@));
                } else {
                    push_groups(&mut s, &groups, 0, 8);
                    assert(groups@.subrange(0, 8) =~= groups@);
                }
                Ok(s)
            },
        }
    }
}

} // verus!
