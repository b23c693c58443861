//! Typed views over bytes: a description of a type that, given a position
//! and perhaps the bytes, tells its size, its parts and its text.

use vstd::prelude::*;
use core::ops::Range;
use crate::error::H2Error;
use crate::generic_number::context::Context;

pub mod basic_type;
pub mod complex_type;
pub mod composite;
pub mod layout;

use basic_type::character::Character;
use basic_type::h2number::H2Number;
use basic_type::h2pointer::H2Pointer;
use basic_type::ipv4::IPv4;
use basic_type::ipv6::IPv6;
use basic_type::ntstring::NTString;
use basic_type::unicode::Unicode;
use complex_type::h2array::{array_resolve, array_size, array_strings, array_walk, bracketed, H2Array};

verus! {

/// Where a type is resolved: at an offset alone, which is enough for a type
/// whose layout does not depend on the data, or at a cursor into bytes.
#[derive(Debug, Clone, Copy)]
pub enum ResolveOffset<'a> {
    Static(u64),
    Dynamic(Context<'a>),
}

/// What a resolve offset stands for: the bytes, if there are any, and the
/// position.
pub struct OffsetView {
    pub data: Option<Seq<u8>>,
    pub position: nat,
}

impl OffsetView {
    /// The same bytes, if any, at another position.
    pub open spec fn at(self, position: nat) -> OffsetView {
        OffsetView { data: self.data, position }
    }
}

impl<'a> View for ResolveOffset<'a> {
    type V = OffsetView;

    open spec fn view(&self) -> OffsetView {
        match *self {
            ResolveOffset::Static(n) => OffsetView { data: None, position: n as nat },
            ResolveOffset::Dynamic(c) => OffsetView { data: Some(c.bytes()), position: c.offset() },
        }
    }
}

impl<'a> From<u64> for ResolveOffset<'a> {
    fn from(o: u64) -> (r: ResolveOffset<'a>) {
        ResolveOffset::Static(o)
    }
}

impl<'a> vstd::std_specs::convert::FromSpecImpl<u64> for ResolveOffset<'a> {
    open spec fn obeys_from_spec() -> bool {
        true
    }

    /// The offset without data.
    open spec fn from_spec(o: u64) -> ResolveOffset<'a> {
        ResolveOffset::Static(o)
    }
}

impl<'a> From<Context<'a>> for ResolveOffset<'a> {
    fn from(o: Context<'a>) -> (r: ResolveOffset<'a>) {
        ResolveOffset::Dynamic(o)
    }
}

impl<'a> vstd::std_specs::convert::FromSpecImpl<Context<'a>> for ResolveOffset<'a> {
    open spec fn obeys_from_spec() -> bool {
        true
    }

    /// The offset at the cursor, with the data behind it.
    open spec fn from_spec(o: Context<'a>) -> ResolveOffset<'a> {
        ResolveOffset::Dynamic(o)
    }
}

impl<'a> ResolveOffset<'a> {
    pub fn position(&self) -> (p: u64)
        ensures
            p == self@.position,
    {
        match self {
            ResolveOffset::Static(n) => *n,
            ResolveOffset::Dynamic(c) => c.position(),
        }
    }

    /// The same kind of offset, over the same bytes if any, at `offset`.
    pub fn at(&self, offset: u64) -> (r: ResolveOffset<'a>)
        ensures
            r@ == self@.at(offset as nat),
    {
        match self {
            ResolveOffset::Static(_) => ResolveOffset::Static(offset),
            ResolveOffset::Dynamic(c) => ResolveOffset::Dynamic(c.at(offset)),
        }
    }
}

/// Whether a size is asked for with or without the padding of an alignment.
#[derive(Debug, Clone, Copy, PartialEq, Eq, Structural)]
pub enum Align {
    Yes,
    No,
}

/// The kinds of type.
#[derive(Debug)]
pub enum H2Types {
    H2Number(H2Number),
    H2Pointer(H2Pointer),
    Character(Character),
    IPv4(IPv4),
    IPv6(IPv6),
    Unicode(Unicode),
    NTString(NTString),
    H2Array(H2Array),
}

/// A type: one of the kinds, and perhaps an alignment in bytes.
#[derive(Debug)]
pub struct H2Type {
    pub field: H2Types,
    pub byte_alignment: Option<u64>,
}

/// A type placed on a range of bytes, perhaps under a name.
#[derive(Debug)]
pub struct PartiallyResolvedType {
    pub offset: Range<u64>,
    pub field_name: Option<String>,
    pub field_type: H2Type,
}

impl Clone for H2Types {
    fn clone(&self) -> (r: Self)
        ensures
            r == *self,
        decreases self,
    {
        match self {
            H2Types::H2Number(n) => H2Types::H2Number(*n),
            H2Types::H2Pointer(p) => H2Types::H2Pointer(p.clone()),
            H2Types::Character(c) => H2Types::Character(c.clone()),
            H2Types::IPv4(a) => H2Types::IPv4(*a),
            H2Types::IPv6(a) => H2Types::IPv6(*a),
            H2Types::Unicode(u) => H2Types::Unicode(*u),
            H2Types::NTString(s) => H2Types::NTString(s.clone()),
            H2Types::H2Array(a) => H2Types::H2Array(a.clone()),
        }
    }
}

impl Clone for H2Type {
    fn clone(&self) -> (r: Self)
        ensures
            r == *self,
        decreases self,
    {
        H2Type { field: self.field.clone(), byte_alignment: self.byte_alignment }
    }
}

impl Clone for PartiallyResolvedType {
    fn clone(&self) -> (r: Self)
        ensures
            r@ == self@,
    {
        PartiallyResolvedType {
            offset: self.offset.start..self.offset.end,
            field_name: match &self.field_name {
                Some(s) => Some(s.clone()),
                None => None,
            },
            field_type: self.field_type.clone(),
        }
    }
}

/// What a placed type stands for: the half-open range from `start` to
/// `end`, the name and the type.
pub struct Placed {
    pub start: nat,
    pub end: nat,
    pub name: Option<Seq<char>>,
    pub ty: H2Type,
}

impl View for PartiallyResolvedType {
    type V = Placed;

    open spec fn view(&self) -> Placed {
        Placed {
            start: self.offset.start as nat,
            end: self.offset.end as nat,
            name: match self.field_name {
                Some(s) => Some(s@),
                None => None,
            },
            ty: self.field_type,
        }
    }
}

/// What a list of placed types stands for.
pub open spec fn placed_views(v: Seq<PartiallyResolvedType>) -> Seq<Placed> {
    Seq::new(v.len(), |i: int| v[i]@)
}

/// The least multiple of `multiple` that is not below `n`; `n` itself where
/// `multiple` is zero.
pub open spec fn round_up(n: nat, multiple: nat) -> nat {
    if multiple == 0 || n % multiple == 0 {
        n
    } else {
        (n + multiple - n % multiple) as nat
    }
}

/// `n` rounded up to the alignment, if there is one.
pub open spec fn maybe_round_up(n: nat, alignment: Option<u64>) -> nat {
    match alignment {
        Some(a) => round_up(n, a as nat),
        None => n,
    }
}

/// A size or an address has to fit 64 bits.
pub open spec fn fits(n: nat) -> Result<nat, H2Error> {
    if n <= u64::MAX {
        Ok(n)
    } else {
        Err(H2Error::SizeOverflow)
    }
}

/// Whether a computed size is the one that was specified, or the same error.
pub open spec fn same_size(r: Result<u64, H2Error>, s: Result<nat, H2Error>) -> bool {
    match (r, s) {
        (Ok(a), Ok(b)) => a as nat == b,
        (Err(e), Err(f)) => e == f,
        _ => false,
    }
}

/// Whether a computed list of placed types is the one that was specified,
/// or the same error.
pub open spec fn same_places(
    r: Result<Vec<PartiallyResolvedType>, H2Error>,
    s: Result<Seq<Placed>, H2Error>,
) -> bool {
    match (r, s) {
        (Ok(a), Ok(b)) => placed_views(a@) == b,
        (Err(e), Err(f)) => e == f,
        _ => false,
    }
}

/// Whether a computed text is the one that was specified, or the same error.
pub open spec fn same_text(r: Result<String, H2Error>, s: Result<Seq<char>, H2Error>) -> bool {
    match (r, s) {
        (Ok(a), Ok(b)) => a@ == b,
        (Err(e), Err(f)) => e == f,
        _ => false,
    }
}

/// Rounding up never makes a number smaller, and gives a multiple.
pub proof fn lemma_round_up(n: nat, multiple: nat)
    ensures
        round_up(n, multiple) >= n,
        multiple > 0 ==> round_up(n, multiple) % multiple == 0 && round_up(n, multiple) < n
            + multiple,
{
    if multiple > 0 && n % multiple != 0 {
        let r = n % multiple;
        let q = n / multiple;
        assert(n == multiple * q + r) by (nonlinear_arith)
            requires
                multiple > 0,
                r == n % multiple,
                q == n / multiple,
        ;
        assert((n + multiple - r) == multiple * (q + 1)) by (nonlinear_arith)
            requires
                n == multiple * q + r,
        ;
        assert((multiple * (q + 1)) % multiple == 0) by (nonlinear_arith)
            requires
                multiple > 0,
        ;
    }
}

/// `n` rounded up to `alignment`, if the result fits.
pub fn maybe_round_up_checked(n: u64, alignment: Option<u64>) -> (r: Result<u64, H2Error>)
    ensures
        same_size(r, fits(maybe_round_up(n as nat, alignment))),
{
    match alignment {
        None => Ok(n),
        Some(a) => {
            if a == 0 {
                return Ok(n);
            }
            let rem = n % a;
            if rem == 0 {
                Ok(n)
            } else {
                let pad = a - rem;
                if n > u64::MAX - pad {
                    Err(H2Error::SizeOverflow)
                } else {
                    Ok(n + pad)
                }
            }
        },
    }
}

impl PartiallyResolvedType {
    /// The text of the placed type, rendered where it starts.
    pub fn to_string(&self, offset: &ResolveOffset) -> (r: Result<String, H2Error>)
        ensures
            same_text(r, self@.ty.to_string_spec(offset@.at(self@.start))),
    {
        self.field_type.to_string(&offset.at(self.offset.start))
    }
}

impl H2Type {
    /// The kind of the type.
    pub fn field_type(&self) -> (k: &H2Types)
        ensures
            *k == self.field,
    {
        &self.field
    }

    pub fn is_static(&self) -> (b: bool)
        ensures
            b == self.is_static_spec(),
        decreases self,
    {
        match &self.field {
            H2Types::H2Number(n) => n.is_static(),
            H2Types::H2Pointer(p) => p.is_static(),
            H2Types::Character(c) => c.is_static(),
            H2Types::IPv4(a) => a.is_static(),
            H2Types::IPv6(a) => a.is_static(),
            H2Types::Unicode(u) => u.is_static(),
            H2Types::NTString(s) => s.is_static(),
            H2Types::H2Array(a) => a.is_static(),
        }
    }

    /// The size of the type at `offset`: with `Align::Yes` rounded up to its
    /// alignment, with `Align::No` as it is.
    pub fn size(&self, offset: &ResolveOffset, align: Align) -> (r: Result<u64, H2Error>)
        ensures
            align == Align::No ==> same_size(r, self.size_spec(offset@)),
            align == Align::Yes ==> same_size(r, self.aligned_size_spec(offset@)),
        decreases self, 0nat,
    {
        let size = match &self.field {
            H2Types::H2Number(n) => Ok(n.size()),
            H2Types::H2Pointer(p) => Ok(p.size()),
            H2Types::Character(c) => c.size(offset),
            H2Types::IPv4(a) => a.size(offset),
            H2Types::IPv6(a) => a.size(offset),
            H2Types::Unicode(u) => u.size(offset),
            H2Types::NTString(s) => s.size(offset),
            H2Types::H2Array(a) => a.size(offset),
        };
        match size {
            Err(e) => Err(e),
            Ok(n) => match align {
                Align::No => Ok(n),
                Align::Yes => maybe_round_up_checked(n, self.byte_alignment),
            },
        }
    }

    /// The size of the type at `offset`, rounded up to its alignment.
    pub fn aligned_size(&self, offset: &ResolveOffset) -> (r: Result<u64, H2Error>)
        ensures
            same_size(r, self.aligned_size_spec(offset@)),
    {
        self.size(offset, Align::Yes)
    }

    /// The parts that the type is directly made of.
    pub fn children(&self, offset: &ResolveOffset) -> (r: Result<
        Vec<PartiallyResolvedType>,
        H2Error,
    >)
        ensures
            same_places(r, self.children_spec(offset@)),
    {
        match &self.field {
            H2Types::H2Array(a) => a.resolve_partial(offset),
            _ => {
                let v: Vec<PartiallyResolvedType> = Vec::new();
                assert(placed_views(v@) =~= Seq::<Placed>::empty());
                Ok(v)
            },
        }
    }

    /// The text of the type at `offset`.
    pub fn to_string(&self, offset: &ResolveOffset) -> (r: Result<String, H2Error>)
        ensures
            same_text(r, self.to_string_spec(offset@)),
        decreases self, 0nat,
    {
        match &self.field {
            H2Types::H2Number(n) => n.to_string(offset),
            H2Types::H2Pointer(p) => p.to_string(offset),
            H2Types::Character(c) => c.to_string(offset),
            H2Types::IPv4(a) => a.to_string(offset),
            H2Types::IPv6(a) => a.to_string(offset),
            H2Types::Unicode(u) => u.to_string(offset),
            H2Types::NTString(s) => s.to_string(offset),
            H2Types::H2Array(a) => a.to_string(offset),
        }
    }

    /// What the type refers to elsewhere: for a pointer the address it
    /// holds with the type of its target, for the other kinds nothing.
    pub fn related(&self, offset: &ResolveOffset) -> (r: Result<Vec<(u64, H2Type)>, H2Error>)
        ensures
            r matches Ok(v) ==> self.related_spec(offset@) == Ok::<Seq<(u64, H2Type)>, H2Error>(v@),
            r matches Err(e) ==> self.related_spec(offset@) == Err::<Seq<(u64, H2Type)>, H2Error>(
                e,
            ),
    {
        match &self.field {
            H2Types::H2Pointer(p) => p.related(offset),
            _ => Ok(Vec::new()),
        }
    }

    /// The type itself as its only leaf.
    fn leaf(&self, offset: &ResolveOffset) -> (r: Result<Vec<PartiallyResolvedType>, H2Error>)
        ensures
            same_places(r, self.leaf_spec(offset@)),
    {
        let size = match self.size(offset, Align::No) {
            Ok(n) => n,
            Err(e) => {
                return Err(e);
            },
        };
        let start = offset.position();
        if size > u64::MAX - start {
            return Err(H2Error::SizeOverflow);
        }
        let mut result: Vec<PartiallyResolvedType> = Vec::new();
        result.push(
            PartiallyResolvedType {
                offset: start..(start + size),
                field_name: None,
                field_type: self.clone(),
            },
        );
        assert(placed_views(result@) =~= seq![
            Placed { start: start as nat, end: (start + size) as nat, name: None, ty: *self },
        ]);
        Ok(result)
    }

    /// The leaves of the type, in order: the type itself if it has no
    /// parts, else the leaves of its parts.
    pub fn fully_resolve(&self, offset: &ResolveOffset) -> (r: Result<
        Vec<PartiallyResolvedType>,
        H2Error,
    >)
        ensures
            same_places(r, self.resolve_spec(offset@)),
        decreases self, 0nat,
    {
        match &self.field {
            H2Types::H2Array(a) => {
                let children = match a.resolve_partial(offset) {
                    Ok(c) => c,
                    Err(e) => {
                        return Err(e);
                    },
                };
                if children.len() == 0 {
                    self.leaf(offset)
                } else {
                    a.resolve_children(offset, &children)
                }
            },
            _ => self.leaf(offset),
        }
    }

    /// Whether the size of the type is the same whatever the data.
    pub open spec fn is_static_spec(self) -> bool
        decreases self,
    {
        match self.field {
            H2Types::H2Number(_) => true,
            H2Types::H2Pointer(_) => true,
            H2Types::Character(_) => true,
            H2Types::IPv4(_) => true,
            H2Types::IPv6(_) => true,
            H2Types::Unicode(_) => true,
            H2Types::NTString(_) => false,
            H2Types::H2Array(a) => a.field_type.is_static_spec(),
        }
    }

    /// The size of the type in bytes, without the padding of its alignment.
    pub open spec fn size_spec(self, offset: OffsetView) -> Result<nat, H2Error>
        decreases self, 0nat,
    {
        match self.field {
            H2Types::H2Number(n) => Ok(n.definition.size_spec()),
            H2Types::H2Pointer(p) => Ok(p.definition.size_spec()),
            H2Types::Character(_) => Ok(1),
            H2Types::IPv4(_) => Ok(4),
            H2Types::IPv6(_) => Ok(16),
            H2Types::Unicode(_) => Ok(2),
            H2Types::NTString(_) => NTString::size_spec(offset),
            H2Types::H2Array(a) => array_size(*a.field_type, a.length as nat, offset),
        }
    }

    /// The size of the type in bytes, rounded up to its alignment.
    pub open spec fn aligned_size_spec(self, offset: OffsetView) -> Result<nat, H2Error>
        decreases self, 1nat,
    {
        match self.size_spec(offset) {
            Ok(n) => fits(maybe_round_up(n, self.byte_alignment)),
            Err(e) => Err(e),
        }
    }

    /// The parts that the type is directly made of, placed from the
    /// position of `offset`. A kind without parts has none.
    pub open spec fn children_spec(self, offset: OffsetView) -> Result<Seq<Placed>, H2Error> {
        match self.field {
            H2Types::H2Array(a) => match array_walk(*a.field_type, offset, a.length as nat) {
                Ok((children, _)) => Ok(children),
                Err(e) => Err(e),
            },
            _ => Ok(Seq::empty()),
        }
    }

    /// What the type refers to elsewhere.
    pub open spec fn related_spec(self, offset: OffsetView) -> Result<Seq<(u64, H2Type)>, H2Error> {
        match self.field {
            H2Types::H2Pointer(p) => p.related_spec(offset),
            _ => Ok(Seq::empty()),
        }
    }

    /// The text of the type at `offset`.
    pub open spec fn to_string_spec(self, offset: OffsetView) -> Result<Seq<char>, H2Error>
        decreases self, 0nat,
    {
        match self.field {
            H2Types::H2Number(n) => n.to_string_spec(offset),
            H2Types::H2Pointer(p) => p.to_string_spec(offset),
            H2Types::Character(_) => Character::to_string_spec(offset),
            H2Types::IPv4(a) => a.to_string_spec(offset),
            H2Types::IPv6(a) => a.to_string_spec(offset),
            H2Types::Unicode(u) => u.to_string_spec(offset),
            H2Types::NTString(_) => NTString::to_string_spec(offset),
            H2Types::H2Array(a) => match array_walk(*a.field_type, offset, a.length as nat) {
                Err(e) => Err(e),
                Ok((children, _)) => match array_strings(
                    *a.field_type,
                    offset,
                    children,
                    children.len(),
                ) {
                    Err(e) => Err(e),
                    Ok(strings) => Ok(bracketed(strings)),
                },
            },
        }
    }

    /// The type itself, placed at the position of `offset` over its size
    /// without alignment.
    pub open spec fn leaf_spec(self, offset: OffsetView) -> Result<Seq<Placed>, H2Error> {
        match self.size_spec(offset) {
            Err(e) => Err(e),
            Ok(size) => match fits(offset.position + size) {
                Err(e) => Err(e),
                Ok(end) => Ok(seq![Placed { start: offset.position, end, name: None, ty: self }]),
            },
        }
    }

    /// The leaves of the type: the type itself if it has no parts, else the
    /// leaves of each part resolved where the part starts, in the order of
    /// the parts.
    pub open spec fn resolve_spec(self, offset: OffsetView) -> Result<Seq<Placed>, H2Error>
        decreases self, 0nat,
    {
        match self.field {
            H2Types::H2Array(a) => match array_walk(*a.field_type, offset, a.length as nat) {
                Err(e) => Err(e),
                Ok((children, _)) => if children.len() == 0 {
                    self.leaf_spec(offset)
                } else {
                    array_resolve(*a.field_type, offset, children, children.len())
                },
            },
            _ => self.leaf_spec(offset),
        }
    }

    pub fn new(field: H2Types) -> (t: Self)
        ensures
            t == (H2Type { field, byte_alignment: None }),
    {
        Self { field, byte_alignment: None }
    }

    pub fn new_aligned(byte_alignment: Option<u64>, field: H2Types) -> (t: Self)
        ensures
            t == (H2Type { field, byte_alignment }),
    {
        Self { byte_alignment, field }
    }
}

} // verus!
