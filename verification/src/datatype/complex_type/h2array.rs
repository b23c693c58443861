//! An array: a number of elements of one type, one after the other.

use vstd::prelude::*;
use crate::datatype::{
    fits,
    lemma_round_up,
    placed_views,
    same_places,
    same_size,
    same_text,
    Align,
    H2Type,
    H2Types,
    OffsetView,
    PartiallyResolvedType,
    Placed,
    ResolveOffset,
};
use crate::error::H2Error;
use crate::text::{digits, push_number};

verus! {

/// `length` elements of type `field_type`. Each element starts where the
/// aligned size of the one before it ends; the range of an element is as
/// long as its size without alignment, so the padding lies between the
/// elements.
#[derive(Debug)]
pub struct H2Array {
    pub field_type: Box<H2Type>,
    pub length: u64,
}

impl Clone for H2Array {
    fn clone(&self) -> (r: Self)
        ensures
            r == *self,
        decreases self,
    {
        H2Array { field_type: Box::new((*self.field_type).clone()), length: self.length }
    }
}

/// The first `n` elements of an array of `elem` laid out from the position
/// of `offset`, and where the next one would start. Each element is named
/// by its index.
pub open spec fn array_walk(elem: H2Type, offset: OffsetView, n: nat) -> Result<
    (Seq<Placed>, nat),
    H2Error,
>
    decreases elem, n + 2,
{
    if n == 0 {
        Ok((Seq::empty(), offset.position))
    } else {
        match array_walk(elem, offset, (n - 1) as nat) {
            Err(e) => Err(e),
            Ok((before, start)) => match elem.size_spec(offset.at(start)) {
                Err(e) => Err(e),
                Ok(size) => match elem.aligned_size_spec(offset.at(start)) {
                    Err(e) => Err(e),
                    Ok(stride) => match fits(start + stride) {
                        Err(e) => Err(e),
                        Ok(next) => Ok(
                            (
                                before.push(
                                    Placed {
                                        start,
                                        end: start + size,
                                        name: Some(digits((n - 1) as nat, 10, false)),
                                        ty: elem,
                                    },
                                ),
                                next,
                            ),
                        ),
                    },
                },
            },
        }
    }
}

/// The size of an array of `length` elements of `elem`: that many times the
/// aligned size of the element where the element's size does not depend on
/// the data; the distance that a walk over the elements covers where it
/// does.
pub open spec fn array_size(elem: H2Type, length: nat, offset: OffsetView) -> Result<nat, H2Error>
    decreases elem, length + 3,
{
    if elem.is_static_spec() {
        match elem.aligned_size_spec(offset) {
            Ok(stride) => fits(length * stride),
            Err(e) => Err(e),
        }
    } else {
        match array_walk(elem, offset, length) {
            Ok((_, end)) => Ok((end - offset.position) as nat),
            Err(e) => Err(e),
        }
    }
}

/// The texts of the first `n` of `children`, each an `elem` rendered where
/// it starts.
pub open spec fn array_strings(elem: H2Type, offset: OffsetView, children: Seq<Placed>, n: nat) -> Result<
    Seq<Seq<char>>,
    H2Error,
>
    decreases elem, n + 1,
{
    if n == 0 {
        Ok(Seq::empty())
    } else {
        match array_strings(elem, offset, children, (n - 1) as nat) {
            Err(e) => Err(e),
            Ok(before) => match elem.to_string_spec(offset.at(children[n - 1].start)) {
                Err(e) => Err(e),
                Ok(s) => Ok(before.push(s)),
            },
        }
    }
}

/// The leaves of the first `n` of `children`, each an `elem` resolved where
/// it starts, in order.
pub open spec fn array_resolve(elem: H2Type, offset: OffsetView, children: Seq<Placed>, n: nat) -> Result<
    Seq<Placed>,
    H2Error,
>
    decreases elem, n + 1,
{
    if n == 0 {
        Ok(Seq::empty())
    } else {
        match array_resolve(elem, offset, children, (n - 1) as nat) {
            Err(e) => Err(e),
            Ok(before) => match elem.resolve_spec(offset.at(children[n - 1].start)) {
                Err(e) => Err(e),
                Ok(leaves) => Ok(before + leaves),
            },
        }
    }
}

/// A walk ends no earlier than it starts.
pub proof fn lemma_walk_grows(elem: H2Type, offset: OffsetView, n: nat)
    ensures
        array_walk(elem, offset, n) matches Ok(w) ==> w.1 >= offset.position,
    decreases n,
{
    if n > 0 {
        lemma_walk_grows(elem, offset, (n - 1) as nat);
    }
}

/// `strings` with a comma and a space between each two.
pub open spec fn joined(strings: Seq<Seq<char>>) -> Seq<char>
    decreases strings.len(),
{
    if strings.len() == 0 {
        Seq::empty()
    } else if strings.len() == 1 {
        strings[0]
    } else {
        joined(strings.drop_last()) + seq![',', ' '] + strings.last()
    }
}

/// The text of an array whose elements have the texts `strings`.
pub open spec fn bracketed(strings: Seq<Seq<char>>) -> Seq<char> {
    seq!['['] + joined(strings) + seq![']']
}

/// A walk that fails after some elements fails after more.
pub proof fn lemma_walk_fails_on(elem: H2Type, offset: OffsetView, n: nat, m: nat)
    requires
        n <= m,
        array_walk(elem, offset, n) is Err,
    ensures
        array_walk(elem, offset, m) == array_walk(elem, offset, n),
    decreases m,
{
    if n < m {
        lemma_walk_fails_on(elem, offset, n, (m - 1) as nat);
    }
}

/// A walk over `n` elements places `n` elements.
pub proof fn lemma_walk_count(elem: H2Type, offset: OffsetView, n: nat)
    ensures
        array_walk(elem, offset, n) matches Ok(w) ==> w.0.len() == n,
    decreases n,
{
    if n > 0 {
        lemma_walk_count(elem, offset, (n - 1) as nat);
    }
}

/// Rendering that fails after some elements fails after more.
pub proof fn lemma_strings_fail_on(
    elem: H2Type,
    offset: OffsetView,
    children: Seq<Placed>,
    n: nat,
    m: nat,
)
    requires
        n <= m,
        array_strings(elem, offset, children, n) is Err,
    ensures
        array_strings(elem, offset, children, m) == array_strings(elem, offset, children, n),
    decreases m,
{
    if n < m {
        lemma_strings_fail_on(elem, offset, children, n, (m - 1) as nat);
    }
}

/// Resolving that fails after some elements fails after more.
pub proof fn lemma_resolve_fails_on(
    elem: H2Type,
    offset: OffsetView,
    children: Seq<Placed>,
    n: nat,
    m: nat,
)
    requires
        n <= m,
        array_resolve(elem, offset, children, n) is Err,
    ensures
        array_resolve(elem, offset, children, m) == array_resolve(elem, offset, children, n),
    decreases m,
{
    if n < m {
        lemma_resolve_fails_on(elem, offset, children, n, (m - 1) as nat);
    }
}

impl From<H2Array> for H2Type {
    fn from(o: H2Array) -> (t: H2Type) {
        H2Type::new(H2Types::H2Array(o))
    }
}

impl vstd::std_specs::convert::FromSpecImpl<H2Array> for H2Type {
    open spec fn obeys_from_spec() -> bool {
        true
    }

    /// The type of this kind, without an alignment.
    open spec fn from_spec(o: H2Array) -> H2Type {
        H2Type { field: H2Types::H2Array(o), byte_alignment: None }
    }
}

impl From<(u64, H2Array)> for H2Type {
    fn from(o: (u64, H2Array)) -> (t: H2Type) {
        H2Type::new_aligned(Some(o.0), H2Types::H2Array(o.1))
    }
}

impl vstd::std_specs::convert::FromSpecImpl<(u64, H2Array)> for H2Type {
    open spec fn obeys_from_spec() -> bool {
        true
    }

    /// The type of this kind, aligned to the given number of bytes.
    open spec fn from_spec(o: (u64, H2Array)) -> H2Type {
        H2Type { field: H2Types::H2Array(o.1), byte_alignment: Some(o.0) }
    }
}

impl H2Array {
    pub fn is_static(&self) -> (b: bool)
        ensures
            b == self.field_type.is_static_spec(),
        decreases self,
    {
        self.field_type.is_static()
    }

    /// The elements laid out from the position of `offset`, and where the
    /// element after the last would start.
    fn walk(&self, offset: &ResolveOffset) -> (r: Result<(Vec<PartiallyResolvedType>, u64), H2Error>)
        ensures
            match (r, array_walk(*self.field_type, offset@, self.length as nat)) {
                (Ok(a), Ok(b)) => placed_views(a.0@) == b.0 && a.1 as nat == b.1,
                (Err(e), Err(f)) => e == f,
                _ => false,
            },
        decreases self, 0nat,
    {
        let mut result: Vec<PartiallyResolvedType> = Vec::new();
        let mut start: u64 = offset.position();
        let mut i: u64 = 0;
        assert(placed_views(result@) =~= Seq::<Placed>::empty());
        while i < self.length
            invariant
                i <= self.length,
                array_walk(*self.field_type, offset@, i as nat) == Ok::<(Seq<Placed>, nat), H2Error>(
                    (placed_views(result@), start as nat),
                ),
            decreases self.length - i,
        {
            let this_offset = offset.at(start);
            let ghost before = placed_views(result@);
            let size = match self.field_type.size(&this_offset, Align::No) {
                Ok(n) => n,
                Err(e) => {
                    proof {
                        lemma_walk_fails_on(
                            *self.field_type,
                            offset@,
                            (i + 1) as nat,
                            self.length as nat,
                        );
                    }
                    return Err(e);
                },
            };
            let stride = match self.field_type.size(&this_offset, Align::Yes) {
                Ok(n) => n,
                Err(e) => {
                    proof {
                        lemma_walk_fails_on(
                            *self.field_type,
                            offset@,
                            (i + 1) as nat,
                            self.length as nat,
                        );
                    }
                    return Err(e);
                },
            };
            if stride > u64::MAX - start {
                proof {
                    lemma_walk_fails_on(
                        *self.field_type,
                        offset@,
                        (i + 1) as nat,
                        self.length as nat,
                    );
                }
                return Err(H2Error::SizeOverflow);
            }
            proof {
                lemma_round_up(size as nat, match self.field_type.byte_alignment {
                    Some(a) => a as nat,
                    None => 0,
                });
            }
            let mut name = String::new();
            push_number(&mut name, i as u128, 10, false, 0);
            assert(name@ =~= digits(i as nat, 10, false));
            result.push(
                PartiallyResolvedType {
                    offset: start..(start + size),
                    field_name: Some(name),
                    field_type: (*self.field_type).clone(),
                },
            );
            assert(placed_views(result@) =~= before.push(
                Placed {
                    start: start as nat,
                    end: (start + size) as nat,
                    name: Some(digits(i as nat, 10, false)),
                    ty: *self.field_type,
                },
            ));
            start = start + stride;
            i += 1;
        }
        Ok((result, start))
    }

    /// The size of the array without the padding of its own alignment.
    pub fn size(&self, offset: &ResolveOffset) -> (r: Result<u64, H2Error>)
        ensures
            same_size(r, array_size(*self.field_type, self.length as nat, offset@)),
        decreases self, 1nat,
    {
        if self.is_static() {
            let stride = match self.field_type.size(offset, Align::Yes) {
                Ok(n) => n,
                Err(e) => {
                    return Err(e);
                },
            };
            assert(self.length * stride <= u64::MAX * u64::MAX) by (nonlinear_arith)
                requires
                    self.length <= u64::MAX,
                    stride <= u64::MAX,
            ;
            let product: u128 = (self.length as u128) * (stride as u128);
            if product > u64::MAX as u128 {
                Err(H2Error::SizeOverflow)
            } else {
                Ok(product as u64)
            }
        } else {
            match self.walk(offset) {
                Ok((_, end)) => {
                    proof {
                        lemma_walk_grows(*self.field_type, offset@, self.length as nat);
                    }
                    Ok(end - offset.position())
                },
                Err(e) => Err(e),
            }
        }
    }

    /// The elements of the array, each placed on the range that its size
    /// without alignment covers and named by its index.
    pub fn resolve_partial(&self, offset: &ResolveOffset) -> (r: Result<
        Vec<PartiallyResolvedType>,
        H2Error,
    >)
        ensures
            same_places(
                r,
                match array_walk(*self.field_type, offset@, self.length as nat) {
                    Ok((children, _)) => Ok(children),
                    Err(e) => Err(e),
                },
            ),
        decreases self, 1nat,
    {
        match self.walk(offset) {
            Ok((children, _)) => Ok(children),
            Err(e) => Err(e),
        }
    }

    /// The text of the array: the texts of its elements between brackets.
    pub fn to_string(&self, offset: &ResolveOffset) -> (r: Result<String, H2Error>)
        ensures
            same_text(
                r,
                match array_walk(*self.field_type, offset@, self.length as nat) {
                    Err(e) => Err(e),
                    Ok((children, _)) => match array_strings(
                        *self.field_type,
                        offset@,
                        children,
                        children.len(),
                    ) {
                        Err(e) => Err(e),
                        Ok(strings) => Ok(bracketed(strings)),
                    },
                },
            ),
        decreases self, 2nat,
    {
        let children = match self.resolve_partial(offset) {
            Ok(c) => c,
            Err(e) => {
                return Err(e);
            },
        };
        let ghost places = placed_views(children@);
        let ghost strings: Seq<Seq<char>> = Seq::empty();
        let mut out = String::new();
        out.push('[');
        let mut i: usize = 0;
        while i < children.len()
            invariant
                i <= children.len(),
                places == placed_views(children@),
                array_walk(*self.field_type, offset@, self.length as nat) matches Ok(w) && w.0
                    == places,
                array_strings(*self.field_type, offset@, places, i as nat) == Ok::<
                    Seq<Seq<char>>,
                    H2Error,
                >(strings),
                strings.len() == i,
                out@ =~= seq!['['] + joined(strings),
            decreases children.len() - i,
        {
            let child_offset = offset.at(children[i].offset.start);
            assert(places[i as int].start == children@[i as int].offset.start);
            let text = match self.field_type.to_string(&child_offset) {
                Ok(t) => t,
                Err(e) => {
                    proof {
                        lemma_strings_fail_on(
                            *self.field_type,
                            offset@,
                            places,
                            (i + 1) as nat,
                            places.len(),
                        );
                    }
                    return Err(e);
                },
            };
            if i > 0 {
                out.push(',');
                out.push(' ');
            }
            out.push_str(text.as_str());
            proof {
                let longer = strings.push(text@);
                assert(longer.drop_last() =~= strings);
                strings = longer;
            }
            i += 1;
        }
        out.push(']');
        assert(places.len() == children@.len());
        assert(out@ =~= bracketed(strings));
        Ok(out)
    }

    /// The leaves of `children`, which are the elements of this array.
    pub fn resolve_children(
        &self,
        offset: &ResolveOffset,
        children: &Vec<PartiallyResolvedType>,
    ) -> (r: Result<Vec<PartiallyResolvedType>, H2Error>)
        ensures
            same_places(
                r,
                array_resolve(
                    *self.field_type,
                    offset@,
                    placed_views(children@),
                    children@.len(),
                ),
            ),
        decreases self, 1nat,
    {
        let ghost places = placed_views(children@);
        let mut result: Vec<PartiallyResolvedType> = Vec::new();
        let mut i: usize = 0;
        assert(placed_views(result@) =~= Seq::<Placed>::empty());
        while i < children.len()
            invariant
                i <= children.len(),
                places == placed_views(children@),
                array_resolve(*self.field_type, offset@, places, i as nat) == Ok::<
                    Seq<Placed>,
                    H2Error,
                >(placed_views(result@)),
            decreases children.len() - i,
        {
            let child_offset = offset.at(children[i].offset.start);
            assert(places[i as int].start == children@[i as int].offset.start);
            let mut leaves = match self.field_type.fully_resolve(&child_offset) {
                Ok(l) => l,
                Err(e) => {
                    proof {
                        lemma_resolve_fails_on(
                            *self.field_type,
                            offset@,
                            places,
                            (i + 1) as nat,
                            places.len(),
                        );
                    }
                    return Err(e);
                },
            };
            let ghost before = placed_views(result@);
            let ghost added = placed_views(leaves@);
            result.append(&mut leaves);
            assert(placed_views(result@) =~= before + added);
            i += 1;
        }
        Ok(result)
    }

    /// An array of `length` elements of `field_type`. An array has at least
    /// one element.
    pub fn new(length: u64, field_type: H2Type) -> (r: Result<Self, H2Error>)
        ensures
            length == 0 ==> r == Err::<Self, H2Error>(H2Error::EmptyArray),
            length > 0 ==> r == Ok::<Self, H2Error>(
                H2Array { field_type: Box::new(field_type), length },
            ),
    {
        if length == 0 {
            return Err(H2Error::EmptyArray);
        }
        Ok(Self { field_type: Box::new(field_type), length })
    }
}

} // verus!
