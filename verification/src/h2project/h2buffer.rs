//! A data buffer: the bytes of a project, the transformations that were
//! applied to them and the layers that annotate them.
//!
//! A buffer that has a layer is populated, and its bytes are frozen: a
//! transformation or an edit would leave the layer pointing at bytes that
//! are no longer there.

use vstd::prelude::*;
use core::ops::Range;
use crate::error::H2Error;
use crate::bytes::copy_of;
use crate::transformation::{Transformation, TransformationView};

verus! {

/// A named overlay on a buffer.
#[derive(Debug)]
pub struct H2Layer {
    pub name: String,
    pub buffer: String,
}

impl H2Layer {
    pub fn new(name: String, buffer: String) -> (l: Self)
        ensures
            l.name@ == name@,
            l.buffer@ == buffer@,
    {
        H2Layer { name, buffer }
    }
}

/// The bytes with their base address, the layers over them and the
/// transformations that led to them, in the order they were applied.
#[derive(Debug)]
pub struct H2Buffer {
    pub data: Vec<u8>,
    pub base_address: usize,
    pub layers: Vec<H2Layer>,
    pub transformations: Vec<Transformation>,
}

/// What a buffer stands for.
pub struct BufferView {
    pub data: Seq<u8>,
    pub base_address: usize,
    /// The layers, each by its name and the name of its buffer.
    pub layers: Seq<(Seq<char>, Seq<char>)>,
    pub transformations: Seq<TransformationView>,
}

/// What a stack of transformations stands for.
pub open spec fn transformation_views(v: Seq<Transformation>) -> Seq<TransformationView> {
    Seq::new(v.len(), |i: int| v[i]@)
}

/// What a list of layers stands for.
pub open spec fn layer_views(v: Seq<H2Layer>) -> Seq<(Seq<char>, Seq<char>)> {
    Seq::new(v.len(), |i: int| (v[i].name@, v[i].buffer@))
}

impl View for H2Buffer {
    type V = BufferView;

    open spec fn view(&self) -> BufferView {
        BufferView {
            data: self.data@,
            base_address: self.base_address,
            layers: layer_views(self.layers@),
            transformations: transformation_views(self.transformations@),
        }
    }
}

impl BufferView {
    /// A buffer holds at least one byte.
    pub open spec fn wf(self) -> bool {
        self.data.len() > 0
    }

    /// A buffer with a layer is populated.
    pub open spec fn is_populated(self) -> bool {
        self.layers.len() > 0
    }

    /// A new buffer of `data` at `base_address`: no layers, no
    /// transformations.
    pub open spec fn fresh(data: Seq<u8>, base_address: usize) -> BufferView {
        BufferView { data, base_address, layers: Seq::empty(), transformations: Seq::empty() }
    }

    /// What `transform` makes of the buffer: the new state and the bytes
    /// that were replaced.
    pub open spec fn transform_spec(self, t: TransformationView) -> Result<
        (BufferView, Seq<u8>),
        H2Error,
    > {
        if self.is_populated() {
            Err(H2Error::BufferPopulated)
        } else {
            match t.transform_spec(self.data) {
                Err(e) => Err(e),
                Ok(new_data) => if new_data.len() == 0 {
                    Err(H2Error::EmptyBuffer)
                } else {
                    Ok(
                        (
                            BufferView {
                                data: new_data,
                                transformations: self.transformations.push(t),
                                ..self
                            },
                            self.data,
                        ),
                    )
                },
            }
        }
    }

    /// What `transform_undo` makes of the buffer: the new state and the
    /// transformation that was taken off.
    pub open spec fn transform_undo_spec(self, previous_data: Seq<u8>) -> Result<
        (BufferView, TransformationView),
        H2Error,
    > {
        if self.is_populated() {
            Err(H2Error::BufferPopulated)
        } else if self.transformations.len() == 0 {
            Err(H2Error::NoTransformations)
        } else if previous_data.len() == 0 {
            Err(H2Error::EmptyBuffer)
        } else {
            Ok(
                (
                    BufferView {
                        data: previous_data,
                        transformations: self.transformations.drop_last(),
                        ..self
                    },
                    self.transformations.last(),
                ),
            )
        }
    }

    /// What `untransform` makes of the buffer: the new state, the bytes
    /// that were replaced and the transformation that was taken off.
    pub open spec fn untransform_spec(self) -> Result<
        (BufferView, Seq<u8>, TransformationView),
        H2Error,
    > {
        if self.is_populated() {
            Err(H2Error::BufferPopulated)
        } else if self.transformations.len() == 0 {
            Err(H2Error::NoTransformations)
        } else {
            match self.transformations.last().untransform_spec(self.data) {
                Err(e) => Err(e),
                Ok(new_data) => if new_data.len() == 0 {
                    Err(H2Error::EmptyBuffer)
                } else {
                    Ok(
                        (
                            BufferView {
                                data: new_data,
                                transformations: self.transformations.drop_last(),
                                ..self
                            },
                            self.data,
                            self.transformations.last(),
                        ),
                    )
                },
            }
        }
    }

    /// What `untransform_undo` makes of the buffer.
    pub open spec fn untransform_undo_spec(
        self,
        previous_data: Seq<u8>,
        t: TransformationView,
    ) -> Result<BufferView, H2Error> {
        if self.is_populated() {
            Err(H2Error::BufferPopulated)
        } else if previous_data.len() == 0 {
            Err(H2Error::EmptyBuffer)
        } else {
            Ok(
                BufferView {
                    data: previous_data,
                    transformations: self.transformations.push(t),
                    ..self
                },
            )
        }
    }

    /// What `edit` makes of the buffer: the new state and the bytes that
    /// were overwritten.
    pub open spec fn edit_spec(self, bytes: Seq<u8>, offset: nat) -> Result<
        (BufferView, Seq<u8>),
        H2Error,
    > {
        if self.is_populated() {
            Err(H2Error::BufferPopulated)
        } else if offset + bytes.len() > self.data.len() {
            Err(H2Error::RangeOutOfBounds)
        } else if bytes.len() == 0 {
            Err(H2Error::EmptyEdit)
        } else {
            Ok(
                (
                    BufferView {
                        data: self.data.subrange(0, offset as int) + bytes + self.data.subrange(
                            (offset + bytes.len()) as int,
                            self.data.len() as int,
                        ),
                        ..self
                    },
                    self.data.subrange(offset as int, (offset + bytes.len()) as int),
                ),
            )
        }
    }

    /// What `clone_partial` gives: a fresh buffer of the bytes in the
    /// range, at the given base address or at the address that the start of
    /// the range has in this buffer.
    pub open spec fn clone_partial_spec(
        self,
        start: nat,
        end: nat,
        new_base_address: Option<usize>,
    ) -> Result<BufferView, H2Error> {
        if end > self.data.len() || start > end {
            Err(H2Error::RangeOutOfBounds)
        } else if new_base_address is None && self.base_address + start > usize::MAX {
            Err(H2Error::SizeOverflow)
        } else if start == end {
            Err(H2Error::EmptyBuffer)
        } else {
            Ok(
                BufferView::fresh(
                    self.data.subrange(start as int, end as int),
                    match new_base_address {
                        Some(b) => b,
                        None => (self.base_address + start) as usize,
                    },
                ),
            )
        }
    }
}

/// Whatever is done to a buffer with success, it holds at least one byte
/// afterwards.
pub proof fn lemma_never_empty(
    b: BufferView,
    t: TransformationView,
    bytes: Seq<u8>,
    offset: nat,
    start: nat,
    end: nat,
    base: Option<usize>,
)
    ensures
        b.transform_spec(t) matches Ok(r) ==> r.0.wf(),
        b.transform_undo_spec(bytes) matches Ok(r) ==> r.0.wf(),
        b.untransform_spec() matches Ok(r) ==> r.0.wf(),
        b.untransform_undo_spec(bytes, t) matches Ok(r) ==> r.wf(),
        b.edit_spec(bytes, offset) matches Ok(r) ==> r.0.wf(),
        b.clone_partial_spec(start, end, base) matches Ok(r) ==> r.wf(),
{
}

/// What the transformations `ts`, applied one after the other, make of
/// `origin`.
pub open spec fn replayed(origin: Seq<u8>, ts: Seq<TransformationView>) -> Result<Seq<u8>, H2Error>
    decreases ts.len(),
{
    if ts.len() == 0 {
        Ok(origin)
    } else {
        match replayed(origin, ts.drop_last()) {
            Err(e) => Err(e),
            Ok(data) => ts.last().transform_spec(data),
        }
    }
}

/// If the stack of a buffer leads from some bytes to the bytes of the
/// buffer, it still does after a transformation.
pub proof fn lemma_transform_keeps_stack_true(b: BufferView, origin: Seq<u8>, t: TransformationView)
    requires
        replayed(origin, b.transformations) == Ok::<Seq<u8>, H2Error>(b.data),
        b.transform_spec(t) is Ok,
    ensures
        replayed(origin, b.transform_spec(t)->Ok_0.0.transformations) == Ok::<Seq<u8>, H2Error>(
            b.transform_spec(t)->Ok_0.0.data,
        ),
{
    let after = b.transform_spec(t)->Ok_0.0;
    assert(after.transformations.drop_last() =~= b.transformations);
}

/// If the stack of a buffer leads from some bytes to the bytes of the
/// buffer, it still does after the last transformation is inverted, where
/// the bytes that it was applied to were written the way its inverse
/// writes them.
pub proof fn lemma_untransform_keeps_stack_true(b: BufferView, origin: Seq<u8>)
    requires
        replayed(origin, b.transformations) == Ok::<Seq<u8>, H2Error>(b.data),
        b.untransform_spec() is Ok,
        b.transformations.last().is_two_way(),
        b.transformations.last().check_spec(
            replayed(origin, b.transformations.drop_last())->Ok_0,
        ),
        b.transformations.last().is_canonical(
            replayed(origin, b.transformations.drop_last())->Ok_0,
        ),
    ensures
        replayed(origin, b.untransform_spec()->Ok_0.0.transformations) == Ok::<Seq<u8>, H2Error>(
            b.untransform_spec()->Ok_0.0.data,
        ),
{
    let previous = replayed(origin, b.transformations.drop_last())->Ok_0;
    crate::transformation::lemma_untransform_inverts(b.transformations.last(), previous);
}

/// Taking back a transformation restores the buffer as it was.
pub proof fn lemma_transform_undo_restores(b: BufferView, t: TransformationView)
    requires
        b.wf(),
        b.transform_spec(t) is Ok,
    ensures
        b.transform_spec(t)->Ok_0.0.transform_undo_spec(b.transform_spec(t)->Ok_0.1) == Ok::<
            (BufferView, TransformationView),
            H2Error,
        >((b, t)),
{
    let after = b.transform_spec(t)->Ok_0.0;
    assert(after.transformations.drop_last() =~= b.transformations);
}

/// Taking back an inversion restores the buffer as it was.
pub proof fn lemma_untransform_undo_restores(b: BufferView)
    requires
        b.wf(),
        b.untransform_spec() is Ok,
    ensures
        b.untransform_spec()->Ok_0.0.untransform_undo_spec(
            b.untransform_spec()->Ok_0.1,
            b.untransform_spec()->Ok_0.2,
        ) == Ok::<BufferView, H2Error>(b),
{
    let after = b.untransform_spec()->Ok_0.0;
    assert(after.transformations.push(b.transformations.last()) =~= b.transformations);
}

/// Inverting a transformation that was just applied gives the bytes back,
/// where the transformation has an inverse and the bytes were written the
/// way the inverse writes them.
pub proof fn lemma_untransform_restores(b: BufferView, t: TransformationView)
    requires
        b.wf(),
        t.is_two_way(),
        t.check_spec(b.data),
        t.is_canonical(b.data),
        b.transform_spec(t) is Ok,
    ensures
        b.transform_spec(t)->Ok_0.0.untransform_spec() == Ok::<
            (BufferView, Seq<u8>, TransformationView),
            H2Error,
        >((b, b.transform_spec(t)->Ok_0.0.data, t)),
{
    let after = b.transform_spec(t)->Ok_0.0;
    crate::transformation::lemma_untransform_inverts(t, b.data);
    assert(after.transformations.drop_last() =~= b.transformations);
}

/// A copy of a stack of transformations.
pub fn copy_transformations(v: &Vec<Transformation>) -> (out: Vec<Transformation>)
    ensures
        transformation_views(out@) == transformation_views(v@),
{
    let mut out: Vec<Transformation> = Vec::new();
    let mut i: usize = 0;
    while i < v.len()
        invariant
            i <= v.len(),
            transformation_views(out@) =~= transformation_views(v@).subrange(0, i as int),
        decreases v.len() - i,
    {
        let copy = v[i].clone();
        let ghost before = transformation_views(out@);
        out.push(copy);
        assert(transformation_views(out@) =~= before.push(v@[i as int]@));
        i += 1;
    }
    assert(transformation_views(v@).subrange(0, v@.len() as int) =~= transformation_views(v@));
    out
}

impl H2Buffer {
    /// A buffer of `data` at `base_address`. A buffer holds at least one
    /// byte.
    pub fn new(data: Vec<u8>, base_address: usize) -> (r: Result<Self, H2Error>)
        ensures
            data@.len() == 0 ==> r == Err::<Self, H2Error>(H2Error::EmptyBuffer),
            data@.len() > 0 ==> r is Ok && r->Ok_0@ == BufferView::fresh(data@, base_address),
            r matches Ok(b) ==> b@.wf(),
    {
        if data.len() == 0 {
            return Err(H2Error::EmptyBuffer);
        }
        let b = H2Buffer { data, base_address, layers: Vec::new(), transformations: Vec::new() };
        assert(b@.layers =~= Seq::empty());
        assert(b@.transformations =~= Seq::empty());
        Ok(b)
    }

    pub fn len(&self) -> (n: usize)
        ensures
            n == self@.data.len(),
    {
        self.data.len()
    }

    /// A copy of the bytes and of the transformations, without the layers,
    /// at `new_base_address` or at the same base address.
    pub fn clone_shallow(&self, new_base_address: Option<usize>) -> (r: Result<Self, H2Error>)
        ensures
            self@.data.len() == 0 ==> r == Err::<Self, H2Error>(H2Error::EmptyBuffer),
            self@.data.len() > 0 ==> r is Ok && r->Ok_0@ == (BufferView {
                base_address: match new_base_address {
                    Some(b) => b,
                    None => self@.base_address,
                },
                layers: Seq::empty(),
                ..self@
            }),
            r matches Ok(b) ==> b@.wf(),
    {
        let base = match new_base_address {
            Some(b) => b,
            None => self.base_address,
        };
        let mut cloned = match Self::new(copy_of(self.data.as_slice()), base) {
            Ok(c) => c,
            Err(e) => {
                return Err(e);
            },
        };
        cloned.transformations = copy_transformations(&self.transformations);
        Ok(cloned)
    }

    /// A copy with the layers. Layers cannot be copied yet.
    pub fn clone_deep(&self) -> (r: Result<(), H2Error>)
        ensures
            r == Err::<(), H2Error>(H2Error::NotImplemented),
    {
        Err(H2Error::NotImplemented)
    }

    /// A new buffer of the bytes in `range`.
    pub fn clone_partial(&self, range: Range<usize>, new_base_address: Option<usize>) -> (r: Result<
        Self,
        H2Error,
    >)
        ensures
            r matches Ok(b) ==> self@.clone_partial_spec(
                range.start as nat,
                range.end as nat,
                new_base_address,
            ) == Ok::<BufferView, H2Error>(b@) && b@.wf(),
            r matches Err(e) ==> self@.clone_partial_spec(
                range.start as nat,
                range.end as nat,
                new_base_address,
            ) == Err::<BufferView, H2Error>(e),
    {
        if range.end > self.data.len() || range.start > range.end {
            return Err(H2Error::RangeOutOfBounds);
        }
        let base_address = match new_base_address {
            Some(b) => b,
            None => {
                if range.start > usize::MAX - self.base_address {
                    return Err(H2Error::SizeOverflow);
                }
                self.base_address + range.start
            },
        };
        let mut part: Vec<u8> = Vec::new();
        let mut i: usize = range.start;
        while i < range.end
            invariant
                range.start <= i <= range.end <= self.data.len(),
                part@ =~= self.data@.subrange(range.start as int, i as int),
            decreases range.end - i,
        {
            part.push(self.data[i]);
            i += 1;
        }
        Self::new(part, base_address)
    }

    /// Whether the buffer has a layer.
    pub fn is_populated(&self) -> (b: bool)
        ensures
            b == self@.is_populated(),
    {
        self.layers.len() > 0
    }

    /// Applies `transformation` to the bytes, puts it on the stack and
    /// returns the bytes that were there. Nothing changes on failure.
    pub fn transform(&mut self, transformation: Transformation) -> (r: Result<Vec<u8>, H2Error>)
        ensures
            r matches Ok(old_data) ==> old(self)@.transform_spec(transformation@) == Ok::<
                (BufferView, Seq<u8>),
                H2Error,
            >((final(self)@, old_data@)) && final(self)@.wf(),
            r matches Err(e) ==> old(self)@.transform_spec(transformation@) == Err::<
                (BufferView, Seq<u8>),
                H2Error,
            >(e) && *final(self) == *old(self),
    {
        if self.is_populated() {
            return Err(H2Error::BufferPopulated);
        }
        let mut new_data = match transformation.transform(&self.data) {
            Ok(d) => d,
            Err(e) => {
                return Err(e);
            },
        };
        if new_data.len() == 0 {
            return Err(H2Error::EmptyBuffer);
        }
        let ghost before = transformation_views(self.transformations@);
        self.transformations.push(transformation);
        assert(transformation_views(self.transformations@) =~= before.push(transformation@));
        core::mem::swap(&mut self.data, &mut new_data);
        Ok(new_data)
    }

    /// Takes back the last `transform`: puts `previous_data` in place and
    /// takes the transformation off the stack. Nothing changes on failure.
    pub fn transform_undo(&mut self, previous_data: Vec<u8>) -> (r: Result<Transformation, H2Error>)
        ensures
            r matches Ok(t) ==> old(self)@.transform_undo_spec(previous_data@) == Ok::<
                (BufferView, TransformationView),
                H2Error,
            >((final(self)@, t@)) && final(self)@.wf(),
            r matches Err(e) ==> old(self)@.transform_undo_spec(previous_data@) == Err::<
                (BufferView, TransformationView),
                H2Error,
            >(e) && *final(self) == *old(self),
    {
        if self.is_populated() {
            return Err(H2Error::BufferPopulated);
        }
        if self.transformations.len() == 0 {
            return Err(H2Error::NoTransformations);
        }
        if previous_data.len() == 0 {
            return Err(H2Error::EmptyBuffer);
        }
        let ghost before = transformation_views(self.transformations@);
        let transformation = self.transformations.pop().unwrap();
        assert(transformation_views(self.transformations@) =~= before.drop_last());
        self.data = previous_data;
        Ok(transformation)
    }

    /// Inverts the last transformation: puts the inverted bytes in place,
    /// takes the transformation off the stack and returns it with the bytes
    /// that were there. Nothing changes on failure.
    pub fn untransform(&mut self) -> (r: Result<(Vec<u8>, Transformation), H2Error>)
        ensures
            r matches Ok(p) ==> old(self)@.untransform_spec() == Ok::<
                (BufferView, Seq<u8>, TransformationView),
                H2Error,
            >((final(self)@, p.0@, p.1@)) && final(self)@.wf(),
            r matches Err(e) ==> old(self)@.untransform_spec() == Err::<
                (BufferView, Seq<u8>, TransformationView),
                H2Error,
            >(e) && *final(self) == *old(self),
    {
        if self.is_populated() {
            return Err(H2Error::BufferPopulated);
        }
        let n = self.transformations.len();
        if n == 0 {
            return Err(H2Error::NoTransformations);
        }
        let mut new_data = match self.transformations[n - 1].untransform(&self.data) {
            Ok(d) => d,
            Err(e) => {
                return Err(e);
            },
        };
        if new_data.len() == 0 {
            return Err(H2Error::EmptyBuffer);
        }
        let ghost before = transformation_views(self.transformations@);
        let transformation = self.transformations.pop().unwrap();
        assert(transformation_views(self.transformations@) =~= before.drop_last());
        core::mem::swap(&mut self.data, &mut new_data);
        Ok((new_data, transformation))
    }

    /// Takes back the last `untransform`: puts `previous_data` in place and
    /// the transformation back on the stack. Nothing changes on failure.
    pub fn untransform_undo(&mut self, previous_data: Vec<u8>, transformation: Transformation) -> (r:
        Result<(), H2Error>)
        ensures
            r is Ok ==> old(self)@.untransform_undo_spec(previous_data@, transformation@) == Ok::<
                BufferView,
                H2Error,
            >(final(self)@) && final(self)@.wf(),
            r matches Err(e) ==> old(self)@.untransform_undo_spec(previous_data@, transformation@)
                == Err::<BufferView, H2Error>(e) && *final(self) == *old(self),
    {
        if self.is_populated() {
            return Err(H2Error::BufferPopulated);
        }
        if previous_data.len() == 0 {
            return Err(H2Error::EmptyBuffer);
        }
        self.data = previous_data;
        let ghost before = transformation_views(self.transformations@);
        self.transformations.push(transformation);
        assert(transformation_views(self.transformations@) =~= before.push(transformation@));
        Ok(())
    }

    /// Writes `data` over the bytes at `offset` and returns the bytes that
    /// were there. The buffer keeps its length. Nothing changes on failure.
    pub fn edit(&mut self, data: Vec<u8>, offset: usize) -> (r: Result<Vec<u8>, H2Error>)
        ensures
            r matches Ok(replaced) ==> old(self)@.edit_spec(data@, offset as nat) == Ok::<
                (BufferView, Seq<u8>),
                H2Error,
            >((final(self)@, replaced@)) && final(self)@.wf(),
            r matches Err(e) ==> old(self)@.edit_spec(data@, offset as nat) == Err::<
                (BufferView, Seq<u8>),
                H2Error,
            >(e) && *final(self) == *old(self),
    {
        if self.is_populated() {
            return Err(H2Error::BufferPopulated);
        }
        let len = self.data.len();
        if offset > len || data.len() > len - offset {
            return Err(H2Error::RangeOutOfBounds);
        }
        if data.len() == 0 {
            return Err(H2Error::EmptyEdit);
        }
        let ghost before = self.data@;
        let mut replaced: Vec<u8> = Vec::new();
        let mut i: usize = 0;
        while i < data.len()
            invariant
                i <= data.len(),
                offset + data.len() <= len,
                self.data.len() == len,
                before.len() == len,
                replaced@ =~= before.subrange(offset as int, offset + i),
                self.data@ =~= before.subrange(0, offset as int) + data@.subrange(0, i as int)
                    + before.subrange(offset + i, len as int),
                self.base_address == old(self).base_address,
                self.layers == old(self).layers,
                self.transformations == old(self).transformations,
            decreases data.len() - i,
        {
            replaced.push(self.data[offset + i]);
            self.data.set(offset + i, data[i]);
            i += 1;
        }
        assert(data@.subrange(0, data@.len() as int) =~= data@);
        Ok(replaced)
    }

    /// Moves the buffer to `new_base_address` and returns the address it
    /// had.
    pub fn rebase(&mut self, new_base_address: usize) -> (r: Result<usize, H2Error>)
        ensures
            r == Ok::<usize, H2Error>(old(self)@.base_address),
            final(self)@ == (BufferView { base_address: new_base_address, ..old(self)@ }),
            old(self)@.wf() ==> final(self)@.wf(),
    {
        let old_base_address = self.base_address;
        self.base_address = new_base_address;
        Ok(old_base_address)
    }
}

} // verus!
