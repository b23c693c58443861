//! What holds of the layout of a type whose size does not depend on the
//! data: where its parts lie and how its leaves cover its bytes.

use vstd::prelude::*;
use crate::datatype::complex_type::h2array::{array_resolve, array_size, array_walk};
use crate::datatype::{fits, lemma_round_up, H2Type, H2Types, OffsetView, Placed};
use crate::error::H2Error;
use crate::text::digits;

verus! {

/// The sizes of a static type are the same at every offset, with or without
/// data.
pub proof fn lemma_static_size_everywhere(t: H2Type, a: OffsetView, b: OffsetView)
    requires
        t.is_static_spec(),
    ensures
        t.size_spec(a) == t.size_spec(b),
        t.aligned_size_spec(a) == t.aligned_size_spec(b),
    decreases t,
{
    match t.field {
        H2Types::H2Array(arr) => {
            lemma_static_size_everywhere(*arr.field_type, a, b);
        },
        _ => {},
    }
}

/// The element with index `i` of an array of static elements with the size
/// `size` and the aligned size `stride`, laid out from `position`.
pub open spec fn element_at(elem: H2Type, position: nat, size: nat, stride: nat, i: nat) -> Placed {
    Placed {
        start: position + i * stride,
        end: position + i * stride + size,
        name: Some(digits(i, 10, false)),
        ty: elem,
    }
}

/// The elements of an array of static elements lie one aligned size apart,
/// each as long as the size without alignment; the walk over `n` of them
/// ends `n` aligned sizes after its start, and fails only where that does
/// not fit.
pub proof fn lemma_array_layout(elem: H2Type, offset: OffsetView, size: nat, stride: nat, n: nat)
    requires
        offset.position <= u64::MAX,
        elem.is_static_spec(),
        elem.size_spec(offset) == Ok::<nat, H2Error>(size),
        elem.aligned_size_spec(offset) == Ok::<nat, H2Error>(stride),
    ensures
        offset.position + n * stride <= u64::MAX ==> (array_walk(elem, offset, n) matches Ok(w)
            && w.1 == offset.position + n * stride && w.0.len() == n && forall|i: int|
            0 <= i < n ==> #[trigger] w.0[i] == element_at(
                elem,
                offset.position,
                size,
                stride,
                i as nat,
            )),
        offset.position + n * stride > u64::MAX ==> array_walk(elem, offset, n) == Err::<
            (Seq<Placed>, nat),
            H2Error,
        >(H2Error::SizeOverflow),
    decreases n,
{
    if n > 0 {
        let m = (n - 1) as nat;
        lemma_array_layout(elem, offset, size, stride, m);
        assert(m * stride + stride == n * stride) by (nonlinear_arith)
            requires
                m + 1 == n,
        ;
        if offset.position + m * stride <= u64::MAX {
            let start = offset.position + m * stride;
            lemma_static_size_everywhere(elem, offset, offset.at(start));
        }
    } else {
        assert(0 * stride == 0) by (nonlinear_arith);
    }
}

/// The size of an array of static elements is the number of its elements
/// times the aligned size of one.
pub proof fn lemma_static_array_size(elem: H2Type, length: nat, offset: OffsetView, stride: nat)
    requires
        elem.is_static_spec(),
        elem.aligned_size_spec(offset) == Ok::<nat, H2Error>(stride),
    ensures
        array_size(elem, length, offset) == fits(length * stride),
{
}

/// The aligned sizes of the first `n` of `children`, added up.
pub open spec fn sum_of_aligned_sizes(children: Seq<Placed>, offset: OffsetView, n: nat) -> nat
    decreases n,
{
    if n == 0 {
        0
    } else {
        sum_of_aligned_sizes(children, offset, (n - 1) as nat) + (match children[n
            - 1].ty.aligned_size_spec(offset.at(children[n - 1].start)) {
            Ok(s) => s,
            Err(_) => 0,
        })
    }
}

/// The aligned sizes of the parts of an array of static elements add up to
/// the size of the array.
pub proof fn lemma_array_size_is_sum_of_children(t: H2Type, offset: OffsetView)
    requires
        offset.position <= u64::MAX,
        t.is_static_spec(),
        t.field is H2Array,
        t.size_spec(offset) is Ok,
        t.children_spec(offset) is Ok,
    ensures
        sum_of_aligned_sizes(
            t.children_spec(offset)->Ok_0,
            offset,
            t.children_spec(offset)->Ok_0.len(),
        ) == t.size_spec(offset)->Ok_0,
{
    let arr = t.field->H2Array_0;
    let elem = *arr.field_type;
    let n = arr.length as nat;
    let stride = elem.aligned_size_spec(offset)->Ok_0;
    let size = elem.size_spec(offset)->Ok_0;
    let children = t.children_spec(offset)->Ok_0;
    lemma_array_layout(elem, offset, size, stride, n);
    lemma_sum_of_equal_strides(elem, offset, size, stride, children, n);
}

proof fn lemma_sum_of_equal_strides(
    elem: H2Type,
    offset: OffsetView,
    size: nat,
    stride: nat,
    children: Seq<Placed>,
    k: nat,
)
    requires
        elem.is_static_spec(),
        elem.size_spec(offset) == Ok::<nat, H2Error>(size),
        elem.aligned_size_spec(offset) == Ok::<nat, H2Error>(stride),
        k <= children.len(),
        forall|i: int|
            0 <= i < children.len() ==> #[trigger] children[i] == element_at(
                elem,
                offset.position,
                size,
                stride,
                i as nat,
            ),
    ensures
        sum_of_aligned_sizes(children, offset, k) == k * stride,
    decreases k,
{
    if k > 0 {
        let m = (k - 1) as nat;
        lemma_sum_of_equal_strides(elem, offset, size, stride, children, m);
        assert(children[m as int] == element_at(elem, offset.position, size, stride, m));
        lemma_static_size_everywhere(elem, offset, offset.at(children[m as int].start));
        assert(m * stride + stride == k * stride) by (nonlinear_arith)
            requires
                m + 1 == k,
        ;
    } else {
        assert(0 * stride == 0) by (nonlinear_arith);
    }
}

/// Whether `leaves` lie between `low` and `high`, one after the other
/// without overlap.
pub open spec fn leaves_within(leaves: Seq<Placed>, low: nat, high: nat) -> bool {
    &&& forall|i: int|
        0 <= i < leaves.len() ==> low <= (#[trigger] leaves[i]).start && leaves[i].start
            <= leaves[i].end && leaves[i].end <= high
    &&& forall|i: int, j: int|
        0 <= i < j < leaves.len() ==> (#[trigger] leaves[i]).end <= (#[trigger] leaves[j]).start
}

/// The leaves of a static type cover its bytes in order: the first starts
/// where the type starts, none reaches past the end of the type, and none
/// overlaps another. Between the leaves of an array there may be the
/// padding of its elements.
pub proof fn lemma_leaves_partition(t: H2Type, offset: OffsetView)
    requires
        offset.position <= u64::MAX,
        t.is_static_spec(),
        t.resolve_spec(offset) is Ok,
        t.size_spec(offset) is Ok,
    ensures
        t.resolve_spec(offset)->Ok_0.len() >= 1,
        t.resolve_spec(offset)->Ok_0[0].start == offset.position,
        leaves_within(
            t.resolve_spec(offset)->Ok_0,
            offset.position,
            offset.position + t.size_spec(offset)->Ok_0,
        ),
    decreases t, 0nat,
{
    match t.field {
        H2Types::H2Array(arr) => {
            let elem = *arr.field_type;
            let n = arr.length as nat;
            let walked = array_walk(elem, offset, n);
            let children = walked->Ok_0.0;
            if children.len() > 0 {
                let stride = elem.aligned_size_spec(offset)->Ok_0;
                let size = elem.size_spec(offset)->Ok_0;
                lemma_array_layout(elem, offset, size, stride, n);
                lemma_elements_partition(elem, offset, size, stride, children, n);
            } else {
                crate::datatype::complex_type::h2array::lemma_walk_count(elem, offset, n);
            }
        },
        _ => {},
    }
}

/// The leaves of the first `k` elements of an array of static elements
/// cover, in order, no more than the first `k` aligned sizes.
proof fn lemma_elements_partition(
    elem: H2Type,
    offset: OffsetView,
    size: nat,
    stride: nat,
    children: Seq<Placed>,
    k: nat,
)
    requires
        offset.position + children.len() * stride <= u64::MAX,
        elem.is_static_spec(),
        elem.size_spec(offset) == Ok::<nat, H2Error>(size),
        elem.aligned_size_spec(offset) == Ok::<nat, H2Error>(stride),
        k <= children.len(),
        forall|i: int|
            0 <= i < children.len() ==> #[trigger] children[i] == element_at(
                elem,
                offset.position,
                size,
                stride,
                i as nat,
            ),
        array_resolve(elem, offset, children, k) is Ok,
    ensures
        leaves_within(
            array_resolve(elem, offset, children, k)->Ok_0,
            offset.position,
            offset.position + k * stride,
        ),
        k >= 1 ==> array_resolve(elem, offset, children, k)->Ok_0.len() >= 1 && array_resolve(
            elem,
            offset,
            children,
            k,
        )->Ok_0[0].start == offset.position,
    decreases elem, k + 1,
{
    if k > 0 {
        let m = (k - 1) as nat;
        let before = array_resolve(elem, offset, children, m)->Ok_0;
        lemma_elements_partition(elem, offset, size, stride, children, m);
        assert(children[m as int] == element_at(elem, offset.position, size, stride, m));
        let start = offset.position + m * stride;
        let here = offset.at(start);
        assert(m * stride <= children.len() * stride) by (nonlinear_arith)
            requires
                m <= children.len(),
        ;
        lemma_static_size_everywhere(elem, offset, here);
        lemma_leaves_partition(elem, here);
        let leaves = elem.resolve_spec(here)->Ok_0;
        let all = before + leaves;
        assert(array_resolve(elem, offset, children, k)->Ok_0 == all);
        lemma_round_up(size, match elem.byte_alignment {
            Some(a) => a as nat,
            None => 0,
        });
        assert(size <= stride);
        assert(m * stride + stride == k * stride) by (nonlinear_arith)
            requires
                m + 1 == k,
        ;
        assert(m * stride >= 0) by (nonlinear_arith);
        let low = offset.position;
        let high = offset.position + k * stride;
        assert forall|i: int| 0 <= i < all.len() implies low <= (#[trigger] all[i]).start
            && all[i].start <= all[i].end && all[i].end <= high by {
            if i < before.len() {
                assert(all[i] == before[i]);
            } else {
                assert(all[i] == leaves[i - before.len()]);
            }
        }
        assert forall|i: int, j: int| 0 <= i < j < all.len() implies (#[trigger] all[i]).end <= (
        #[trigger] all[j]).start by {
            if j < before.len() {
                assert(all[i] == before[i]);
                assert(all[j] == before[j]);
            } else if i < before.len() {
                assert(all[i] == before[i]);
                assert(all[j] == leaves[j - before.len()]);
            } else {
                assert(all[i] == leaves[i - before.len()]);
                assert(all[j] == leaves[j - before.len()]);
            }
        }
        if m == 0 {
            assert(before.len() == 0);
            assert(all[0] == leaves[0]);
            assert(0 * stride == 0) by (nonlinear_arith);
        } else {
            assert(all[0] == before[0]);
        }
    } else {
        assert(0 * stride == 0) by (nonlinear_arith);
    }
}

/// Whether no element anywhere in the type is padded: the aligned size of
/// the element of every array in it is its size.
pub open spec fn is_packed(t: H2Type) -> bool
    decreases t,
{
    match t.field {
        H2Types::H2Array(a) => is_packed(*a.field_type) && a.field_type.aligned_size_spec(
            OffsetView { data: None, position: 0 },
        ) == a.field_type.size_spec(OffsetView { data: None, position: 0 }),
        _ => true,
    }
}

/// Whether `leaves` cover the bytes from `low` to `high` without a gap: the
/// first starts at `low`, each starts where the one before it ends, and the
/// last ends at `high`.
pub open spec fn leaves_cover(leaves: Seq<Placed>, low: nat, high: nat) -> bool {
    &&& leaves.len() >= 1
    &&& leaves[0].start == low
    &&& leaves.last().end == high
    &&& forall|i: int|
        0 <= i < leaves.len() - 1 ==> (#[trigger] leaves[i]).end == leaves[i + 1].start
}

/// The leaves of a static type without padding cover its bytes exactly:
/// from where the type starts to where it ends, without a gap.
pub proof fn lemma_leaves_cover_exactly(t: H2Type, offset: OffsetView)
    requires
        offset.position <= u64::MAX,
        t.is_static_spec(),
        is_packed(t),
        t.resolve_spec(offset) is Ok,
        t.size_spec(offset) is Ok,
    ensures
        leaves_cover(
            t.resolve_spec(offset)->Ok_0,
            offset.position,
            offset.position + t.size_spec(offset)->Ok_0,
        ),
    decreases t, 0nat,
{
    match t.field {
        H2Types::H2Array(arr) => {
            let elem = *arr.field_type;
            let n = arr.length as nat;
            let children = array_walk(elem, offset, n)->Ok_0.0;
            if children.len() > 0 {
                let stride = elem.aligned_size_spec(offset)->Ok_0;
                let size = elem.size_spec(offset)->Ok_0;
                lemma_static_size_everywhere(elem, offset, OffsetView { data: None, position: 0 });
                lemma_array_layout(elem, offset, size, stride, n);
                lemma_elements_cover(elem, offset, size, children, n);
            } else {
                crate::datatype::complex_type::h2array::lemma_walk_count(elem, offset, n);
            }
        },
        _ => {},
    }
}

/// The leaves of the first `k` elements of an array of static elements
/// without padding cover exactly the first `k` sizes.
proof fn lemma_elements_cover(
    elem: H2Type,
    offset: OffsetView,
    size: nat,
    children: Seq<Placed>,
    k: nat,
)
    requires
        offset.position + children.len() * size <= u64::MAX,
        elem.is_static_spec(),
        is_packed(elem),
        elem.size_spec(offset) == Ok::<nat, H2Error>(size),
        elem.aligned_size_spec(offset) == Ok::<nat, H2Error>(size),
        1 <= k <= children.len(),
        forall|i: int|
            0 <= i < children.len() ==> #[trigger] children[i] == element_at(
                elem,
                offset.position,
                size,
                size,
                i as nat,
            ),
        array_resolve(elem, offset, children, k) is Ok,
    ensures
        leaves_cover(
            array_resolve(elem, offset, children, k)->Ok_0,
            offset.position,
            offset.position + k * size,
        ),
    decreases elem, k + 1,
{
    let m = (k - 1) as nat;
    let before = array_resolve(elem, offset, children, m)->Ok_0;
    assert(children[m as int] == element_at(elem, offset.position, size, size, m));
    let start = offset.position + m * size;
    let here = offset.at(start);
    assert(m * size <= children.len() * size) by (nonlinear_arith)
        requires
            m <= children.len(),
    ;
    assert(m * size + size == k * size) by (nonlinear_arith)
        requires
            m + 1 == k,
    ;
    lemma_static_size_everywhere(elem, offset, here);
    lemma_leaves_cover_exactly(elem, here);
    let leaves = elem.resolve_spec(here)->Ok_0;
    let all = before + leaves;
    assert(array_resolve(elem, offset, children, k)->Ok_0 == all);
    if m == 0 {
        assert(before.len() == 0);
        assert(all =~= leaves);
        assert(0 * size == 0) by (nonlinear_arith);
    } else {
        lemma_elements_cover(elem, offset, size, children, m);
        assert(all[0] == before[0]);
        assert(all.last() == leaves.last());
        assert forall|i: int| 0 <= i < all.len() - 1 implies (#[trigger] all[i]).end == all[i
            + 1].start by {
            if i + 1 < before.len() {
                assert(all[i] == before[i] && all[i + 1] == before[i + 1]);
            } else if i + 1 == before.len() {
                assert(all[i] == before.last());
                assert(all[i + 1] == leaves[0]);
            } else {
                assert(all[i] == leaves[i - before.len()]);
                assert(all[i + 1] == leaves[i + 1 - before.len()]);
            }
        }
    }
}

} // verus!
