//! What holds of applying and undoing: an undo takes back exactly what the
//! apply did, applying again brings it back, and an action is always armed
//! for exactly one of the two.

use vstd::prelude::*;
use crate::action::buffer_create_empty::zero_bytes;
use crate::action::ActionView;
use crate::error::H2Error;
use crate::h2project::h2buffer::BufferView;
use crate::h2project::ProjectView;

verus! {

/// Undoing an action that was just applied gives back the project as it
/// was, and the action as it was before it was applied.
pub proof fn lemma_apply_then_undo(a: ActionView, p: ProjectView)
    requires
        p.wf(),
        a.is_pending(),
        a.apply_spec(p) is Ok,
    ensures
        a.apply_spec(p)->Ok_0.0.undo_spec(a.apply_spec(p)->Ok_0.1) == Ok::<
            (ActionView, ProjectView),
            H2Error,
        >((a, p)),
{
    let after = a.apply_spec(p)->Ok_0.1;
    match a {
        ActionView::Null => {},
        ActionView::ProjectRename(r) => {},
        ActionView::BufferCreateEmpty(c) => {
            let name = c.forward->Some_0.name;
            assert(after.buffers.remove(name) =~= p.buffers);
        },
        ActionView::BufferCreateFromBytes(c) => {
            let name = c.forward->Some_0.name;
            assert(after.buffers.remove(name) =~= p.buffers);
        },
        ActionView::BufferDelete(d) => {
            let name = d.forward->Some_0;
            assert(after.buffers.insert(name, p.buffers[name]) =~= p.buffers);
        },
    }
}

/// Whether the project is in the state that the applied action left its
/// buffer in: a created buffer is still as it was created, and the name of
/// a deleted buffer is still free.
pub open spec fn untouched_since(a: ActionView, p: ProjectView) -> bool {
    match a {
        ActionView::Null => true,
        ActionView::ProjectRename(r) => true,
        ActionView::BufferCreateEmpty(c) => c.backward matches Some(b) && p.buffers.dom().contains(
            b.name,
        ) && p.buffers[b.name] == BufferView::fresh(zero_bytes(b.size as nat), b.base_address),
        ActionView::BufferCreateFromBytes(c) => c.backward matches Some(name)
            && p.buffers.dom().contains(name) && p.buffers[name] == BufferView::fresh(
            p.buffers[name].data,
            p.buffers[name].base_address,
        ),
        ActionView::BufferDelete(d) => d.backward matches Some(b) && !b.1.is_populated(),
    }
}

/// An action that was just applied has left the project in such a state.
pub proof fn lemma_apply_leaves_untouched(a: ActionView, p: ProjectView)
    requires
        p.wf(),
        a.apply_spec(p) is Ok,
    ensures
        untouched_since(a.apply_spec(p)->Ok_0.0, a.apply_spec(p)->Ok_0.1),
        a.apply_spec(p)->Ok_0.0.is_done(),
        a.apply_spec(p)->Ok_0.1.wf(),
{
    let after = a.apply_spec(p)->Ok_0.1;
    match a {
        ActionView::BufferCreateEmpty(c) => {
            assert(after.buffers.dom().finite());
        },
        ActionView::BufferCreateFromBytes(c) => {
            assert(after.buffers.dom().finite());
        },
        ActionView::BufferDelete(d) => {
            assert(after.buffers.dom().finite());
        },
        _ => {},
    }
}

/// Applying again an action that was just undone gives back the project as
/// it was before the undo, and the action as it was.
pub proof fn lemma_undo_then_redo(a: ActionView, p: ProjectView)
    requires
        p.wf(),
        a.is_done(),
        untouched_since(a, p),
        a.undo_spec(p) is Ok,
    ensures
        a.undo_spec(p)->Ok_0.0.apply_spec(a.undo_spec(p)->Ok_0.1) == Ok::<
            (ActionView, ProjectView),
            H2Error,
        >((a, p)),
{
    let before = a.undo_spec(p)->Ok_0.1;
    match a {
        ActionView::Null => {},
        ActionView::ProjectRename(r) => {},
        ActionView::BufferCreateEmpty(c) => {
            let name = c.backward->Some_0.name;
            assert(before.buffers.insert(name, p.buffers[name]) =~= p.buffers);
        },
        ActionView::BufferCreateFromBytes(c) => {
            let name = c.backward->Some_0;
            assert(before.buffers.insert(name, p.buffers[name]) =~= p.buffers);
        },
        ActionView::BufferDelete(d) => {
            let name = d.backward->Some_0.0;
            assert(before.buffers.remove(name) =~= p.buffers);
        },
    }
}

/// A step never leaves both slots of an action filled, nor both empty:
/// after an apply that succeeded the action is armed for undoing and for
/// nothing else, after an undo that succeeded for applying and for nothing
/// else. A step that fails leaves the action as it was.
pub proof fn lemma_slots_stay_exclusive(a: ActionView, p: ProjectView)
    ensures
        a.apply_spec(p) matches Ok(s) ==> s.0.wf() && s.0.is_done(),
        a.undo_spec(p) matches Ok(s) ==> s.0.wf() && s.0.is_pending(),
        a.is_pending() || a.is_done() ==> a.wf(),
{
}

/// Applying twice fails, and so does undoing what was not applied.
pub proof fn lemma_out_of_order_is_refused(a: ActionView, p: ProjectView)
    requires
        !(a is Null),
    ensures
        a.wf() && a.is_done() ==> a.apply_spec(p) == Err::<(ActionView, ProjectView), H2Error>(
            H2Error::MissingContext,
        ),
        a.wf() && a.is_pending() ==> a.undo_spec(p) == Err::<(ActionView, ProjectView), H2Error>(
            H2Error::MissingContext,
        ),
{
}

} // verus!
