//! The changes that can be made to a project. Each can be applied and
//! undone, and carries what the next of the two needs: before it is applied
//! what to do, after that what to take back.

use vstd::prelude::*;
use vstd::string::StringExecFns;
use crate::error::H2Error;
use crate::h2project::{H2Project, ProjectView};

pub mod buffer_create_empty;
pub mod buffer_create_from_bytes;
pub mod buffer_delete;
pub mod null;
pub mod project_rename;
pub mod reversal;

use buffer_create_empty::{
    ActionBufferCreateEmpty,
    ActionBufferCreateEmptyForward,
    CreateEmptyParams,
    CreateEmptyView,
};
use buffer_create_from_bytes::{
    ActionBufferCreateFromBytes,
    ActionBufferCreateFromBytesForward,
    CreateFromBytesParams,
    CreateFromBytesView,
};
use buffer_delete::{ActionBufferDelete, ActionBufferDeleteForward, DeleteView};
use null::NullAction;
use project_rename::{ActionProjectRename, ActionProjectRenameForward, RenameView};

verus! {

/// Whether a step ended as specified: on success the action and the project
/// are the specified ones, on failure the error is the specified one and
/// both are as they were.
pub open spec fn settled<A>(
    r: Result<(), H2Error>,
    spec: Result<(A, ProjectView), H2Error>,
    old_action: A,
    old_project: ProjectView,
    new_action: A,
    new_project: ProjectView,
) -> bool {
    match spec {
        Ok((a, p)) => r is Ok && new_action == a && new_project == p,
        Err(e) => r == Err::<(), H2Error>(e) && new_action == old_action && new_project
            == old_project,
    }
}

/// One change to a project.
#[derive(Debug)]
pub enum Action {
    Null(NullAction),
    ProjectRename(ActionProjectRename),
    BufferCreateEmpty(ActionBufferCreateEmpty),
    BufferCreateFromBytes(ActionBufferCreateFromBytes),
    BufferDelete(ActionBufferDelete),
}

/// What an action stands for.
pub enum ActionView {
    Null,
    ProjectRename(RenameView),
    BufferCreateEmpty(CreateEmptyView),
    BufferCreateFromBytes(CreateFromBytesView),
    BufferDelete(DeleteView),
}

impl View for Action {
    type V = ActionView;

    open spec fn view(&self) -> ActionView {
        match *self {
            Action::Null(_) => ActionView::Null,
            Action::ProjectRename(a) => ActionView::ProjectRename(a@),
            Action::BufferCreateEmpty(a) => ActionView::BufferCreateEmpty(a@),
            Action::BufferCreateFromBytes(a) => ActionView::BufferCreateFromBytes(a@),
            Action::BufferDelete(a) => ActionView::BufferDelete(a@),
        }
    }
}

/// An action with its project, as a step leaves them.
pub open spec fn wrapped<A>(
    r: Result<(A, ProjectView), H2Error>,
    wrap: spec_fn(A) -> ActionView,
) -> Result<(ActionView, ProjectView), H2Error> {
    match r {
        Ok((a, p)) => Ok((wrap(a), p)),
        Err(e) => Err(e),
    }
}

impl ActionView {
    /// Exactly one of the two slots of the action is filled: the one for
    /// applying or the one for undoing. The action that does nothing has no
    /// slots.
    pub open spec fn wf(self) -> bool {
        match self {
            ActionView::Null => true,
            ActionView::ProjectRename(a) => a.wf(),
            ActionView::BufferCreateEmpty(a) => a.wf(),
            ActionView::BufferCreateFromBytes(a) => a.wf(),
            ActionView::BufferDelete(a) => a.wf(),
        }
    }

    /// Whether the action waits to be applied.
    pub open spec fn is_pending(self) -> bool {
        match self {
            ActionView::Null => true,
            ActionView::ProjectRename(a) => a.forward is Some && a.backward is None,
            ActionView::BufferCreateEmpty(a) => a.forward is Some && a.backward is None,
            ActionView::BufferCreateFromBytes(a) => a.forward is Some && a.backward is None,
            ActionView::BufferDelete(a) => a.forward is Some && a.backward is None,
        }
    }

    /// Whether the action was applied and waits to be undone.
    pub open spec fn is_done(self) -> bool {
        match self {
            ActionView::Null => true,
            ActionView::ProjectRename(a) => a.forward is None && a.backward is Some,
            ActionView::BufferCreateEmpty(a) => a.forward is None && a.backward is Some,
            ActionView::BufferCreateFromBytes(a) => a.forward is None && a.backward is Some,
            ActionView::BufferDelete(a) => a.forward is None && a.backward is Some,
        }
    }

    /// What applying makes of the action and of the project.
    pub open spec fn apply_spec(self, p: ProjectView) -> Result<(ActionView, ProjectView), H2Error> {
        match self {
            ActionView::Null => Ok((ActionView::Null, p)),
            ActionView::ProjectRename(a) => wrapped(
                a.apply_spec(p),
                |x: RenameView| ActionView::ProjectRename(x),
            ),
            ActionView::BufferCreateEmpty(a) => wrapped(
                a.apply_spec(p),
                |x: CreateEmptyView| ActionView::BufferCreateEmpty(x),
            ),
            ActionView::BufferCreateFromBytes(a) => wrapped(
                a.apply_spec(p),
                |x: CreateFromBytesView| ActionView::BufferCreateFromBytes(x),
            ),
            ActionView::BufferDelete(a) => wrapped(
                a.apply_spec(p),
                |x: DeleteView| ActionView::BufferDelete(x),
            ),
        }
    }

    /// What undoing makes of the action and of the project.
    pub open spec fn undo_spec(self, p: ProjectView) -> Result<(ActionView, ProjectView), H2Error> {
        match self {
            ActionView::Null => Ok((ActionView::Null, p)),
            ActionView::ProjectRename(a) => wrapped(
                a.undo_spec(p),
                |x: RenameView| ActionView::ProjectRename(x),
            ),
            ActionView::BufferCreateEmpty(a) => wrapped(
                a.undo_spec(p),
                |x: CreateEmptyView| ActionView::BufferCreateEmpty(x),
            ),
            ActionView::BufferCreateFromBytes(a) => wrapped(
                a.undo_spec(p),
                |x: CreateFromBytesView| ActionView::BufferCreateFromBytes(x),
            ),
            ActionView::BufferDelete(a) => wrapped(
                a.undo_spec(p),
                |x: DeleteView| ActionView::BufferDelete(x),
            ),
        }
    }
}

impl Action {
    /// The action that does nothing.
    pub fn null() -> (a: Self)
        ensures
            a@ == ActionView::Null,
    {
        Action::Null(NullAction::new())
    }

    /// The action that gives the project the name `name`.
    pub fn project_rename(name: &str) -> (a: Self)
        ensures
            a@ == ActionView::ProjectRename(RenameView { forward: Some(name@), backward: None }),
            a@.wf(),
            a@.is_pending(),
    {
        Self::ProjectRename(
            ActionProjectRename::new(ActionProjectRenameForward { new_name: String::from_str(name) }),
        )
    }

    /// The action that creates a buffer of `size` zero bytes.
    pub fn buffer_create_empty(name: &str, size: usize, base_address: usize) -> (a: Self)
        ensures
            a@ == ActionView::BufferCreateEmpty(
                CreateEmptyView {
                    forward: Some(CreateEmptyParams { name: name@, size, base_address }),
                    backward: None,
                },
            ),
            a@.wf(),
            a@.is_pending(),
    {
        Self::BufferCreateEmpty(
            ActionBufferCreateEmpty::new(
                ActionBufferCreateEmptyForward { name: String::from_str(name), size, base_address },
            ),
        )
    }

    /// The action that creates a buffer of the bytes `data`.
    pub fn buffer_create_from_bytes(name: &str, data: Vec<u8>, base_address: usize) -> (a: Self)
        ensures
            a@ == ActionView::BufferCreateFromBytes(
                CreateFromBytesView {
                    forward: Some(CreateFromBytesParams { name: name@, data: data@, base_address }),
                    backward: None,
                },
            ),
            a@.wf(),
            a@.is_pending(),
    {
        Self::BufferCreateFromBytes(
            ActionBufferCreateFromBytes::new(
                ActionBufferCreateFromBytesForward {
                    name: String::from_str(name),
                    data,
                    base_address,
                },
            ),
        )
    }

    /// The action that deletes the buffer called `name`.
    pub fn buffer_delete(name: &str) -> (a: Self)
        ensures
            a@ == ActionView::BufferDelete(DeleteView { forward: Some(name@), backward: None }),
            a@.wf(),
            a@.is_pending(),
    {
        Self::BufferDelete(
            ActionBufferDelete::new(ActionBufferDeleteForward { name: String::from_str(name) }),
        )
    }

    /// Whether the action waits to be applied.
    pub fn is_pending(&self) -> (b: bool)
        ensures
            b == self@.is_pending(),
    {
        match self {
            Action::Null(_) => true,
            Action::ProjectRename(a) => a.is_pending(),
            Action::BufferCreateEmpty(a) => a.is_pending(),
            Action::BufferCreateFromBytes(a) => a.is_pending(),
            Action::BufferDelete(a) => a.is_pending(),
        }
    }

    /// Whether the action was applied and waits to be undone.
    pub fn is_done(&self) -> (b: bool)
        ensures
            b == self@.is_done(),
    {
        match self {
            Action::Null(_) => true,
            Action::ProjectRename(a) => a.is_done(),
            Action::BufferCreateEmpty(a) => a.is_done(),
            Action::BufferCreateFromBytes(a) => a.is_done(),
            Action::BufferDelete(a) => a.is_done(),
        }
    }

    /// Applies the action to the project. On failure nothing changes.
    pub fn apply(&mut self, project: &mut H2Project) -> (r: Result<(), H2Error>)
        requires
            old(project).wf(),
        ensures
            settled(
                r,
                old(self)@.apply_spec(old(project)@),
                old(self)@,
                old(project)@,
                final(self)@,
                final(project)@,
            ),
            final(project).wf(),
            old(self)@.wf() ==> final(self)@.wf(),
    {
        match self {
            Action::Null(a) => a.apply(project),
            Action::ProjectRename(a) => a.apply(project),
            Action::BufferCreateEmpty(a) => a.apply(project),
            Action::BufferCreateFromBytes(a) => a.apply(project),
            Action::BufferDelete(a) => a.apply(project),
        }
    }

    /// Takes the action back from the project. On failure nothing changes.
    pub fn undo(&mut self, project: &mut H2Project) -> (r: Result<(), H2Error>)
        requires
            old(project).wf(),
        ensures
            settled(
                r,
                old(self)@.undo_spec(old(project)@),
                old(self)@,
                old(project)@,
                final(self)@,
                final(project)@,
            ),
            final(project).wf(),
            old(self)@.wf() ==> final(self)@.wf(),
    {
        match self {
            Action::Null(a) => a.undo(project),
            Action::ProjectRename(a) => a.undo(project),
            Action::BufferCreateEmpty(a) => a.undo(project),
            Action::BufferCreateFromBytes(a) => a.undo(project),
            Action::BufferDelete(a) => a.undo(project),
        }
    }
}

} // verus!
