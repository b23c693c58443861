//! Create a buffer of given bytes.

use vstd::prelude::*;
use crate::action::settled;
use crate::error::H2Error;
use crate::h2project::h2buffer::{BufferView, H2Buffer};
use crate::h2project::{H2Project, ProjectView};

verus! {

/// The name of the new buffer, its bytes and its base address.
#[derive(Debug)]
pub struct ActionBufferCreateFromBytesForward {
    pub name: String,
    pub data: Vec<u8>,
    pub base_address: usize,
}

/// What undoing needs: the name of the buffer to take away. Its bytes and
/// its base address come back with it.
#[derive(Debug)]
pub struct ActionBufferCreateFromBytesBackward {
    pub name: String,
}

/// Creates a buffer of the given bytes under `name`.
#[derive(Debug)]
pub struct ActionBufferCreateFromBytes {
    forward: Option<ActionBufferCreateFromBytesForward>,
    backward: Option<ActionBufferCreateFromBytesBackward>,
}

/// The name, the bytes and the base address of the buffer.
pub struct CreateFromBytesParams {
    pub name: Seq<char>,
    pub data: Seq<u8>,
    pub base_address: usize,
}

/// What a creation stands for: its parameters while it waits to be
/// applied, the name of the buffer once it was.
pub struct CreateFromBytesView {
    pub forward: Option<CreateFromBytesParams>,
    pub backward: Option<Seq<char>>,
}

impl View for ActionBufferCreateFromBytes {
    type V = CreateFromBytesView;

    closed spec fn view(&self) -> CreateFromBytesView {
        CreateFromBytesView {
            forward: match self.forward {
                Some(f) => Some(
                    CreateFromBytesParams {
                        name: f.name@,
                        data: f.data@,
                        base_address: f.base_address,
                    },
                ),
                None => None,
            },
            backward: match self.backward {
                Some(b) => Some(b.name@),
                None => None,
            },
        }
    }
}

impl CreateFromBytesView {
    /// Exactly one of the two slots is filled.
    pub open spec fn wf(self) -> bool {
        self.forward is Some != self.backward is Some
    }

    /// What applying makes of the action and of the project.
    pub open spec fn apply_spec(self, p: ProjectView) -> Result<
        (CreateFromBytesView, ProjectView),
        H2Error,
    > {
        match self.forward {
            None => Err(H2Error::MissingContext),
            Some(f) => match p.insert_spec(f.name, BufferView::fresh(f.data, f.base_address)) {
                (Err(e), _) => Err(e),
                (Ok(_), after) => Ok(
                    (CreateFromBytesView { forward: None, backward: Some(f.name) }, after),
                ),
            },
        }
    }

    /// What undoing makes of the action and of the project.
    pub open spec fn undo_spec(self, p: ProjectView) -> Result<
        (CreateFromBytesView, ProjectView),
        H2Error,
    > {
        match self.backward {
            None => Err(H2Error::MissingContext),
            Some(name) => match p.remove_spec(name) {
                Err(e) => Err(e),
                Ok((after, buffer)) => Ok(
                    (
                        CreateFromBytesView {
                            forward: Some(
                                CreateFromBytesParams {
                                    name,
                                    data: buffer.data,
                                    base_address: buffer.base_address,
                                },
                            ),
                            backward: None,
                        },
                        after,
                    ),
                ),
            },
        }
    }
}

impl ActionBufferCreateFromBytes {
    /// Whether the action waits to be applied.
    pub fn is_pending(&self) -> (b: bool)
        ensures
            b == (self@.forward is Some && self@.backward is None),
    {
        self.forward.is_some() && self.backward.is_none()
    }

    /// Whether the action was applied and waits to be undone.
    pub fn is_done(&self) -> (b: bool)
        ensures
            b == (self@.forward is None && self@.backward is Some),
    {
        self.forward.is_none() && self.backward.is_some()
    }

    /// The action with the given slots. Exactly one of them is filled.
    pub fn from_parts(forward: Option<ActionBufferCreateFromBytesForward>, backward: Option<ActionBufferCreateFromBytesBackward>) -> (r: Result<Self, H2Error>)
        ensures
            (forward is Some) == (backward is Some) ==> r == Err::<Self, H2Error>(
                H2Error::CorruptAction,
            ),
            (forward is Some) != (backward is Some) ==> r is Ok && r->Ok_0@.wf() && r->Ok_0@ == (CreateFromBytesView {
                forward: match forward {
                    Some(f) => Some(CreateFromBytesParams { name: f.name@, data: f.data@, base_address: f.base_address }),
                    None => None,
                },
                backward: match backward {
                    Some(b) => Some(b.name@),
                    None => None,
                },
            }),
    {
        if forward.is_some() == backward.is_some() {
            return Err(H2Error::CorruptAction);
        }
        Ok(ActionBufferCreateFromBytes { forward, backward })
    }

    /// The two slots of the action.
    pub fn into_parts(self) -> (r: (Option<ActionBufferCreateFromBytesForward>, Option<ActionBufferCreateFromBytesBackward>))
        ensures
            self@ == (CreateFromBytesView {
                forward: match r.0 {
                    Some(f) => Some(CreateFromBytesParams { name: f.name@, data: f.data@, base_address: f.base_address }),
                    None => None,
                },
                backward: match r.1 {
                    Some(b) => Some(b.name@),
                    None => None,
                },
            }),
    {
        (self.forward, self.backward)
    }

    pub fn new(forward: ActionBufferCreateFromBytesForward) -> (a: Self)
        ensures
            a@ == (CreateFromBytesView {
                forward: Some(
                    CreateFromBytesParams {
                        name: forward.name@,
                        data: forward.data@,
                        base_address: forward.base_address,
                    },
                ),
                backward: None,
            }),
            a@.wf(),
    {
        ActionBufferCreateFromBytes { forward: Some(forward), backward: None }
    }

    /// Creates the buffer. On failure nothing changes.
    pub fn apply(&mut self, project: &mut H2Project) -> (r: Result<(), H2Error>)
        requires
            old(project).wf(),
        ensures
            settled(
                r,
                old(self)@.apply_spec(old(project)@),
                old(self)@,
                old(project)@,
                final(self)@,
                final(project)@,
            ),
            final(project).wf(),
            old(self)@.wf() ==> final(self)@.wf(),
    {
        let forward = match self.forward.take() {
            Some(f) => f,
            None => {
                return Err(H2Error::MissingContext);
            },
        };
        let failure = if forward.name.as_str().is_empty() {
            Some(H2Error::EmptyName)
        } else if forward.data.len() == 0 {
            Some(H2Error::EmptyBuffer)
        } else if project.buffer_exists(forward.name.as_str()) {
            Some(H2Error::NameCollision)
        } else {
            None
        };
        match failure {
            Some(e) => {
                self.forward = Some(forward);
                return Err(e);
            },
            None => {},
        }
        let ActionBufferCreateFromBytesForward { name, data, base_address } = forward;
        let buffer = match H2Buffer::new(data, base_address) {
            Ok(b) => b,
            Err(e) => {
                return Err(e);
            },
        };
        match project.buffer_insert(name.as_str(), buffer) {
            Ok(()) => {
                self.backward = Some(ActionBufferCreateFromBytesBackward { name });
                Ok(())
            },
            Err(e) => Err(e),
        }
    }

    /// Takes the buffer away again and keeps its bytes for applying again.
    /// On failure nothing changes.
    pub fn undo(&mut self, project: &mut H2Project) -> (r: Result<(), H2Error>)
        requires
            old(project).wf(),
        ensures
            settled(
                r,
                old(self)@.undo_spec(old(project)@),
                old(self)@,
                old(project)@,
                final(self)@,
                final(project)@,
            ),
            final(project).wf(),
            old(self)@.wf() ==> final(self)@.wf(),
    {
        let backward = match self.backward.take() {
            Some(b) => b,
            None => {
                return Err(H2Error::MissingContext);
            },
        };
        match project.buffer_remove(backward.name.as_str()) {
            Ok(buffer) => {
                self.forward = Some(
                    ActionBufferCreateFromBytesForward {
                        name: backward.name,
                        data: buffer.data,
                        base_address: buffer.base_address,
                    },
                );
                Ok(())
            },
            Err(e) => {
                self.backward = Some(backward);
                Err(e)
            },
        }
    }
}

} // verus!
