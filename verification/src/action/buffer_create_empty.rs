//! Create a buffer of zero bytes.

use vstd::prelude::*;
use crate::action::settled;
use crate::error::H2Error;
use crate::h2project::h2buffer::{BufferView, H2Buffer};
use crate::h2project::{H2Project, ProjectView};

verus! {

/// The name of the new buffer, its size in bytes and its base address.
#[derive(Debug)]
pub struct ActionBufferCreateEmptyForward {
    pub name: String,
    pub size: usize,
    pub base_address: usize,
}

/// What undoing needs: the name of the buffer to take away, and its size
/// and base address to create it again.
#[derive(Debug)]
pub struct ActionBufferCreateEmptyBackward {
    pub name: String,
    pub size: usize,
    pub base_address: usize,
}

/// Creates a buffer of `size` zero bytes under `name`.
#[derive(Debug)]
pub struct ActionBufferCreateEmpty {
    forward: Option<ActionBufferCreateEmptyForward>,
    backward: Option<ActionBufferCreateEmptyBackward>,
}

/// The name, the size and the base address of the buffer.
pub struct CreateEmptyParams {
    pub name: Seq<char>,
    pub size: usize,
    pub base_address: usize,
}

/// What a creation stands for: its parameters, in the slot that says
/// whether it waits to be applied or was applied.
pub struct CreateEmptyView {
    pub forward: Option<CreateEmptyParams>,
    pub backward: Option<CreateEmptyParams>,
}

/// `n` zero bytes.
pub open spec fn zero_bytes(n: nat) -> Seq<u8> {
    Seq::new(n, |i: int| 0u8)
}

impl View for ActionBufferCreateEmpty {
    type V = CreateEmptyView;

    closed spec fn view(&self) -> CreateEmptyView {
        CreateEmptyView {
            forward: match self.forward {
                Some(f) => Some(
                    CreateEmptyParams { name: f.name@, size: f.size, base_address: f.base_address },
                ),
                None => None,
            },
            backward: match self.backward {
                Some(b) => Some(
                    CreateEmptyParams { name: b.name@, size: b.size, base_address: b.base_address },
                ),
                None => None,
            },
        }
    }
}

impl CreateEmptyView {
    /// Exactly one of the two slots is filled.
    pub open spec fn wf(self) -> bool {
        self.forward is Some != self.backward is Some
    }

    /// What applying makes of the action and of the project.
    pub open spec fn apply_spec(self, p: ProjectView) -> Result<
        (CreateEmptyView, ProjectView),
        H2Error,
    > {
        match self.forward {
            None => Err(H2Error::MissingContext),
            Some(f) => match p.insert_spec(
                f.name,
                BufferView::fresh(zero_bytes(f.size as nat), f.base_address),
            ) {
                (Err(e), _) => Err(e),
                (Ok(_), after) => Ok((CreateEmptyView { forward: None, backward: Some(f) }, after)),
            },
        }
    }

    /// What undoing makes of the action and of the project.
    pub open spec fn undo_spec(self, p: ProjectView) -> Result<
        (CreateEmptyView, ProjectView),
        H2Error,
    > {
        match self.backward {
            None => Err(H2Error::MissingContext),
            Some(b) => match p.remove_spec(b.name) {
                Err(e) => Err(e),
                Ok((after, _)) => Ok((CreateEmptyView { forward: Some(b), backward: None }, after)),
            },
        }
    }
}

/// A vector of `n` zero bytes.
pub fn zeroed(n: usize) -> (v: Vec<u8>)
    ensures
        v@ == zero_bytes(n as nat),
{
    let mut v: Vec<u8> = Vec::new();
    let mut i: usize = 0;
    while i < n
        invariant
            i <= n,
            v@ =~= zero_bytes(i as nat),
        decreases n - i,
    {
        v.push(0u8);
        i += 1;
    }
    v
}

impl ActionBufferCreateEmpty {
    /// Whether the action waits to be applied.
    pub fn is_pending(&self) -> (b: bool)
        ensures
            b == (self@.forward is Some && self@.backward is None),
    {
        self.forward.is_some() && self.backward.is_none()
    }

    /// Whether the action was applied and waits to be undone.
    pub fn is_done(&self) -> (b: bool)
        ensures
            b == (self@.forward is None && self@.backward is Some),
    {
        self.forward.is_none() && self.backward.is_some()
    }

    /// The action with the given slots. Exactly one of them is filled.
    pub fn from_parts(forward: Option<ActionBufferCreateEmptyForward>, backward: Option<ActionBufferCreateEmptyBackward>) -> (r: Result<Self, H2Error>)
        ensures
            (forward is Some) == (backward is Some) ==> r == Err::<Self, H2Error>(
                H2Error::CorruptAction,
            ),
            (forward is Some) != (backward is Some) ==> r is Ok && r->Ok_0@.wf() && r->Ok_0@ == (CreateEmptyView {
                forward: match forward {
                    Some(f) => Some(CreateEmptyParams { name: f.name@, size: f.size, base_address: f.base_address }),
                    None => None,
                },
                backward: match backward {
                    Some(b) => Some(CreateEmptyParams { name: b.name@, size: b.size, base_address: b.base_address }),
                    None => None,
                },
            }),
    {
        if forward.is_some() == backward.is_some() {
            return Err(H2Error::CorruptAction);
        }
        Ok(ActionBufferCreateEmpty { forward, backward })
    }

    /// The two slots of the action.
    pub fn into_parts(self) -> (r: (Option<ActionBufferCreateEmptyForward>, Option<ActionBufferCreateEmptyBackward>))
        ensures
            self@ == (CreateEmptyView {
                forward: match r.0 {
                    Some(f) => Some(CreateEmptyParams { name: f.name@, size: f.size, base_address: f.base_address }),
                    None => None,
                },
                backward: match r.1 {
                    Some(b) => Some(CreateEmptyParams { name: b.name@, size: b.size, base_address: b.base_address }),
                    None => None,
                },
            }),
    {
        (self.forward, self.backward)
    }

    pub fn new(forward: ActionBufferCreateEmptyForward) -> (a: Self)
        ensures
            a@ == (CreateEmptyView {
                forward: Some(
                    CreateEmptyParams {
                        name: forward.name@,
                        size: forward.size,
                        base_address: forward.base_address,
                    },
                ),
                backward: None,
            }),
            a@.wf(),
    {
        ActionBufferCreateEmpty { forward: Some(forward), backward: None }
    }

    /// Creates the buffer. On failure nothing changes.
    pub fn apply(&mut self, project: &mut H2Project) -> (r: Result<(), H2Error>)
        requires
            old(project).wf(),
        ensures
            settled(
                r,
                old(self)@.apply_spec(old(project)@),
                old(self)@,
                old(project)@,
                final(self)@,
                final(project)@,
            ),
            final(project).wf(),
            old(self)@.wf() ==> final(self)@.wf(),
    {
        let forward = match self.forward.take() {
            Some(f) => f,
            None => {
                return Err(H2Error::MissingContext);
            },
        };
        let buffer = match H2Buffer::new(zeroed(forward.size), forward.base_address) {
            Ok(b) => b,
            Err(e) => {
                let failure = if forward.name.as_str().is_empty() {
                    H2Error::EmptyName
                } else {
                    e
                };
                self.forward = Some(forward);
                return Err(failure);
            },
        };
        match project.buffer_insert(forward.name.as_str(), buffer) {
            Ok(()) => {
                self.backward = Some(
                    ActionBufferCreateEmptyBackward {
                        name: forward.name,
                        size: forward.size,
                        base_address: forward.base_address,
                    },
                );
                Ok(())
            },
            Err(e) => {
                self.forward = Some(forward);
                Err(e)
            },
        }
    }

    /// Takes the buffer away again. On failure nothing changes.
    pub fn undo(&mut self, project: &mut H2Project) -> (r: Result<(), H2Error>)
        requires
            old(project).wf(),
        ensures
            settled(
                r,
                old(self)@.undo_spec(old(project)@),
                old(self)@,
                old(project)@,
                final(self)@,
                final(project)@,
            ),
            final(project).wf(),
            old(self)@.wf() ==> final(self)@.wf(),
    {
        let backward = match self.backward.take() {
            Some(b) => b,
            None => {
                return Err(H2Error::MissingContext);
            },
        };
        match project.buffer_remove(backward.name.as_str()) {
            Ok(_) => {
                self.forward = Some(
                    ActionBufferCreateEmptyForward {
                        name: backward.name,
                        size: backward.size,
                        base_address: backward.base_address,
                    },
                );
                Ok(())
            },
            Err(e) => {
                self.backward = Some(backward);
                Err(e)
            },
        }
    }
}

} // verus!
