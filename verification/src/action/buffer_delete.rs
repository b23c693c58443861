//! Delete a buffer.

use vstd::prelude::*;
use crate::action::settled;
use crate::error::H2Error;
use crate::h2project::h2buffer::{BufferView, H2Buffer};
use crate::h2project::{H2Project, ProjectView};

verus! {

/// The name of the buffer to delete.
#[derive(Debug)]
pub struct ActionBufferDeleteForward {
    pub name: String,
}

/// What undoing needs: the buffer that was taken out, and its name.
#[derive(Debug)]
pub struct ActionBufferDeleteBackward {
    pub name: String,
    pub buffer: H2Buffer,
}

/// Deletes the buffer called `name`, unless it is populated.
#[derive(Debug)]
pub struct ActionBufferDelete {
    forward: Option<ActionBufferDeleteForward>,
    backward: Option<ActionBufferDeleteBackward>,
}

/// What a deletion stands for: the name while it waits to be applied, the
/// name and the buffer once it was.
pub struct DeleteView {
    pub forward: Option<Seq<char>>,
    pub backward: Option<(Seq<char>, BufferView)>,
}

impl View for ActionBufferDelete {
    type V = DeleteView;

    closed spec fn view(&self) -> DeleteView {
        DeleteView {
            forward: match self.forward {
                Some(f) => Some(f.name@),
                None => None,
            },
            backward: match self.backward {
                Some(b) => Some((b.name@, b.buffer@)),
                None => None,
            },
        }
    }
}

impl DeleteView {
    /// Exactly one of the two slots is filled.
    pub open spec fn wf(self) -> bool {
        self.forward is Some != self.backward is Some
    }

    /// What applying makes of the action and of the project.
    pub open spec fn apply_spec(self, p: ProjectView) -> Result<(DeleteView, ProjectView), H2Error> {
        match self.forward {
            None => Err(H2Error::MissingContext),
            Some(name) => match p.remove_spec(name) {
                Err(e) => Err(e),
                Ok((after, buffer)) => if buffer.is_populated() {
                    Err(H2Error::BufferPopulated)
                } else {
                    Ok((DeleteView { forward: None, backward: Some((name, buffer)) }, after))
                },
            },
        }
    }

    /// What undoing makes of the action and of the project.
    pub open spec fn undo_spec(self, p: ProjectView) -> Result<(DeleteView, ProjectView), H2Error> {
        match self.backward {
            None => Err(H2Error::MissingContext),
            Some((name, buffer)) => match p.insert_spec(name, buffer) {
                (Err(e), _) => Err(e),
                (Ok(_), after) => Ok((DeleteView { forward: Some(name), backward: None }, after)),
            },
        }
    }
}

impl ActionBufferDelete {
    /// Whether the action waits to be applied.
    pub fn is_pending(&self) -> (b: bool)
        ensures
            b == (self@.forward is Some && self@.backward is None),
    {
        self.forward.is_some() && self.backward.is_none()
    }

    /// Whether the action was applied and waits to be undone.
    pub fn is_done(&self) -> (b: bool)
        ensures
            b == (self@.forward is None && self@.backward is Some),
    {
        self.forward.is_none() && self.backward.is_some()
    }

    /// The action with the given slots. Exactly one of them is filled.
    pub fn from_parts(forward: Option<ActionBufferDeleteForward>, backward: Option<ActionBufferDeleteBackward>) -> (r: Result<Self, H2Error>)
        ensures
            (forward is Some) == (backward is Some) ==> r == Err::<Self, H2Error>(
                H2Error::CorruptAction,
            ),
            (forward is Some) != (backward is Some) ==> r is Ok && r->Ok_0@.wf() && r->Ok_0@ == (DeleteView {
                forward: match forward {
                    Some(f) => Some(f.name@),
                    None => None,
                },
                backward: match backward {
                    Some(b) => Some((b.name@, b.buffer@)),
                    None => None,
                },
            }),
    {
        if forward.is_some() == backward.is_some() {
            return Err(H2Error::CorruptAction);
        }
        Ok(ActionBufferDelete { forward, backward })
    }

    /// The two slots of the action.
    pub fn into_parts(self) -> (r: (Option<ActionBufferDeleteForward>, Option<ActionBufferDeleteBackward>))
        ensures
            self@ == (DeleteView {
                forward: match r.0 {
                    Some(f) => Some(f.name@),
                    None => None,
                },
                backward: match r.1 {
                    Some(b) => Some((b.name@, b.buffer@)),
                    None => None,
                },
            }),
    {
        (self.forward, self.backward)
    }

    pub fn new(forward: ActionBufferDeleteForward) -> (a: Self)
        ensures
            a@ == (DeleteView { forward: Some(forward.name@), backward: None }),
            a@.wf(),
    {
        ActionBufferDelete { forward: Some(forward), backward: None }
    }

    /// Takes the buffer out of the project and keeps it for undoing. On
    /// failure nothing changes.
    pub fn apply(&mut self, project: &mut H2Project) -> (r: Result<(), H2Error>)
        requires
            old(project).wf(),
        ensures
            settled(
                r,
                old(self)@.apply_spec(old(project)@),
                old(self)@,
                old(project)@,
                final(self)@,
                final(project)@,
            ),
            final(project).wf(),
            old(self)@.wf() ==> final(self)@.wf(),
    {
        let forward = match self.forward.take() {
            Some(f) => f,
            None => {
                return Err(H2Error::MissingContext);
            },
        };
        let failure = match project.buffer(forward.name.as_str()) {
            None => Some(H2Error::NoSuchBuffer),
            Some(b) => if b.is_populated() {
                Some(H2Error::BufferPopulated)
            } else {
                None
            },
        };
        match failure {
            Some(e) => {
                self.forward = Some(forward);
                return Err(e);
            },
            None => {},
        }
        match project.buffer_remove(forward.name.as_str()) {
            Ok(buffer) => {
                self.backward = Some(ActionBufferDeleteBackward { name: forward.name, buffer });
                Ok(())
            },
            Err(e) => Err(e),
        }
    }

    /// Puts the buffer back. On failure nothing changes.
    pub fn undo(&mut self, project: &mut H2Project) -> (r: Result<(), H2Error>)
        requires
            old(project).wf(),
        ensures
            settled(
                r,
                old(self)@.undo_spec(old(project)@),
                old(self)@,
                old(project)@,
                final(self)@,
                final(project)@,
            ),
            final(project).wf(),
            old(self)@.wf() ==> final(self)@.wf(),
    {
        let backward = match self.backward.take() {
            Some(b) => b,
            None => {
                return Err(H2Error::MissingContext);
            },
        };
        let failure = if backward.name.as_str().is_empty() {
            Some(H2Error::EmptyName)
        } else if backward.buffer.len() == 0 {
            Some(H2Error::EmptyBuffer)
        } else if project.buffer_exists(backward.name.as_str()) {
            Some(H2Error::NameCollision)
        } else {
            None
        };
        match failure {
            Some(e) => {
                self.backward = Some(backward);
                return Err(e);
            },
            None => {},
        }
        let ActionBufferDeleteBackward { name, buffer } = backward;
        match project.buffer_insert(name.as_str(), buffer) {
            Ok(()) => {
                self.forward = Some(ActionBufferDeleteForward { name });
                Ok(())
            },
            Err(e) => Err(e),
        }
    }
}

} // verus!
