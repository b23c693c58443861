//! Rename the project.

use vstd::prelude::*;
use crate::action::settled;
use crate::error::H2Error;
use crate::h2project::{H2Project, ProjectView};

verus! {

/// What applying needs: the new name.
#[derive(Debug)]
pub struct ActionProjectRenameForward {
    pub new_name: String,
}

/// What undoing needs: the name that was replaced.
#[derive(Debug)]
pub struct ActionProjectRenameBackward {
    pub old_name: String,
}

/// Renames the project. Before it is applied it holds the new name; after
/// that the old one.
#[derive(Debug)]
pub struct ActionProjectRename {
    forward: Option<ActionProjectRenameForward>,
    backward: Option<ActionProjectRenameBackward>,
}

/// What a rename stands for: the new name while it waits to be applied, the
/// old name once it was.
pub struct RenameView {
    pub forward: Option<Seq<char>>,
    pub backward: Option<Seq<char>>,
}

impl View for ActionProjectRename {
    type V = RenameView;

    closed spec fn view(&self) -> RenameView {
        RenameView {
            forward: match self.forward {
                Some(f) => Some(f.new_name@),
                None => None,
            },
            backward: match self.backward {
                Some(b) => Some(b.old_name@),
                None => None,
            },
        }
    }
}

impl RenameView {
    /// Exactly one of the two slots is filled.
    pub open spec fn wf(self) -> bool {
        self.forward is Some != self.backward is Some
    }

    /// What applying makes of the action and of the project.
    pub open spec fn apply_spec(self, p: ProjectView) -> Result<(RenameView, ProjectView), H2Error> {
        match self.forward {
            None => Err(H2Error::MissingContext),
            Some(new_name) => if new_name.len() == 0 {
                Err(H2Error::EmptyName)
            } else {
                Ok(
                    (
                        RenameView { forward: None, backward: Some(p.name) },
                        ProjectView { name: new_name, ..p },
                    ),
                )
            },
        }
    }

    /// What undoing makes of the action and of the project.
    pub open spec fn undo_spec(self, p: ProjectView) -> Result<(RenameView, ProjectView), H2Error> {
        match self.backward {
            None => Err(H2Error::MissingContext),
            Some(old_name) => if old_name.len() == 0 {
                Err(H2Error::EmptyName)
            } else {
                Ok(
                    (
                        RenameView { forward: Some(p.name), backward: None },
                        ProjectView { name: old_name, ..p },
                    ),
                )
            },
        }
    }
}

impl ActionProjectRename {
    /// Whether the action waits to be applied.
    pub fn is_pending(&self) -> (b: bool)
        ensures
            b == (self@.forward is Some && self@.backward is None),
    {
        self.forward.is_some() && self.backward.is_none()
    }

    /// Whether the action was applied and waits to be undone.
    pub fn is_done(&self) -> (b: bool)
        ensures
            b == (self@.forward is None && self@.backward is Some),
    {
        self.forward.is_none() && self.backward.is_some()
    }

    /// The action with the given slots. Exactly one of them is filled.
    pub fn from_parts(forward: Option<ActionProjectRenameForward>, backward: Option<ActionProjectRenameBackward>) -> (r: Result<Self, H2Error>)
        ensures
            (forward is Some) == (backward is Some) ==> r == Err::<Self, H2Error>(
                H2Error::CorruptAction,
            ),
            (forward is Some) != (backward is Some) ==> r is Ok && r->Ok_0@.wf() && r->Ok_0@ == (RenameView {
                forward: match forward {
                    Some(f) => Some(f.new_name@),
                    None => None,
                },
                backward: match backward {
                    Some(b) => Some(b.old_name@),
                    None => None,
                },
            }),
    {
        if forward.is_some() == backward.is_some() {
            return Err(H2Error::CorruptAction);
        }
        Ok(ActionProjectRename { forward, backward })
    }

    /// The two slots of the action.
    pub fn into_parts(self) -> (r: (Option<ActionProjectRenameForward>, Option<ActionProjectRenameBackward>))
        ensures
            self@ == (RenameView {
                forward: match r.0 {
                    Some(f) => Some(f.new_name@),
                    None => None,
                },
                backward: match r.1 {
                    Some(b) => Some(b.old_name@),
                    None => None,
                },
            }),
    {
        (self.forward, self.backward)
    }

    pub fn new(forward: ActionProjectRenameForward) -> (a: Self)
        ensures
            a@ == (RenameView { forward: Some(forward.new_name@), backward: None }),
            a@.wf(),
    {
        ActionProjectRename { forward: Some(forward), backward: None }
    }

    /// Gives the project the new name and keeps the old one for undoing.
    /// On failure nothing changes.
    pub fn apply(&mut self, project: &mut H2Project) -> (r: Result<(), H2Error>)
        requires
            old(project).wf(),
        ensures
            settled(
                r,
                old(self)@.apply_spec(old(project)@),
                old(self)@,
                old(project)@,
                final(self)@,
                final(project)@,
            ),
            final(project).wf(),
            old(self)@.wf() ==> final(self)@.wf(),
    {
        let forward = match self.forward.take() {
            Some(f) => f,
            None => {
                return Err(H2Error::MissingContext);
            },
        };
        if forward.new_name.as_str().is_empty() {
            self.forward = Some(forward);
            return Err(H2Error::EmptyName);
        }
        match project.rename(forward.new_name) {
            Ok(old_name) => {
                self.backward = Some(ActionProjectRenameBackward { old_name });
                Ok(())
            },
            Err(e) => Err(e),
        }
    }

    /// Gives the project its old name back and keeps the new one for
    /// applying again. On failure nothing changes.
    pub fn undo(&mut self, project: &mut H2Project) -> (r: Result<(), H2Error>)
        requires
            old(project).wf(),
        ensures
            settled(
                r,
                old(self)@.undo_spec(old(project)@),
                old(self)@,
                old(project)@,
                final(self)@,
                final(project)@,
            ),
            final(project).wf(),
            old(self)@.wf() ==> final(self)@.wf(),
    {
        let backward = match self.backward.take() {
            Some(b) => b,
            None => {
                return Err(H2Error::MissingContext);
            },
        };
        if backward.old_name.as_str().is_empty() {
            self.backward = Some(backward);
            return Err(H2Error::EmptyName);
        }
        match project.rename(backward.old_name) {
            Ok(new_name) => {
                self.forward = Some(ActionProjectRenameForward { new_name });
                Ok(())
            },
            Err(e) => Err(e),
        }
    }
}

} // verus!
