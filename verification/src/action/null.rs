//! The action that does nothing.

use vstd::prelude::*;
use crate::error::H2Error;
use crate::h2project::H2Project;

verus! {

/// Changes nothing when applied and nothing when undone.
#[derive(Debug, PartialEq, Eq, Structural)]
pub struct NullAction {}

impl NullAction {
    pub fn new() -> (a: Self)
        ensures
            a == (NullAction {  }),
    {
        NullAction {  }
    }

    pub fn apply(&mut self, project: &mut H2Project) -> (r: Result<(), H2Error>)
        ensures
            r is Ok,
            *final(self) == *old(self),
            *final(project) == *old(project),
    {
        Ok(())
    }

    pub fn undo(&mut self, project: &mut H2Project) -> (r: Result<(), H2Error>)
        ensures
            r is Ok,
            *final(self) == *old(self),
            *final(project) == *old(project),
    {
        Ok(())
    }
}

} // verus!
