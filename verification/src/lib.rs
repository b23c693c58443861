//! Engine of a binary-analysis workbench: a project of named byte buffers,
//! reversible transformations on them, typed views over their bytes and an
//! undo/redo log of every change.

pub mod action;
pub mod bytes;
pub mod datatype;
pub mod error;
pub mod generic_number;
pub mod h2project;
pub mod record;
pub mod sized_number;
pub mod text;
pub mod transformation;
