//! Reading fixed-width numbers from bytes and rendering them as text.

pub mod context;
pub mod generic_number;
pub mod generic_reader;
pub mod generic_formatter;
