//! The kinds of type that are made of other types.

pub mod h2array;
