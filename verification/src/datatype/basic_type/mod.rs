//! The kinds of type that have no parts.

pub mod character;
pub mod h2number;
pub mod h2pointer;
pub mod ipv4;
pub mod ipv6;
pub mod ntstring;
pub mod unicode;
