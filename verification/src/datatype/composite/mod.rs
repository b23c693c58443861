//! Types that wrap one other type.

pub mod h2simple;
