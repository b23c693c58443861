//! How a number is displayed.

pub mod sized_display;
