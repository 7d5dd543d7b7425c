//! Small utilities shared by the library.

pub mod bbox;
pub mod iter;
