//! Adapters for stepping through lists of optional and fallible values.

pub mod option;
pub mod result;
