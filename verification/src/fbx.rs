//! FBX scene extraction.

pub mod v7400;
