//! Containers.

pub mod raw_array;
