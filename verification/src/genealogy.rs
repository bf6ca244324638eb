//! How posts relate to each other.

pub mod relation;
