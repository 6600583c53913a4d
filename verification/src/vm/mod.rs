//! The state that the whole machine shares.

pub mod universe;
