//! Utilities shared by the container codecs.

pub mod jenkins;
