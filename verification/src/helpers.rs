//! The byte cursor that every codec reads from and writes to, the error type
//! they share, and the shape that a decoder's contract takes.

pub mod byte;
pub mod error;
pub mod serializable;
