//! Decoders for a game engine's asset containers: the table/blob archive
//! pair, the chunked compressed container and the texture container, with
//! the content hash by which assets are named.

pub mod file_formats;
pub mod helpers;
pub mod util;
