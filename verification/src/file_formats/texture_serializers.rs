//! Writers that turn a decoded texture into a common image format.

pub mod block_decoder;
pub mod dds_file;
pub mod png_file;
pub mod texture_serializer;
pub mod webp_file;
