//! One module for each container format.

pub mod archive_table;
pub mod cool_archive;
pub mod file_lists;
pub mod packed_archive;
pub mod texture;
pub mod texture_file;
pub mod texture_serializers;
