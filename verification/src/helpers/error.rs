//! The one error type of the codecs.

use vstd::prelude::*;

verus! {

/// Why a container could not be read or written. Every failure ends the call
/// that met it; nothing is retried.
#[derive(Debug, Clone, Copy, PartialEq, Eq, Structural)]
pub enum CodecError {
    /// The magic bytes match the expected signature in neither byte order.
    SignatureMismatch,
    /// A fixed field holds a value outside the set the format allows.
    FormatMismatch,
    /// Fewer bytes were left than a fixed-width read asked for.
    ShortRead,
    /// Fewer bytes could be written than the caller handed over.
    ShortWrite,
    /// The payload of a texture element could not be read in full.
    ContentsUnreadable,
    /// A size or an offset does not fit what this machine can address.
    SizeOverflow,
    /// A compressed chunk decoded to fewer bytes than it declares.
    Truncated,
    /// No entry of the table carries the hash that was asked for.
    EntryNotFound,
    /// The pixel format has no counterpart in the target image format.
    UnsupportedFormat,
    /// The pixel layout asked for is the invalid one.
    InvalidLayout,
    /// The bytes of a string are not UTF-8.
    InvalidText,
    /// The texture has no element to take pixels from, or the element holds
    /// fewer bytes than a picture of the texture's size needs.
    NoPixelData,
    /// The image encoder refused the picture.
    EncodingFailed,
}

/// The error for an integer that did not fit the host's `usize`.
pub fn to_io_error(err: core::num::TryFromIntError) -> (e: CodecError)
    ensures
        e == CodecError::SizeOverflow,
{
    let _ = err;
    CodecError::SizeOverflow
}

/// A 32-bit size or offset as read from a container, as a `usize`.
pub fn host_size(value: u32) -> (r: Result<usize, CodecError>)
    ensures
        r == (if value <= usize::MAX {
            Ok::<usize, CodecError>(value as usize)
        } else {
            Err(CodecError::SizeOverflow)
        }),
{
    match usize::try_from(value) {
        Ok(size) => Ok(size),
        Err(err) => Err(to_io_error(err)),
    }
}

} // verus!
