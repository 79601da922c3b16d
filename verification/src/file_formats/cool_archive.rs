//! The chunked compressed container: a short header, then chunks that are
//! each a zlib stream of their own.

use vstd::prelude::*;
use vstd::slice::slice_subrange;
use vstd::slice::slice_to_vec;

use crate::helpers::byte::bytes_left;
use crate::helpers::byte::same_bytes;
use crate::helpers::byte::signature_orientation;
use crate::helpers::byte::u32_at;
use crate::helpers::byte::ByteCursor;
use crate::helpers::byte::ByteReaderExt;
use crate::helpers::error::host_size;
use crate::helpers::error::CodecError;
use crate::helpers::serializable::failed;
use crate::helpers::serializable::lemma_failure_ends_the_run;
use crate::helpers::serializable::parse_run;
use crate::helpers::serializable::parsed;
use crate::helpers::serializable::short_read;
use crate::helpers::serializable::Parsed;
use crate::helpers::serializable::SerializableExt;

verus! {

/// The magic bytes of a little-endian container, "AAF" and a zero.
pub const SIGNATURE: [u8; 4] = [0x41, 0x41, 0x46, 0x00];

/// The comment that every container carries after its version,
/// "AVALANCHEARCHIVEFORMATISCOOL".
pub const COMMENT: [u8; 28] = [
    0x41, 0x56, 0x41, 0x4C, 0x41, 0x4E, 0x43, 0x48, 0x45, 0x41, 0x52, 0x43, 0x48, 0x49,
    0x56, 0x45, 0x46, 0x4F, 0x52, 0x4D, 0x41, 0x54, 0x49, 0x53, 0x43, 0x4F, 0x4F, 0x4C,
];

/// The magic bytes that end the header of each chunk, "EWAM". They are
/// compared as they stand, whatever the byte order of the container.
pub const CHUNK_SIGNATURE: [u8; 4] = [0x45, 0x57, 0x41, 0x4D];

/// The bytes before the first chunk.
pub const HEADER_SIZE: u64 = 48;

/// The bytes of a chunk's header.
pub const CHUNK_HEADER_SIZE: u64 = 16;

/// A decoded container. `total_uncompressed_size` is what the header
/// declares; it is not held against the chunks.
pub struct CoolArchive {
    pub le: bool,
    pub total_uncompressed_size: u32,
    pub block_size: u32,
    pub chunks: Vec<CoolArchiveChunk>,
}

/// One chunk: where its header stands, the two sizes it declares, and the
/// bytes it decodes to.
pub struct CoolArchiveChunk {
    pub data_offset: u64,
    pub compressed_size: u32,
    pub uncompressed_size: u32,
    pub contents: Vec<u8>,
}

/// What a `CoolArchiveChunk` holds.
pub struct CoolArchiveChunkView {
    pub data_offset: u64,
    pub compressed_size: u32,
    pub uncompressed_size: u32,
    pub contents: Seq<u8>,
}

/// What a `CoolArchive` holds.
pub struct CoolArchiveView {
    pub le: bool,
    pub total_uncompressed_size: u32,
    pub block_size: u32,
    pub chunks: Seq<CoolArchiveChunkView>,
}

impl View for CoolArchiveChunk {
    type V = CoolArchiveChunkView;

    open spec fn view(&self) -> CoolArchiveChunkView {
        CoolArchiveChunkView {
            data_offset: self.data_offset,
            compressed_size: self.compressed_size,
            uncompressed_size: self.uncompressed_size,
            contents: self.contents@,
        }
    }
}

impl View for CoolArchive {
    type V = CoolArchiveView;

    open spec fn view(&self) -> CoolArchiveView {
        CoolArchiveView {
            le: self.le,
            total_uncompressed_size: self.total_uncompressed_size,
            block_size: self.block_size,
            chunks: chunk_views(self.chunks@),
        }
    }
}

impl CoolArchive {
    /// Whether every chunk holds as many bytes as it declares.
    pub open spec fn wf(&self) -> bool {
        forall|k: int| 0 <= k < self.chunks@.len() ==> (#[trigger] self.chunks@[k]).wf()
    }
}

/// The views of a run of chunks.
pub open spec fn chunk_views(chunks: Seq<CoolArchiveChunk>) -> Seq<CoolArchiveChunkView> {
    chunks.map_values(|chunk: CoolArchiveChunk| chunk@)
}

/// `std::io::Error`, with which the zlib decoder fails. Nothing is known of
/// what it holds.
#[verifier::external_type_specification]
#[verifier::external_body]
pub struct ExIoError(std::io::Error);

/// The first `count` bytes that the zlib stream at the head of `stream`
/// decodes to, or `None` where the stream is damaged or ends before it has
/// given that many.
pub uninterp spec fn zlib_decoded(stream: Seq<u8>, count: nat) -> Option<Seq<u8>>;

/// Runs `flate2::read::ZlibDecoder` over `stream` and fills `decoded` from
/// it with `std::io::Read::read_exact`. The decoder is taken to be a
/// function of the stream and of the number of bytes asked for: what it
/// yields, or that it fails, is `zlib_decoded`.
#[verifier::external_body]
fn inflate_exact(stream: &[u8], decoded: &mut Vec<u8>) -> (r: Result<(), std::io::Error>)
    ensures
        final(decoded)@.len() == old(decoded)@.len(),
        match r {
            Ok(_) => zlib_decoded(stream@, old(decoded)@.len()) == Some(final(decoded)@),
            Err(_) => zlib_decoded(stream@, old(decoded)@.len()) is None,
        },
{
    let mut decoder = flate2::read::ZlibDecoder::new(stream);
    std::io::Read::read_exact(&mut decoder, decoded.as_mut_slice())
}

/// The chunk that a header and the outcome of decoding its stream make:
/// none, but a truncation error, where the decoder failed or gave another
/// number of bytes than the header declares.
pub open spec fn chunk_of(
    data_offset: u64,
    compressed_size: u32,
    uncompressed_size: u32,
    decoded: Option<Seq<u8>>,
) -> Result<CoolArchiveChunkView, CodecError> {
    match decoded {
        Some(contents) if contents.len() == uncompressed_size => Ok(
            CoolArchiveChunkView { data_offset, compressed_size, uncompressed_size, contents },
        ),
        _ => Err(CodecError::Truncated),
    }
}

/// The chunk whose header stands at `at`: three sizes, the chunk magic, and
/// the zlib stream, which is taken to start at `at` itself, header
/// included. The cursor is left at the header's start where the chunk
/// fails to decode, and at `at` plus the chunk's own `next_offset` where it
/// decodes.
pub open spec fn parse_chunk(bytes: Seq<u8>, at: int, le: bool) -> Parsed<CoolArchiveChunkView> {
    if bytes_left(bytes, at) < CHUNK_HEADER_SIZE {
        short_read(bytes, at)
    } else if bytes.subrange(at + 12, at + 16) != CHUNK_SIGNATURE@ {
        failed(CodecError::SignatureMismatch, at + CHUNK_HEADER_SIZE)
    } else {
        let uncompressed_size = u32_at(bytes, at + 4, le);
        let chunk = chunk_of(
            at as u64,
            u32_at(bytes, at, le),
            uncompressed_size,
            zlib_decoded(bytes.subrange(at, bytes.len() as int), uncompressed_size as nat),
        );
        match chunk {
            Err(error) => failed(error, at),
            Ok(chunk) => if at + u32_at(bytes, at + 8, le) > u64::MAX {
                failed(CodecError::SizeOverflow, at)
            } else {
                parsed(chunk, at + u32_at(bytes, at + 8, le))
            },
        }
    }
}

/// Decoding one chunk, as a function of where its header stands.
pub open spec fn chunk_step(bytes: Seq<u8>, le: bool) -> spec_fn(int) -> Parsed<
    CoolArchiveChunkView,
> {
    |at: int| parse_chunk(bytes, at, le)
}

/// The fields of a container's header.
pub struct CoolArchiveHeader {
    pub le: bool,
    pub total_uncompressed_size: u32,
    pub block_size: u32,
    pub block_count: u32,
}

impl View for CoolArchiveHeader {
    type V = CoolArchiveHeader;

    open spec fn view(&self) -> CoolArchiveHeader {
        *self
    }
}

/// The header that stands at `start` in `bytes`: the signature, in either
/// byte order; version 1; the fixed comment; the declared total size, the
/// block size and the number of chunks.
pub open spec fn parse_header(bytes: Seq<u8>, start: int) -> Parsed<CoolArchiveHeader> {
    if bytes_left(bytes, start) < 4 {
        short_read(bytes, start)
    } else {
        match signature_orientation(bytes.subrange(start, start + 4), SIGNATURE@) {
            None => failed(CodecError::SignatureMismatch, start + 4),
            Some(le) => if bytes_left(bytes, start) < 8 {
                short_read(bytes, start)
            } else if u32_at(bytes, start + 4, le) != 1 {
                failed(CodecError::FormatMismatch, start + 8)
            } else if bytes_left(bytes, start) < 36 {
                short_read(bytes, start)
            } else if bytes.subrange(start + 8, start + 36) != COMMENT@ {
                failed(CodecError::FormatMismatch, start + 36)
            } else if bytes_left(bytes, start) < HEADER_SIZE {
                short_read(bytes, start)
            } else {
                parsed(
                    CoolArchiveHeader {
                        le,
                        total_uncompressed_size: u32_at(bytes, start + 36, le),
                        block_size: u32_at(bytes, start + 40, le),
                        block_count: u32_at(bytes, start + 44, le),
                    },
                    start + HEADER_SIZE,
                )
            },
        }
    }
}

/// The container that stands at `start` in `bytes`: the header, then as
/// many chunks as it counts.
pub open spec fn parse_archive(bytes: Seq<u8>, start: int) -> Parsed<CoolArchiveView> {
    let header = parse_header(bytes, start);
    match header.result {
        Err(error) => failed(error, header.end),
        Ok(fields) => {
            let chunks = parse_run(
                chunk_step(bytes, fields.le),
                header.end,
                fields.block_count as nat,
            );
            match chunks.result {
                Err(error) => failed(error, chunks.end),
                Ok(chunks_read) => parsed(
                    CoolArchiveView {
                        le: fields.le,
                        total_uncompressed_size: fields.total_uncompressed_size,
                        block_size: fields.block_size,
                        chunks: chunks_read,
                    },
                    chunks.end,
                ),
            }
        },
    }
}

impl CoolArchiveChunk {
    /// Whether the chunk holds as many bytes as it declares.
    pub open spec fn wf(&self) -> bool {
        self.contents@.len() == self.uncompressed_size
    }

    /// Makes a chunk of a header's fields and of what the decoder gave for
    /// its stream.
    pub fn from_decoded(
        data_offset: u64,
        compressed_size: u32,
        uncompressed_size: u32,
        decoded: Result<Vec<u8>, std::io::Error>,
    ) -> (r: Result<CoolArchiveChunk, CodecError>)
        ensures
            match r {
                Ok(chunk) => chunk.wf() && decoded is Ok && chunk_of(
                    data_offset,
                    compressed_size,
                    uncompressed_size,
                    Some(decoded->Ok_0@),
                ) == Ok::<CoolArchiveChunkView, CodecError>(chunk@),
                Err(error) => error == CodecError::Truncated && (decoded matches Ok(contents)
                    ==> contents@.len() != uncompressed_size),
            },
    {
        match decoded {
            Ok(contents) => {
                if contents.len() as u64 != uncompressed_size as u64 {
                    return Err(CodecError::Truncated);
                }
                Ok(CoolArchiveChunk { data_offset, compressed_size, uncompressed_size, contents })
            },
            Err(_) => Err(CodecError::Truncated),
        }
    }

    /// Decodes the chunk whose header stands at the cursor.
    pub fn read(input: &mut ByteCursor, le: bool) -> (r: Result<CoolArchiveChunk, CodecError>)
        ensures
            final(input).decoded_from(
                old(input),
                r,
                parse_chunk(old(input).data@, old(input).position as int, le),
            ),
            r matches Ok(chunk) ==> chunk.wf(),
    {
        let ghost bytes = input.data@;
        let data_offset = input.stream_position();

        let compressed_size = input.read_u32(le)?;
        let uncompressed_size = input.read_u32(le)?;
        let next_offset = input.read_u32(le)?;
        let block_magic = input.read_bytes(4)?;
        if !same_bytes(block_magic.as_slice(), CHUNK_SIGNATURE.as_slice()) {
            return Err(CodecError::SignatureMismatch);
        }
        input.seek(data_offset);

        let count = host_size(uncompressed_size)?;
        let stream = slice_subrange(input.data.as_slice(), data_offset as usize, input.data.len());
        let mut contents: Vec<u8> = vec![0u8; count];
        let decoded = match inflate_exact(stream, &mut contents) {
            Ok(_) => Ok(contents),
            Err(error) => Err(error),
        };
        let chunk = CoolArchiveChunk::from_decoded(
            data_offset,
            compressed_size,
            uncompressed_size,
            decoded,
        )?;
        if next_offset as u64 > u64::MAX - data_offset {
            return Err(CodecError::SizeOverflow);
        }
        input.seek(data_offset + next_offset as u64);
        Ok(chunk)
    }
}

impl CoolArchiveHeader {
    /// Decodes the header at the cursor.
    pub fn read(input: &mut ByteCursor) -> (r: Result<CoolArchiveHeader, CodecError>)
        ensures
            final(input).decoded_from(
                old(input),
                r,
                parse_header(old(input).data@, old(input).position as int),
            ),
    {
        let le = input.validate_signature(SIGNATURE.as_slice())?;

        let version = input.read_u32(le)?;
        if version != 1 {
            return Err(CodecError::FormatMismatch);
        }
        let comment_bytes = input.read_bytes(28)?;
        if !same_bytes(COMMENT.as_slice(), comment_bytes.as_slice()) {
            return Err(CodecError::FormatMismatch);
        }
        let total_uncompressed_size = input.read_u32(le)?;
        let block_size = input.read_u32(le)?;
        let block_count = input.read_u32(le)?;
        Ok(CoolArchiveHeader { le, total_uncompressed_size, block_size, block_count })
    }
}

/// Decodes `block_count` chunks, the first at the cursor.
pub(crate) fn read_chunks(input: &mut ByteCursor, le: bool, block_count: u32) -> (r: Result<
    Vec<CoolArchiveChunk>,
    CodecError,
>)
    ensures
        final(input).data@ == old(input).data@,
        final(input).position == parse_run(
            chunk_step(old(input).data@, le),
            old(input).position as int,
            block_count as nat,
        ).end,
        match r {
            Ok(chunks) => {
                &&& parse_run(
                    chunk_step(old(input).data@, le),
                    old(input).position as int,
                    block_count as nat,
                ).result == Ok::<Seq<CoolArchiveChunkView>, CodecError>(chunk_views(chunks@))
                &&& forall|k: int| 0 <= k < chunks@.len() ==> (#[trigger] chunks@[k]).wf()
            },
            Err(error) => parse_run(
                chunk_step(old(input).data@, le),
                old(input).position as int,
                block_count as nat,
            ).result == Err::<Seq<CoolArchiveChunkView>, CodecError>(error),
        },
{
    let ghost bytes = input.data@;
    let ghost first = input.position as int;
    let mut chunks: Vec<CoolArchiveChunk> = Vec::new();
    let mut i: u32 = 0;
    assert(chunk_views(chunks@) =~= Seq::empty());
    while i < block_count
        invariant
            i <= block_count,
            bytes == old(input).data@,
            first == old(input).position,
            input.data@ == bytes,
            parse_run(chunk_step(bytes, le), first, i as nat) == parsed(
                chunk_views(chunks@),
                input.position as int,
            ),
            forall|k: int| 0 <= k < chunks@.len() ==> (#[trigger] chunks@[k]).wf(),
        decreases block_count - i,
    {
        let ghost before = chunk_views(chunks@);
        match CoolArchiveChunk::read(input, le) {
            Ok(chunk) => {
                chunks.push(chunk);
                assert(chunk_views(chunks@) =~= before.push(chunk@));
            },
            Err(error) => {
                proof {
                    lemma_failure_ends_the_run(
                        chunk_step(bytes, le),
                        first,
                        (i + 1) as nat,
                        block_count as nat,
                    );
                }
                return Err(error);
            },
        }
        i = i + 1;
    }
    Ok(chunks)
}

impl SerializableExt for CoolArchive {
    fn deserialize(input: &mut ByteCursor) -> (r: Result<CoolArchive, CodecError>)
        ensures
            final(input).decoded_from(
                old(input),
                r,
                parse_archive(old(input).data@, old(input).position as int),
            ),
            r matches Ok(archive) ==> archive.wf(),
    {
        let header = CoolArchiveHeader::read(input)?;
        let chunks = read_chunks(input, header.le, header.block_count)?;
        Ok(
            CoolArchive {
                le: header.le,
                total_uncompressed_size: header.total_uncompressed_size,
                block_size: header.block_size,
                chunks,
            },
        )
    }

    fn deserialize_from_bytes(bytes: &[u8]) -> (r: Result<CoolArchive, CodecError>)
        ensures
            match r {
                Ok(archive) => archive.wf() && parse_archive(bytes@, 0).result == Ok::<
                    CoolArchiveView,
                    CodecError,
                >(archive@),
                Err(e) => parse_archive(bytes@, 0).result == Err::<CoolArchiveView, CodecError>(e),
            },
    {
        let mut input = ByteCursor::new(slice_to_vec(bytes));
        CoolArchive::deserialize(&mut input)
    }
}

} // verus!
