//! An in-memory random-access byte stream, and the fixed-width reads and
//! writes of the container formats on top of it.

use vstd::prelude::*;
use vstd::slice::slice_subrange;
use vstd::slice::slice_to_vec;
use vstd::utf8::encode_utf8;
use vstd::utf8::valid_utf8;

use crate::helpers::error::host_size;
use crate::helpers::error::CodecError;

verus! {

/// How many bytes of `bytes` stand at or after `at`.
pub open spec fn bytes_left(bytes: Seq<u8>, at: int) -> int {
    if 0 <= at <= bytes.len() {
        bytes.len() - at
    } else {
        0
    }
}

/// Up to `count` bytes of `bytes` from `at` on: fewer where the data ends
/// first, none where `at` is past the end.
pub open spec fn span(bytes: Seq<u8>, at: int, count: int) -> Seq<u8> {
    if 0 <= at <= at + count <= bytes.len() {
        bytes.subrange(at, at + count)
    } else if 0 <= at < bytes.len() {
        bytes.subrange(at, bytes.len() as int)
    } else {
        Seq::empty()
    }
}

/// Where a cursor at `at` stands after a read that found too few bytes: at
/// the end of the data, or where it was if that is already past the end.
pub open spec fn exhausted(bytes: Seq<u8>, at: int) -> int {
    if at <= bytes.len() {
        bytes.len() as int
    } else {
        at
    }
}

/// The 16-bit value of the two bytes at `at`, little-endian if `le`.
pub open spec fn u16_at(bytes: Seq<u8>, at: int, le: bool) -> u16 {
    if le {
        (bytes[at] + bytes[at + 1] * 0x100) as u16
    } else {
        (bytes[at] * 0x100 + bytes[at + 1]) as u16
    }
}

/// The 32-bit value of the four bytes at `at`, little-endian if `le`.
pub open spec fn u32_at(bytes: Seq<u8>, at: int, le: bool) -> u32 {
    if le {
        (bytes[at] + bytes[at + 1] * 0x100 + bytes[at + 2] * 0x1_0000 + bytes[at + 3]
            * 0x100_0000) as u32
    } else {
        (bytes[at] * 0x100_0000 + bytes[at + 1] * 0x1_0000 + bytes[at + 2] * 0x100 + bytes[at
            + 3]) as u32
    }
}

/// The two's-complement reading of a byte.
pub open spec fn signed_8(value: u8) -> i8 {
    if value < 0x80 {
        value as i8
    } else {
        (value - 0x100) as i8
    }
}

/// The two's-complement reading of a 16-bit word.
pub open spec fn signed_16(value: u16) -> i16 {
    if value < 0x8000 {
        value as i16
    } else {
        (value - 0x1_0000) as i16
    }
}

/// The two's-complement reading of a 32-bit word.
pub open spec fn signed_32(value: u32) -> i32 {
    if value < 0x8000_0000 {
        value as i32
    } else {
        (value - 0x1_0000_0000) as i32
    }
}

/// The word whose two's-complement reading is `value`.
pub open spec fn unsigned_8(value: i8) -> u8 {
    if value >= 0 {
        value as u8
    } else {
        (value + 0x100) as u8
    }
}

/// The word whose two's-complement reading is `value`.
pub open spec fn unsigned_16(value: i16) -> u16 {
    if value >= 0 {
        value as u16
    } else {
        (value + 0x1_0000) as u16
    }
}

/// The word whose two's-complement reading is `value`.
pub open spec fn unsigned_32(value: i32) -> u32 {
    if value >= 0 {
        value as u32
    } else {
        (value + 0x1_0000_0000) as u32
    }
}

/// The two bytes that encode `value`, little-endian if `le`.
pub open spec fn u16_bytes(value: u16, le: bool) -> Seq<u8> {
    if le {
        seq![(value % 0x100) as u8, (value / 0x100) as u8]
    } else {
        seq![(value / 0x100) as u8, (value % 0x100) as u8]
    }
}

/// The four bytes that encode `value`, little-endian if `le`.
pub open spec fn u32_bytes(value: u32, le: bool) -> Seq<u8> {
    if le {
        seq![
            (value % 0x100) as u8,
            (value / 0x100 % 0x100) as u8,
            (value / 0x1_0000 % 0x100) as u8,
            (value / 0x100_0000) as u8,
        ]
    } else {
        seq![
            (value / 0x100_0000) as u8,
            (value / 0x1_0000 % 0x100) as u8,
            (value / 0x100 % 0x100) as u8,
            (value % 0x100) as u8,
        ]
    }
}

/// A 16-bit value reads back from the two bytes that encode it.
pub proof fn lemma_u16_reads_back(value: u16, le: bool)
    ensures
        u16_bytes(value, le).len() == 2,
        u16_at(u16_bytes(value, le), 0, le) == value,
{
}

/// A 32-bit value reads back from the four bytes that encode it.
pub proof fn lemma_u32_reads_back(value: u32, le: bool)
    ensures
        u32_bytes(value, le).len() == 4,
        u32_at(u32_bytes(value, le), 0, le) == value,
{
}

/// What is read at a place depends on the bytes at that place alone.
pub proof fn lemma_reads_see_their_bytes(first: Seq<u8>, at: int, second: Seq<u8>, from: int, le: bool)
    requires
        0 <= at,
        0 <= from,
    ensures
        at + 2 <= first.len() && from + 2 <= second.len() && first.subrange(at, at + 2)
            == second.subrange(from, from + 2) ==> u16_at(first, at, le) == u16_at(second, from, le),
        at + 4 <= first.len() && from + 4 <= second.len() && first.subrange(at, at + 4)
            == second.subrange(from, from + 4) ==> u32_at(first, at, le) == u32_at(second, from, le),
{
    if at + 2 <= first.len() && from + 2 <= second.len() && first.subrange(at, at + 2)
        == second.subrange(from, from + 2) {
        assert(first[at] == first.subrange(at, at + 2)[0]);
        assert(first[at + 1] == first.subrange(at, at + 2)[1]);
        assert(second[from] == second.subrange(from, from + 2)[0]);
        assert(second[from + 1] == second.subrange(from, from + 2)[1]);
    }
    if at + 4 <= first.len() && from + 4 <= second.len() && first.subrange(at, at + 4)
        == second.subrange(from, from + 4) {
        assert(first[at] == first.subrange(at, at + 4)[0]);
        assert(first[at + 1] == first.subrange(at, at + 4)[1]);
        assert(first[at + 2] == first.subrange(at, at + 4)[2]);
        assert(first[at + 3] == first.subrange(at, at + 4)[3]);
        assert(second[from] == second.subrange(from, from + 4)[0]);
        assert(second[from + 1] == second.subrange(from, from + 4)[1]);
        assert(second[from + 2] == second.subrange(from, from + 4)[2]);
        assert(second[from + 3] == second.subrange(from, from + 4)[3]);
    }
}

/// Which byte order a stream is in, judged by the magic bytes found where
/// `expected` should stand: `Some(true)` where they are `expected` itself,
/// `Some(false)` where they are `expected` reversed, `None` otherwise. The
/// direct reading wins where both fit.
pub open spec fn signature_orientation(magic: Seq<u8>, expected: Seq<u8>) -> Option<bool> {
    if magic == expected {
        Some(true)
    } else if magic.reverse() == expected {
        Some(false)
    } else {
        None
    }
}

/// A signature that reads differently backwards tells the two byte orders
/// apart: found as it stands it means little-endian, found reversed it
/// means big-endian.
pub proof fn lemma_reversed_signature_is_the_other_byte_order(expected: Seq<u8>)
    requires
        expected.reverse() != expected,
    ensures
        signature_orientation(expected, expected) == Some(true),
        signature_orientation(expected.reverse(), expected) == Some(false),
{
    assert(expected.reverse().reverse() =~= expected);
}

/// `data` after `bytes` were written at `at`: the bytes replace what stood
/// there and lengthen the data where they reach past its end; a gap between
/// the old end and `at` is filled with zeros.
pub open spec fn overwritten(data: Seq<u8>, at: int, bytes: Seq<u8>) -> Seq<u8> {
    Seq::new(
        if data.len() >= at + bytes.len() {
            data.len()
        } else {
            (at + bytes.len()) as nat
        },
        |i: int|
            if at <= i < at + bytes.len() {
                bytes[i - at]
            } else if i < data.len() {
                data[i]
            } else {
                0u8
            },
    )
}

/// Two writes, the second where the first ended, are one write of both.
pub proof fn lemma_consecutive_writes(data: Seq<u8>, at: int, first: Seq<u8>, second: Seq<u8>)
    requires
        0 <= at,
    ensures
        overwritten(overwritten(data, at, first), at + first.len(), second) == overwritten(
            data,
            at,
            first + second,
        ),
{
    assert(overwritten(overwritten(data, at, first), at + first.len(), second) =~= overwritten(
        data,
        at,
        first + second,
    ));
}

/// A byte buffer with a cursor. Reads and writes start at the cursor and
/// move it; a seek may put it anywhere, also past the end of the data.
pub struct ByteCursor {
    pub data: Vec<u8>,
    pub position: u64,
}

/// Asking a stream for its length.
pub trait StreamLengthExt {
    /// The length of the whole stream, with the cursor left where it is.
    fn stream_length(&mut self) -> Result<u64, CodecError>;
}

/// Fixed-width reads at a stream's cursor.
pub trait ByteReaderExt {
    /// Exactly `count` bytes.
    fn read_bytes(&mut self, count: usize) -> Result<Vec<u8>, CodecError>;

    fn read_u8(&mut self) -> Result<u8, CodecError>;

    fn read_u16(&mut self, le: bool) -> Result<u16, CodecError>;

    fn read_u32(&mut self, le: bool) -> Result<u32, CodecError>;

    /// One byte as a flag: any value but zero is `true`.
    fn read_b8(&mut self) -> Result<bool, CodecError>;

    fn read_s8(&mut self) -> Result<i8, CodecError>;

    fn read_s16(&mut self, le: bool) -> Result<i16, CodecError>;

    fn read_s32(&mut self, le: bool) -> Result<i32, CodecError>;

    /// `length` bytes as a string, which they are if they are UTF-8.
    fn read_string(&mut self, length: u32) -> Result<String, CodecError>;

    /// Reads as many bytes as `le_signature` has and tells the byte order of
    /// the stream from them.
    fn validate_signature(&mut self, le_signature: &[u8]) -> Result<bool, CodecError>;
}

/// Fixed-width writes at a stream's cursor.
pub trait ByteWriterExt {
    /// All of `bytes`.
    fn write_bytes(&mut self, bytes: &[u8]) -> Result<(), CodecError>;

    fn write_u8(&mut self, value: u8) -> Result<(), CodecError>;

    fn write_u16(&mut self, value: u16, le: bool) -> Result<(), CodecError>;

    fn write_u32(&mut self, value: u32, le: bool) -> Result<(), CodecError>;

    /// A flag as one byte, 1 for `true`.
    fn write_b8(&mut self, value: bool) -> Result<(), CodecError>;

    fn write_s8(&mut self, value: i8) -> Result<(), CodecError>;

    fn write_s16(&mut self, value: i16, le: bool) -> Result<(), CodecError>;

    fn write_s32(&mut self, value: i32, le: bool) -> Result<(), CodecError>;
}

impl ByteCursor {
    /// The cursor moved on by `count` over unchanged data.
    pub open spec fn advanced_from(&self, before: &ByteCursor, count: int) -> bool {
        &&& self.data@ == before.data@
        &&& self.position == before.position + count
    }

    /// The cursor after a read that found too few bytes.
    pub open spec fn exhausted_from(&self, before: &ByteCursor) -> bool {
        &&& self.data@ == before.data@
        &&& self.position == exhausted(before.data@, before.position as int)
    }

    /// Whether `count` bytes stand at the cursor.
    pub open spec fn holds(&self, count: int) -> bool {
        bytes_left(self.data@, self.position as int) >= count
    }

    /// How a fixed-width read of `count` bytes ends: well, past the bytes
    /// read, exactly where `count` bytes stood at the cursor; else with a
    /// short-read error and the cursor where the data ran out.
    pub open spec fn read_from<T>(
        &self,
        before: &ByteCursor,
        count: int,
        r: Result<T, CodecError>,
    ) -> bool {
        match r {
            Ok(_) => before.holds(count) && self.advanced_from(before, count),
            Err(e) => !before.holds(count) && e == CodecError::ShortRead && self.exhausted_from(
                before,
            ),
        }
    }

    /// How a write of `bytes` ends: well, with the bytes in place and the
    /// cursor past them, exactly where their end is within what a buffer can
    /// hold; else with nothing changed.
    pub open spec fn written_from(
        &self,
        before: &ByteCursor,
        bytes: Seq<u8>,
        r: Result<(), CodecError>,
    ) -> bool {
        match r {
            Ok(_) => {
                &&& before.position + bytes.len() <= usize::MAX
                &&& self.data@ == overwritten(before.data@, before.position as int, bytes)
                &&& self.position == before.position + bytes.len()
            },
            Err(e) => {
                &&& before.position + bytes.len() > usize::MAX
                &&& e == CodecError::SizeOverflow
                &&& *self == *before
            },
        }
    }

    /// A cursor at the start of `data`.
    pub fn new(data: Vec<u8>) -> (cursor: ByteCursor)
        ensures
            cursor.data@ == data@,
            cursor.position == 0,
    {
        ByteCursor { data, position: 0 }
    }

    /// The bytes of the stream, the cursor given up.
    pub fn into_inner(self) -> (data: Vec<u8>)
        ensures
            data@ == self.data@,
    {
        self.data
    }

    /// Where the cursor stands.
    pub fn stream_position(&self) -> (position: u64)
        ensures
            position == self.position,
    {
        self.position
    }

    /// Puts the cursor at `position`, counted from the start of the data.
    pub fn seek(&mut self, position: u64)
        ensures
            final(self).data@ == old(self).data@,
            final(self).position == position,
    {
        self.position = position;
    }

    /// Reads up to `count` bytes: all that are left where fewer are.
    pub fn read(&mut self, count: usize) -> (out: Vec<u8>)
        ensures
            out@ == span(old(self).data@, old(self).position as int, count as int),
            final(self).advanced_from(old(self), out@.len() as int),
    {
        let length: usize = self.data.len();
        if self.position >= length as u64 {
            let out: Vec<u8> = Vec::new();
            assert(out@ =~= span(self.data@, self.position as int, count as int));
            return out;
        }
        let start: usize = self.position as usize;
        let end: usize = if length - start >= count {
            start + count
        } else {
            length
        };
        let out = slice_to_vec(slice_subrange(self.data.as_slice(), start, end));
        self.position = end as u64;
        out
    }

    /// Writes `bytes` at the cursor and moves it past them. Fails, with
    /// nothing written, where the end of the write is beyond what a buffer
    /// can hold.
    pub fn write(&mut self, bytes: &[u8]) -> (r: Result<usize, CodecError>)
        ensures
            match r {
                Ok(written) => {
                    &&& old(self).position + bytes@.len() <= usize::MAX
                    &&& written == bytes@.len()
                    &&& final(self).data@ == overwritten(
                        old(self).data@,
                        old(self).position as int,
                        bytes@,
                    )
                    &&& final(self).position == old(self).position + bytes@.len()
                },
                Err(e) => {
                    &&& old(self).position + bytes@.len() > usize::MAX
                    &&& e == CodecError::SizeOverflow
                    &&& *final(self) == *old(self)
                },
            },
    {
        let count: usize = bytes.len();
        if self.position > (usize::MAX - count) as u64 {
            return Err(CodecError::SizeOverflow);
        }
        let start: usize = self.position as usize;
        if self.data.len() < start {
            self.data.resize(start, 0u8);
        }
        let mut i: usize = 0;
        while i < count
            invariant
                i <= count,
                count == bytes@.len(),
                start + count <= usize::MAX,
                start == old(self).position,
                self.position == old(self).position,
                self.data@ == overwritten(
                    old(self).data@,
                    start as int,
                    bytes@.subrange(0, i as int),
                ),
            decreases count - i,
        {
            if start + i < self.data.len() {
                self.data[start + i] = bytes[i];
            } else {
                self.data.push(bytes[i]);
            }
            i = i + 1;
            assert(self.data@ =~= overwritten(
                old(self).data@,
                start as int,
                bytes@.subrange(0, i as int),
            ));
        }
        assert(bytes@.subrange(0, count as int) =~= bytes@);
        self.position = (start + count) as u64;
        Ok(count)
    }
}

pub(crate) fn same_bytes(a: &[u8], b: &[u8]) -> (same: bool)
    ensures
        same == (a@ == b@),
{
    if a.len() != b.len() {
        return false;
    }
    let mut i: usize = 0;
    while i < a.len()
        invariant
            i <= a@.len(),
            a@.len() == b@.len(),
            forall|k: int| 0 <= k < i ==> a@[k] == b@[k],
        decreases a@.len() - i,
    {
        if a[i] != b[i] {
            return false;
        }
        i = i + 1;
    }
    assert(a@ =~= b@);
    true
}

pub(crate) fn mirrored_bytes(a: &[u8], b: &[u8]) -> (mirrored: bool)
    ensures
        mirrored == (a@.reverse() == b@),
{
    let count: usize = a.len();
    if count != b.len() {
        return false;
    }
    let mut i: usize = 0;
    while i < count
        invariant
            i <= count,
            count == a@.len(),
            count == b@.len(),
            forall|k: int| 0 <= k < i ==> a@[count - 1 - k] == b@[k],
        decreases count - i,
    {
        if a[count - 1 - i] != b[i] {
            assert(a@.reverse()[i as int] != b@[i as int]);
            return false;
        }
        i = i + 1;
    }
    assert(a@.reverse() =~= b@);
    true
}

/// Appends one byte to a buffer.
pub fn put_u8(buffer: &mut Vec<u8>, value: u8)
    ensures
        final(buffer)@ == old(buffer)@ + seq![value],
{
    buffer.push(value);
    assert(buffer@ =~= old(buffer)@ + seq![value]);
}

/// Appends the two bytes of `value` to a buffer.
pub fn put_u16(buffer: &mut Vec<u8>, value: u16, le: bool)
    ensures
        final(buffer)@ == old(buffer)@ + u16_bytes(value, le),
{
    let low: u8 = (value % 0x100) as u8;
    let high: u8 = (value / 0x100) as u8;
    if le {
        buffer.push(low);
        buffer.push(high);
    } else {
        buffer.push(high);
        buffer.push(low);
    }
    assert(buffer@ =~= old(buffer)@ + u16_bytes(value, le));
}

/// Appends the four bytes of `value` to a buffer.
pub fn put_u32(buffer: &mut Vec<u8>, value: u32, le: bool)
    ensures
        final(buffer)@ == old(buffer)@ + u32_bytes(value, le),
{
    let b0: u8 = (value % 0x100) as u8;
    let b1: u8 = (value / 0x100 % 0x100) as u8;
    let b2: u8 = (value / 0x1_0000 % 0x100) as u8;
    let b3: u8 = (value / 0x100_0000) as u8;
    if le {
        buffer.push(b0);
        buffer.push(b1);
        buffer.push(b2);
        buffer.push(b3);
    } else {
        buffer.push(b3);
        buffer.push(b2);
        buffer.push(b1);
        buffer.push(b0);
    }
    assert(buffer@ =~= old(buffer)@ + u32_bytes(value, le));
}

/// Appends the four bytes of a signed `value` to a buffer.
pub fn put_s32(buffer: &mut Vec<u8>, value: i32, le: bool)
    ensures
        final(buffer)@ == old(buffer)@ + u32_bytes(unsigned_32(value), le),
{
    put_u32(buffer, unsigned_word_32(value), le);
}

/// Appends a run of bytes to a buffer.
pub fn put_bytes(buffer: &mut Vec<u8>, bytes: &[u8])
    ensures
        final(buffer)@ == old(buffer)@ + bytes@,
{
    let mut i: usize = 0;
    while i < bytes.len()
        invariant
            i <= bytes@.len(),
            buffer@ == old(buffer)@ + bytes@.subrange(0, i as int),
        decreases bytes@.len() - i,
    {
        buffer.push(bytes[i]);
        i = i + 1;
        assert(buffer@ =~= old(buffer)@ + bytes@.subrange(0, i as int));
    }
    assert(bytes@.subrange(0, i as int) =~= bytes@);
}

/// `std::string::FromUtf8Error`, with which bytes that are not UTF-8 are
/// refused. Nothing is known of what it holds.
#[verifier::external_type_specification]
#[verifier::external_body]
pub struct ExFromUtf8Error(std::string::FromUtf8Error);

/// Calls the standard library's `String::from_utf8`, which makes a string
/// of bytes that are valid UTF-8, the string holding exactly those bytes,
/// and refuses all others.
#[verifier::external_body]
fn string_from_utf8(bytes: Vec<u8>) -> (r: Result<String, std::string::FromUtf8Error>)
    ensures
        match r {
            Ok(text) => valid_utf8(bytes@) && encode_utf8(text@) == bytes@,
            Err(_) => !valid_utf8(bytes@),
        },
{
    String::from_utf8(bytes)
}

impl StreamLengthExt for ByteCursor {
    fn stream_length(&mut self) -> (r: Result<u64, CodecError>)
        ensures
            *final(self) == *old(self),
            r matches Ok(length) && length == old(self).data@.len(),
    {
        Ok(self.data.len() as u64)
    }
}

impl ByteReaderExt for ByteCursor {
    fn read_bytes(&mut self, count: usize) -> (r: Result<Vec<u8>, CodecError>)
        ensures
            final(self).read_from(old(self), count as int, r),
            r matches Ok(bytes) ==> bytes@ == span(
                old(self).data@,
                old(self).position as int,
                count as int,
            ) && bytes@.len() == count,
    {
        let bytes = self.read(count);
        if bytes.len() < count {
            Err(CodecError::ShortRead)
        } else {
            Ok(bytes)
        }
    }

    fn read_u8(&mut self) -> (r: Result<u8, CodecError>)
        ensures
            final(self).read_from(old(self), 1, r),
            r matches Ok(value) ==> value == old(self).data@[old(self).position as int],
    {
        let bytes = self.read_bytes(1)?;
        Ok(bytes[0])
    }

    fn read_u16(&mut self, le: bool) -> (r: Result<u16, CodecError>)
        ensures
            final(self).read_from(old(self), 2, r),
            r matches Ok(value) ==> value == u16_at(
                old(self).data@,
                old(self).position as int,
                le,
            ),
    {
        let bytes = self.read_bytes(2)?;
        let value: u16 = if le {
            bytes[0] as u16 + bytes[1] as u16 * 0x100
        } else {
            bytes[0] as u16 * 0x100 + bytes[1] as u16
        };
        Ok(value)
    }

    fn read_u32(&mut self, le: bool) -> (r: Result<u32, CodecError>)
        ensures
            final(self).read_from(old(self), 4, r),
            r matches Ok(value) ==> value == u32_at(
                old(self).data@,
                old(self).position as int,
                le,
            ),
    {
        let bytes = self.read_bytes(4)?;
        let value: u32 = if le {
            bytes[0] as u32 + bytes[1] as u32 * 0x100 + bytes[2] as u32 * 0x1_0000 + bytes[3] as u32
                * 0x100_0000
        } else {
            bytes[0] as u32 * 0x100_0000 + bytes[1] as u32 * 0x1_0000 + bytes[2] as u32 * 0x100
                + bytes[3] as u32
        };
        Ok(value)
    }

    fn read_b8(&mut self) -> (r: Result<bool, CodecError>)
        ensures
            final(self).read_from(old(self), 1, r),
            r matches Ok(value) ==> value == (old(self).data@[old(self).position as int] != 0),
    {
        Ok(self.read_u8()? > 0)
    }

    fn read_s8(&mut self) -> (r: Result<i8, CodecError>)
        ensures
            final(self).read_from(old(self), 1, r),
            r matches Ok(value) ==> value == signed_8(
                old(self).data@[old(self).position as int],
            ),
    {
        let word: u8 = self.read_u8()?;
        let value: i8 = if word < 0x80 {
            word as i8
        } else {
            (word as i16 - 0x100) as i8
        };
        Ok(value)
    }

    fn read_s16(&mut self, le: bool) -> (r: Result<i16, CodecError>)
        ensures
            final(self).read_from(old(self), 2, r),
            r matches Ok(value) ==> value == signed_16(
                u16_at(old(self).data@, old(self).position as int, le),
            ),
    {
        let word: u16 = self.read_u16(le)?;
        let value: i16 = if word < 0x8000 {
            word as i16
        } else {
            (word as i32 - 0x1_0000) as i16
        };
        Ok(value)
    }

    fn read_s32(&mut self, le: bool) -> (r: Result<i32, CodecError>)
        ensures
            final(self).read_from(old(self), 4, r),
            r matches Ok(value) ==> value == signed_32(
                u32_at(old(self).data@, old(self).position as int, le),
            ),
    {
        let word: u32 = self.read_u32(le)?;
        let value: i32 = if word < 0x8000_0000 {
            word as i32
        } else {
            (word as i64 - 0x1_0000_0000) as i32
        };
        Ok(value)
    }

    fn read_string(&mut self, length: u32) -> (r: Result<String, CodecError>)
        ensures
            final(self).data@ == old(self).data@,
            match r {
                Ok(text) => {
                    &&& old(self).holds(length as int)
                    &&& encode_utf8(text@) == span(
                        old(self).data@,
                        old(self).position as int,
                        length as int,
                    )
                    &&& final(self).position == old(self).position + length
                },
                Err(e) => if old(self).holds(length as int) {
                    &&& !valid_utf8(
                        span(old(self).data@, old(self).position as int, length as int),
                    )
                    &&& e == CodecError::InvalidText
                    &&& final(self).position == old(self).position + length
                } else {
                    &&& e == CodecError::ShortRead
                    &&& final(self).exhausted_from(old(self))
                },
            },
    {
        let count = host_size(length)?;
        let bytes = self.read_bytes(count)?;
        match string_from_utf8(bytes) {
            Ok(text) => Ok(text),
            Err(_) => Err(CodecError::InvalidText),
        }
    }

    fn validate_signature(&mut self, le_signature: &[u8]) -> (r: Result<bool, CodecError>)
        ensures
            final(self).data@ == old(self).data@,
            match r {
                Ok(le) => {
                    &&& old(self).holds(le_signature@.len() as int)
                    &&& signature_orientation(
                        span(
                            old(self).data@,
                            old(self).position as int,
                            le_signature@.len() as int,
                        ),
                        le_signature@,
                    ) == Some(le)
                    &&& final(self).position == old(self).position + le_signature@.len()
                },
                Err(e) => if old(self).holds(le_signature@.len() as int) {
                    &&& signature_orientation(
                        span(
                            old(self).data@,
                            old(self).position as int,
                            le_signature@.len() as int,
                        ),
                        le_signature@,
                    ) is None
                    &&& e == CodecError::SignatureMismatch
                    &&& final(self).position == old(self).position + le_signature@.len()
                } else {
                    &&& e == CodecError::ShortRead
                    &&& final(self).exhausted_from(old(self))
                },
            },
    {
        let magic = self.read_bytes(le_signature.len())?;
        if same_bytes(magic.as_slice(), le_signature) {
            return Ok(true);
        }
        if mirrored_bytes(magic.as_slice(), le_signature) {
            return Ok(false);
        }
        Err(CodecError::SignatureMismatch)
    }
}

fn unsigned_word_16(value: i16) -> (word: u16)
    ensures
        word == unsigned_16(value),
{
    if value >= 0 {
        value as u16
    } else {
        (value as i32 + 0x1_0000) as u16
    }
}

fn unsigned_word_32(value: i32) -> (word: u32)
    ensures
        word == unsigned_32(value),
{
    if value >= 0 {
        value as u32
    } else {
        (value as i64 + 0x1_0000_0000) as u32
    }
}

impl ByteWriterExt for ByteCursor {
    fn write_bytes(&mut self, bytes: &[u8]) -> (r: Result<(), CodecError>)
        ensures
            final(self).written_from(old(self), bytes@, r),
    {
        match self.write(bytes) {
            Ok(_) => Ok(()),
            Err(e) => Err(e),
        }
    }

    fn write_u8(&mut self, value: u8) -> (r: Result<(), CodecError>)
        ensures
            final(self).written_from(old(self), seq![value], r),
    {
        let bytes: Vec<u8> = vec![value];
        assert(bytes@ =~= seq![value]);
        self.write_bytes(bytes.as_slice())
    }

    fn write_u16(&mut self, value: u16, le: bool) -> (r: Result<(), CodecError>)
        ensures
            final(self).written_from(old(self), u16_bytes(value, le), r),
    {
        let mut bytes: Vec<u8> = Vec::new();
        put_u16(&mut bytes, value, le);
        assert(bytes@ =~= u16_bytes(value, le));
        self.write_bytes(bytes.as_slice())
    }

    fn write_u32(&mut self, value: u32, le: bool) -> (r: Result<(), CodecError>)
        ensures
            final(self).written_from(old(self), u32_bytes(value, le), r),
    {
        let mut bytes: Vec<u8> = Vec::new();
        put_u32(&mut bytes, value, le);
        assert(bytes@ =~= u32_bytes(value, le));
        self.write_bytes(bytes.as_slice())
    }

    fn write_b8(&mut self, value: bool) -> (r: Result<(), CodecError>)
        ensures
            final(self).written_from(
                old(self),
                seq![if value {
                    1u8
                } else {
                    0u8
                }],
                r,
            ),
    {
        self.write_u8(if value { 1 } else { 0 })
    }

    fn write_s8(&mut self, value: i8) -> (r: Result<(), CodecError>)
        ensures
            final(self).written_from(old(self), seq![unsigned_8(value)], r),
    {
        let word: u8 = if value >= 0 {
            value as u8
        } else {
            (value as i16 + 0x100) as u8
        };
        self.write_u8(word)
    }

    fn write_s16(&mut self, value: i16, le: bool) -> (r: Result<(), CodecError>)
        ensures
            final(self).written_from(old(self), u16_bytes(unsigned_16(value), le), r),
    {
        self.write_u16(unsigned_word_16(value), le)
    }

    fn write_s32(&mut self, value: i32, le: bool) -> (r: Result<(), CodecError>)
        ensures
            final(self).written_from(old(self), u32_bytes(unsigned_32(value), le), r),
    {
        self.write_u32(unsigned_word_32(value), le)
    }
}

} // verus!
