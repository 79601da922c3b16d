//! What a decoder promises: the value it yields and where it leaves the
//! cursor, as a function of the bytes and of where the cursor stood.

use vstd::prelude::*;

use crate::helpers::byte::exhausted;
use crate::helpers::byte::ByteCursor;
use crate::helpers::error::CodecError;

verus! {

/// The outcome of decoding at some place in a byte sequence: the value or
/// the error, and the place where the cursor stands afterwards.
pub struct Parsed<T> {
    pub result: Result<T, CodecError>,
    pub end: int,
}

/// A decode that yields `value` and leaves the cursor at `end`.
pub open spec fn parsed<T>(value: T, end: int) -> Parsed<T> {
    Parsed { result: Ok(value), end }
}

/// A decode that fails with `error` and leaves the cursor at `end`.
pub open spec fn failed<T>(error: CodecError, end: int) -> Parsed<T> {
    Parsed { result: Err(error), end }
}

/// A decode that runs out of bytes when the cursor stood at `at`.
pub open spec fn short_read<T>(bytes: Seq<u8>, at: int) -> Parsed<T> {
    failed(CodecError::ShortRead, exhausted(bytes, at))
}

/// A run of `count` items decoded one after the other, the first at
/// `first` and each next one where the one before it has left the cursor.
/// The first item that fails ends the run with its error.
pub open spec fn parse_run<T>(step: spec_fn(int) -> Parsed<T>, first: int, count: nat) -> Parsed<
    Seq<T>,
>
    decreases count,
{
    if count == 0 {
        parsed(Seq::empty(), first)
    } else {
        let before = parse_run(step, first, (count - 1) as nat);
        match before.result {
            Err(_) => before,
            Ok(items) => {
                let next = step(before.end);
                match next.result {
                    Err(error) => failed(error, next.end),
                    Ok(item) => parsed(items.push(item), next.end),
                }
            },
        }
    }
}

/// Once an item has failed, asking for more items changes nothing.
pub proof fn lemma_failure_ends_the_run<T>(
    step: spec_fn(int) -> Parsed<T>,
    first: int,
    failing: nat,
    count: nat,
)
    requires
        parse_run(step, first, failing).result is Err,
        failing <= count,
    ensures
        parse_run(step, first, count) == parse_run(step, first, failing),
    decreases count,
{
    if count > failing {
        lemma_failure_ends_the_run(step, first, failing, (count - 1) as nat);
    }
}

/// The state of a stream after an encoder has run: its bytes, its cursor,
/// and whether the encoder succeeded.
pub struct Written {
    pub data: Seq<u8>,
    pub position: int,
    pub result: Result<(), CodecError>,
}

impl ByteCursor {
    /// Whether an encoder that returned `r` and left the stream as `self`
    /// has done what `model` says.
    pub open spec fn encoded_as(&self, r: Result<(), CodecError>, model: Written) -> bool {
        &&& self.data@ == model.data
        &&& self.position == model.position
        &&& r == model.result
    }

    /// Whether a decoder that was handed the cursor `before`, returned `r`
    /// and left the cursor as `self` has done what `model` says: the data
    /// is untouched, the cursor stands at the model's end, and `r` is the
    /// model's result.
    pub open spec fn decoded_from<T: View>(
        &self,
        before: &ByteCursor,
        r: Result<T, CodecError>,
        model: Parsed<T::V>,
    ) -> bool {
        &&& self.data@ == before.data@
        &&& self.position == model.end
        &&& match r {
            Ok(value) => model.result == Ok::<T::V, CodecError>(value@),
            Err(error) => model.result == Err::<T::V, CodecError>(error),
        }
    }
}

/// A container that is decoded whole from a stream.
pub trait SerializableExt: Sized {
    /// Decodes one container at the cursor.
    fn deserialize(input: &mut ByteCursor) -> Result<Self, CodecError>;

    /// Decodes one container from the start of `bytes`.
    fn deserialize_from_bytes(bytes: &[u8]) -> Result<Self, CodecError>;
}

/// A part of a container, in the byte order that the container's signature
/// has settled.
pub trait SerializablePartExt: Sized {
    /// Decodes one part at the cursor.
    fn read(input: &mut ByteCursor, le: bool) -> Result<Self, CodecError>;

    /// Encodes the part at the cursor.
    fn write(&self, output: &mut ByteCursor, le: bool) -> Result<(), CodecError>;
}

} // verus!
