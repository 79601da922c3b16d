//! The content hash: a 32-bit digest of a byte sequence, by which every asset
//! is named inside the archives.

use vstd::prelude::*;
use vstd::string::StringSliceAdditionalSpecFns;

verus! {

/// The three 32-bit words of the hash state, in the order `a`, `b`, `c`.
pub type HashState = (u32, u32, u32);

/// `x` rotated left by `k` bits, for `0 < k < 32`.
pub open spec fn spec_rotate_left(x: u32, k: u32) -> u32 {
    (x << k) | (x >> ((32 - k) as u32))
}

/// The little-endian value of the first `count` bytes at `at`, at most four of
/// them; bytes beyond `count` count as zero.
pub open spec fn partial_word(bytes: Seq<u8>, at: int, count: int) -> u32 {
    ((if count > 0 { bytes[at] as int } else { 0 })
        + (if count > 1 { bytes[at + 1] as int * 0x100 } else { 0 })
        + (if count > 2 { bytes[at + 2] as int * 0x1_0000 } else { 0 })
        + (if count > 3 { bytes[at + 3] as int * 0x100_0000 } else { 0 })) as u32
}

/// The state with the first `count` bytes at `at` (at most twelve) added in:
/// the first four to `a`, the next four to `b`, the last four to `c`.
pub open spec fn absorb(s: HashState, bytes: Seq<u8>, at: int, count: int) -> HashState {
    (
        s.0.wrapping_add(partial_word(bytes, at, count)),
        s.1.wrapping_add(partial_word(bytes, at + 4, count - 4)),
        s.2.wrapping_add(partial_word(bytes, at + 8, count - 8)),
    )
}

/// The mixing pass that follows each absorbed block but the last.
pub open spec fn spec_mix(s: HashState) -> HashState {
    let (a, b, c) = s;
    let a = a.wrapping_sub(c) ^ spec_rotate_left(c, 4);
    let c = c.wrapping_add(b);
    let b = b.wrapping_sub(a) ^ spec_rotate_left(a, 6);
    let a = a.wrapping_add(c);
    let c = c.wrapping_sub(b) ^ spec_rotate_left(b, 8);
    let b = b.wrapping_add(a);
    let a = a.wrapping_sub(c) ^ spec_rotate_left(c, 16);
    let c = c.wrapping_add(b);
    let b = b.wrapping_sub(a) ^ spec_rotate_left(a, 19);
    let a = a.wrapping_add(c);
    let c = c.wrapping_sub(b) ^ spec_rotate_left(b, 4);
    let b = b.wrapping_add(a);
    (a, b, c)
}

/// The avalanche pass that ends the hash; the digest is its word `c`.
pub open spec fn spec_final_mix(s: HashState) -> HashState {
    let (a, b, c) = s;
    let c = (c ^ b).wrapping_sub(spec_rotate_left(b, 14));
    let a = (a ^ c).wrapping_sub(spec_rotate_left(c, 11));
    let b = (b ^ a).wrapping_sub(spec_rotate_left(a, 25));
    let c = (c ^ b).wrapping_sub(spec_rotate_left(b, 16));
    let a = (a ^ c).wrapping_sub(spec_rotate_left(c, 4));
    let b = (b ^ a).wrapping_sub(spec_rotate_left(a, 14));
    let c = (c ^ b).wrapping_sub(spec_rotate_left(b, 24));
    (a, b, c)
}

/// The digest of `bytes[from..to]` when the state before it is `s`: while
/// more than twelve bytes are left, twelve are absorbed and mixed; the last
/// one to twelve are absorbed without mixing, and the avalanche pass follows.
pub open spec fn digest_from(bytes: Seq<u8>, from: int, to: int, s: HashState) -> u32
    decreases to - from,
{
    if to - from > 12 {
        digest_from(bytes, from + 12, to, spec_mix(absorb(s, bytes, from, 12)))
    } else {
        spec_final_mix(absorb(s, bytes, from, to - from)).2
    }
}

/// The word that all three state words start from.
pub open spec fn initial_word(length: usize, seed: u32) -> u32 {
    0xDEAD_BEEFu32.wrapping_add(length as u32).wrapping_add(seed)
}

/// The digest of `bytes[index..length]` under `seed`. `length` is the end of
/// the range, and it is `length`, not the number of bytes hashed, that
/// enters the initial state.
pub open spec fn spec_hash(bytes: Seq<u8>, index: usize, length: usize, seed: u32) -> u32 {
    let init = initial_word(length, seed);
    digest_from(bytes, index as int, length as int, (init, init, init))
}

/// The digest of a whole byte sequence under seed 0, which is how a name is
/// hashed.
pub open spec fn spec_hash_bytes(bytes: Seq<u8>) -> u32 {
    spec_hash(bytes, 0, bytes.len() as usize, 0)
}

fn rotate_left(x: u32, k: u32) -> (r: u32)
    requires
        0 < k < 32,
    ensures
        r == spec_rotate_left(x, k),
{
    (x << k) | (x >> (32 - k))
}

fn word_at(data: &[u8], at: usize, end: usize) -> (w: u32)
    requires
        end <= data@.len(),
    ensures
        w == partial_word(data@, at as int, end - at),
{
    let mut w: u32 = 0;
    if at < end {
        w = data[at] as u32;
        if end - at > 1 {
            w = w + data[at + 1] as u32 * 0x100;
        }
        if end - at > 2 {
            w = w + data[at + 2] as u32 * 0x1_0000;
        }
        if end - at > 3 {
            w = w + data[at + 3] as u32 * 0x100_0000;
        }
    }
    w
}

fn absorb_bytes(s: HashState, data: &[u8], at: usize, end: usize) -> (r: HashState)
    requires
        at <= end <= data@.len(),
        end - at <= 12,
    ensures
        r == absorb(s, data@, at as int, end - at),
{
    let a: u32 = s.0.wrapping_add(word_at(data, at, end));
    let b: u32 = if end - at > 4 {
        s.1.wrapping_add(word_at(data, at + 4, end))
    } else {
        s.1
    };
    let c: u32 = if end - at > 8 {
        s.2.wrapping_add(word_at(data, at + 8, end))
    } else {
        s.2
    };
    (a, b, c)
}

fn mix(s: HashState) -> (r: HashState)
    ensures
        r == spec_mix(s),
{
    let (a, b, c) = s;
    let a: u32 = a.wrapping_sub(c) ^ rotate_left(c, 4);
    let c: u32 = c.wrapping_add(b);
    let b: u32 = b.wrapping_sub(a) ^ rotate_left(a, 6);
    let a: u32 = a.wrapping_add(c);
    let c: u32 = c.wrapping_sub(b) ^ rotate_left(b, 8);
    let b: u32 = b.wrapping_add(a);
    let a: u32 = a.wrapping_sub(c) ^ rotate_left(c, 16);
    let c: u32 = c.wrapping_add(b);
    let b: u32 = b.wrapping_sub(a) ^ rotate_left(a, 19);
    let a: u32 = a.wrapping_add(c);
    let c: u32 = c.wrapping_sub(b) ^ rotate_left(b, 4);
    let b: u32 = b.wrapping_add(a);
    (a, b, c)
}

fn final_mix(s: HashState) -> (r: HashState)
    ensures
        r == spec_final_mix(s),
{
    let (a, b, c) = s;
    let c: u32 = (c ^ b).wrapping_sub(rotate_left(b, 14));
    let a: u32 = (a ^ c).wrapping_sub(rotate_left(c, 11));
    let b: u32 = (b ^ a).wrapping_sub(rotate_left(a, 25));
    let c: u32 = (c ^ b).wrapping_sub(rotate_left(b, 16));
    let a: u32 = (a ^ c).wrapping_sub(rotate_left(c, 4));
    let b: u32 = (b ^ a).wrapping_sub(rotate_left(a, 14));
    let c: u32 = (c ^ b).wrapping_sub(rotate_left(b, 24));
    (a, b, c)
}

/// Hashes `data[index..length]` under `seed`. An empty or reversed range
/// hashes no byte at all.
pub fn hash(data: &[u8], index: usize, length: usize, seed: u32) -> (digest: u32)
    requires
        length <= data@.len(),
    ensures
        digest == spec_hash(data@, index, length, seed),
{
    let init: u32 = 0xDEAD_BEEFu32.wrapping_add(#[verifier::truncate] (length as u32)).wrapping_add(seed);
    let mut s: HashState = (init, init, init);
    let mut i: usize = index;
    while i < length && length - i > 12
        invariant
            length <= data@.len(),
            index <= i,
            spec_hash(data@, index, length, seed) == digest_from(data@, i as int, length as int, s),
        decreases length - i,
    {
        s = mix(absorb_bytes(s, data, i, i + 12));
        i = i + 12;
    }
    if i < length {
        s = absorb_bytes(s, data, i, length);
    } else {
        assert(absorb(s, data@, i as int, length - i) == s);
    }
    final_mix(s).2
}

/// Hashes the UTF-8 bytes of a name under seed 0.
pub fn hash_string(str: &str) -> (digest: u32)
    ensures
        digest == spec_hash_bytes(str.spec_bytes()),
{
    let bytes = str.as_bytes();
    hash(bytes, 0, bytes.len(), 0)
}

} // verus!
