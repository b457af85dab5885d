//! Little-endian words in byte sequences.

use vstd::prelude::*;

verus! {

/// The four bytes of `x`, least significant first.
pub open spec fn le_bytes(x: u32) -> Seq<u8> {
    seq![
        (x % 256) as u8,
        (x / 256 % 256) as u8,
        (x / 65536 % 256) as u8,
        (x / 16777216) as u8,
    ]
}

/// The word that the four bytes of `bytes` from `at` on encode, least significant first.
pub open spec fn le_word(bytes: Seq<u8>, at: int) -> u32 {
    (bytes[at] + bytes[at + 1] * 256 + bytes[at + 2] * 65536 + bytes[at + 3] * 16777216) as u32
}

/// Decoding the bytes of a word gives the word back.
pub proof fn lemma_le_word_of_bytes(x: u32)
    ensures
        le_bytes(x).len() == 4,
        le_word(le_bytes(x), 0) == x,
{
}

/// Appends the four bytes of `x`, least significant first.
pub fn push_le(out: &mut Vec<u8>, x: u32)
    ensures
        final(out)@ == old(out)@ + le_bytes(x),
{
    out.push((x % 256) as u8);
    out.push((x / 256 % 256) as u8);
    out.push((x / 65536 % 256) as u8);
    out.push((x / 16777216) as u8);
    assert(out@ =~= old(out)@ + le_bytes(x));
}

/// Reads the word that stands at `at`, least significant byte first.
pub fn read_le(bytes: &[u8], at: usize) -> (x: u32)
    requires
        at + 4 <= bytes@.len(),
    ensures
        x == le_word(bytes@, at as int),
{
    let b0 = bytes[at] as u32;
    let b1 = bytes[at + 1] as u32;
    let b2 = bytes[at + 2] as u32;
    let b3 = bytes[at + 3] as u32;
    b0 + b1 * 256 + b2 * 65536 + b3 * 16777216
}

/// The 16-bit word that the two bytes of `bytes` from `at` on encode, least significant
/// first.
pub open spec fn le_half(bytes: Seq<u8>, at: int) -> u32 {
    (bytes[at] + bytes[at + 1] * 256) as u32
}

/// Reads the 16-bit word that stands at `at`, least significant byte first.
pub fn read_le_half(bytes: &[u8], at: usize) -> (x: u32)
    requires
        at + 2 <= bytes@.len(),
    ensures
        x == le_half(bytes@, at as int),
{
    bytes[at] as u32 + bytes[at + 1] as u32 * 256
}

} // verus!
