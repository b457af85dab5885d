//! The header of a quantized artifact: six 32-bit fields, little-endian, in declaration
//! order.

use crate::utils::bytes::{le_bytes, le_word, lemma_le_word_of_bytes, push_le, read_le};
use vstd::prelude::*;

verus! {

/// The format tag.  On disk its bytes read `88QK`.
pub const MAGIC_Q8K: u32 = 0x4B51_3838;

/// The format version that is written.
pub const VERSION: u32 = 1;

/// The element-type tag of the 8-bit block format.
pub const DTYPE_Q8K: u32 = 0x18;

/// The length of an encoded header.
pub const HEADER_BYTES: usize = 24;

/// The header of a quantized artifact.
#[derive(Clone, Copy, Debug, PartialEq, Eq, Structural)]
pub struct Q8KHeader {
    pub magic: u32,
    pub version: u32,
    /// The number of rows.
    pub out: u32,
    /// The number of columns before quantization.
    pub k: u32,
    pub blocks_per_row: u32,
    pub dtype: u32,
}

impl Q8KHeader {
    /// The 24 bytes that encode the header.
    pub open spec fn encoding(self) -> Seq<u8> {
        le_bytes(self.magic) + le_bytes(self.version) + le_bytes(self.out) + le_bytes(self.k)
            + le_bytes(self.blocks_per_row) + le_bytes(self.dtype)
    }

    /// The header that the first 24 bytes of `bytes` encode.
    pub open spec fn decoding(bytes: Seq<u8>) -> Q8KHeader {
        Q8KHeader {
            magic: le_word(bytes, 0),
            version: le_word(bytes, 4),
            out: le_word(bytes, 8),
            k: le_word(bytes, 12),
            blocks_per_row: le_word(bytes, 16),
            dtype: le_word(bytes, 20),
        }
    }

    /// The header that is written for a `rows * k` matrix in blocks of `block_width`
    /// columns.
    pub open spec fn describing(rows: nat, k: nat, block_width: nat) -> Q8KHeader {
        Q8KHeader {
            magic: MAGIC_Q8K,
            version: VERSION,
            out: rows as u32,
            k: k as u32,
            blocks_per_row: (k / block_width) as u32,
            dtype: DTYPE_Q8K,
        }
    }

    /// Decoding an encoded header gives the header back, whatever follows it.
    pub proof fn lemma_decoding_of_encoding(self, rest: Seq<u8>)
        ensures
            self.encoding().len() == HEADER_BYTES,
            Q8KHeader::decoding(self.encoding() + rest) == self,
    {
        let bytes = self.encoding() + rest;
        lemma_le_word_of_bytes(self.magic);
        lemma_le_word_of_bytes(self.version);
        lemma_le_word_of_bytes(self.out);
        lemma_le_word_of_bytes(self.k);
        lemma_le_word_of_bytes(self.blocks_per_row);
        lemma_le_word_of_bytes(self.dtype);
        assert(bytes.subrange(0, 4) =~= le_bytes(self.magic));
        assert(bytes.subrange(4, 8) =~= le_bytes(self.version));
        assert(bytes.subrange(8, 12) =~= le_bytes(self.out));
        assert(bytes.subrange(12, 16) =~= le_bytes(self.k));
        assert(bytes.subrange(16, 20) =~= le_bytes(self.blocks_per_row));
        assert(bytes.subrange(20, 24) =~= le_bytes(self.dtype));
        assert(le_word(bytes, 0) == le_word(bytes.subrange(0, 4), 0));
        assert(le_word(bytes, 4) == le_word(bytes.subrange(4, 8), 0));
        assert(le_word(bytes, 8) == le_word(bytes.subrange(8, 12), 0));
        assert(le_word(bytes, 12) == le_word(bytes.subrange(12, 16), 0));
        assert(le_word(bytes, 16) == le_word(bytes.subrange(16, 20), 0));
        assert(le_word(bytes, 20) == le_word(bytes.subrange(20, 24), 0));
    }

    /// Makes the header of a `rows * k` matrix in blocks of `block_width` columns.
    pub fn new(rows: usize, k: usize, block_width: usize) -> (header: Q8KHeader)
        requires
            rows <= u32::MAX,
            k <= u32::MAX,
            block_width > 0,
        ensures
            header == Q8KHeader::describing(rows as nat, k as nat, block_width as nat),
            header.out == rows,
            header.k == k,
            header.blocks_per_row == k / block_width,
    {
        assert(k / block_width <= k) by (nonlinear_arith)
            requires
                block_width > 0,
                k >= 0,
        ;
        Q8KHeader {
            magic: MAGIC_Q8K,
            version: VERSION,
            out: rows as u32,
            k: k as u32,
            blocks_per_row: (k / block_width) as u32,
            dtype: DTYPE_Q8K,
        }
    }

    /// Encodes the header.
    pub fn to_bytes(&self) -> (bytes: Vec<u8>)
        ensures
            bytes@ == self.encoding(),
            bytes@.len() == HEADER_BYTES,
    {
        let mut bytes: Vec<u8> = Vec::with_capacity(HEADER_BYTES);
        push_le(&mut bytes, self.magic);
        push_le(&mut bytes, self.version);
        push_le(&mut bytes, self.out);
        push_le(&mut bytes, self.k);
        push_le(&mut bytes, self.blocks_per_row);
        push_le(&mut bytes, self.dtype);
        assert(bytes@ =~= self.encoding());
        bytes
    }

    /// Decodes the header at the start of `bytes`; `None` where there are fewer than 24
    /// bytes.  The fields are not judged here.
    pub fn from_bytes(bytes: &[u8]) -> (header: Option<Q8KHeader>)
        ensures
            header is Some <==> bytes@.len() >= HEADER_BYTES,
            header matches Some(h) ==> h == Q8KHeader::decoding(bytes@),
    {
        if bytes.len() < HEADER_BYTES {
            return None;
        }
        Some(
            Q8KHeader {
                magic: read_le(bytes, 0),
                version: read_le(bytes, 4),
                out: read_le(bytes, 8),
                k: read_le(bytes, 12),
                blocks_per_row: read_le(bytes, 16),
                dtype: read_le(bytes, 20),
            },
        )
    }
}

} // verus!
