//! The byte layout of the quantized artifact and of the permutation sidecar.
//!
//! An artifact is a header followed by the codec's blocks, which are opaque bytes here.  A
//! sidecar holds the permutation that was applied to the columns; an artifact without a
//! sidecar was not permuted.  Reading and writing the files is the caller's part.

use super::header::{Q8KHeader, DTYPE_Q8K, HEADER_BYTES, MAGIC_Q8K};
use crate::utils::bytes::{le_bytes, le_word, lemma_le_word_of_bytes, push_le, read_le};
use vstd::prelude::*;
use vstd::slice::{slice_subrange, slice_to_vec};

verus! {

/// The tag at the start of a sidecar.  On disk its bytes read `PERM`.
pub const MAGIC_PERM: u32 = 0x4D52_4550;

/// The length of a sidecar's tag and count.
pub const PERM_HEADER_BYTES: usize = 8;

/// Why an artifact or a sidecar was rejected.
#[derive(Clone, Copy, Debug, PartialEq, Eq, Structural)]
pub enum FormatError {
    /// The artifact is shorter than a header.
    TooSmall,
    /// The artifact does not start with the format tag.
    BadMagic,
    /// The artifact holds another element type.
    BadDtype,
    /// The header's columns do not fill the blocks per row that it declares, or the
    /// artifact's length is not what its rows and blocks per row call for.
    SizeMismatch,
    /// The sidecar is shorter than its tag and count.
    PermTooSmall,
    /// The sidecar does not start with its tag.
    BadPermMagic,
    /// The sidecar's length is not what its count calls for.
    PermSizeMismatch,
}

/// What `load_q8k_tensor` returns: the blocks' bytes, the rows, the columns, and the
/// permutation of the sidecar if there is one.
pub type LoadedTensor = (Vec<u8>, usize, usize, Option<Vec<usize>>);

/// What is written for a tensor: the artifact, and the sidecar where the columns were
/// permuted.
pub type TensorFiles = (Vec<u8>, Option<Vec<u8>>);

/// The length and the indices of `perm` fit in 32 bits each.
pub open spec fn fits_sidecar(perm: Seq<usize>) -> bool {
    &&& perm.len() <= u32::MAX
    &&& forall|i: int| 0 <= i < perm.len() ==> perm[i] <= u32::MAX
}

/// The indices of `perm`, four little-endian bytes each.
pub open spec fn indices_encoding(perm: Seq<usize>) -> Seq<u8>
    decreases perm.len(),
{
    if perm.len() == 0 {
        Seq::empty()
    } else {
        indices_encoding(perm.drop_last()) + le_bytes(perm.last() as u32)
    }
}

/// The bytes of the sidecar that holds `perm`: the tag, the count, the indices.
pub open spec fn perm_encoding(perm: Seq<usize>) -> Seq<u8> {
    le_bytes(MAGIC_PERM) + le_bytes(perm.len() as u32) + indices_encoding(perm)
}

/// The permutation that a sidecar's bytes hold, or why they are rejected.
pub open spec fn perm_decoding(bytes: Seq<u8>) -> Result<Seq<usize>, FormatError> {
    if bytes.len() < PERM_HEADER_BYTES {
        Err(FormatError::PermTooSmall)
    } else if le_word(bytes, 0) != MAGIC_PERM {
        Err(FormatError::BadPermMagic)
    } else if bytes.len() != PERM_HEADER_BYTES + 4 * le_word(bytes, 4) {
        Err(FormatError::PermSizeMismatch)
    } else {
        Ok(Seq::new(le_word(bytes, 4) as nat, |i: int| le_word(bytes, 8 + 4 * i) as usize))
    }
}

/// The permutation that goes with an artifact: none where there is no sidecar.
pub open spec fn sidecar_decoding(sidecar: Option<Seq<u8>>) -> Result<
    Option<Seq<usize>>,
    FormatError,
> {
    match sidecar {
        None => Ok(None),
        Some(bytes) => match perm_decoding(bytes) {
            Ok(perm) => Ok(Some(perm)),
            Err(e) => Err(e),
        },
    }
}

/// The bytes of the artifact of a `rows * k` matrix in blocks of `block_width` columns.
pub open spec fn artifact_encoding(rows: nat, k: nat, block_width: nat, blocks: Seq<u8>) -> Seq<
    u8,
> {
    Q8KHeader::describing(rows, k, block_width).encoding() + blocks
}

/// The sidecar that is written for `perm`: none where no permutation was applied.
pub open spec fn sidecar_encoding(perm: Option<Seq<usize>>) -> Option<Seq<u8>> {
    match perm {
        Some(p) => Some(perm_encoding(p)),
        None => None,
    }
}

/// The columns that `header` declares fill whole blocks of `block_width` columns, as many
/// for each row as it declares.
pub open spec fn blocks_fill_rows(header: Q8KHeader, block_width: nat) -> bool {
    &&& block_width > 0
    &&& header.k as nat % block_width == 0
    &&& header.blocks_per_row == header.k as nat / block_width
}

/// The header of an artifact in blocks of `block_width` columns and `block_bytes` bytes
/// each, or why the artifact is rejected.
pub open spec fn artifact_header(data: Seq<u8>, block_width: nat, block_bytes: nat) -> Result<
    Q8KHeader,
    FormatError,
> {
    let header = Q8KHeader::decoding(data);
    if data.len() < HEADER_BYTES {
        Err(FormatError::TooSmall)
    } else if header.magic != MAGIC_Q8K {
        Err(FormatError::BadMagic)
    } else if header.dtype != DTYPE_Q8K {
        Err(FormatError::BadDtype)
    } else if !blocks_fill_rows(header, block_width) {
        Err(FormatError::SizeMismatch)
    } else if data.len() != HEADER_BYTES + header.out * header.blocks_per_row * block_bytes {
        Err(FormatError::SizeMismatch)
    } else {
        Ok(header)
    }
}

/// What loading an artifact and its sidecar gives: the blocks' bytes, the rows, the columns
/// and the permutation, or why the two are rejected.  The artifact is judged first.
pub open spec fn tensor_loading(
    data: Seq<u8>,
    block_width: nat,
    block_bytes: nat,
    sidecar: Option<Seq<u8>>,
) -> Result<(Seq<u8>, nat, nat, Option<Seq<usize>>), FormatError> {
    match artifact_header(data, block_width, block_bytes) {
        Err(e) => Err(e),
        Ok(header) => match sidecar_decoding(sidecar) {
            Err(e) => Err(e),
            Ok(perm) => Ok(
                (
                    data.subrange(HEADER_BYTES as int, data.len() as int),
                    header.out as nat,
                    header.k as nat,
                    perm,
                ),
            ),
        },
    }
}

/// Where the bytes of each index stand in the encoding.
pub proof fn lemma_indices_encoding(perm: Seq<usize>, i: int)
    requires
        0 <= i < perm.len(),
    ensures
        indices_encoding(perm).len() == 4 * perm.len(),
        indices_encoding(perm).subrange(4 * i, 4 * i + 4) == le_bytes(perm[i] as u32),
    decreases perm.len(),
{
    let rest = perm.drop_last();
    lemma_indices_encoding_len(rest);
    if i < perm.len() - 1 {
        lemma_indices_encoding(rest, i);
        assert(indices_encoding(perm).subrange(4 * i, 4 * i + 4) =~= indices_encoding(
            rest,
        ).subrange(4 * i, 4 * i + 4));
    } else {
        assert(indices_encoding(perm).subrange(4 * i, 4 * i + 4) =~= le_bytes(
            perm.last() as u32,
        ));
    }
}

/// An index takes four bytes.
pub proof fn lemma_indices_encoding_len(perm: Seq<usize>)
    ensures
        indices_encoding(perm).len() == 4 * perm.len(),
    decreases perm.len(),
{
    if perm.len() > 0 {
        lemma_indices_encoding_len(perm.drop_last());
    }
}

/// Sidecar round trip: decoding the sidecar of a permutation whose length and indices fit
/// in 32 bits gives the permutation back.
pub proof fn lemma_perm_roundtrip(perm: Seq<usize>)
    requires
        fits_sidecar(perm),
    ensures
        perm_decoding(perm_encoding(perm)) == Ok::<Seq<usize>, FormatError>(perm),
{
    let bytes = perm_encoding(perm);
    lemma_indices_encoding_len(perm);
    lemma_le_word_of_bytes(MAGIC_PERM);
    lemma_le_word_of_bytes(perm.len() as u32);
    assert(bytes.subrange(0, 4) =~= le_bytes(MAGIC_PERM));
    assert(bytes.subrange(4, 8) =~= le_bytes(perm.len() as u32));
    assert(le_word(bytes, 0) == le_word(bytes.subrange(0, 4), 0));
    assert(le_word(bytes, 4) == le_word(bytes.subrange(4, 8), 0));
    let decoded = Seq::new(perm.len(), |i: int| le_word(bytes, 8 + 4 * i) as usize);
    assert forall|i: int| 0 <= i < perm.len() implies decoded[i] == perm[i] by {
        lemma_indices_encoding(perm, i);
        lemma_le_word_of_bytes(perm[i] as u32);
        let word = bytes.subrange(8 + 4 * i, 8 + 4 * i + 4);
        assert(word =~= indices_encoding(perm).subrange(4 * i, 4 * i + 4));
        assert(le_word(bytes, 8 + 4 * i) == le_word(word, 0));
    }
    assert(decoded =~= perm);
}

/// Artifact round trip: the artifact written for a matrix whose columns fill whole blocks
/// and whose blocks fill it is accepted, with the header that was written and the blocks
/// behind it.
pub proof fn lemma_artifact_roundtrip(
    rows: nat,
    k: nat,
    block_width: nat,
    block_bytes: nat,
    blocks: Seq<u8>,
)
    requires
        rows <= u32::MAX,
        k <= u32::MAX,
        block_width > 0,
        k % block_width == 0,
        blocks.len() == rows * (k / block_width) * block_bytes,
    ensures
        artifact_header(
            artifact_encoding(rows, k, block_width, blocks),
            block_width,
            block_bytes,
        ) == Ok::<Q8KHeader, FormatError>(Q8KHeader::describing(rows, k, block_width)),
        artifact_encoding(rows, k, block_width, blocks).subrange(
            HEADER_BYTES as int,
            HEADER_BYTES + blocks.len(),
        ) == blocks,
        artifact_encoding(rows, k, block_width, blocks).len() == HEADER_BYTES + blocks.len(),
{
    let header = Q8KHeader::describing(rows, k, block_width);
    header.lemma_decoding_of_encoding(blocks);
    assert(k / block_width <= k) by (nonlinear_arith)
        requires
            block_width > 0,
            k >= 0,
    ;
    let data = artifact_encoding(rows, k, block_width, blocks);
    assert(data.subrange(HEADER_BYTES as int, HEADER_BYTES + blocks.len()) =~= blocks);
}

/// What is written for a tensor loads as what went in: the blocks, the rows, the columns,
/// and the permutation.  Where none was applied, no sidecar is written and loading gives no
/// permutation.
pub proof fn lemma_written_tensor_loads(
    rows: nat,
    k: nat,
    block_width: nat,
    block_bytes: nat,
    blocks: Seq<u8>,
    perm: Option<Seq<usize>>,
)
    requires
        rows <= u32::MAX,
        k <= u32::MAX,
        block_width > 0,
        k % block_width == 0,
        blocks.len() == rows * (k / block_width) * block_bytes,
        perm matches Some(p) ==> fits_sidecar(p),
    ensures
        sidecar_encoding(perm) is None <==> perm is None,
        tensor_loading(
            artifact_encoding(rows, k, block_width, blocks),
            block_width,
            block_bytes,
            sidecar_encoding(perm),
        ) == Ok::<(Seq<u8>, nat, nat, Option<Seq<usize>>), FormatError>((blocks, rows, k, perm)),
{
    lemma_artifact_roundtrip(rows, k, block_width, block_bytes, blocks);
    match perm {
        Some(p) => {
            lemma_perm_roundtrip(p);
        },
        None => {},
    }
}

/// Returns the length of the artifact that `header` declares, `None` where it is beyond 64
/// bits.
fn artifact_len(header: &Q8KHeader, block_bytes: usize) -> (len: Option<u64>)
    ensures
        match len {
            Some(n) => n == HEADER_BYTES + header.out * header.blocks_per_row * block_bytes,
            None => HEADER_BYTES + header.out * header.blocks_per_row * block_bytes > u64::MAX,
        },
{
    let out = header.out as u64;
    let per_row = header.blocks_per_row as u64;
    assert(out * per_row <= u64::MAX) by (nonlinear_arith)
        requires
            0 <= out <= 0xFFFF_FFFF,
            0 <= per_row <= 0xFFFF_FFFF,
    ;
    let total_blocks: u64 = out * per_row;
    match total_blocks.checked_mul(block_bytes as u64) {
        Some(payload) => payload.checked_add(HEADER_BYTES as u64),
        None => None,
    }
}

/// Returns the bytes of the artifact of a `rows * k` matrix: the header, then `blocks`.
pub fn write_q8k(rows: usize, k: usize, block_width: usize, blocks: &[u8]) -> (bytes: Vec<u8>)
    requires
        rows <= u32::MAX,
        k <= u32::MAX,
        block_width > 0,
    ensures
        bytes@ == artifact_encoding(rows as nat, k as nat, block_width as nat, blocks@),
{
    let header = Q8KHeader::new(rows, k, block_width);
    let mut bytes = header.to_bytes();
    let mut i: usize = 0;
    while i < blocks.len()
        invariant
            i <= blocks@.len(),
            bytes@ == header.encoding() + blocks@.take(i as int),
        decreases blocks@.len() - i,
    {
        bytes.push(blocks[i]);
        i += 1;
        assert(bytes@ =~= header.encoding() + blocks@.take(i as int));
    }
    assert(blocks@.take(i as int) =~= blocks@);
    bytes
}

/// Returns the bytes of the sidecar that holds `perm`.
pub fn write_perm(perm: &[usize]) -> (bytes: Vec<u8>)
    requires
        fits_sidecar(perm@),
    ensures
        bytes@ == perm_encoding(perm@),
{
    let mut bytes: Vec<u8> = Vec::new();
    push_le(&mut bytes, MAGIC_PERM);
    push_le(&mut bytes, perm.len() as u32);
    let ghost head = bytes@;
    let mut i: usize = 0;
    while i < perm.len()
        invariant
            i <= perm@.len(),
            head == le_bytes(MAGIC_PERM) + le_bytes(perm@.len() as u32),
            bytes@ == head + indices_encoding(perm@.take(i as int)),
            fits_sidecar(perm@),
        decreases perm@.len() - i,
    {
        push_le(&mut bytes, perm[i] as u32);
        assert(perm@.take(i + 1).drop_last() =~= perm@.take(i as int));
        i += 1;
        assert(bytes@ =~= head + indices_encoding(perm@.take(i as int)));
    }
    assert(perm@.take(i as int) =~= perm@);
    bytes
}

/// Returns what is written for a tensor: its artifact, and a sidecar if and only if a
/// permutation was applied to its columns.
pub fn write_tensor(
    rows: usize,
    k: usize,
    block_width: usize,
    blocks: &[u8],
    perm: Option<&[usize]>,
) -> (files: TensorFiles)
    requires
        rows <= u32::MAX,
        k <= u32::MAX,
        block_width > 0,
        perm matches Some(p) ==> fits_sidecar(p@),
    ensures
        files.0@ == artifact_encoding(rows as nat, k as nat, block_width as nat, blocks@),
        match perm {
            Some(p) => files.1 matches Some(sidecar) && sidecar@ == perm_encoding(p@),
            None => files.1 is None,
        },
        files.1 is None <==> perm is None,
{
    let artifact = write_q8k(rows, k, block_width, blocks);
    let sidecar = match perm {
        Some(p) => Some(write_perm(p)),
        None => None,
    };
    (artifact, sidecar)
}

/// Reads the permutation that goes with an artifact out of its sidecar's bytes.  No
/// sidecar means that no permutation was applied.  The indices are handed on as they
/// stand: whether they form a permutation is for `is_valid_permutation` to say.
pub fn load_perm(sidecar: Option<&[u8]>) -> (r: Result<Option<Vec<usize>>, FormatError>)
    ensures
        match sidecar_decoding(
            match sidecar {
                Some(bytes) => Some(bytes@),
                None => None,
            },
        ) {
            Ok(Some(perm)) => r matches Ok(Some(p)) && p@ == perm,
            Ok(None) => r matches Ok(None),
            Err(e) => r == Err::<Option<Vec<usize>>, _>(e),
        },
{
    let bytes = match sidecar {
        None => {
            return Ok(None);
        },
        Some(bytes) => bytes,
    };
    if bytes.len() < PERM_HEADER_BYTES {
        return Err(FormatError::PermTooSmall);
    }
    if read_le(bytes, 0) != MAGIC_PERM {
        return Err(FormatError::BadPermMagic);
    }
    let count = read_le(bytes, 4);
    let len = bytes.len();
    if len as u64 != 8 + 4 * (count as u64) {
        return Err(FormatError::PermSizeMismatch);
    }
    let mut perm: Vec<usize> = Vec::new();
    let mut i: usize = 0;
    while i < count as usize
        invariant
            i <= count,
            len == bytes@.len(),
            bytes@.len() == 8 + 4 * count,
            perm@.len() == i,
            forall|x: int| 0 <= x < i ==> perm@[x] == le_word(bytes@, 8 + 4 * x) as usize,
        decreases count - i,
    {
        perm.push(read_le(bytes, 8 + 4 * i) as usize);
        i += 1;
    }
    assert(perm@ =~= perm_decoding(bytes@)->Ok_0);
    Ok(Some(perm))
}

/// Checks an artifact in blocks of `block_width` columns and `block_bytes` bytes, and takes
/// it apart: the blocks' bytes, the rows and columns that the header declares, and the
/// permutation of the sidecar where there is one.  The header's columns must fill the blocks
/// per row that it declares, and its rows and blocks per row must account for every byte.
/// A sidecar that is rejected rejects the artifact.
pub fn load_q8k_tensor(
    data: &[u8],
    block_width: usize,
    block_bytes: usize,
    sidecar: Option<&[u8]>,
) -> (r: Result<LoadedTensor, FormatError>)
    ensures
        match tensor_loading(
            data@,
            block_width as nat,
            block_bytes as nat,
            match sidecar {
                Some(bytes) => Some(bytes@),
                None => None,
            },
        ) {
            Err(e) => r == Err::<LoadedTensor, _>(e),
            Ok((bytes, declared_rows, declared_k, perm)) => {
                &&& r matches Ok((blocks, rows, k, p))
                &&& blocks@ == bytes
                &&& rows == declared_rows
                &&& k == declared_k
                &&& match perm {
                    Some(indices) => p matches Some(v) && v@ == indices,
                    None => p is None,
                }
            },
        },
{
    let header = match Q8KHeader::from_bytes(data) {
        Some(h) => h,
        None => {
            return Err(FormatError::TooSmall);
        },
    };
    if header.magic != MAGIC_Q8K {
        return Err(FormatError::BadMagic);
    }
    if header.dtype != DTYPE_Q8K {
        return Err(FormatError::BadDtype);
    }
    let k = header.k as usize;
    if block_width == 0 || k % block_width != 0 || header.blocks_per_row as usize != k
        / block_width {
        return Err(FormatError::SizeMismatch);
    }
    let len = data.len();
    match artifact_len(&header, block_bytes) {
        Some(expected) => {
            if len as u64 != expected {
                return Err(FormatError::SizeMismatch);
            }
        },
        None => {
            return Err(FormatError::SizeMismatch);
        },
    }
    let perm = match load_perm(sidecar) {
        Ok(p) => p,
        Err(e) => {
            return Err(e);
        },
    };
    let blocks = slice_to_vec(slice_subrange(data, HEADER_BYTES, len));
    Ok((blocks, header.out as usize, k, perm))
}

} // verus!
