//! Taking a tensor's bytes apart into the bit patterns of its elements.
//!
//! An element is handed on as the 32-bit or 16-bit word that the checkpoint holds for it,
//! least significant byte first.  Turning the words into numbers is the caller's part.

use super::bytes::{le_half, le_word, read_le, read_le_half};
use vstd::prelude::*;

verus! {

/// The element types of a checkpoint, as far as they matter here.
#[derive(Clone, Copy, Debug, PartialEq, Eq, Structural)]
pub enum ElementType {
    /// IEEE-754 single precision, four bytes.
    F32,
    /// IEEE-754 half precision, two bytes.
    F16,
    /// Truncated single precision, two bytes.
    BF16,
    /// Any other type: tensors of it are not quantized.
    Other,
}

/// The bytes that an element of `dtype` takes; `None` for a type that is not decoded.
pub open spec fn element_width(dtype: ElementType) -> Option<nat> {
    match dtype {
        ElementType::F32 => Some(4),
        ElementType::F16 => Some(2),
        ElementType::BF16 => Some(2),
        ElementType::Other => None,
    }
}

/// The element that stands at `at`: a 16-bit word where `width` is 2, else a 32-bit word.
pub open spec fn le_element(bytes: Seq<u8>, at: int, width: nat) -> u32 {
    if width == 2 {
        le_half(bytes, at)
    } else {
        le_word(bytes, at)
    }
}

/// The elements of a tensor whose elements take `width` bytes each.  Bytes at the end that
/// do not make up an element are left out.
pub open spec fn elements_of(bytes: Seq<u8>, width: nat) -> Seq<u32> {
    Seq::new(bytes.len() / width, |i: int| le_element(bytes, i * width, width))
}

/// The bit patterns of a tensor's elements, or `None` for an element type that is not
/// decoded.
pub open spec fn tensor_bits(bytes: Seq<u8>, dtype: ElementType) -> Option<Seq<u32>> {
    match element_width(dtype) {
        Some(width) => Some(elements_of(bytes, width)),
        None => None,
    }
}

/// Returns the bytes that an element of `dtype` takes; `None` for a type that is not
/// decoded.
pub fn width_of(dtype: ElementType) -> (width: Option<usize>)
    ensures
        match element_width(dtype) {
            Some(w) => width == Some(w as usize),
            None => width is None,
        },
{
    match dtype {
        ElementType::F32 => Some(4),
        ElementType::F16 => Some(2),
        ElementType::BF16 => Some(2),
        ElementType::Other => None,
    }
}

/// Returns the bit patterns of a tensor's elements in the order of the bytes: 32-bit words
/// for single precision, 16-bit words for the two half-width types.
pub fn tensor_to_bits(bytes: &[u8], dtype: ElementType) -> (bits: Option<Vec<u32>>)
    ensures
        match tensor_bits(bytes@, dtype) {
            Some(elements) => bits matches Some(v) && v@ == elements,
            None => bits is None,
        },
{
    let width = match width_of(dtype) {
        Some(w) => w,
        None => {
            return None;
        },
    };
    let len = bytes.len();
    let count = len / width;
    let mut out: Vec<u32> = Vec::with_capacity(count);
    let mut i: usize = 0;
    while i < count
        invariant
            width == 2 || width == 4,
            len == bytes@.len(),
            count == bytes@.len() / (width as nat),
            i <= count,
            out@.len() == i,
            forall|x: int| 0 <= x < i ==> out@[x] == le_element(bytes@, x * width, width as nat),
        decreases count - i,
    {
        assert(i * width + width <= bytes@.len()) by (nonlinear_arith)
            requires
                i < count,
                count == bytes@.len() / (width as nat),
                width > 0,
        ;
        let at = i * width;
        let word: u32 = if width == 2 {
            read_le_half(bytes, at)
        } else {
            read_le(bytes, at)
        };
        out.push(word);
        i += 1;
    }
    assert(out@ =~= elements_of(bytes@, width as nat));
    Some(out)
}

} // verus!
