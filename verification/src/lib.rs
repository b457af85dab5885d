//! Column-permutation strategies for block-quantized weight matrices.
//!
//! A matrix is a row-major slice of `rows * k` elements.  The library never
//! interprets an element: it moves elements around and decides in which order
//! the columns go.  Everything that ranks columns works on *order keys*,
//! unsigned integers that compare the way the columns' energies do.

pub mod pipeline;
pub mod q8k;
pub mod strategies;
pub mod utils;

pub use q8k::{Q8KHeader, QuantizationConfig, DTYPE_Q8K, MAGIC_Q8K, VERSION};
pub use strategies::{
    AttentionAwareStrategy, L2NormStrategy, QuantizationStrategy, StrategyType,
};
pub use utils::{apply_column_permutation, build_column_permutation, tensor_to_bits};
