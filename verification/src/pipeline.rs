//! The decisions of the tensor pipeline: which tensors are quantized, with which strategy,
//! and what is handed to the codec.  Reading the checkpoint, quantizing, validating and
//! writing the artifacts is the caller's part.

use crate::q8k::io::{
    artifact_encoding, lemma_written_tensor_loads, sidecar_encoding, tensor_loading, FormatError,
};
use crate::q8k::{Q8KHeader, QuantizationConfig};
use crate::strategies::{
    create_strategy, is_implemented, is_sound_result, is_strategy_outcome, AnyStrategy,
    Permuted, QuantizationStrategy, StrategyError, StrategyType,
};
use crate::utils::tensor_ops::{element_width, width_of, ElementType};
use crate::utils::{is_target, is_target_weight};
use vstd::prelude::*;

verus! {

/// What becomes of a tensor.
#[derive(Clone, Copy, Debug, PartialEq, Eq, Structural)]
pub enum TensorPlan {
    /// It is not a matrix, or its name is none that is quantized: skipped.
    NotTarget,
    /// Its columns do not fill whole blocks: skipped.
    Unaligned { rows: usize, k: usize },
    /// Its elements are of a type that is not decoded: skipped.
    UnsupportedElement { rows: usize, k: usize },
    /// It is quantized, into `blocks_per_row` blocks for each row.
    Quantize { rows: usize, k: usize, blocks_per_row: usize },
}

/// What becomes of the tensor called `name` with the dimensions `shape` and elements of
/// `dtype`, for blocks of `block_width` columns.
pub open spec fn tensor_plan(
    name: Seq<char>,
    shape: Seq<usize>,
    dtype: ElementType,
    skip_patterns: Seq<String>,
    block_width: nat,
) -> TensorPlan {
    if shape.len() != 2 || !is_target(name, skip_patterns) {
        TensorPlan::NotTarget
    } else if shape[1] as nat % block_width != 0 {
        TensorPlan::Unaligned { rows: shape[0], k: shape[1] }
    } else if element_width(dtype) is None {
        TensorPlan::UnsupportedElement { rows: shape[0], k: shape[1] }
    } else {
        TensorPlan::Quantize {
            rows: shape[0],
            k: shape[1],
            blocks_per_row: (shape[1] as nat / block_width) as usize,
        }
    }
}

/// Decides what becomes of a tensor.
pub fn plan_tensor(
    name: &str,
    shape: &[usize],
    dtype: ElementType,
    skip_patterns: &[String],
    block_width: usize,
) -> (plan: TensorPlan)
    requires
        block_width > 0,
    ensures
        plan == tensor_plan(name@, shape@, dtype, skip_patterns@, block_width as nat),
{
    if shape.len() != 2 || !is_target_weight(name, skip_patterns) {
        return TensorPlan::NotTarget;
    }
    let rows = shape[0];
    let k = shape[1];
    if k % block_width != 0 {
        return TensorPlan::Unaligned { rows, k };
    }
    if width_of(dtype).is_none() {
        return TensorPlan::UnsupportedElement { rows, k };
    }
    TensorPlan::Quantize { rows, k, blocks_per_row: k / block_width }
}

/// A tensor that is planned for quantization has columns that fill whole blocks, and the
/// header written for it declares the plan's rows, columns and blocks per row.
pub proof fn lemma_planned_tensor_header(
    name: Seq<char>,
    shape: Seq<usize>,
    dtype: ElementType,
    skip_patterns: Seq<String>,
    block_width: nat,
)
    requires
        block_width > 0,
        tensor_plan(name, shape, dtype, skip_patterns, block_width) is Quantize,
        shape[0] <= u32::MAX,
        shape[1] <= u32::MAX,
    ensures
        shape.len() == 2,
        tensor_plan(name, shape, dtype, skip_patterns, block_width) == (TensorPlan::Quantize {
            rows: shape[0],
            k: shape[1],
            blocks_per_row: (shape[1] as nat / block_width) as usize,
        }),
        shape[1] as nat % block_width == 0,
        Q8KHeader::describing(shape[0] as nat, shape[1] as nat, block_width).out == shape[0],
        Q8KHeader::describing(shape[0] as nat, shape[1] as nat, block_width).k == shape[1],
        Q8KHeader::describing(shape[0] as nat, shape[1] as nat, block_width).blocks_per_row
            == shape[1] as nat / block_width,
{
    assert(shape[1] as nat / block_width <= shape[1]) by (nonlinear_arith)
        requires
            block_width > 0,
    ;
}

/// Constructs the strategy of a run: none where the run does not permute.  A selector that
/// the registry does not construct fails the run; no other strategy takes its place.
pub fn select_strategy(config: &QuantizationConfig) -> (r: Result<
    Option<AnyStrategy>,
    StrategyError,
>)
    ensures
        !config.use_permutation ==> r matches Ok(None),
        config.use_permutation ==> match config.strategy_type {
            StrategyType::L2Norm => r matches Ok(Some(AnyStrategy::L2Norm(_))),
            StrategyType::AttentionAware => r matches Ok(Some(AnyStrategy::AttentionAware(s)))
                && s.shared() == Map::<u32, Seq<usize>>::empty(),
            StrategyType::QRPivot => r matches Err(StrategyError::Unimplemented),
            StrategyType::Learnable { .. } => r matches Err(StrategyError::Unimplemented),
        },
{
    if !config.use_permutation {
        return Ok(None);
    }
    if !is_implemented(&config.strategy_type) {
        return Err(StrategyError::Unimplemented);
    }
    Ok(Some(create_strategy(&config.strategy_type)))
}

/// `r` hands the matrix on as it is, with no permutation; a wrong shape is refused.
pub open spec fn is_passed_through<T>(
    data: Seq<T>,
    rows: nat,
    k: nat,
    r: Result<Permuted<T>, StrategyError>,
) -> bool {
    if data.len() != rows * k {
        r == Err::<Permuted<T>, _>(StrategyError::ShapeMismatch)
    } else {
        r matches Ok((out, None)) && out@ == data
    }
}

/// The permutation that a result names, if it names one.
pub open spec fn applied_permutation<T>(r: Result<Permuted<T>, StrategyError>) -> Option<
    Seq<usize>,
> {
    match r {
        Ok((_, Some(perm))) => Some(perm@),
        _ => None,
    }
}

/// A run without permutation leaves no sidecar: a tensor that was handed on as it is gets
/// an artifact and no sidecar, whatever blocks the codec made of it, and loading the
/// artifact gives those blocks, the tensor's rows and columns, and no permutation.
pub proof fn lemma_unpermuted_tensor_has_no_sidecar<T>(
    data: Seq<T>,
    rows: nat,
    k: nat,
    r: Result<Permuted<T>, StrategyError>,
    block_width: nat,
    block_bytes: nat,
    blocks: Seq<u8>,
)
    requires
        data.len() == rows * k,
        is_passed_through(data, rows, k, r),
        rows <= u32::MAX,
        k <= u32::MAX,
        block_width > 0,
        k % block_width == 0,
        blocks.len() == rows * (k / block_width) * block_bytes,
    ensures
        applied_permutation(r) is None,
        sidecar_encoding(applied_permutation(r)) is None,
        tensor_loading(
            artifact_encoding(rows, k, block_width, blocks),
            block_width,
            block_bytes,
            sidecar_encoding(applied_permutation(r)),
        ) == Ok::<(Seq<u8>, nat, nat, Option<Seq<usize>>), FormatError>(
            (blocks, rows, k, None),
        ),
{
    lemma_written_tensor_loads(rows, k, block_width, block_bytes, blocks, None);
}

/// Permutes a tensor with the run's strategy, or hands it on unchanged where the run has
/// none.
pub fn permute_tensor<T: Copy>(
    strategy: &mut Option<AnyStrategy>,
    data: &[T],
    energies: &[u32],
    rows: usize,
    k: usize,
    tensor_name: &str,
) -> (r: Result<Permuted<T>, StrategyError>)
    ensures
        is_sound_result(data@, rows as nat, k as nat, r),
        match *old(strategy) {
            Some(before) => *final(strategy) matches Some(after) && is_strategy_outcome(
                before,
                tensor_name@,
                data@,
                energies@,
                rows as nat,
                k as nat,
                r,
                after,
            ),
            None => *final(strategy) is None && is_passed_through(
                data@,
                rows as nat,
                k as nat,
                r,
            ),
        },
{
    match strategy {
        Some(s) => s.apply_permutation(data, energies, rows, k, tensor_name),
        None => {
            let len = data.len();
            match rows.checked_mul(k) {
                Some(total) => {
                    if len != total {
                        return Err(StrategyError::ShapeMismatch);
                    }
                },
                None => {
                    return Err(StrategyError::ShapeMismatch);
                },
            }
            Ok((vstd::slice::slice_to_vec(data), None))
        },
    }
}

} // verus!
