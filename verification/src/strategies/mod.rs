//! Permutation strategies: what every strategy promises, and the ordering by column energy
//! that each of them falls back to.

pub mod attention_aware;
pub mod l2_norm;
pub mod learnable;
pub mod qr_pivot;

pub use attention_aware::AttentionAwareStrategy;
pub use l2_norm::L2NormStrategy;
pub use learnable::LearnableStrategy;
pub use qr_pivot::QRPivotStrategy;

use crate::utils::permutation::{
    apply_column_permutation, build_column_permutation, identity_seq, is_energy_order,
    is_permutation, lemma_decreasing_energy_gives_identity, lemma_identity_keeps_data,
    lemma_increasing_energy_gives_reversal, lemma_permutation_onto, permute_columns,
    reversal_seq,
};
use vstd::prelude::*;

verus! {

/// Which strategy a run is configured with.
#[derive(Clone, Copy, Debug)]
pub enum StrategyType {
    /// Columns in descending order of energy.
    L2Norm,
    /// One shared order for the query, key and value projections of a layer.
    AttentionAware,
    /// Pivoted partial factorization.
    QRPivot,
    /// Learned order.  The rate is carried as the bit pattern of an IEEE-754 double.
    Learnable { learning_rate: u64, iterations: usize },
}

/// Why a strategy, or the registry, gave no result.
#[derive(Clone, Copy, Debug, PartialEq, Eq, Structural)]
pub enum StrategyError {
    /// The data does not hold `rows * k` elements.
    ShapeMismatch,
    /// The strategy ranks the columns by energy and did not get one key per column.
    EnergyCountMismatch,
    /// The permutation shared by the layer was made for another number of columns.
    SharedLengthMismatch,
    /// The registry does not construct the selected strategy.
    Unimplemented,
}

/// What a strategy hands back: the matrix to quantize, and the permutation that was applied
/// to its columns, if one was.
pub type Permuted<T> = (Vec<T>, Option<Vec<usize>>);

/// `r` is what ordering the columns of `data` by `energies` gives: an error where the shape
/// or the number of keys is wrong, else the energy order and the matrix permuted by it.
pub open spec fn is_energy_ordered<T>(
    data: Seq<T>,
    energies: Seq<u32>,
    rows: nat,
    k: nat,
    r: Result<Permuted<T>, StrategyError>,
) -> bool {
    if data.len() != rows * k {
        r == Err::<Permuted<T>, _>(StrategyError::ShapeMismatch)
    } else if energies.len() != k {
        r == Err::<Permuted<T>, _>(StrategyError::EnergyCountMismatch)
    } else {
        r matches Ok((out, Some(perm))) && is_energy_order(energies, perm@) && out@
            == permute_columns(data, k, perm@)
    }
}

/// `r` is a result that any strategy may give for a `rows * k` matrix: where it is `Ok`, the
/// shape was right, and either no permutation is named and the data is unchanged, or the
/// permutation is a bijection on the columns and the data is permuted by it.
pub open spec fn is_sound_result<T>(
    data: Seq<T>,
    rows: nat,
    k: nat,
    r: Result<Permuted<T>, StrategyError>,
) -> bool {
    &&& data.len() != rows * k ==> r == Err::<Permuted<T>, _>(StrategyError::ShapeMismatch)
    &&& r matches Ok((out, perm)) ==> match perm {
        Some(p) => p@.len() == k && is_permutation(p@) && out@ == permute_columns(data, k, p@),
        None => out@ == data,
    }
}

/// A column-permutation strategy.
pub trait QuantizationStrategy {
    /// Chooses a column order for the `rows * k` matrix `data` and applies it.
    ///
    /// `energies[c]` is the order key of column `c`'s energy; a strategy that does not rank
    /// by energy for this tensor does not read it.
    fn apply_permutation<T: Copy>(
        &mut self,
        data: &[T],
        energies: &[u32],
        rows: usize,
        k: usize,
        tensor_name: &str,
    ) -> (r: Result<Permuted<T>, StrategyError>)
        ensures
            is_sound_result(data@, rows as nat, k as nat, r),
    ;

    /// The strategy's name, for logs.
    fn name(&self) -> (n: &'static str);
}

/// Orders the columns of `data` by descending energy and applies that order.
pub fn order_by_energy<T: Copy>(data: &[T], energies: &[u32], rows: usize, k: usize) -> (r: Result<
    Permuted<T>,
    StrategyError,
>)
    ensures
        is_energy_ordered(data@, energies@, rows as nat, k as nat, r),
        is_sound_result(data@, rows as nat, k as nat, r),
{
    let len = data.len();
    match rows.checked_mul(k) {
        Some(total) => {
            if len != total {
                return Err(StrategyError::ShapeMismatch);
            }
        },
        None => {
            return Err(StrategyError::ShapeMismatch);
        },
    }
    if energies.len() != k {
        return Err(StrategyError::EnergyCountMismatch);
    }
    let perm = build_column_permutation(energies);
    match apply_column_permutation(rows, k, data, perm.as_slice()) {
        Ok(out) => Ok((out, Some(perm))),
        Err(_) => Err(StrategyError::ShapeMismatch),
    }
}

/// A matrix whose columns have strictly decreasing energy is ordered by the identity and
/// comes out as it went in.
pub proof fn lemma_decreasing_energy_changes_nothing<T>(
    data: Seq<T>,
    energies: Seq<u32>,
    rows: nat,
    k: nat,
    r: Result<Permuted<T>, StrategyError>,
)
    requires
        data.len() == rows * k,
        energies.len() == k,
        forall|i: int, j: int| 0 <= i < j < k ==> energies[i] > energies[j],
        is_energy_ordered(data, energies, rows, k, r),
    ensures
        r matches Ok((out, Some(perm))) && perm@ == identity_seq(k) && out@ == data,
{
    let perm = r->Ok_0.1->0;
    lemma_decreasing_energy_gives_identity(energies, perm@);
    if k > 0 {
        lemma_permutation_onto(perm@, 0);
        lemma_identity_keeps_data(data, rows, k);
    } else {
        assert(r->Ok_0.0@ =~= data);
    }
}

/// A matrix whose columns have strictly increasing energy is ordered by the full reversal.
pub proof fn lemma_increasing_energy_reverses<T>(
    data: Seq<T>,
    energies: Seq<u32>,
    rows: nat,
    k: nat,
    r: Result<Permuted<T>, StrategyError>,
)
    requires
        data.len() == rows * k,
        energies.len() == k,
        forall|i: int, j: int| 0 <= i < j < k ==> energies[i] < energies[j],
        is_energy_ordered(data, energies, rows, k, r),
    ensures
        r matches Ok((out, Some(perm))) && perm@ == reversal_seq(k) && out@ == permute_columns(
            data,
            k,
            reversal_seq(k),
        ),
{
    let perm = r->Ok_0.1->0;
    lemma_increasing_energy_gives_reversal(energies, perm@);
}

/// A strategy that the registry constructs.
pub enum AnyStrategy {
    L2Norm(L2NormStrategy),
    AttentionAware(AttentionAwareStrategy),
}

/// `r` and `after` are what the strategy `before` gives for the tensor called `name`.
pub open spec fn is_strategy_outcome<T>(
    before: AnyStrategy,
    name: Seq<char>,
    data: Seq<T>,
    energies: Seq<u32>,
    rows: nat,
    k: nat,
    r: Result<Permuted<T>, StrategyError>,
    after: AnyStrategy,
) -> bool {
    match before {
        AnyStrategy::L2Norm(_) => after is L2Norm && is_energy_ordered(
            data,
            energies,
            rows,
            k,
            r,
        ),
        AnyStrategy::AttentionAware(s) => after matches AnyStrategy::AttentionAware(t)
            && attention_aware::is_attention_outcome(
            s.shared(),
            attention_aware::attention_target(
                attention_aware::regex_captures(attention_aware::ATTENTION_PATTERN@, name),
            ),
            data,
            energies,
            rows,
            k,
            r,
            t.shared(),
        ),
    }
}

impl QuantizationStrategy for AnyStrategy {
    fn apply_permutation<T: Copy>(
        &mut self,
        data: &[T],
        energies: &[u32],
        rows: usize,
        k: usize,
        tensor_name: &str,
    ) -> (r: Result<Permuted<T>, StrategyError>)
        ensures
            is_strategy_outcome(
                *old(self),
                tensor_name@,
                data@,
                energies@,
                rows as nat,
                k as nat,
                r,
                *final(self),
            ),
    {
        match self {
            AnyStrategy::L2Norm(s) => s.apply_permutation(data, energies, rows, k, tensor_name),
            AnyStrategy::AttentionAware(s) => s.apply_permutation(
                data,
                energies,
                rows,
                k,
                tensor_name,
            ),
        }
    }

    fn name(&self) -> (n: &'static str)
        ensures
            *self is L2Norm ==> n@ == "L2Norm"@,
            *self is AttentionAware ==> n@ == "AttentionAware"@,
    {
        match self {
            AnyStrategy::L2Norm(s) => s.name(),
            AnyStrategy::AttentionAware(s) => s.name(),
        }
    }
}

/// The registry constructs the strategy that `strategy_type` selects: the ordering by
/// energy and the attention-aware strategy, and no other.
pub open spec fn is_registered(strategy_type: StrategyType) -> bool {
    strategy_type is L2Norm || strategy_type is AttentionAware
}

/// Tells whether the registry constructs the strategy that `strategy_type` selects.
pub fn is_implemented(strategy_type: &StrategyType) -> (registered: bool)
    ensures
        registered == is_registered(*strategy_type),
{
    match strategy_type {
        StrategyType::L2Norm => true,
        StrategyType::AttentionAware => true,
        StrategyType::QRPivot => false,
        StrategyType::Learnable { .. } => false,
    }
}

/// Constructs the strategy that `strategy_type` selects, the attention-aware strategy with
/// no layer seen yet.  A selector that the registry does not construct is no input: nothing
/// is put in its place, and a caller that hands one in all the same is stopped.
pub fn create_strategy(strategy_type: &StrategyType) -> (strategy: AnyStrategy)
    requires
        is_registered(*strategy_type),
    ensures
        *strategy_type is L2Norm ==> strategy is L2Norm,
        *strategy_type is AttentionAware ==> (strategy matches AnyStrategy::AttentionAware(s)
            && s.shared() == Map::<u32, Seq<usize>>::empty()),
{
    match strategy_type {
        StrategyType::L2Norm => AnyStrategy::L2Norm(L2NormStrategy::new()),
        StrategyType::AttentionAware => AnyStrategy::AttentionAware(
            AttentionAwareStrategy::new(),
        ),
        StrategyType::QRPivot => vstd::pervasive::unreached(),
        StrategyType::Learnable { .. } => vstd::pervasive::unreached(),
    }
}

} // verus!
