//! The strategy that orders columns by descending energy.

use super::{is_energy_ordered, order_by_energy, Permuted, QuantizationStrategy, StrategyError};
use vstd::prelude::*;

verus! {

/// Orders the columns by descending energy, whatever the tensor is called.
pub struct L2NormStrategy;

impl L2NormStrategy {
    pub fn new() -> (s: Self) {
        Self
    }
}

impl QuantizationStrategy for L2NormStrategy {
    fn apply_permutation<T: Copy>(
        &mut self,
        data: &[T],
        energies: &[u32],
        rows: usize,
        k: usize,
        tensor_name: &str,
    ) -> (r: Result<Permuted<T>, StrategyError>)
        ensures
            is_energy_ordered(data@, energies@, rows as nat, k as nat, r),
    {
        order_by_energy(data, energies, rows, k)
    }

    fn name(&self) -> (n: &'static str)
        ensures
            n@ == "L2Norm"@,
    {
        "L2Norm"
    }
}

} // verus!
