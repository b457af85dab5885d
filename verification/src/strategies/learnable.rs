//! The learned-order strategy.  No learning takes place yet: it orders by energy.

use super::{is_energy_ordered, order_by_energy, Permuted, QuantizationStrategy, StrategyError};
use vstd::prelude::*;

verus! {

/// Carries the settings of the learned order and orders the columns by descending energy.
pub struct LearnableStrategy {
    learning_rate: u64,
    iterations: usize,
}

impl LearnableStrategy {
    /// `learning_rate` is the bit pattern of an IEEE-754 double.
    pub fn new(learning_rate: u64, iterations: usize) -> (s: Self)
        ensures
            s.learning_rate() == learning_rate,
            s.iterations() == iterations,
    {
        Self { learning_rate, iterations }
    }

    pub closed spec fn learning_rate(&self) -> u64 {
        self.learning_rate
    }

    pub closed spec fn iterations(&self) -> usize {
        self.iterations
    }
}

impl QuantizationStrategy for LearnableStrategy {
    fn apply_permutation<T: Copy>(
        &mut self,
        data: &[T],
        energies: &[u32],
        rows: usize,
        k: usize,
        tensor_name: &str,
    ) -> (r: Result<Permuted<T>, StrategyError>)
        ensures
            is_energy_ordered(data@, energies@, rows as nat, k as nat, r),
            *final(self) == *old(self),
    {
        order_by_energy(data, energies, rows, k)
    }

    fn name(&self) -> (n: &'static str)
        ensures
            n@ == "Learnable"@,
    {
        "Learnable"
    }
}

} // verus!
