//! The quantized artifact: its header, its byte layout, and a run's configuration.

pub mod header;
pub mod io;

pub use header::{Q8KHeader, DTYPE_Q8K, MAGIC_Q8K, VERSION};
pub use io::{load_perm, load_q8k_tensor, write_perm, write_q8k, write_tensor};

use crate::strategies::StrategyType;
use vstd::prelude::*;

verus! {

/// The directory that artifacts are written to by default.
pub const DEFAULT_OUTPUT_DIR: &'static str = "./quantized";

/// How a run is configured.
#[derive(Debug, Clone)]
pub struct QuantizationConfig {
    /// The strategy that permutes the columns, where `use_permutation` is set.
    pub strategy_type: StrategyType,
    pub use_permutation: bool,
    /// A tensor whose name holds one of these is skipped.
    pub skip_patterns: Vec<String>,
    pub output_dir: String,
    pub attention_aware: bool,
}

impl Default for QuantizationConfig {
    /// No permutation, ordering by energy selected, embeddings and norms skipped.
    fn default() -> (config: Self)
        ensures
            config.strategy_type is L2Norm,
            !config.use_permutation,
            config.skip_patterns@.len() == 2,
            config.skip_patterns@[0]@ == "embed_tokens"@,
            config.skip_patterns@[1]@ == "norm"@,
            config.output_dir@ == DEFAULT_OUTPUT_DIR@,
            !config.attention_aware,
    {
        let mut skip_patterns: Vec<String> = Vec::new();
        skip_patterns.push("embed_tokens".to_owned());
        skip_patterns.push("norm".to_owned());
        Self {
            strategy_type: StrategyType::L2Norm,
            use_permutation: false,
            skip_patterns,
            output_dir: DEFAULT_OUTPUT_DIR.to_owned(),
            attention_aware: false,
        }
    }
}

} // verus!
