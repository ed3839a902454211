//! Command-line configuration of the engine.
//!
//! Argument parsing itself is I/O and lives with the program around the
//! library; this module holds the parsed shape and the verified
//! conversion into a batch configuration.

use vstd::prelude::*;

use crate::strategy::{BatchConfig, DEFAULT_BATCH_SIZE};

verus! {

/// Available processing strategies.
#[derive(Debug, Clone, Copy, PartialEq, Eq, Structural)]
pub enum StrategyType {
    /// Single-threaded processing in source order.
    Sync,
    /// Chunked batch processing with per-client partitioning.
    Async,
}

/// Parsed command-line arguments.
#[derive(Debug, Clone)]
pub struct CliArgs {
    /// Path of the input file with the transaction records.
    pub input_file: String,
    /// The processing strategy to use.
    pub strategy: StrategyType,
    /// Number of transactions per chunk (chunked strategy only).
    pub batch_size: Option<usize>,
    /// Bound on concurrently processed partitions (chunked strategy
    /// only).
    pub max_concurrent_batches: Option<usize>,
}

impl CliArgs {
    /// The batch configuration these arguments ask for: given values
    /// where present, defaults otherwise, and a zero falls back to the
    /// default for that field.
    pub fn to_batch_config(&self) -> (config: BatchConfig)
        ensures
            config.batch_size == (match self.batch_size {
                Some(b) => if b == 0 {
                    DEFAULT_BATCH_SIZE as usize
                } else {
                    b
                },
                None => DEFAULT_BATCH_SIZE as usize,
            }),
            match self.max_concurrent_batches {
                Some(m) => m != 0 ==> config.max_concurrent_batches == m,
                None => true,
            },
            config.max_concurrent_batches >= 1,
    {
        match (self.batch_size, self.max_concurrent_batches) {
            (None, None) => BatchConfig::default(),
            (batch_size, max_concurrent_batches) => {
                let default = BatchConfig::default();
                let b = match batch_size {
                    Some(b) => b,
                    None => default.batch_size,
                };
                let m = match max_concurrent_batches {
                    Some(m) => m,
                    None => default.max_concurrent_batches,
                };
                BatchConfig::new(b, m)
            },
        }
    }
}

} // verus!
