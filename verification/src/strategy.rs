//! Processing strategies: the single-threaded baseline and the chunked,
//! per-client-partitioned batch scheme.
//!
//! Both implement [`ProcessingStrategy`], whose contract pins the final
//! snapshot to the sequential semantics of the model: for every input
//! in which no two deposits or withdrawals reuse one transaction id
//! across different clients, the two strategies produce identical final
//! account snapshots, whatever the chunk size and worker count.

use vstd::prelude::*;

use crate::account::Account;
use crate::account_manager::snapshot_of;
use crate::batch::BatchProcessor;
use crate::cli::StrategyType;
use crate::engine::TransactionEngine;
use crate::equivalence::{compatible_records, lemma_compatible_sub, lemma_run_concat};
use crate::model::{run, EngineState};
use crate::transaction::TransactionRecord;

verus! {

/// Default number of records per chunk.
pub const DEFAULT_BATCH_SIZE: usize = 1000;

/// Relies on num_cpus::get: the number of logical CPUs available to the
/// process, documented to always be at least 1.
#[verifier::external_body]
fn available_parallelism() -> (n: usize)
    ensures
        n >= 1,
{
    num_cpus::get()
}

/// Configuration for batch processing: records per chunk and the bound
/// on concurrently processed client partitions.
#[derive(Debug, Clone, Copy, PartialEq, Eq, Structural)]
pub struct BatchConfig {
    /// Number of transactions per chunk.
    pub batch_size: usize,
    /// Maximum number of partitions processing concurrently.
    pub max_concurrent_batches: usize,
}

impl Default for BatchConfig {
    /// The default configuration: chunks of `DEFAULT_BATCH_SIZE`
    /// records and one worker per available CPU.
    fn default() -> (config: Self)
        ensures
            config.batch_size == DEFAULT_BATCH_SIZE,
            config.max_concurrent_batches >= 1,
    {
        BatchConfig {
            batch_size: DEFAULT_BATCH_SIZE,
            max_concurrent_batches: available_parallelism(),
        }
    }
}

impl BatchConfig {
    /// Create a configuration with the given values; a zero falls back
    /// to the default for that field.
    pub fn new(batch_size: usize, max_concurrent_batches: usize) -> (config: Self)
        ensures
            config.batch_size == if batch_size == 0 {
                DEFAULT_BATCH_SIZE as usize
            } else {
                batch_size
            },
            max_concurrent_batches != 0 ==> config.max_concurrent_batches
                == max_concurrent_batches,
            config.max_concurrent_batches >= 1,
    {
        let batch_size = if batch_size == 0 {
            DEFAULT_BATCH_SIZE
        } else {
            batch_size
        };
        let max_concurrent_batches = if max_concurrent_batches == 0 {
            available_parallelism()
        } else {
            max_concurrent_batches
        };
        BatchConfig { batch_size, max_concurrent_batches }
    }
}

/// A complete processing pipeline: apply an ordered sequence of records
/// to a fresh engine and return the final account snapshot.
///
/// The contract is the strategy-equivalence guarantee: every
/// implementation returns the snapshot of the model's sequential run,
/// so any two strategies agree on every input free of cross-client
/// transaction-id reuse.
pub trait ProcessingStrategy {
    /// Process the records and return the final accounts, in ascending
    /// order of client id. Rejected records are skipped, as the engine
    /// prescribes, and do not stop processing.
    fn process(&self, records: Vec<TransactionRecord>) -> (accounts: Vec<Account>)
        ensures
            compatible_records(records@) ==> accounts@ == snapshot_of(
                run(EngineState::initial(), records@).accounts,
            ),
    ;
}

/// Single-threaded baseline: every record is applied to the engine in
/// source order.
#[derive(Debug, Clone, Copy)]
pub struct SyncProcessingStrategy;

impl ProcessingStrategy for SyncProcessingStrategy {
    fn process(&self, records: Vec<TransactionRecord>) -> (accounts: Vec<Account>)
        ensures
            accounts@ == snapshot_of(run(EngineState::initial(), records@).accounts),
    {
        let mut engine = TransactionEngine::new();
        let mut i: usize = 0;
        while i < records.len()
            invariant
                i <= records.len(),
                engine.wf(),
                engine@ == run(EngineState::initial(), records@.take(i as int)),
            decreases records.len() - i,
        {
            let record = records[i];
            proof {
                assert(records@.take(i + 1int) =~= records@.take(i as int).push(record));
                crate::equivalence::lemma_run_push(
                    EngineState::initial(),
                    records@.take(i as int),
                    record,
                );
            }
            // a rejected record is reported by the caller's diagnostics
            // and skipped
            let _ = engine.process(record);
            i = i + 1;
        }
        proof {
            assert(records@.take(records@.len() as int) =~= records@);
        }
        engine.get_accounts()
    }
}

/// Chunked batch strategy: the record stream is processed in chunks of
/// `batch_size`; within a chunk, one worker per distinct client applies
/// that client's records in order, and the scheduler waits for the
/// whole chunk before the next one.
#[derive(Debug, Clone)]
pub struct AsyncProcessingStrategy {
    config: BatchConfig,
}

impl AsyncProcessingStrategy {
    /// The configuration this strategy was created with.
    pub closed spec fn spec_config(&self) -> BatchConfig {
        self.config
    }

    /// Create a batch strategy with the given configuration.
    pub fn new(config: BatchConfig) -> (strategy: Self)
        ensures
            strategy.spec_config() == config,
    {
        AsyncProcessingStrategy { config }
    }
}

impl ProcessingStrategy for AsyncProcessingStrategy {
    fn process(&self, records: Vec<TransactionRecord>) -> (accounts: Vec<Account>)
        ensures
            compatible_records(records@) ==> accounts@ == snapshot_of(
                run(EngineState::initial(), records@).accounts,
            ),
    {
        let chunk_size = if self.config.batch_size == 0 {
            DEFAULT_BATCH_SIZE
        } else {
            self.config.batch_size
        };
        let mut processor = BatchProcessor::new(TransactionEngine::new());
        let mut i: usize = 0;
        while i < records.len()
            invariant
                i <= records.len(),
                chunk_size >= 1,
                processor.wf(),
                compatible_records(records@) ==> processor@ == run(
                    EngineState::initial(),
                    records@.take(i as int),
                ),
            decreases records.len() - i,
        {
            let end = if chunk_size < records.len() - i {
                i + chunk_size
            } else {
                records.len()
            };

            let mut chunk: Vec<TransactionRecord> = Vec::new();
            let mut t: usize = i;
            while t < end
                invariant
                    i <= t <= end <= records.len(),
                    chunk@ == records@.subrange(i as int, t as int),
                decreases end - t,
            {
                proof {
                    assert(records@.subrange(i as int, t + 1int) =~= records@.subrange(
                        i as int,
                        t as int,
                    ).push(records@[t as int]));
                }
                chunk.push(records[t]);
                t = t + 1;
            }

            proof {
                if compatible_records(records@) {
                    assert forall|k: int|
                        0 <= k < chunk@.len() implies records@.contains(#[trigger] chunk@[k]) by {
                        assert(chunk@[k] == records@[i + k]);
                    }
                    lemma_compatible_sub(records@, chunk@);
                    assert(records@.take(end as int) =~= records@.take(i as int) + chunk@);
                    lemma_run_concat(EngineState::initial(), records@.take(i as int), chunk@);
                }
            }
            let _ = processor.process_batch(chunk);
            i = end;
        }
        proof {
            assert(records@.take(records@.len() as int) =~= records@);
        }
        processor.get_accounts()
    }
}

/// The strategy selected at startup: the single-threaded baseline or
/// the chunked batch scheme.
pub enum Strategy {
    /// Single-threaded, in source order.
    Sync(SyncProcessingStrategy),
    /// Chunked with per-client partitioning.
    Async(AsyncProcessingStrategy),
}

impl ProcessingStrategy for Strategy {
    fn process(&self, records: Vec<TransactionRecord>) -> (accounts: Vec<Account>)
        ensures
            compatible_records(records@) ==> accounts@ == snapshot_of(
                run(EngineState::initial(), records@).accounts,
            ),
    {
        match self {
            Strategy::Sync(strategy) => strategy.process(records),
            Strategy::Async(strategy) => strategy.process(records),
        }
    }
}

/// Create the processing strategy for the given type; the batch
/// configuration applies to the chunked strategy and defaults where
/// absent.
pub fn create_strategy(strategy_type: StrategyType, config: Option<BatchConfig>) -> (strategy:
    Strategy)
    ensures
        strategy_type == StrategyType::Sync ==> strategy matches Strategy::Sync(_),
        strategy_type == StrategyType::Async ==> (strategy matches Strategy::Async(inner) && {
            &&& config matches Some(c) ==> inner.spec_config() == c
            &&& config is None ==> inner.spec_config().batch_size == DEFAULT_BATCH_SIZE
                && inner.spec_config().max_concurrent_batches >= 1
        }),
{
    match strategy_type {
        StrategyType::Sync => Strategy::Sync(SyncProcessingStrategy),
        StrategyType::Async => {
            let config = match config {
                Some(config) => config,
                None => BatchConfig::default(),
            };
            Strategy::Async(AsyncProcessingStrategy::new(config))
        },
    }
}

} // verus!
