//! Batch processing with per-client partitioning.
//!
//! A chunk of records is split into one partition per distinct client,
//! each partition keeping its client's order from the chunk. The
//! partitions of a chunk then run one after another against the shared
//! engine—the sequential model of the scheduler's fan-out, whose
//! workers commute—and [`BatchProcessor::process_batch`] carries the
//! proof that this reaches the same state as processing the chunk in
//! its original order, for every chunk in which no two deposits or
//! withdrawals contend for one transaction id across clients.

use vstd::prelude::*;

use crate::engine::TransactionEngine;
use crate::equivalence::{
    compatible_records, filter_client, is_client_partition, lemma_filter_client_push,
    lemma_partition_count_concat, lemma_partition_counts_records, lemma_run_partitions,
    partition_record_count, run_partitions,
};
use crate::error::PaymentError;
use crate::model::{outcome, run, step, EngineState};
use crate::transaction::{ClientId, TransactionRecord};

verus! {

/// Result of processing a single transaction: the record and the
/// engine's verdict on it.
pub struct ProcessingResult {
    /// The transaction record that was processed.
    pub record: TransactionRecord,
    /// The result of processing (success or rejection).
    pub result: Result<(), PaymentError>,
}

/// The partition family a partition vector stands for: each entry's
/// client paired with the view of its records.
pub open spec fn partition_view(parts: Seq<(ClientId, Vec<TransactionRecord>)>) -> Seq<
    (ClientId, Seq<TransactionRecord>),
> {
    Seq::new(parts.len(), |k: int| (parts[k].0, parts[k].1@))
}

/// Batch processor: drives the engine one per-client partition at a
/// time.
pub struct BatchProcessor {
    engine: TransactionEngine,
}

impl View for BatchProcessor {
    type V = EngineState;

    closed spec fn view(&self) -> EngineState {
        self.engine@
    }
}

impl BatchProcessor {
    /// The engine invariant, carried through batch processing.
    pub open spec fn wf(self) -> bool {
        self@.wf()
    }

    /// Create a batch processor around an engine.
    pub fn new(engine: TransactionEngine) -> (processor: Self)
        ensures
            processor@ == engine@,
    {
        BatchProcessor { engine }
    }

    /// Final account states of the underlying engine, in ascending
    /// order of client id.
    pub fn get_accounts(&self) -> (accounts: Vec<crate::account::Account>)
        ensures
            accounts@ == crate::account_manager::snapshot_of(self@.accounts),
    {
        self.engine.get_accounts()
    }

    /// Split a batch into one partition per distinct client, each
    /// partition holding exactly that client's records in their batch
    /// order. Every record lands in exactly one partition.
    pub fn partition_by_client(&self, batch: Vec<TransactionRecord>) -> (parts: Vec<
        (ClientId, Vec<TransactionRecord>),
    >)
        ensures
            is_client_partition(partition_view(parts@), batch@),
            partition_record_count(partition_view(parts@)) == batch@.len(),
    {
        // first pass: the distinct clients, in order of first appearance
        let mut clients: Vec<ClientId> = Vec::new();
        let mut i: usize = 0;
        while i < batch.len()
            invariant
                i <= batch.len(),
                forall|k1: int, k2: int|
                    0 <= k1 < k2 < clients@.len() ==> clients@[k1] != clients@[k2],
                forall|j: int| 0 <= j < i ==> clients@.contains((#[trigger] batch@[j]).client),
            decreases batch.len() - i,
        {
            let client = batch[i].client;
            let mut seen = false;
            let mut k: usize = 0;
            while k < clients.len()
                invariant
                    k <= clients.len(),
                    seen <==> exists|k2: int| 0 <= k2 < k && clients@[k2] == client,
                decreases clients.len() - k,
            {
                if clients[k] == client {
                    seen = true;
                }
                k = k + 1;
            }
            if !seen {
                let ghost before = clients@;
                clients.push(client);
                proof {
                    assert(clients@[clients@.len() - 1] == client);
                    assert forall|j: int|
                        0 <= j < i implies clients@.contains(
                        (#[trigger] batch@[j]).client,
                    ) by {
                        let k2 = choose|k2: int|
                            0 <= k2 < before.len() && before[k2] == batch@[j].client;
                        assert(clients@[k2] == batch@[j].client);
                    }
                }
            }
            assert(clients@.contains(batch@[i as int].client));
            i = i + 1;
        }

        // second pass: one partition per client, in batch order
        let mut parts: Vec<(ClientId, Vec<TransactionRecord>)> = Vec::new();
        let mut k: usize = 0;
        while k < clients.len()
            invariant
                k <= clients.len(),
                parts@.len() == k,
                forall|k1: int, k2: int|
                    0 <= k1 < k2 < clients@.len() ==> clients@[k1] != clients@[k2],
                forall|k1: int| 0 <= k1 < k ==> (#[trigger] parts@[k1]).0 == clients@[k1],
                forall|k1: int|
                    0 <= k1 < k ==> (#[trigger] parts@[k1]).1@ == filter_client(
                        batch@,
                        clients@[k1],
                    ),
            decreases clients.len() - k,
        {
            let client = clients[k];
            let mut part: Vec<TransactionRecord> = Vec::new();
            let mut j: usize = 0;
            while j < batch.len()
                invariant
                    j <= batch.len(),
                    part@ == filter_client(batch@.take(j as int), client),
                decreases batch.len() - j,
            {
                proof {
                    assert(batch@.take(j + 1int) =~= batch@.take(j as int).push(batch@[j as int]));
                    lemma_filter_client_push(batch@.take(j as int), batch@[j as int], client);
                }
                if batch[j].client == client {
                    part.push(batch[j]);
                }
                j = j + 1;
            }
            proof {
                assert(batch@.take(batch@.len() as int) =~= batch@);
            }
            parts.push((client, part));
            k = k + 1;
        }

        proof {
            let pv = partition_view(parts@);
            assert forall|k1: int, k2: int|
                0 <= k1 < k2 < pv.len() implies (#[trigger] pv[k1]).0 != (#[trigger] pv[k2]).0 by {
                assert(pv[k1].0 == clients@[k1] && pv[k2].0 == clients@[k2]);
            }
            assert forall|k1: int|
                0 <= k1 < pv.len() implies (#[trigger] pv[k1]).1 == filter_client(
                batch@,
                pv[k1].0,
            ) by {
                assert(pv[k1].0 == parts@[k1].0 && pv[k1].1 == parts@[k1].1@);
            }
            assert forall|i2: int| 0 <= i2 < batch@.len() implies exists|k2: int|
                0 <= k2 < pv.len() && (#[trigger] pv[k2]).0 == (#[trigger] batch@[i2]).client by {
                assert(clients@.contains(batch@[i2].client));
                let k2 = choose|k2: int|
                    0 <= k2 < clients@.len() && clients@[k2] == batch@[i2].client;
                assert(pv[k2].0 == batch@[i2].client);
            }
            lemma_partition_counts_records(pv, batch@);
        }
        parts
    }

    /// Apply one client's records to the engine, strictly in order; the
    /// work of a single worker. Rejections are recorded per record and
    /// do not stop processing.
    pub fn process_client_transactions(&mut self, transactions: Vec<TransactionRecord>) -> (results:
        Vec<ProcessingResult>)
        requires
            old(self).wf(),
        ensures
            final(self).wf(),
            final(self)@ == run(old(self)@, transactions@),
            results@.len() == transactions@.len(),
            forall|i: int|
                0 <= i < results@.len() ==> (#[trigger] results@[i]).record == transactions@[i],
            forall|i: int|
                0 <= i < results@.len() ==> ((#[trigger] results@[i]).result is Ok <==> outcome(
                    run(old(self)@, transactions@.take(i)),
                    transactions@[i],
                ) is None),
    {
        let mut results: Vec<ProcessingResult> = Vec::new();
        let mut i: usize = 0;
        while i < transactions.len()
            invariant
                i <= transactions.len(),
                self.wf(),
                self@ == run(old(self)@, transactions@.take(i as int)),
                results@.len() == i,
                forall|j: int|
                    0 <= j < i ==> (#[trigger] results@[j]).record == transactions@[j],
                forall|j: int|
                    0 <= j < i ==> ((#[trigger] results@[j]).result is Ok <==> outcome(
                        run(old(self)@, transactions@.take(j)),
                        transactions@[j],
                    ) is None),
            decreases transactions.len() - i,
        {
            let record = transactions[i];
            proof {
                assert(transactions@.take(i + 1int) =~= transactions@.take(i as int).push(record));
                crate::equivalence::lemma_run_push(old(self)@, transactions@.take(i as int), record);
            }
            let result = self.engine.process(record);
            results.push(ProcessingResult { record, result });
            i = i + 1;
        }
        proof {
            assert(transactions@.take(transactions@.len() as int) =~= transactions@);
        }
        results
    }

    /// Process a batch: partition it by client, then run the
    /// partitions one after another—the sequential model of running
    /// them concurrently, which the commutation proofs justify. For
    /// every batch in which no two deposits or withdrawals reuse one
    /// transaction id across different clients, the final state is
    /// exactly that of processing the batch in its original order.
    /// Results are grouped by client, each client's in order.
    pub fn process_batch(&mut self, batch: Vec<TransactionRecord>) -> (results: Vec<
        ProcessingResult,
    >)
        requires
            old(self).wf(),
        ensures
            final(self).wf(),
            results@.len() == batch@.len(),
            exists|parts: Seq<(ClientId, Seq<TransactionRecord>)>|
                is_client_partition(parts, batch@) && final(self)@ == run_partitions(
                    old(self)@,
                    parts,
                ),
            compatible_records(batch@) ==> final(self)@ == run(old(self)@, batch@),
    {
        let ghost pre = self@;
        let parts = self.partition_by_client(batch);
        let ghost pv = partition_view(parts@);

        let mut results: Vec<ProcessingResult> = Vec::new();
        let mut k: usize = 0;
        while k < parts.len()
            invariant
                k <= parts.len(),
                self.wf(),
                pv == partition_view(parts@),
                self@ == run_partitions(pre, pv.take(k as int)),
                results@.len() == partition_record_count(pv.take(k as int)),
            decreases parts.len() - k,
        {
            let mut worker_records: Vec<TransactionRecord> = Vec::new();
            let part = &parts[k];
            let mut j: usize = 0;
            while j < part.1.len()
                invariant
                    j <= part.1.len(),
                    worker_records@ == part.1@.take(j as int),
                decreases part.1.len() - j,
            {
                proof {
                    assert(part.1@.take(j + 1int) =~= part.1@.take(j as int).push(
                        part.1@[j as int],
                    ));
                }
                worker_records.push(part.1[j]);
                j = j + 1;
            }
            proof {
                assert(part.1@.take(part.1@.len() as int) =~= part.1@);
            }

            proof {
                lemma_run_partitions_take_step(pre, pv, k as int);
                lemma_partition_count_take_step(pv, k as int);
            }
            let mut worker_results = self.process_client_transactions(worker_records);
            results.append(&mut worker_results);
            k = k + 1;
        }

        proof {
            assert(pv.take(pv.len() as int) =~= pv);
            lemma_partition_counts_records(pv, batch@);
            if compatible_records(batch@) {
                lemma_run_partitions(pre, pv, batch@);
            }
        }
        results
    }
}

/// Unfolding `run_partitions` over a growing prefix: one more partition
/// is one more run.
proof fn lemma_run_partitions_take_step(
    s: EngineState,
    parts: Seq<(ClientId, Seq<TransactionRecord>)>,
    k: int,
)
    requires
        0 <= k < parts.len(),
    ensures
        run_partitions(s, parts.take(k + 1)) == run(
            run_partitions(s, parts.take(k)),
            parts[k].1,
        ),
{
    lemma_run_partitions_concat(s, parts.take(k), seq![parts[k]]);
    assert(parts.take(k + 1) =~= parts.take(k) + seq![parts[k]]);
    let t = run_partitions(s, parts.take(k));
    assert(seq![parts[k]].drop_first() =~= Seq::<(ClientId, Seq<TransactionRecord>)>::empty());
    assert(run_partitions(t, seq![parts[k]]) == run_partitions(
        run(t, seq![parts[k]][0].1),
        seq![parts[k]].drop_first(),
    ));
}

/// Unfolding `partition_record_count` over a growing prefix.
proof fn lemma_partition_count_take_step(
    parts: Seq<(ClientId, Seq<TransactionRecord>)>,
    k: int,
)
    requires
        0 <= k < parts.len(),
    ensures
        partition_record_count(parts.take(k + 1)) == partition_record_count(parts.take(k))
            + parts[k].1.len(),
{
    lemma_partition_count_concat(parts.take(k), seq![parts[k]]);
    assert(parts.take(k + 1) =~= parts.take(k) + seq![parts[k]]);
    assert(seq![parts[k]].drop_first() =~= Seq::<(ClientId, Seq<TransactionRecord>)>::empty());
    assert(partition_record_count(seq![parts[k]]) == parts[k].1.len()
        + partition_record_count(seq![parts[k]].drop_first()));
}

/// Running a concatenation of partition families is running the two
/// families in turn.
proof fn lemma_run_partitions_concat(
    s: EngineState,
    a: Seq<(ClientId, Seq<TransactionRecord>)>,
    b: Seq<(ClientId, Seq<TransactionRecord>)>,
)
    ensures
        run_partitions(s, a + b) == run_partitions(run_partitions(s, a), b),
    decreases a.len(),
{
    if a.len() == 0 {
        assert(a + b =~= b);
    } else {
        assert((a + b)[0] == a[0]);
        assert((a + b).drop_first() =~= a.drop_first() + b);
        lemma_run_partitions_concat(run(s, a[0].1), a.drop_first(), b);
    }
}

} // verus!
