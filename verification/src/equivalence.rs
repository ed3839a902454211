//! Equivalence of sequential and partitioned processing.
//!
//! The batch scheduler splits a chunk of records into per-client
//! partitions and lets the partitions run independently, each applied
//! to the shared engine in order. This module proves that doing so
//! produces the same final state as applying the whole chunk in its
//! original order, for every input in which no two deposits or
//! withdrawals reuse one transaction id across different clients
//! ([`compatible_records`]). Records of different clients commute
//! under that assumption ([`lemma_step_commutes`]), and any family of
//! per-client partitions folds to the sequential result
//! ([`lemma_run_partitions`]).

use vstd::prelude::*;

use crate::model::{is_disputable, run, step, EngineState};
use crate::transaction::TransactionRecord;

verus! {

/// Two records interfere only when both are deposits or withdrawals
/// claiming the same transaction id for different clients: then whoever
/// runs first wins the id. Every other pair of records of different
/// clients commutes.
pub open spec fn compatible_pair(r1: TransactionRecord, r2: TransactionRecord) -> bool {
    !(is_disputable(r1) && is_disputable(r2) && r1.tx == r2.tx && r1.client != r2.client)
}

/// No two deposits or withdrawals in `records` reuse one transaction id
/// across different clients. Reuse within one client is fine: those
/// records stay in one partition and keep their order.
pub open spec fn compatible_records(records: Seq<TransactionRecord>) -> bool {
    forall|i: int, j: int|
        0 <= i < records.len() && 0 <= j < records.len() ==> #[trigger] compatible_pair(
            records[i],
            records[j],
        )
}

/// The subsequence of `records` belonging to `client`, in order.
pub open spec fn filter_client(records: Seq<TransactionRecord>, client: u16) -> Seq<
    TransactionRecord,
>
    decreases records.len(),
{
    if records.len() == 0 {
        Seq::empty()
    } else if records[0].client == client {
        seq![records[0]] + filter_client(records.drop_first(), client)
    } else {
        filter_client(records.drop_first(), client)
    }
}

/// The subsequence of `records` not belonging to `client`, in order.
pub open spec fn drop_client(records: Seq<TransactionRecord>, client: u16) -> Seq<
    TransactionRecord,
>
    decreases records.len(),
{
    if records.len() == 0 {
        Seq::empty()
    } else if records[0].client == client {
        drop_client(records.drop_first(), client)
    } else {
        seq![records[0]] + drop_client(records.drop_first(), client)
    }
}

/// Records of different clients commute, provided they do not contend
/// for one transaction id as deposits or withdrawals: each touches only
/// its own client's account, and the one stored transaction a record
/// can change is one the other either ignores or rejects.
#[verifier::rlimit(100)]
pub proof fn lemma_step_commutes(s: EngineState, r1: TransactionRecord, r2: TransactionRecord)
    requires
        r1.client != r2.client,
        compatible_pair(r1, r2),
    ensures
        step(step(s, r1), r2) == step(step(s, r2), r1),
{
    let lhs = step(step(s, r1), r2);
    let rhs = step(step(s, r2), r1);
    assert(lhs.accounts =~= rhs.accounts) by {
        assert(step(s, r1).account(r2.client) == s.account(r2.client));
        assert(step(s, r2).account(r1.client) == s.account(r1.client));
    }
    assert(lhs.transactions =~= rhs.transactions);
    assert(lhs =~= rhs);
}

/// Running a concatenation is running the two halves in turn.
pub proof fn lemma_run_concat(
    s: EngineState,
    a: Seq<TransactionRecord>,
    b: Seq<TransactionRecord>,
)
    ensures
        run(s, a + b) == run(run(s, a), b),
    decreases a.len(),
{
    if a.len() == 0 {
        assert(a + b =~= b);
    } else {
        assert((a + b)[0] == a[0]);
        assert((a + b).drop_first() =~= a.drop_first() + b);
        lemma_run_concat(step(s, a[0]), a.drop_first(), b);
    }
}

/// Running one more record is one more step.
pub proof fn lemma_run_push(s: EngineState, records: Seq<TransactionRecord>, r: TransactionRecord)
    ensures
        run(s, records.push(r)) == step(run(s, records), r),
{
    assert(records.push(r) =~= records + seq![r]);
    lemma_run_concat(s, records, seq![r]);
    let t = run(s, records);
    assert(seq![r].drop_first() =~= Seq::<TransactionRecord>::empty());
    assert(run(t, seq![r]) == run(step(t, seq![r][0]), seq![r].drop_first()));
    assert(run(step(t, r), Seq::<TransactionRecord>::empty()) == step(t, r));
}

/// How one more record extends a client's partition.
pub proof fn lemma_filter_client_push(
    records: Seq<TransactionRecord>,
    r: TransactionRecord,
    client: u16,
)
    ensures
        filter_client(records.push(r), client) == if r.client == client {
            filter_client(records, client).push(r)
        } else {
            filter_client(records, client)
        },
    decreases records.len(),
{
    if records.len() == 0 {
        assert(records.push(r)[0] == r);
        assert(records.push(r).drop_first() =~= Seq::<TransactionRecord>::empty());
        if r.client == client {
            assert(seq![r] + filter_client(Seq::empty(), client) =~= filter_client(
                records,
                client,
            ).push(r));
        }
    } else {
        assert(records.push(r)[0] == records[0]);
        assert(records.push(r).drop_first() =~= records.drop_first().push(r));
        lemma_filter_client_push(records.drop_first(), r, client);
        if records[0].client == client && r.client == client {
            assert(seq![records[0]] + filter_client(records.drop_first(), client).push(r) =~= (
            seq![records[0]] + filter_client(records.drop_first(), client)).push(r));
        }
    }
}

/// Every record of a client's partition comes from the sequence and
/// belongs to that client.
pub proof fn lemma_filter_client_elements(records: Seq<TransactionRecord>, client: u16)
    ensures
        forall|k: int|
            0 <= k < filter_client(records, client).len() ==> records.contains(
                #[trigger] filter_client(records, client)[k],
            ) && filter_client(records, client)[k].client == client,
    decreases records.len(),
{
    if records.len() > 0 {
        lemma_filter_client_elements(records.drop_first(), client);
        assert forall|k: int|
            0 <= k < filter_client(records, client).len() implies records.contains(
            #[trigger] filter_client(records, client)[k],
        ) && filter_client(records, client)[k].client == client by {
            let f = filter_client(records, client);
            if records[0].client == client && k == 0 {
                assert(records[0] == f[0]);
                assert(records.contains(records[0]));
            } else {
                let rest = records.drop_first();
                let fr = filter_client(rest, client);
                let k2: int = if records[0].client == client {
                    k - 1
                } else {
                    k
                };
                assert(f[k] == fr[k2]);
                assert(rest.contains(fr[k2]));
                let i = choose|i: int| 0 <= i < rest.len() && rest[i] == fr[k2];
                assert(records[i + 1] == fr[k2]);
                assert(records.contains(fr[k2]));
            }
        }
    }
}

/// Every record outside a client's partition comes from the sequence
/// and belongs to another client.
pub proof fn lemma_drop_client_elements(records: Seq<TransactionRecord>, client: u16)
    ensures
        forall|k: int|
            0 <= k < drop_client(records, client).len() ==> records.contains(
                #[trigger] drop_client(records, client)[k],
            ) && drop_client(records, client)[k].client != client,
    decreases records.len(),
{
    if records.len() > 0 {
        lemma_drop_client_elements(records.drop_first(), client);
        assert forall|k: int|
            0 <= k < drop_client(records, client).len() implies records.contains(
            #[trigger] drop_client(records, client)[k],
        ) && drop_client(records, client)[k].client != client by {
            let d = drop_client(records, client);
            if records[0].client != client && k == 0 {
                assert(records[0] == d[0]);
                assert(records.contains(records[0]));
            } else {
                let rest = records.drop_first();
                let dr = drop_client(rest, client);
                let k2: int = if records[0].client != client {
                    k - 1
                } else {
                    k
                };
                assert(d[k] == dr[k2]);
                assert(rest.contains(dr[k2]));
                let i = choose|i: int| 0 <= i < rest.len() && rest[i] == dr[k2];
                assert(records[i + 1] == dr[k2]);
                assert(records.contains(dr[k2]));
            }
        }
    }
}

/// Compatibility read off two members of a compatible sequence.
pub proof fn lemma_compatible_members(
    records: Seq<TransactionRecord>,
    x: TransactionRecord,
    y: TransactionRecord,
)
    requires
        compatible_records(records),
        records.contains(x),
        records.contains(y),
    ensures
        compatible_pair(x, y),
{
    let i = choose|i: int| 0 <= i < records.len() && records[i] == x;
    let j = choose|j: int| 0 <= j < records.len() && records[j] == y;
    assert(compatible_pair(records[i], records[j]));
}

/// Compatibility restricts to any selection of members.
pub proof fn lemma_compatible_sub(records: Seq<TransactionRecord>, sub: Seq<TransactionRecord>)
    requires
        compatible_records(records),
        forall|k: int| 0 <= k < sub.len() ==> records.contains(#[trigger] sub[k]),
    ensures
        compatible_records(sub),
{
    assert forall|i: int, j: int|
        0 <= i < sub.len() && 0 <= j < sub.len() implies #[trigger] compatible_pair(
        sub[i],
        sub[j],
    ) by {
        lemma_compatible_members(records, sub[i], sub[j]);
    }
}

/// A record of another client moves past a block of one client's
/// records: applying it before the block or after it reaches the same
/// state.
pub proof fn lemma_step_past_block(
    s: EngineState,
    block: Seq<TransactionRecord>,
    r: TransactionRecord,
    client: u16,
)
    requires
        r.client != client,
        forall|k: int| 0 <= k < block.len() ==> (#[trigger] block[k]).client == client,
        forall|k: int| 0 <= k < block.len() ==> compatible_pair(#[trigger] block[k], r),
    ensures
        run(step(s, r), block) == step(run(s, block), r),
    decreases block.len(),
{
    if block.len() > 0 {
        lemma_step_commutes(s, r, block[0]);
        lemma_step_past_block(step(s, block[0]), block.drop_first(), r, client);
    }
}

/// Pulling one client's records to the front: running a sequence is
/// running that client's partition first and the rest afterwards.
pub proof fn lemma_run_split_client(s: EngineState, records: Seq<TransactionRecord>, client: u16)
    requires
        compatible_records(records),
    ensures
        run(s, records) == run(run(s, filter_client(records, client)), drop_client(records, client)),
    decreases records.len(),
{
    if records.len() > 0 {
        let r0 = records[0];
        let rest = records.drop_first();
        assert forall|k: int| 0 <= k < rest.len() implies records.contains(#[trigger] rest[k]) by {
            assert(records[k + 1] == rest[k]);
        }
        lemma_compatible_sub(records, rest);
        lemma_run_split_client(step(s, r0), rest, client);
        if r0.client == client {
            assert(filter_client(records, client) == seq![r0] + filter_client(rest, client));
            assert((seq![r0] + filter_client(rest, client)).drop_first() =~= filter_client(
                rest,
                client,
            ));
        } else {
            // move r0 past the client's whole partition of the rest
            lemma_filter_client_elements(rest, client);
            assert forall|k: int|
                0 <= k < filter_client(rest, client).len() implies compatible_pair(
                #[trigger] filter_client(rest, client)[k],
                r0,
            ) by {
                lemma_compatible_members(records, filter_client(rest, client)[k], r0);
            }
            lemma_step_past_block(s, filter_client(rest, client), r0, client);
            assert((seq![r0] + drop_client(rest, client)).drop_first() =~= drop_client(
                rest,
                client,
            ));
        }
    }
}

/// Filtering for one client ignores the removal of another client's
/// records.
pub proof fn lemma_filter_drop_commute(records: Seq<TransactionRecord>, c1: u16, c2: u16)
    requires
        c1 != c2,
    ensures
        filter_client(drop_client(records, c1), c2) == filter_client(records, c2),
    decreases records.len(),
{
    if records.len() > 0 {
        lemma_filter_drop_commute(records.drop_first(), c1, c2);
        if records[0].client != c1 {
            assert((seq![records[0]] + drop_client(records.drop_first(), c1)).drop_first()
                =~= drop_client(records.drop_first(), c1));
        }
    }
}

/// A family of per-client partitions of a record sequence: pairwise
/// distinct clients, each partition exactly its client's subsequence,
/// and every record's client covered by some partition.
pub open spec fn is_client_partition(
    parts: Seq<(u16, Seq<TransactionRecord>)>,
    records: Seq<TransactionRecord>,
) -> bool {
    &&& forall|k1: int, k2: int|
        0 <= k1 < k2 < parts.len() ==> (#[trigger] parts[k1]).0 != (#[trigger] parts[k2]).0
    &&& forall|k: int|
        0 <= k < parts.len() ==> (#[trigger] parts[k]).1 == filter_client(records, parts[k].0)
    &&& forall|i: int|
        0 <= i < records.len() ==> exists|k: int|
            0 <= k < parts.len() && (#[trigger] parts[k]).0 == (#[trigger] records[i]).client
}

/// The state after the partitions of a chunk have run one after
/// another, each in order.
pub open spec fn run_partitions(s: EngineState, parts: Seq<(u16, Seq<TransactionRecord>)>) -> EngineState
    decreases parts.len(),
{
    if parts.len() == 0 {
        s
    } else {
        run_partitions(run(s, parts[0].1), parts.drop_first())
    }
}

/// An empty partition family only partitions the empty sequence.
proof fn lemma_partition_empty(
    parts: Seq<(u16, Seq<TransactionRecord>)>,
    records: Seq<TransactionRecord>,
)
    requires
        is_client_partition(parts, records),
        parts.len() == 0,
    ensures
        records.len() == 0,
{
    if records.len() > 0 {
        let c = (records[0]).client;
        assert(exists|k: int|
            0 <= k < parts.len() && (#[trigger] parts[k]).0 == c);
        assert(false);
    }
}

/// Dropping the first partition's client leaves the remaining family a
/// partition of the remaining records.
proof fn lemma_partition_tail(
    parts: Seq<(u16, Seq<TransactionRecord>)>,
    records: Seq<TransactionRecord>,
)
    requires
        is_client_partition(parts, records),
        parts.len() > 0,
    ensures
        is_client_partition(parts.drop_first(), drop_client(records, parts[0].0)),
{
    let client = parts[0].0;
    let remaining = drop_client(records, client);
    let tail = parts.drop_first();
    lemma_drop_client_elements(records, client);
    assert forall|k1: int, k2: int|
        0 <= k1 < k2 < tail.len() implies (#[trigger] tail[k1]).0 != (#[trigger] tail[k2]).0 by {
        assert(parts[k1 + 1] == tail[k1]);
        assert(parts[k2 + 1] == tail[k2]);
    }
    assert forall|k: int|
        0 <= k < tail.len() implies (#[trigger] tail[k]).1 == filter_client(
        remaining,
        tail[k].0,
    ) by {
        assert(parts[k + 1] == tail[k]);
        lemma_filter_drop_commute(records, client, tail[k].0);
    }
    assert forall|i: int| 0 <= i < remaining.len() implies exists|k: int|
        0 <= k < tail.len() && (#[trigger] tail[k]).0 == (#[trigger] remaining[i]).client by {
        assert(records.contains(remaining[i]));
        let j = choose|j: int| 0 <= j < records.len() && records[j] == remaining[i];
        let k = choose|k: int| 0 <= k < parts.len() && parts[k].0 == records[j].client;
        assert(k != 0);
        assert(tail[k - 1].0 == remaining[i].client);
    }
}

/// The scheduler equivalence: running the per-client partitions of a
/// chunk one after another—in whatever order the partition family lists
/// them—reaches the same state as running the chunk in its original
/// order, provided no two deposits or withdrawals contend for one
/// transaction id across different clients.
pub proof fn lemma_run_partitions(
    s: EngineState,
    parts: Seq<(u16, Seq<TransactionRecord>)>,
    records: Seq<TransactionRecord>,
)
    requires
        compatible_records(records),
        is_client_partition(parts, records),
    ensures
        run_partitions(s, parts) == run(s, records),
    decreases parts.len(),
{
    if parts.len() == 0 {
        lemma_partition_empty(parts, records);
    } else {
        let client = parts[0].0;
        lemma_run_split_client(s, records, client);
        let remaining = drop_client(records, client);
        lemma_drop_client_elements(records, client);
        lemma_compatible_sub(records, remaining);
        lemma_partition_tail(parts, records);
        lemma_run_partitions(run(s, parts[0].1), parts.drop_first(), remaining);
    }
}

/// The number of records across a partition family.
pub open spec fn partition_record_count(parts: Seq<(u16, Seq<TransactionRecord>)>) -> nat
    decreases parts.len(),
{
    if parts.len() == 0 {
        0
    } else {
        parts[0].1.len() + partition_record_count(parts.drop_first())
    }
}

/// Counting distributes over concatenation of partition families.
pub proof fn lemma_partition_count_concat(
    a: Seq<(u16, Seq<TransactionRecord>)>,
    b: Seq<(u16, Seq<TransactionRecord>)>,
)
    ensures
        partition_record_count(a + b) == partition_record_count(a) + partition_record_count(b),
    decreases a.len(),
{
    if a.len() == 0 {
        assert(a + b =~= b);
    } else {
        assert((a + b)[0] == a[0]);
        assert((a + b).drop_first() =~= a.drop_first() + b);
        lemma_partition_count_concat(a.drop_first(), b);
    }
}

/// A client's partition and the rest split the records exactly.
proof fn lemma_filter_drop_len(records: Seq<TransactionRecord>, client: u16)
    ensures
        filter_client(records, client).len() + drop_client(records, client).len()
            == records.len(),
    decreases records.len(),
{
    if records.len() > 0 {
        lemma_filter_drop_len(records.drop_first(), client);
    }
}

/// No records are lost or duplicated: a partition family holds exactly
/// as many records as the sequence it partitions.
pub proof fn lemma_partition_counts_records(
    parts: Seq<(u16, Seq<TransactionRecord>)>,
    records: Seq<TransactionRecord>,
)
    requires
        is_client_partition(parts, records),
    ensures
        partition_record_count(parts) == records.len(),
    decreases parts.len(),
{
    if parts.len() == 0 {
        lemma_partition_empty(parts, records);
    } else {
        let client = parts[0].0;
        lemma_filter_drop_len(records, client);
        lemma_partition_tail(parts, records);
        lemma_partition_counts_records(parts.drop_first(), drop_client(records, client));
    }
}

/// One scheduler round: after some records have already been processed,
/// running the per-client partitions of the next chunk reaches exactly
/// the state of processing everything so far in source order. Chained
/// over all chunks of an input, this is the strategy equivalence: the
/// chunked, partitioned scheme and the single-threaded baseline produce
/// identical final snapshots, whatever the chunk size.
pub proof fn lemma_chunk_round_equals_sequential(
    s: EngineState,
    processed: Seq<TransactionRecord>,
    chunk: Seq<TransactionRecord>,
    parts: Seq<(u16, Seq<TransactionRecord>)>,
)
    requires
        compatible_records(chunk),
        is_client_partition(parts, chunk),
    ensures
        run_partitions(run(s, processed), parts) == run(s, processed + chunk),
{
    lemma_run_partitions(run(s, processed), parts, chunk);
    lemma_run_concat(s, processed, chunk);
}

} // verus!
