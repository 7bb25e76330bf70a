use vstd::prelude::*;

use crate::cross_shard_client::{edges_at, fans_out, served_edge};
use crate::cross_shard_state_view::{can_resolve, publish, read_of, resolved_cell, CellView, ReadView};
use crate::dependency_index::{declared_index, edge_set, sub_block_fits, SubBlock};
use crate::messages::{committed_value, written_value, OutboundMessage, TransactionOutcome};
use crate::types::{ShardId, TxnIndex};

verus! {

/// The cells after publishing each of `writes` in order.
pub open spec fn publish_all(
    m: Map<Seq<u8>, CellView>,
    writes: Seq<(Seq<u8>, Option<Seq<u8>>)>,
) -> Map<Seq<u8>, CellView>
    decreases writes.len(),
{
    if writes.len() == 0 {
        m
    } else {
        let prev = publish_all(m, writes.drop_last());
        publish(prev, writes.last().0, writes.last().1)
    }
}

/// A round without cross-shard dependencies is silent: a sub-block that
/// declares no edge builds an empty index, so any commit of it sends no
/// message, and an overlay that waits on no key never makes a read wait.
pub proof fn no_dependencies_no_traffic(
    sub_block: SubBlock,
    txn_idx: TxnIndex,
    outcome: TransactionOutcome,
    msgs: Seq<OutboundMessage>,
    cells: Map<Seq<u8>, CellView>,
    k: Seq<u8>,
)
    requires
        forall|i: int|
            0 <= i < sub_block.transactions.len()
                ==> (#[trigger] sub_block.transactions[i]).dependent_edges.len() == 0,
        fans_out(msgs, edges_at(declared_index(sub_block), txn_idx + sub_block.start_index), outcome),
        cells.dom() == Set::<Seq<u8>>::empty(),
    ensures
        declared_index(sub_block) == Map::<int, Set<(Seq<u8>, ShardId)>>::empty(),
        msgs.len() == 0,
        read_of(cells, k) == ReadView::NotOverlaid,
{
    assert(declared_index(sub_block) =~= Map::empty());
    if msgs.len() > 0 {
        assert(edges_at(declared_index(sub_block), txn_idx + sub_block.start_index).contains(
            served_edge(msgs[0]),
        ));
    }
    assert(!cells.contains_key(k));
}

/// A declared dependency is always served: when the producer transaction
/// commits, whatever its outcome, exactly the message for (`k`, `consumer`)
/// carries the value it left for `k`, and publishing it into the consumer's
/// still unresolved cell makes every read of `k` return that value.
pub proof fn declared_dependency_resolves(
    sub_block: SubBlock,
    txn_idx: TxnIndex,
    k: Seq<u8>,
    consumer: ShardId,
    outcome: TransactionOutcome,
    msgs: Seq<OutboundMessage>,
    cells: Map<Seq<u8>, CellView>,
)
    requires
        sub_block_fits(sub_block),
        0 <= txn_idx < sub_block.transactions.len(),
        edge_set(sub_block.transactions[txn_idx as int].dependent_edges@).contains((k, consumer)),
        fans_out(msgs, edges_at(declared_index(sub_block), txn_idx + sub_block.start_index), outcome),
        can_resolve(cells, k),
    ensures
        exists|i: int|
            0 <= i < msgs.len() && (#[trigger] msgs[i])@ == (consumer, k, committed_value(outcome, k)),
        read_of(publish(cells, k, committed_value(outcome, k)), k) == ReadView::Resolved(
            committed_value(outcome, k),
        ),
{
    let g = txn_idx + sub_block.start_index;
    let edges = sub_block.transactions[txn_idx as int].dependent_edges@;
    let j = choose|j: int| 0 <= j < edges.len() && edges[j]@ == (k, consumer);
    assert(edges[j]@ == (k, consumer));
    assert(declared_index(sub_block).contains_key(g));
    assert(edges_at(declared_index(sub_block), g).contains((k, consumer)));
    let i = choose|i: int| 0 <= i < msgs.len() && served_edge(#[trigger] msgs[i]) == (k, consumer);
    assert(msgs[i]@ == (consumer, k, committed_value(outcome, k)));
    let v = committed_value(outcome, k);
    assert(publish(cells, k, v)[k] == resolved_cell(v));
}

/// A committed write reaches its consumer: when the producer commits with
/// success and writes `v` to `k`, the consumer's read of `k` returns exactly
/// `v` once the message is published.
pub proof fn committed_write_is_delivered(
    sub_block: SubBlock,
    txn_idx: TxnIndex,
    k: Seq<u8>,
    consumer: ShardId,
    outcome: TransactionOutcome,
    v: Seq<u8>,
    msgs: Seq<OutboundMessage>,
    cells: Map<Seq<u8>, CellView>,
)
    requires
        sub_block_fits(sub_block),
        0 <= txn_idx < sub_block.transactions.len(),
        edge_set(sub_block.transactions[txn_idx as int].dependent_edges@).contains((k, consumer)),
        outcome matches TransactionOutcome::Success(ws) && written_value(ws@, k) == Some(v),
        fans_out(msgs, edges_at(declared_index(sub_block), txn_idx + sub_block.start_index), outcome),
        can_resolve(cells, k),
    ensures
        exists|i: int| 0 <= i < msgs.len() && (#[trigger] msgs[i])@ == (consumer, k, Some(v)),
        read_of(publish(cells, k, Some(v)), k) == ReadView::Resolved(Some(v)),
{
    declared_dependency_resolves(sub_block, txn_idx, k, consumer, outcome, msgs, cells);
}

/// A dependency left unwritten resolves to absent: when the producer aborts,
/// or commits without writing `k`, the consumer's read of `k` resolves to
/// "absent", which differs from any present value, the empty one included.
pub proof fn unwritten_dependency_is_absent(
    sub_block: SubBlock,
    txn_idx: TxnIndex,
    k: Seq<u8>,
    consumer: ShardId,
    outcome: TransactionOutcome,
    msgs: Seq<OutboundMessage>,
    cells: Map<Seq<u8>, CellView>,
    b: Seq<u8>,
)
    requires
        sub_block_fits(sub_block),
        0 <= txn_idx < sub_block.transactions.len(),
        edge_set(sub_block.transactions[txn_idx as int].dependent_edges@).contains((k, consumer)),
        committed_value(outcome, k) is None,
        fans_out(msgs, edges_at(declared_index(sub_block), txn_idx + sub_block.start_index), outcome),
        can_resolve(cells, k),
    ensures
        exists|i: int| 0 <= i < msgs.len() && (#[trigger] msgs[i])@ == (consumer, k, None::<Seq<u8>>),
        read_of(publish(cells, k, None), k) == ReadView::Resolved(None),
        read_of(publish(cells, k, None), k) != ReadView::Resolved(Some(b)),
{
    declared_dependency_resolves(sub_block, txn_idx, k, consumer, outcome, msgs, cells);
}

/// A resolved cell never changes: whatever is published afterwards, the cell
/// of `k` and every read of it stay as they were.
pub proof fn resolved_cell_is_stable(
    m: Map<Seq<u8>, CellView>,
    k: Seq<u8>,
    writes: Seq<(Seq<u8>, Option<Seq<u8>>)>,
)
    requires
        m.contains_key(k),
        !(m[k] is Unresolved),
    ensures
        publish_all(m, writes).contains_key(k),
        publish_all(m, writes)[k] == m[k],
        read_of(publish_all(m, writes), k) == read_of(m, k),
    decreases writes.len(),
{
    if writes.len() > 0 {
        resolved_cell_is_stable(m, k, writes.drop_last());
    }
}

/// Readers waiting on the same key agree: once `v` is published for an
/// unresolved `k`, each reader, whatever else is published before it looks,
/// reads exactly `v`.
pub proof fn waiting_readers_agree(
    m: Map<Seq<u8>, CellView>,
    k: Seq<u8>,
    v: Option<Seq<u8>>,
    later: Seq<Seq<(Seq<u8>, Option<Seq<u8>>)>>,
)
    requires
        can_resolve(m, k),
    ensures
        forall|i: int|
            0 <= i < later.len() ==> read_of(publish_all(publish(m, k, v), #[trigger] later[i]), k)
                == ReadView::Resolved(v),
{
    let resolved = publish(m, k, v);
    assert(resolved[k] == resolved_cell(v));
    assert forall|i: int| 0 <= i < later.len() implies read_of(
        publish_all(resolved, #[trigger] later[i]),
        k,
    ) == ReadView::Resolved(v) by {
        resolved_cell_is_stable(resolved, k, later[i]);
    }
}

} // verus!
