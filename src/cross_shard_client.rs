use vstd::prelude::*;

use crate::cross_shard_state_view::{
    all_resolved, can_resolve, publish, CrossShardStateView, OverlayError,
};
use crate::dependency_index::{
    declared_index, edge_set, sub_block_fits, DependencyIndex, SubBlock,
};
use crate::messages::{
    committed_value, written_value, CrossShardMsg, OutboundMessage, RemoteTxnWrite,
    TransactionOutcome, WriteEntry,
};
use crate::types::{copy_value, value_view, ShardId, StateKey, TxnIndex};

verus! {

/// The pairs that the transaction at global index `g` forwards: none when the
/// index has no entry for it.
pub open spec fn edges_at(index: Map<int, Set<(Seq<u8>, ShardId)>>, g: int) -> Set<
    (Seq<u8>, ShardId),
> {
    if index.contains_key(g) {
        index[g]
    } else {
        Set::empty()
    }
}

/// The (key, destination) pair that a message serves.
pub open spec fn served_edge(m: OutboundMessage) -> (Seq<u8>, ShardId) {
    (m@.1, m@.0)
}

/// `msgs` holds exactly one message for each pair of `edges`, each carrying
/// the value that `outcome` leaves for its key.
pub open spec fn fans_out(
    msgs: Seq<OutboundMessage>,
    edges: Set<(Seq<u8>, ShardId)>,
    outcome: TransactionOutcome,
) -> bool {
    &&& forall|i: int|
        0 <= i < msgs.len() ==> edges.contains(served_edge(#[trigger] msgs[i])) && msgs[i]@.2
            == committed_value(outcome, msgs[i]@.1)
    &&& forall|p: (Seq<u8>, ShardId)|
        edges.contains(p) ==> exists|i: int| 0 <= i < msgs.len() && served_edge(#[trigger] msgs[i]) == p
    &&& forall|i: int, j: int|
        0 <= i < j < msgs.len() ==> served_edge(msgs[i]) != served_edge(msgs[j])
}

/// The final value of `key` in a write set: its last entry, if any.
fn written_value_of(ws: &Vec<WriteEntry>, key: &StateKey) -> (r: Option<Vec<u8>>)
    ensures
        value_view(r) == written_value(ws@, key@),
{
    let mut found: Option<Vec<u8>> = None;
    let mut i: usize = 0;
    while i < ws.len()
        invariant
            i <= ws.len(),
            value_view(found) == written_value(ws@.take(i as int), key@),
        decreases ws.len() - i,
    {
        assert(ws@.take(i + 1).drop_last() =~= ws@.take(i as int));
        if ws[i].state_key.same_as(key) {
            found = copy_value(&ws[i].value);
        }
        i = i + 1;
    }
    assert(ws@.take(ws.len() as int) =~= ws@);
    found
}

/// The value that `outcome` forwards for `key`.
fn committed_value_of(outcome: &TransactionOutcome, key: &StateKey) -> (r: Option<Vec<u8>>)
    ensures
        value_view(r) == committed_value(*outcome, key@),
{
    match outcome {
        TransactionOutcome::Success(ws) => written_value_of(ws, key),
        TransactionOutcome::SkipRest(ws) => written_value_of(ws, key),
        TransactionOutcome::Abort => None,
    }
}

/// The producer side of one shard: knows which of its transactions feed
/// which other shards, and turns each commit into the messages they need.
pub struct CrossShardCommitSender {
    shard_id: ShardId,
    dependent_edges: DependencyIndex,
}

impl CrossShardCommitSender {
    pub closed spec fn wf(&self) -> bool {
        self.dependent_edges.wf()
    }

    /// The dependency index, keyed by global transaction index.
    pub closed spec fn index(&self) -> Map<int, Set<(Seq<u8>, ShardId)>> {
        self.dependent_edges@
    }

    /// Global index of the shard's first transaction.
    pub closed spec fn offset(&self) -> TxnIndex {
        self.dependent_edges.offset()
    }

    pub closed spec fn shard(&self) -> ShardId {
        self.shard_id
    }

    /// Builds the sender of shard `shard_id` from its sub-block.
    pub fn new(shard_id: ShardId, sub_block: &SubBlock) -> (r: CrossShardCommitSender)
        requires
            sub_block_fits(*sub_block),
        ensures
            r.wf(),
            r.index() == declared_index(*sub_block),
            r.offset() == sub_block.start_index,
            r.shard() == shard_id,
    {
        CrossShardCommitSender { shard_id, dependent_edges: DependencyIndex::build(sub_block) }
    }

    pub fn shard_id(&self) -> (r: ShardId)
        ensures
            r == self.shard(),
    {
        self.shard_id
    }

    pub fn index_offset(&self) -> (r: TxnIndex)
        ensures
            r == self.offset(),
    {
        self.dependent_edges.index_offset()
    }

    /// The global index of the local transaction `txn_idx`, or `None` when it
    /// does not fit in a transaction index.
    pub fn global_txn_index(&self, txn_idx: TxnIndex) -> (r: Option<TxnIndex>)
        ensures
            r == (if txn_idx + self.offset() <= TxnIndex::MAX {
                Some((txn_idx + self.offset()) as TxnIndex)
            } else {
                None
            }),
    {
        txn_idx.checked_add(self.dependent_edges.index_offset())
    }

    /// Whether the transaction at global index `g` forwards any write.
    pub fn has_dependents(&self, g: TxnIndex) -> (r: bool)
        ensures
            r == self.index().contains_key(g as int),
    {
        self.dependent_edges.has_dependents(g)
    }

    /// The messages that the commit of local transaction `txn_idx` sends: one
    /// for each declared (key, consumer shard) pair of its global index, with
    /// the value it left for the key, absent when it wrote none or aborted.
    /// No messages when the transaction forwards nothing.
    pub fn on_transaction_committed(&self, txn_idx: TxnIndex, outcome: &TransactionOutcome) -> (r:
        Vec<OutboundMessage>)
        requires
            self.wf(),
        ensures
            fans_out(r@, edges_at(self.index(), txn_idx + self.offset()), *outcome),
    {
        let ghost g = txn_idx + self.offset();
        let mut msgs: Vec<OutboundMessage> = Vec::new();
        let global = match self.global_txn_index(txn_idx) {
            Some(global) => global,
            None => {
                proof {
                    self.dependent_edges.lemma_domain_fits();
                }
                assert(!self.index().contains_key(g));
                assert(edges_at(self.index(), g) =~= Set::empty());
                return msgs;
            },
        };
        let edges = match self.dependent_edges.dependents_of(global) {
            Some(edges) => edges,
            None => {
                assert(edges_at(self.index(), g) =~= Set::empty());
                return msgs;
            },
        };
        let mut i: usize = 0;
        while i < edges.len()
            invariant
                i <= edges.len(),
                msgs.len() == i,
                forall|j: int|
                    0 <= j < i ==> (#[trigger] msgs@[j])@ == (
                        edges@[j]@.1,
                        edges@[j]@.0,
                        committed_value(*outcome, edges@[j]@.0),
                    ),
            decreases edges.len() - i,
        {
            let edge = &edges[i];
            let value = committed_value_of(outcome, &edge.state_key);
            msgs.push(
                OutboundMessage {
                    dest: edge.shard_id,
                    write: RemoteTxnWrite::new(edge.state_key.duplicate(), value),
                },
            );
            i = i + 1;
        }
        proof {
            let es = edge_set(edges@);
            assert forall|j: int| 0 <= j < msgs.len() implies es.contains(
                served_edge(#[trigger] msgs@[j]),
            ) by {
                assert(edges@[j]@ == served_edge(msgs@[j]));
            }
            assert forall|p: (Seq<u8>, ShardId)| es.contains(p) implies exists|j: int|
                0 <= j < msgs.len() && served_edge(#[trigger] msgs@[j]) == p by {
                let j = choose|j: int| 0 <= j < edges.len() && (#[trigger] edges@[j])@ == p;
                assert(served_edge(msgs@[j]) == p);
            }
            assert forall|a: int, b: int| 0 <= a < b < msgs.len() implies served_edge(msgs@[a])
                != served_edge(msgs@[b]) by {
                assert(msgs@[a]@.0 == edges@[a]@.1);
                assert(msgs@[b]@.0 == edges@[b]@.1);
                assert(edges@[a]@ != edges@[b]@);
            }
        }
        msgs
    }
}

/// What the receiver loop does after a message.
pub enum ReceiverStep {
    Continue,
    Terminate,
}

/// A fatal condition that ends the round.
#[derive(Debug)]
pub enum ReceiveError {
    /// A remote write could not be published.
    Overlay(OverlayError),
    /// Every sender has stopped, yet some cell is still unresolved: its
    /// readers would never wake up.
    UnresolvedAtTeardown,
}

/// The consumer side of one shard: publishes incoming remote writes into the
/// shard's overlay and counts the stop signals of the remote senders.
pub struct CrossShardCommitReceiver {
    expected_stops: usize,
    stops_seen: usize,
}

impl CrossShardCommitReceiver {
    pub closed spec fn expected(&self) -> nat {
        self.expected_stops as nat
    }

    pub closed spec fn seen(&self) -> nat {
        self.stops_seen as nat
    }

    /// A receiver that ends after `expected_stops` stop signals.
    pub fn new(expected_stops: usize) -> (r: CrossShardCommitReceiver)
        ensures
            r.expected() == expected_stops,
            r.seen() == 0,
    {
        CrossShardCommitReceiver { expected_stops, stops_seen: 0 }
    }

    /// Whether some sender has not yet stopped.
    pub fn is_running(&self) -> (r: bool)
        ensures
            r == (self.seen() < self.expected()),
    {
        self.stops_seen < self.expected_stops
    }

    /// Handles one inbound message. A remote write is published into `view`;
    /// a stop signal is counted, and the last one expected ends the loop only
    /// when every cell of `view` is resolved.
    pub fn handle_message(&mut self, view: &mut CrossShardStateView, msg: CrossShardMsg) -> (r:
        Result<ReceiverStep, ReceiveError>)
        requires
            old(self).seen() < old(self).expected(),
            old(view).wf(),
        ensures
            final(view).wf(),
            final(self).expected() == old(self).expected(),
            match msg {
                CrossShardMsg::RemoteTxnWriteMsg(w) => {
                    &&& final(view)@ == publish(old(view)@, w@.0, w@.1)
                    &&& final(self).seen() == old(self).seen()
                    &&& (r is Ok) == can_resolve(old(view)@, w@.0)
                    &&& r is Ok ==> r == Ok::<ReceiverStep, ReceiveError>(ReceiverStep::Continue)
                    &&& r is Err ==> r matches Err(ReceiveError::Overlay(_))
                },
                CrossShardMsg::StopMsg => {
                    &&& final(view)@ == old(view)@
                    &&& final(self).seen() == old(self).seen() + 1
                    &&& (r matches Ok(ReceiverStep::Terminate)) == (final(self).seen()
                        == final(self).expected() && all_resolved(old(view)@))
                    &&& (r matches Ok(ReceiverStep::Continue)) == (final(self).seen()
                        < final(self).expected())
                    &&& (r is Err) == (final(self).seen() == final(self).expected() && !all_resolved(
                        old(view)@,
                    ))
                    &&& r is Err ==> r matches Err(ReceiveError::UnresolvedAtTeardown)
                },
            },
    {
        match msg {
            CrossShardMsg::RemoteTxnWriteMsg(write) => {
                let (state_key, value) = write.take();
                match view.set_value(&state_key, value) {
                    Ok(()) => Ok(ReceiverStep::Continue),
                    Err(e) => Err(ReceiveError::Overlay(e)),
                }
            },
            CrossShardMsg::StopMsg => {
                self.stops_seen = self.stops_seen + 1;
                if self.stops_seen < self.expected_stops {
                    Ok(ReceiverStep::Continue)
                } else if view.is_fully_resolved() {
                    Ok(ReceiverStep::Terminate)
                } else {
                    Err(ReceiveError::UnresolvedAtTeardown)
                }
            },
        }
    }
}

} // verus!
