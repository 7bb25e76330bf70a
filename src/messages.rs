use vstd::prelude::*;

use crate::types::{value_view, ShardId, StateKey};

verus! {

/// The value that a producer transaction left for a key, or `None` when it
/// wrote nothing there (or deleted it).
pub struct RemoteTxnWrite {
    pub state_key: StateKey,
    pub value: Option<Vec<u8>>,
}

impl View for RemoteTxnWrite {
    type V = (Seq<u8>, Option<Seq<u8>>);

    open spec fn view(&self) -> (Seq<u8>, Option<Seq<u8>>) {
        (self.state_key@, value_view(self.value))
    }
}

impl RemoteTxnWrite {
    pub fn new(state_key: StateKey, value: Option<Vec<u8>>) -> (r: RemoteTxnWrite)
        ensures
            r@ == (state_key@, value_view(value)),
    {
        RemoteTxnWrite { state_key, value }
    }

    pub fn take(self) -> (r: (StateKey, Option<Vec<u8>>))
        ensures
            r.0@ == self@.0,
            value_view(r.1) == self@.1,
    {
        (self.state_key, self.value)
    }
}

/// What travels from one shard to another.
pub enum CrossShardMsg {
    RemoteTxnWriteMsg(RemoteTxnWrite),
    /// The sending shard has finished its round.
    StopMsg,
}

/// A message together with the shard it goes to.
pub struct OutboundMessage {
    pub dest: ShardId,
    pub write: RemoteTxnWrite,
}

impl View for OutboundMessage {
    type V = (ShardId, Seq<u8>, Option<Seq<u8>>);

    open spec fn view(&self) -> (ShardId, Seq<u8>, Option<Seq<u8>>) {
        (self.dest, self.write@.0, self.write@.1)
    }
}

/// One entry of a committed write set: the new value of a key, or `None`
/// for a deletion.
pub struct WriteEntry {
    pub state_key: StateKey,
    pub value: Option<Vec<u8>>,
}

impl View for WriteEntry {
    type V = (Seq<u8>, Option<Seq<u8>>);

    open spec fn view(&self) -> (Seq<u8>, Option<Seq<u8>>) {
        (self.state_key@, value_view(self.value))
    }
}

/// How a transaction ended, as the in-shard executor reports it at commit.
pub enum TransactionOutcome {
    Success(Vec<WriteEntry>),
    /// The transaction committed and the rest of the block is skipped.
    SkipRest(Vec<WriteEntry>),
    Abort,
}

/// The final value that a write set gives `k`: its last entry for `k`, or
/// `None` when no entry names `k`.
pub open spec fn written_value(ws: Seq<WriteEntry>, k: Seq<u8>) -> Option<Seq<u8>>
    decreases ws.len(),
{
    if ws.len() == 0 {
        None
    } else if ws.last()@.0 == k {
        ws.last()@.1
    } else {
        written_value(ws.drop_last(), k)
    }
}

/// The value that an outcome forwards for `k`: an aborted transaction wrote
/// nothing.
pub open spec fn committed_value(outcome: TransactionOutcome, k: Seq<u8>) -> Option<Seq<u8>> {
    match outcome {
        TransactionOutcome::Success(ws) => written_value(ws@, k),
        TransactionOutcome::SkipRest(ws) => written_value(ws@, k),
        TransactionOutcome::Abort => None,
    }
}

} // verus!
