//! Cross-shard synchronization for a sharded parallel transaction executor.
//!
//! Each shard builds, once per round, an index of which of its committing
//! transactions feed state keys to which other shards. On every commit the
//! sender turns that index into remote-write messages; the receiver of the
//! consuming shard publishes them into a tri-state overlay that local readers
//! consult before falling back to local storage.

pub mod cross_shard_client;
pub mod cross_shard_state_view;
pub mod dependency_index;
pub mod guarantees;
pub mod messages;
pub mod types;

pub use cross_shard_client::{
    CrossShardCommitReceiver, CrossShardCommitSender, ReceiveError, ReceiverStep,
};
pub use cross_shard_state_view::{CellStatus, CrossShardStateView, OverlayError, ReadOutcome};
pub use dependency_index::{CrossShardEdge, DependencyIndex, SubBlock, TransactionWithDependencies};
pub use messages::{CrossShardMsg, OutboundMessage, RemoteTxnWrite, TransactionOutcome, WriteEntry};
pub use types::{ShardId, StateKey, TxnIndex};
