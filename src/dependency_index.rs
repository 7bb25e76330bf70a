use vstd::prelude::*;

use crate::types::{ShardId, StateKey, TxnIndex};

verus! {

/// One planner annotation: the consumer shard that will read `state_key`
/// from the annotated transaction's write.
pub struct CrossShardEdge {
    pub shard_id: ShardId,
    pub state_key: StateKey,
}

impl View for CrossShardEdge {
    type V = (Seq<u8>, ShardId);

    open spec fn view(&self) -> (Seq<u8>, ShardId) {
        (self.state_key@, self.shard_id)
    }
}

impl CrossShardEdge {
    pub fn new(shard_id: ShardId, state_key: StateKey) -> (r: CrossShardEdge)
        ensures
            r@ == (state_key@, shard_id),
    {
        CrossShardEdge { shard_id, state_key }
    }

    pub fn duplicate(&self) -> (r: CrossShardEdge)
        ensures
            r@ == self@,
    {
        CrossShardEdge { shard_id: self.shard_id, state_key: self.state_key.duplicate() }
    }

    pub fn same_as(&self, other: &CrossShardEdge) -> (r: bool)
        ensures
            r == (self@ == other@),
    {
        self.shard_id == other.shard_id && self.state_key.same_as(&other.state_key)
    }
}

/// A transaction of a shard's sub-block with the cross-shard edges that the
/// planner declared on it, possibly with repetitions.
pub struct TransactionWithDependencies {
    pub dependent_edges: Vec<CrossShardEdge>,
}

/// The part of a block that one shard executes: its transactions in order,
/// the first of which has global index `start_index`.
pub struct SubBlock {
    pub start_index: TxnIndex,
    pub transactions: Vec<TransactionWithDependencies>,
}

/// The set of (key, consumer shard) pairs that a list of edges declares.
pub open spec fn edge_set(edges: Seq<CrossShardEdge>) -> Set<(Seq<u8>, ShardId)> {
    Set::new(|p: (Seq<u8>, ShardId)| exists|j: int| 0 <= j < edges.len() && edges[j]@ == p)
}

/// Global indices of a sub-block fit in a transaction index.
pub open spec fn sub_block_fits(b: SubBlock) -> bool {
    b.start_index as int + b.transactions.len() <= TxnIndex::MAX as int + 1
}

/// The dependency index that a sub-block declares: each global index of a
/// transaction with at least one declared edge, mapped to its deduplicated
/// (key, consumer shard) pairs.
pub open spec fn declared_index(b: SubBlock) -> Map<int, Set<(Seq<u8>, ShardId)>> {
    Map::new(
        |g: int|
            b.start_index <= g < b.start_index + b.transactions.len()
                && b.transactions[g - b.start_index].dependent_edges.len() > 0,
        |g: int| edge_set(b.transactions[g - b.start_index].dependent_edges@),
    )
}

/// Map from a producing global transaction index to the state keys it must
/// forward and the shards that consume each of them; only transactions with a
/// declared edge have an entry. Stored as one list per local position (empty,
/// and unallocated, for most), so that a lookup is a single index operation.
/// Built once per round and read-only afterwards.
pub struct DependencyIndex {
    index_offset: TxnIndex,
    /// For each local position, its pairs without repetition.
    edges_by_txn: Vec<Vec<CrossShardEdge>>,
}

impl View for DependencyIndex {
    type V = Map<int, Set<(Seq<u8>, ShardId)>>;

    closed spec fn view(&self) -> Map<int, Set<(Seq<u8>, ShardId)>> {
        Map::new(
            |g: int|
                self.index_offset <= g < self.index_offset + self.edges_by_txn.len()
                    && self.edges_by_txn[g - self.index_offset].len() > 0,
            |g: int| edge_set(self.edges_by_txn[g - self.index_offset]@),
        )
    }
}

/// No two entries of `edges` declare the same pair.
pub open spec fn distinct_edges(edges: Seq<CrossShardEdge>) -> bool {
    forall|i: int, j: int| 0 <= i < j < edges.len() ==> edges[i]@ != edges[j]@
}

fn contains_edge(edges: &Vec<CrossShardEdge>, e: &CrossShardEdge) -> (r: bool)
    ensures
        r == edge_set(edges@).contains(e@),
{
    let mut i: usize = 0;
    while i < edges.len()
        invariant
            i <= edges.len(),
            forall|j: int| 0 <= j < i ==> edges@[j]@ != e@,
        decreases edges.len() - i,
    {
        if edges[i].same_as(e) {
            assert(edges@[i as int]@ == e@);
            return true;
        }
        i = i + 1;
    }
    false
}

/// The declared pairs of one transaction, without repetition.
fn dedup_edges(declared: &Vec<CrossShardEdge>) -> (r: Vec<CrossShardEdge>)
    ensures
        edge_set(r@) == edge_set(declared@),
        distinct_edges(r@),
        r.len() > 0 <==> declared.len() > 0,
{
    let mut out: Vec<CrossShardEdge> = Vec::new();
    let mut i: usize = 0;
    while i < declared.len()
        invariant
            i <= declared.len(),
            edge_set(out@) == edge_set(declared@.take(i as int)),
            distinct_edges(out@),
            out.len() > 0 <==> i > 0,
        decreases declared.len() - i,
    {
        let e = &declared[i];
        let ghost before = out@;
        if !contains_edge(&out, e) {
            out.push(e.duplicate());
            assert(out@[before.len() as int]@ == e@);
        }
        assert(edge_set(out@) =~= edge_set(declared@.take(i + 1))) by {
            assert forall|p: (Seq<u8>, ShardId)| edge_set(out@).contains(p) implies edge_set(
                declared@.take(i + 1),
            ).contains(p) by {
                let j = choose|j: int| 0 <= j < out@.len() && (#[trigger] out@[j])@ == p;
                if j < before.len() {
                    assert(edge_set(before).contains(p));
                    let k = choose|k: int| 0 <= k < i && (#[trigger] declared@.take(i as int)[k])@ == p;
                    assert(declared@.take(i + 1)[k]@ == p);
                } else {
                    assert(declared@.take(i + 1)[i as int]@ == p);
                }
            }
            assert forall|p: (Seq<u8>, ShardId)| edge_set(declared@.take(i + 1)).contains(
                p,
            ) implies edge_set(out@).contains(p) by {
                let k = choose|k: int| 0 <= k < i + 1 && (#[trigger] declared@.take(i + 1)[k])@ == p;
                if k < i {
                    assert(declared@.take(i as int)[k]@ == p);
                    assert(edge_set(before).contains(p));
                    let j = choose|j: int| 0 <= j < before.len() && (#[trigger] before[j])@ == p;
                    assert(out@[j]@ == p);
                } else {
                    assert(e@ == p);
                    if edge_set(before).contains(p) {
                        let j = choose|j: int| 0 <= j < before.len() && (#[trigger] before[j])@ == p;
                        assert(out@[j]@ == p);
                    } else {
                        assert(out@[before.len() as int]@ == p);
                    }
                }
            }
        }
        i = i + 1;
    }
    assert(declared@.take(declared.len() as int) =~= declared@);
    out
}

impl DependencyIndex {
    /// Builds the index of a sub-block. Only transactions with at least one
    /// declared edge get an entry, keyed by their global index; repeated
    /// declarations collapse into one pair.
    pub fn build(sub_block: &SubBlock) -> (r: DependencyIndex)
        requires
            sub_block_fits(*sub_block),
        ensures
            r@ == declared_index(*sub_block),
            r.wf(),
            r.offset() == sub_block.start_index,
    {
        let n = sub_block.transactions.len();
        let mut edges_by_txn: Vec<Vec<CrossShardEdge>> = Vec::with_capacity(n);
        let mut i: usize = 0;
        while i < n
            invariant
                n == sub_block.transactions.len(),
                i <= n,
                edges_by_txn.len() == i,
                forall|j: int|
                    0 <= j < i ==> {
                        &&& edge_set(#[trigger] edges_by_txn@[j]@) == edge_set(
                            sub_block.transactions@[j].dependent_edges@,
                        )
                        &&& distinct_edges(edges_by_txn@[j]@)
                        &&& edges_by_txn@[j].len() > 0
                            <==> sub_block.transactions@[j].dependent_edges.len() > 0
                    },
            decreases n - i,
        {
            let deduped = dedup_edges(&sub_block.transactions[i].dependent_edges);
            edges_by_txn.push(deduped);
            i = i + 1;
        }
        let r = DependencyIndex { index_offset: sub_block.start_index, edges_by_txn };
        assert(r@ =~= declared_index(*sub_block));
        r
    }

    /// Every stored list of pairs is free of repetitions and the global
    /// indices fit.
    pub closed spec fn wf(&self) -> bool {
        &&& self.index_offset as int + self.edges_by_txn.len() <= TxnIndex::MAX as int + 1
        &&& forall|j: int|
            0 <= j < self.edges_by_txn.len() ==> distinct_edges(#[trigger] self.edges_by_txn@[j]@)
    }

    /// Every global index with an entry is a transaction index.
    pub proof fn lemma_domain_fits(&self)
        requires
            self.wf(),
        ensures
            forall|g: int| #[trigger] self@.contains_key(g) ==> 0 <= g <= TxnIndex::MAX,
    {
    }

    pub closed spec fn offset(&self) -> TxnIndex {
        self.index_offset
    }

    pub fn index_offset(&self) -> (r: TxnIndex)
        ensures
            r == self.offset(),
    {
        self.index_offset
    }

    /// Whether the transaction at global index `g` forwards any write.
    pub fn has_dependents(&self, g: TxnIndex) -> (r: bool)
        ensures
            r == self@.contains_key(g as int),
    {
        g >= self.index_offset && ((g - self.index_offset) as usize) < self.edges_by_txn.len()
            && self.edges_by_txn[(g - self.index_offset) as usize].len() > 0
    }

    /// The pairs of the transaction at global index `g`, each once, or `None`
    /// when it has no entry.
    pub fn dependents_of(&self, g: TxnIndex) -> (r: Option<&Vec<CrossShardEdge>>)
        requires
            self.wf(),
        ensures
            r.is_some() == self@.contains_key(g as int),
            r matches Some(es) ==> edge_set(es@) == self@[g as int] && distinct_edges(es@),
    {
        if self.has_dependents(g) {
            Some(&self.edges_by_txn[(g - self.index_offset) as usize])
        } else {
            None
        }
    }
}

} // verus!
