use vstd::prelude::*;

verus! {

/// Identifier of one shard of a round.
pub type ShardId = usize;

/// Position of a transaction, either within the whole block (global) or within
/// one shard's sub-block (local).
pub type TxnIndex = u32;

/// Canonical identifier of a versioned storage slot.
#[derive(Debug)]
pub struct StateKey {
    pub bytes: Vec<u8>,
}

impl View for StateKey {
    type V = Seq<u8>;

    open spec fn view(&self) -> Seq<u8> {
        self.bytes@
    }
}

/// Copies a byte string.
pub fn copy_bytes(b: &Vec<u8>) -> (r: Vec<u8>)
    ensures
        r@ == b@,
{
    let mut r: Vec<u8> = Vec::with_capacity(b.len());
    let mut i: usize = 0;
    while i < b.len()
        invariant
            i <= b.len(),
            r@ == b@.take(i as int),
        decreases b.len() - i,
    {
        r.push(b[i]);
        i = i + 1;
        assert(r@ =~= b@.take(i as int));
    }
    assert(b@.take(b.len() as int) =~= b@);
    r
}

/// Copies an optional byte string.
pub fn copy_value(v: &Option<Vec<u8>>) -> (r: Option<Vec<u8>>)
    ensures
        value_view(r) == value_view(*v),
{
    match v {
        Some(b) => Some(copy_bytes(b)),
        None => None,
    }
}

/// The mathematical content of an optional value.
pub open spec fn value_view(v: Option<Vec<u8>>) -> Option<Seq<u8>> {
    match v {
        Some(b) => Some(b@),
        None => None,
    }
}

impl StateKey {
    pub fn new(bytes: Vec<u8>) -> (r: StateKey)
        ensures
            r@ == bytes@,
    {
        StateKey { bytes }
    }

    /// Byte-wise equality of two keys.
    pub fn same_as(&self, other: &StateKey) -> (r: bool)
        ensures
            r == (self@ == other@),
    {
        if self.bytes.len() != other.bytes.len() {
            return false;
        }
        let mut i: usize = 0;
        while i < self.bytes.len()
            invariant
                i <= self.bytes.len(),
                self.bytes.len() == other.bytes.len(),
                forall|j: int| 0 <= j < i ==> self.bytes@[j] == other.bytes@[j],
            decreases self.bytes.len() - i,
        {
            if self.bytes[i] != other.bytes[i] {
                return false;
            }
            i = i + 1;
        }
        assert(self@ =~= other@);
        true
    }

    /// A key with the same bytes.
    pub fn duplicate(&self) -> (r: StateKey)
        ensures
            r@ == self@,
    {
        StateKey { bytes: copy_bytes(&self.bytes) }
    }
}

} // verus!
