use vstd::prelude::*;

use crate::types::{copy_bytes, value_view, StateKey};

verus! {

/// What is known of one externally sourced key.
pub enum CellStatus {
    Unresolved,
    ResolvedPresent(Vec<u8>),
    ResolvedAbsent,
}

impl CellStatus {
    pub fn is_unresolved(&self) -> (r: bool)
        ensures
            r == (self is Unresolved),
    {
        match self {
            CellStatus::Unresolved => true,
            _ => false,
        }
    }
}

/// The mathematical content of a cell.
pub enum CellView {
    Unresolved,
    Present(Seq<u8>),
    Absent,
}

impl View for CellStatus {
    type V = CellView;

    open spec fn view(&self) -> CellView {
        match self {
            CellStatus::Unresolved => CellView::Unresolved,
            CellStatus::ResolvedPresent(v) => CellView::Present(v@),
            CellStatus::ResolvedAbsent => CellView::Absent,
        }
    }
}

/// The cell that a received value resolves to.
pub open spec fn resolved_cell(v: Option<Seq<u8>>) -> CellView {
    match v {
        Some(b) => CellView::Present(b),
        None => CellView::Absent,
    }
}

/// What a read of a key finds in the overlay.
pub enum ReadOutcome {
    /// The key is not sourced from another shard: read local storage.
    NotOverlaid,
    /// The cell is resolved: the value, or `None` for a confirmed absence.
    Resolved(Option<Vec<u8>>),
    /// The cell is unresolved: the reader waits until it is published.
    Pending,
}

/// The mathematical content of a read.
pub enum ReadView {
    NotOverlaid,
    Resolved(Option<Seq<u8>>),
    Pending,
}

impl View for ReadOutcome {
    type V = ReadView;

    open spec fn view(&self) -> ReadView {
        match self {
            ReadOutcome::NotOverlaid => ReadView::NotOverlaid,
            ReadOutcome::Resolved(v) => ReadView::Resolved(value_view(*v)),
            ReadOutcome::Pending => ReadView::Pending,
        }
    }
}

/// What a read of `k` finds in an overlay whose cells are `m`.
pub open spec fn read_of(m: Map<Seq<u8>, CellView>, k: Seq<u8>) -> ReadView {
    if !m.contains_key(k) {
        ReadView::NotOverlaid
    } else {
        match m[k] {
            CellView::Unresolved => ReadView::Pending,
            CellView::Present(b) => ReadView::Resolved(Some(b)),
            CellView::Absent => ReadView::Resolved(None),
        }
    }
}

/// Whether publishing a value for `k` is accepted: the key is overlaid and
/// its cell still unresolved.
pub open spec fn can_resolve(m: Map<Seq<u8>, CellView>, k: Seq<u8>) -> bool {
    m.contains_key(k) && m[k] is Unresolved
}

/// The cells after publishing `v` for `k`; a refused publication changes
/// nothing.
pub open spec fn publish(m: Map<Seq<u8>, CellView>, k: Seq<u8>, v: Option<Seq<u8>>) -> Map<
    Seq<u8>,
    CellView,
> {
    if can_resolve(m, k) {
        m.insert(k, resolved_cell(v))
    } else {
        m
    }
}

/// Every overlaid key has been resolved.
pub open spec fn all_resolved(m: Map<Seq<u8>, CellView>) -> bool {
    forall|k: Seq<u8>| m.contains_key(k) ==> !(#[trigger] m[k] is Unresolved)
}

/// Why a publication was refused.
#[derive(Debug)]
pub enum OverlayError {
    /// The key is not one this shard waits on.
    UnknownKey,
    /// The cell was already resolved; a key is written at most once a round.
    AlreadyResolved,
}

pub struct OverlayCell {
    pub state_key: StateKey,
    pub status: CellStatus,
}

/// The overlay in front of a shard's local storage: one cell for each key that
/// this round reads from another shard.
pub struct CrossShardStateView {
    cells: Vec<OverlayCell>,
}

/// The keys that a list holds.
pub open spec fn key_set(keys: Seq<StateKey>) -> Set<Seq<u8>> {
    Set::new(|k: Seq<u8>| exists|i: int| 0 <= i < keys.len() && keys[i]@ == k)
}

/// No two cells hold the same key.
pub open spec fn distinct_keys(cells: Seq<OverlayCell>) -> bool {
    forall|i: int, j: int| 0 <= i < j < cells.len() ==> cells[i].state_key@ != cells[j].state_key@
}

impl View for CrossShardStateView {
    type V = Map<Seq<u8>, CellView>;

    closed spec fn view(&self) -> Map<Seq<u8>, CellView> {
        Map::new(
            |k: Seq<u8>| exists|i: int| 0 <= i < self.cells.len() && self.cells@[i].state_key@ == k,
            |k: Seq<u8>|
                {
                    let i = choose|i: int|
                        0 <= i < self.cells.len() && (#[trigger] self.cells@[i]).state_key@ == k;
                    self.cells@[i].status@
                },
        )
    }
}

impl CrossShardStateView {
    pub closed spec fn wf(&self) -> bool {
        distinct_keys(self.cells@)
    }

    proof fn lemma_cell_at(&self, i: int)
        requires
            self.wf(),
            0 <= i < self.cells.len(),
        ensures
            self@.contains_key(self.cells@[i].state_key@),
            self@[self.cells@[i].state_key@] == self.cells@[i].status@,
    {
        let k = self.cells@[i].state_key@;
        assert(self@.contains_key(k));
        let j = choose|j: int| 0 <= j < self.cells.len() && (#[trigger] self.cells@[j]).state_key@ == k;
        if j < i {
            assert(self.cells@[j].state_key@ != self.cells@[i].state_key@);
        } else if i < j {
            assert(self.cells@[i].state_key@ != self.cells@[j].state_key@);
        }
    }

    /// Position of the cell of `key`, if any.
    fn find(&self, key: &StateKey) -> (r: Option<usize>)
        requires
            self.wf(),
        ensures
            r.is_some() == self@.contains_key(key@),
            r matches Some(i) ==> i < self.cells.len() && self.cells@[i as int].state_key@ == key@
                && self@[key@] == self.cells@[i as int].status@,
    {
        let mut i: usize = 0;
        while i < self.cells.len()
            invariant
                self.wf(),
                i <= self.cells.len(),
                forall|j: int| 0 <= j < i ==> (#[trigger] self.cells@[j]).state_key@ != key@,
            decreases self.cells.len() - i,
        {
            if self.cells[i].state_key.same_as(key) {
                proof {
                    self.lemma_cell_at(i as int);
                }
                return Some(i);
            }
            i = i + 1;
        }
        assert(!self@.contains_key(key@));
        None
    }

    /// An overlay that waits on each of `keys`, all unresolved.
    pub fn new(keys: &Vec<StateKey>) -> (r: CrossShardStateView)
        ensures
            r.wf(),
            r@.dom() == key_set(keys@),
            forall|k: Seq<u8>| #[trigger] r@.contains_key(k) ==> r@[k] is Unresolved,
    {
        let mut view = CrossShardStateView { cells: Vec::new() };
        let mut i: usize = 0;
        assert(view@.dom() =~= key_set(keys@.take(0)));
        while i < keys.len()
            invariant
                i <= keys.len(),
                view.wf(),
                view@.dom() == key_set(keys@.take(i as int)),
                forall|k: Seq<u8>| #[trigger] view@.contains_key(k) ==> view@[k] is Unresolved,
            decreases keys.len() - i,
        {
            let key = &keys[i];
            let ghost old_view = view@;
            let ghost old_cells = view.cells@;
            if view.find(key).is_none() {
                view.cells.push(OverlayCell { state_key: key.duplicate(), status: CellStatus::Unresolved });
                assert(view@ =~= old_view.insert(key@, CellView::Unresolved)) by {
                    assert forall|k: Seq<u8>| #[trigger] view@.contains_key(k) implies old_view.insert(
                        key@,
                        CellView::Unresolved,
                    ).contains_key(k) && view@[k] == old_view.insert(key@, CellView::Unresolved)[k] by {
                        let j = choose|j: int|
                            0 <= j < view.cells.len() && (#[trigger] view.cells@[j]).state_key@ == k;
                        if j < old_cells.len() {
                            assert(old_cells[j].state_key@ == k);
                        }
                    }
                    assert forall|k: Seq<u8>| old_view.insert(
                        key@,
                        CellView::Unresolved,
                    ).contains_key(k) implies #[trigger] view@.contains_key(k) by {
                        if k == key@ {
                            assert(view.cells@[old_cells.len() as int].state_key@ == k);
                        } else {
                            let j = choose|j: int|
                                0 <= j < old_cells.len() && (#[trigger] old_cells[j]).state_key@ == k;
                            assert(view.cells@[j].state_key@ == k);
                        }
                    }
                }
            }
            assert(key_set(keys@.take(i + 1)) =~= key_set(keys@.take(i as int)).insert(key@)) by {
                assert forall|x: Seq<u8>| key_set(keys@.take(i + 1)).contains(x) implies key_set(
                    keys@.take(i as int),
                ).insert(key@).contains(x) by {
                    let j = choose|j: int| 0 <= j < i + 1 && (#[trigger] keys@.take(i + 1)[j])@ == x;
                    if j < i {
                        assert(keys@.take(i as int)[j]@ == x);
                    }
                }
                assert forall|x: Seq<u8>| key_set(keys@.take(i as int)).insert(key@).contains(x) implies key_set(
                    keys@.take(i + 1),
                ).contains(x) by {
                    if x == key@ {
                        assert(keys@.take(i + 1)[i as int]@ == x);
                    } else {
                        let j = choose|j: int| 0 <= j < i && (#[trigger] keys@.take(i as int)[j])@ == x;
                        assert(keys@.take(i + 1)[j]@ == x);
                    }
                }
            }
            i = i + 1;
        }
        assert(keys@.take(keys.len() as int) =~= keys@);
        view
    }

    /// What a read of `key` finds now.
    pub fn read(&self, key: &StateKey) -> (r: ReadOutcome)
        requires
            self.wf(),
        ensures
            r@ == read_of(self@, key@),
    {
        match self.find(key) {
            None => ReadOutcome::NotOverlaid,
            Some(i) => match &self.cells[i].status {
                CellStatus::Unresolved => ReadOutcome::Pending,
                CellStatus::ResolvedPresent(v) => ReadOutcome::Resolved(Some(copy_bytes(v))),
                CellStatus::ResolvedAbsent => ReadOutcome::Resolved(None),
            },
        }
    }

    /// Publishes `value` for `key`: the first publication resolves the cell to
    /// present or absent; publishing an unknown key or a resolved cell is
    /// refused and changes nothing.
    pub fn set_value(&mut self, key: &StateKey, value: Option<Vec<u8>>) -> (r: Result<
        (),
        OverlayError,
    >)
        requires
            old(self).wf(),
        ensures
            final(self).wf(),
            final(self)@ == publish(old(self)@, key@, value_view(value)),
            r is Ok <==> can_resolve(old(self)@, key@),
            r matches Err(OverlayError::UnknownKey) <==> !old(self)@.contains_key(key@),
    {
        match self.find(key) {
            None => Err(OverlayError::UnknownKey),
            Some(i) => {
                if !self.cells[i].status.is_unresolved() {
                    return Err(OverlayError::AlreadyResolved);
                }
                let ghost old_view = self@;
                let ghost old_cells = self.cells@;
                let status = match value {
                    Some(v) => CellStatus::ResolvedPresent(v),
                    None => CellStatus::ResolvedAbsent,
                };
                let state_key = self.cells[i].state_key.duplicate();
                self.cells.set(i, OverlayCell { state_key, status });
                proof {
                    let target = old_view.insert(key@, resolved_cell(value_view(value)));
                    assert(distinct_keys(self.cells@)) by {
                        assert forall|a: int, b: int| 0 <= a < b < self.cells.len() implies
                            self.cells@[a].state_key@ != self.cells@[b].state_key@ by {
                            assert(old_cells[a].state_key@ == self.cells@[a].state_key@);
                            assert(old_cells[b].state_key@ == self.cells@[b].state_key@);
                        }
                    }
                    assert forall|k: Seq<u8>| #[trigger] self@.contains_key(k) implies target.contains_key(k)
                        && self@[k] == target[k] by {
                        let j = choose|j: int|
                            0 <= j < self.cells.len() && (#[trigger] self.cells@[j]).state_key@ == k;
                        assert(old_cells[j].state_key@ == k);
                        if j != i {
                            assert(k != key@);
                        }
                    }
                    assert forall|k: Seq<u8>| target.contains_key(k) implies #[trigger] self@.contains_key(
                        k,
                    ) by {
                        let j = choose|j: int|
                            0 <= j < old_cells.len() && (#[trigger] old_cells[j]).state_key@ == k;
                        assert(self.cells@[j].state_key@ == k);
                    }
                    assert(self@ =~= target);
                }
                Ok(())
            },
        }
    }

    /// Whether every overlaid key has been resolved.
    pub fn is_fully_resolved(&self) -> (r: bool)
        requires
            self.wf(),
        ensures
            r == all_resolved(self@),
    {
        let mut i: usize = 0;
        while i < self.cells.len()
            invariant
                self.wf(),
                i <= self.cells.len(),
                forall|j: int| 0 <= j < i ==> !((#[trigger] self.cells@[j]).status is Unresolved),
            decreases self.cells.len() - i,
        {
            if self.cells[i].status.is_unresolved() {
                proof {
                    self.lemma_cell_at(i as int);
                }
                return false;
            }
            i = i + 1;
        }
        assert forall|k: Seq<u8>| self@.contains_key(k) implies !(#[trigger] self@[k] is Unresolved) by {
            let j = choose|j: int|
                0 <= j < self.cells.len() && (#[trigger] self.cells@[j]).state_key@ == k;
            self.lemma_cell_at(j);
        }
        true
    }
}

} // verus!
