use vstd::prelude::*;

verus! {

/// The slot a key maps to: the key reduced modulo the table's capacity.
pub open spec fn spec_slot(key: u64, n: int) -> int {
    ((key as usize) as int) % n
}

/// A fixed-capacity, directly-mapped cache from a 64-bit position
/// fingerprint to a packed score bound.
///
/// The design is deliberately lossy: `insert` overwrites the slot a key maps
/// to unconditionally, and `get` reads a slot back without checking that the
/// stored key equals the query key. A collision therefore hands the search a
/// stale bound for the wrong position; the solver tolerates that by using
/// table values only to tighten its pruning window, never as ground truth.
pub struct TranspositionTable {
    items: Vec<(u64, u64)>,
}

impl View for TranspositionTable {
    type V = Seq<(u64, u64)>;

    /// A table is viewed as the sequence of its (key, value) slots.
    closed spec fn view(&self) -> Seq<(u64, u64)> {
        self.items@
    }
}

impl TranspositionTable {
    /// A table holds at least one slot, so that reducing a key modulo the
    /// capacity is always defined.
    pub open spec fn well_formed(self) -> bool {
        self@.len() >= 1
    }

    /// A fresh table of `size` zeroed slots.
    pub fn new(size: usize) -> (r: Self)
        requires
            size >= 1,
        ensures
            r.well_formed(),
            r@.len() == size,
            forall|i: int| 0 <= i < size ==> r@[i] == (0u64, 0u64),
    {
        let mut items: Vec<(u64, u64)> = Vec::new();
        while items.len() < size
            invariant
                items@.len() <= size,
                forall|i: int| 0 <= i < items@.len() ==> items@[i] == (0u64, 0u64),
            decreases size - items@.len(),
        {
            items.push((0u64, 0u64));
        }
        TranspositionTable { items }
    }

    /// The slot `key` maps to.
    pub fn index(&self, key: u64) -> (r: usize)
        requires
            self.well_formed(),
        ensures
            r == spec_slot(key, self@.len() as int),
            r < self@.len(),
    {
        (key as usize) % self.items.len()
    }

    /// Stores `val` for `key`, overwriting whatever the slot held before.
    pub fn insert(&mut self, key: u64, val: u64)
        requires
            old(self).well_formed(),
        ensures
            final(self).well_formed(),
            final(self)@ == old(self)@.update(spec_slot(key, old(self)@.len() as int), (key, val)),
    {
        let idx: usize = self.index(key);
        self.items[idx] = (key, val);
    }

    /// Reads back the value of the slot `key` maps to, with no check that
    /// the slot's stored key is `key`.
    pub fn get(&self, key: u64) -> (r: u64)
        requires
            self.well_formed(),
        ensures
            r == self@[spec_slot(key, self@.len() as int)].1,
    {
        let idx: usize = self.index(key);
        self.items[idx].1
    }

    /// Clears every slot; optional memory hygiene between games.
    pub fn reset(&mut self)
        requires
            old(self).well_formed(),
        ensures
            final(self).well_formed(),
            final(self)@.len() == old(self)@.len(),
            forall|i: int| 0 <= i < final(self)@.len() ==> final(self)@[i] == (0u64, 0u64),
    {
        let n: usize = self.items.len();
        let mut i: usize = 0;
        while i < n
            invariant
                n == self.items@.len(),
                i <= n,
                forall|j: int| 0 <= j < i ==> self.items@[j] == (0u64, 0u64),
            decreases n - i,
        {
            self.items[i] = (0u64, 0u64);
            i = i + 1;
        }
    }
}

} // verus!
