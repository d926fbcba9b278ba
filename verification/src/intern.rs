use vstd::prelude::*;
use crate::ids::ItemLoc;

verus! {

/// `j` is the first position of `loc` in the table's backing list.
pub open spec fn loc_first(locs: Seq<ItemLoc>, loc: ItemLoc, j: int) -> bool {
    0 <= j < locs.len() && locs[j] == loc && forall|i: int| 0 <= i < j ==> (#[trigger] locs[i]) != loc
}

pub proof fn lemma_loc_first_unique(locs: Seq<ItemLoc>, loc: ItemLoc, j1: int, j2: int)
    requires
        loc_first(locs, loc, j1),
        loc_first(locs, loc, j2),
    ensures
        j1 == j2,
{
    if j1 < j2 {
        assert(locs[j1] != loc);
    }
    if j2 < j1 {
        assert(locs[j2] != loc);
    }
}

/// An interning table for one declaration kind: the dense identifier of a
/// structural key is its position in an append-only list, so the same key
/// always yields the same identifier for the lifetime of the table, and an
/// identifier once minted is never reused for a different key.
#[derive(Debug)]
pub struct InternTable {
    pub locs: Vec<ItemLoc>,
}

impl InternTable {
    /// No structural key occurs twice, so forward and reverse lookups agree.
    pub open spec fn wf(self) -> bool {
        forall|i: int, j: int|
            0 <= i < j < self.locs@.len() ==> (#[trigger] self.locs@[i]) != (#[trigger] self.locs@[j])
    }

    pub fn new() -> (r: InternTable)
        ensures
            r.wf(),
            r.locs@.len() == 0,
    {
        InternTable { locs: Vec::new() }
    }

    pub fn len(&self) -> (r: usize)
        ensures
            r == self.locs@.len(),
    {
        self.locs.len()
    }

    /// Mint or retrieve the stable identifier of a structural key: an existing
    /// key keeps its identifier and the table is untouched; a new key is
    /// appended and gets the next dense identifier.
    pub fn intern(&mut self, loc: ItemLoc) -> (id: usize)
        requires
            old(self).wf(),
        ensures
            final(self).wf(),
            id < final(self).locs@.len(),
            final(self).locs@[id as int] == loc,
            old(self).locs@.is_prefix_of(final(self).locs@),
            if exists|j: int| #[trigger] loc_first(old(self).locs@, loc, j) {
                final(self).locs@ == old(self).locs@ && loc_first(old(self).locs@, loc, id as int)
            } else {
                final(self).locs@ == old(self).locs@.push(loc) && id == old(self).locs@.len()
            },
    {
        let mut i: usize = 0;
        while i < self.locs.len()
            invariant
                0 <= i <= self.locs@.len(),
                self.locs@ == old(self).locs@,
                old(self).wf(),
                forall|k: int| 0 <= k < i ==> (#[trigger] self.locs@[k]) != loc,
            decreases self.locs@.len() - i,
        {
            if self.locs[i] == loc {
                proof {
                    assert(loc_first(self.locs@, loc, i as int));
                    assert(self.locs@.is_prefix_of(self.locs@));
                }
                return i;
            }
            i += 1;
        }
        let id = self.locs.len();
        self.locs.push(loc);
        proof {
            if exists|j: int| #[trigger] loc_first(old(self).locs@, loc, j) {
                let j = choose|j: int| #[trigger] loc_first(old(self).locs@, loc, j);
                assert(old(self).locs@[j] != loc);
            }
            assert(old(self).locs@.is_prefix_of(final(self).locs@));
        }
        id
    }

    /// The structural key an identifier was minted for. Succeeds for every
    /// identifier this table minted; an identifier from nowhere yields none.
    pub fn lookup(&self, id: usize) -> (r: Option<ItemLoc>)
        ensures
            r == if id < self.locs@.len() {
                Some(self.locs@[id as int])
            } else {
                None::<ItemLoc>
            },
    {
        if id < self.locs.len() {
            Some(self.locs[id])
        } else {
            None
        }
    }
}

/// Interning is idempotent: however the table grows in between, a key that is
/// already present keeps the identifier it was first given.
pub proof fn lemma_intern_stable(before: Seq<ItemLoc>, after: Seq<ItemLoc>, loc: ItemLoc, j: int)
    requires
        before.is_prefix_of(after),
        loc_first(before, loc, j),
    ensures
        loc_first(after, loc, j),
{
    assert forall|i: int| 0 <= i < j implies (#[trigger] after[i]) != loc by {
        assert(after[i] == before[i]);
    }
    assert(after[j] == before[j]);
}

} // verus!
