//! The registry of songs that have been claimed.
//!
//! A song is claimed when it is handed out for scanning, not when its scan
//! ends: a second listing of the same song, met while the first scan is still
//! under way, finds the claim and is passed over. A claim is never given back.

use std::collections::HashSet;
use vstd::prelude::*;

verus! {

broadcast use vstd::std_specs::hash::group_hash_axioms;

/// What a claim of `id` does to the set `seen` of claimed ids: the id joins
/// the set, and the claim succeeds exactly if the id was not in it.
pub open spec fn claim(seen: Set<usize>, id: usize) -> (Set<usize>, bool) {
    (seen.insert(id), !seen.contains(id))
}

/// The set of song ids that have been claimed.
#[derive(Debug)]
pub struct SeenSet {
    ids: HashSet<usize>,
}

impl View for SeenSet {
    type V = Set<usize>;

    closed spec fn view(&self) -> Set<usize> {
        self.ids@
    }
}

impl SeenSet {
    /// Only finitely many ids are ever claimed.
    #[verifier::type_invariant]
    spec fn is_finite(self) -> bool {
        self.ids@.finite()
    }

    /// Creates the registry, with nothing claimed.
    pub fn new() -> (seen: SeenSet)
        ensures
            seen@ == Set::<usize>::empty(),
    {
        SeenSet { ids: HashSet::new() }
    }

    /// Claims `id`. Returns `true` if the id had not been claimed before,
    /// and `false` if it had; either way it is claimed afterwards. The check
    /// and the entry are one step: the registry is borrowed exclusively for
    /// the call, so no other claim can come between them.
    pub fn try_claim(&mut self, id: usize) -> (claimed: bool)
        ensures
            (final(self)@, claimed) == claim(old(self)@, id),
            final(self)@.finite(),
    {
        proof {
            use_type_invariant(&*self);
        }
        let mut ids = HashSet::new();
        std::mem::swap(&mut self.ids, &mut ids);
        let claimed = ids.insert(id);
        self.ids = ids;
        claimed
    }

    /// Whether `id` has been claimed.
    pub fn contains(&self, id: usize) -> (claimed: bool)
        ensures
            claimed == self@.contains(id),
    {
        self.ids.contains(&id)
    }

    /// The number of ids that have been claimed.
    pub fn len(&self) -> (count: usize)
        ensures
            count == self@.len(),
            self@.finite(),
    {
        proof {
            use_type_invariant(self);
        }
        self.ids.len()
    }

    /// Whether nothing has been claimed yet.
    pub fn is_empty(&self) -> (empty: bool)
        ensures
            empty == (self@ == Set::<usize>::empty()),
    {
        let empty = self.ids.is_empty();
        assert(self@.is_empty() == (self@ =~= Set::<usize>::empty()));
        empty
    }
}

/// Of two claims of the same id, made one after the other in either order,
/// the first succeeds exactly if the id had not been claimed before, and the
/// second fails. So an id that was free is won by exactly one of them, and
/// never by both.
pub proof fn lemma_second_claim_fails(seen: Set<usize>, id: usize)
    ensures
        claim(seen, id).1 == !seen.contains(id),
        claim(claim(seen, id).0, id).1 == false,
        claim(claim(seen, id).0, id).0 == claim(seen, id).0,
        !seen.contains(id) ==> (claim(seen, id).1 != claim(claim(seen, id).0, id).1),
{
    assert(seen.insert(id).insert(id) =~= seen.insert(id));
}

/// A claim never frees an id: what was claimed before stays claimed, and the
/// claimed id is claimed afterwards.
pub proof fn lemma_claims_are_kept(seen: Set<usize>, id: usize)
    ensures
        seen.subset_of(claim(seen, id).0),
        claim(seen, id).0.contains(id),
{
}

} // verus!
