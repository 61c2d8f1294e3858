//! Identity resolver: a bidirectional mapping between transient entity ids
//! and stable character ids. Later binds overwrite earlier ones in both
//! directions, because a character's entity binding migrates across zone
//! loads. Lookups of unknown ids resolve to absence, never to an error.

use vstd::prelude::*;

verus! {

/// Bidirectional id map, stored as (character id, entity id) pairs in
/// which each character id and each entity id occurs at most once.
pub struct IdTracker {
    pub pairs: Vec<(u64, u64)>,
}

impl IdTracker {
    /// Both columns of the pair list are duplicate-free, so each character
    /// id resolves to at most one entity id and conversely.
    pub open spec fn wf(self) -> bool {
        forall|i: int, j: int|
            0 <= i < j < self.pairs@.len()
                ==> (#[trigger] self.pairs@[i]).0 != (#[trigger] self.pairs@[j]).0
                && self.pairs@[i].1 != self.pairs@[j].1
    }

    /// Whether the tracker currently binds `character_id` to `entity_id`.
    pub open spec fn has_pair(self, character_id: u64, entity_id: u64) -> bool {
        exists|i: int|
            0 <= i < self.pairs@.len() && #[trigger] self.pairs@[i] == (character_id, entity_id)
    }

    /// Number of bindings currently held.
    pub open spec fn spec_len(self) -> nat {
        self.pairs@.len()
    }

    pub fn new() -> (r: IdTracker)
        ensures
            r.wf(),
            forall|c: u64, e: u64| !r.has_pair(c, e),
    {
        IdTracker { pairs: Vec::new() }
    }

    /// Forget every binding; used on a full session reset.
    pub fn clear(&mut self)
        ensures
            final(self).wf(),
            forall|c: u64, e: u64| !final(self).has_pair(c, e),
    {
        self.pairs.clear();
    }

    /// Index of the pair whose character id is `character_id`, if any.
    fn find_by_character(&self, character_id: u64) -> (r: Option<usize>)
        ensures
            match r {
                Some(i) => i < self.pairs@.len() && self.pairs@[i as int].0 == character_id,
                None => forall|i: int|
                    0 <= i < self.pairs@.len() ==> (#[trigger] self.pairs@[i]).0 != character_id,
            },
    {
        let n = self.pairs.len();
        let mut i: usize = 0;
        while i < n
            invariant
                n == self.pairs@.len(),
                0 <= i <= n,
                forall|k: int| 0 <= k < i ==> (#[trigger] self.pairs@[k]).0 != character_id,
            decreases n - i,
        {
            if self.pairs[i].0 == character_id {
                return Some(i);
            }
            i = i + 1;
        }
        None
    }

    /// Index of the pair whose entity id is `entity_id`, if any.
    fn find_by_entity(&self, entity_id: u64) -> (r: Option<usize>)
        ensures
            match r {
                Some(i) => i < self.pairs@.len() && self.pairs@[i as int].1 == entity_id,
                None => forall|i: int|
                    0 <= i < self.pairs@.len() ==> (#[trigger] self.pairs@[i]).1 != entity_id,
            },
    {
        let n = self.pairs.len();
        let mut i: usize = 0;
        while i < n
            invariant
                n == self.pairs@.len(),
                0 <= i <= n,
                forall|k: int| 0 <= k < i ==> (#[trigger] self.pairs@[k]).1 != entity_id,
            decreases n - i,
        {
            if self.pairs[i].1 == entity_id {
                return Some(i);
            }
            i = i + 1;
        }
        None
    }

    /// Bind `character_id` to `entity_id`, displacing any earlier binding
    /// of either id: the most recent bind wins.
    pub fn bind(&mut self, character_id: u64, entity_id: u64)
        requires
            old(self).wf(),
        ensures
            final(self).wf(),
            final(self).has_pair(character_id, entity_id),
            forall|c: u64, e: u64|
                old(self).has_pair(c, e) && c != character_id && e != entity_id
                    ==> final(self).has_pair(c, e),
            forall|c: u64, e: u64|
                final(self).has_pair(c, e)
                    ==> ((c == character_id && e == entity_id)
                        || (old(self).has_pair(c, e) && c != character_id && e != entity_id)),
    {
        let ghost s0 = self.pairs@;
        let n = self.pairs.len();
        let mut kept: Vec<(u64, u64)> = Vec::new();
        let mut i: usize = 0;
        while i < n
            invariant
                n == s0.len(),
                self.pairs@ == s0,
                old(self).pairs@ == s0,
                old(self).wf(),
                0 <= i <= n,
                forall|k: int|
                    0 <= k < kept@.len() ==> exists|j: int|
                        0 <= j < i && #[trigger] kept@[k] == s0[j],
                forall|k: int|
                    0 <= k < kept@.len()
                        ==> (#[trigger] kept@[k]).0 != character_id && kept@[k].1 != entity_id,
                forall|j: int|
                    0 <= j < i && (#[trigger] s0[j]).0 != character_id && s0[j].1 != entity_id
                        ==> exists|k: int| 0 <= k < kept@.len() && #[trigger] kept@[k] == s0[j],
                forall|k1: int, k2: int|
                    0 <= k1 < k2 < kept@.len()
                        ==> (#[trigger] kept@[k1]).0 != (#[trigger] kept@[k2]).0
                        && kept@[k1].1 != kept@[k2].1,
            decreases n - i,
        {
            let ghost kprev = kept@;
            let p = self.pairs[i];
            if p.0 != character_id && p.1 != entity_id {
                kept.push(p);
                proof {
                    assert(kept@[kept@.len() - 1] == s0[i as int]);
                    assert forall|k: int| 0 <= k < kept@.len() - 1 implies
                        (#[trigger] kept@[k]).0 != s0[i as int].0
                        && kept@[k].1 != s0[i as int].1 by {
                        assert(kept@[k] == kprev[k]);
                        let j = choose|j: int| 0 <= j < i && kprev[k] == s0[j];
                        assert(old(self).pairs@[j].0 != old(self).pairs@[i as int].0);
                    }
                    assert forall|k: int| 0 <= k < kept@.len() implies exists|j: int|
                        0 <= j < i + 1 && #[trigger] kept@[k] == s0[j] by {
                        if k == kept@.len() - 1 {
                            assert(kept@[k] == s0[i as int]);
                        } else {
                            let j = choose|j: int| 0 <= j < i && kprev[k] == s0[j];
                            assert(kept@[k] == s0[j]);
                        }
                    }
                }
            }
            proof {
                assert forall|j: int|
                    0 <= j < i + 1 && (#[trigger] s0[j]).0 != character_id
                    && s0[j].1 != entity_id implies exists|k: int|
                    0 <= k < kept@.len() && #[trigger] kept@[k] == s0[j] by {
                    if j == i {
                        assert(kept@[kept@.len() - 1] == s0[j]);
                    } else {
                        let k = choose|k: int| 0 <= k < kprev.len() && kprev[k] == s0[j];
                        assert(kept@[k] == s0[j]);
                    }
                }
            }
            i = i + 1;
        }
        let ghost kfin = kept@;
        kept.push((character_id, entity_id));
        self.pairs = kept;
        proof {
            assert(self.pairs@[self.pairs@.len() - 1] == (character_id, entity_id));
            assert forall|c: u64, e: u64|
                old(self).has_pair(c, e) && c != character_id && e != entity_id
                implies self.has_pair(c, e) by {
                let j = choose|j: int| 0 <= j < s0.len() && s0[j] == (c, e);
                let k = choose|k: int| 0 <= k < kfin.len() && kfin[k] == s0[j];
                assert(self.pairs@[k] == (c, e));
            }
            assert forall|c: u64, e: u64| self.has_pair(c, e)
                implies ((c == character_id && e == entity_id)
                    || (old(self).has_pair(c, e) && c != character_id && e != entity_id)) by {
                let k = choose|k: int|
                    0 <= k < self.pairs@.len() && self.pairs@[k] == (c, e);
                if k < self.pairs@.len() - 1 {
                    assert(kfin[k] == (c, e));
                    let j = choose|j: int| 0 <= j < s0.len() && kfin[k] == s0[j];
                    assert(old(self).pairs@[j] == (c, e));
                }
            }
        }
    }

    /// Entity id currently bound to `character_id`, or absence.
    pub fn get_entity_id(&self, character_id: u64) -> (r: Option<u64>)
        ensures
            match r {
                Some(e) => self.has_pair(character_id, e),
                None => forall|e: u64| !self.has_pair(character_id, e),
            },
    {
        match self.find_by_character(character_id) {
            Some(i) => Some(self.pairs[i].1),
            None => None,
        }
    }

    /// Character id currently bound to `entity_id`, or absence; used to
    /// resolve which stable character the local player's entity id names.
    pub fn get_local_character_id(&self, entity_id: u64) -> (r: Option<u64>)
        ensures
            match r {
                Some(c) => self.has_pair(c, entity_id),
                None => forall|c: u64| !self.has_pair(c, entity_id),
            },
    {
        match self.find_by_entity(entity_id) {
            Some(i) => Some(self.pairs[i].0),
            None => None,
        }
    }
}

} // verus!
