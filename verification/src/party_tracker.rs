//! Party resolver: tracks raid-instance / party-instance / member-character
//! groupings. Membership is a flat list keyed by character id, so each
//! character belongs to at most one party instance at a time; re-adding a
//! character moves its membership. The whole structure is cleared on every
//! zone entry: party data never survives a zone change.

use vstd::prelude::*;

verus! {

/// One character's current party membership.
pub struct PartyEntry {
    pub character_id: u64,
    pub party_instance_id: u32,
    pub raid_instance_id: u32,
    /// Position of the member within its sub-party grouping.
    pub group_index: u32,
    pub name: Option<String>,
}

/// The membership list; its character-id column is duplicate-free.
pub struct PartyTracker {
    pub entries: Vec<PartyEntry>,
}

/// Whether the entry names this member: it carries `name` for a character
/// of party instance `pid`.
pub open spec fn entry_named(e: PartyEntry, pid: u32, name: Seq<char>) -> bool {
    e.party_instance_id == pid && match e.name {
        Some(n) => n@ == name,
        None => false,
    }
}

impl PartyTracker {
    /// Each character id occurs at most once, so membership is exclusive.
    pub open spec fn wf(self) -> bool {
        forall|i: int, j: int|
            0 <= i < j < self.entries@.len()
                ==> (#[trigger] self.entries@[i]).character_id
                != (#[trigger] self.entries@[j]).character_id
    }

    /// Whether `character_id` is currently a member of party `pid`.
    pub open spec fn in_party(self, pid: u32, character_id: u64) -> bool {
        exists|i: int|
            0 <= i < self.entries@.len() && (#[trigger] self.entries@[i]).character_id
                == character_id && self.entries@[i].party_instance_id == pid
    }

    /// Whether any party has `character_id` as a member.
    pub open spec fn has_char(self, character_id: u64) -> bool {
        exists|i: int|
            0 <= i < self.entries@.len() && (#[trigger] self.entries@[i]).character_id
                == character_id
    }

    /// Whether `c` and `x` are members of one party instance.
    pub open spec fn same_party(self, c: u64, x: u64) -> bool {
        exists|pid: u32| self.in_party(pid, c) && #[trigger] self.in_party(pid, x)
    }

    /// Whether party `pid` has a member carrying `name`.
    pub open spec fn has_named(self, pid: u32, name: Seq<char>) -> bool {
        exists|i: int|
            0 <= i < self.entries@.len() && entry_named(#[trigger] self.entries@[i], pid, name)
    }

    pub fn new() -> (r: PartyTracker)
        ensures
            r.wf(),
            r.entries@.len() == 0,
    {
        PartyTracker { entries: Vec::new() }
    }

    /// Clear every membership; called on every zone entry, a deliberate
    /// hard boundary.
    pub fn reset_party_mappings(&mut self)
        ensures
            final(self).wf(),
            final(self).entries@.len() == 0,
            forall|pid: u32, c: u64| !final(self).in_party(pid, c),
    {
        self.entries.clear();
    }

    /// Enroll `character_id` in party `party_instance_id`, displacing any
    /// earlier membership of that character: a member present in two
    /// notifications is reassigned to the most recently added party.
    #[verifier::rlimit(50)]
    pub fn add(
        &mut self,
        raid_instance_id: u32,
        party_instance_id: u32,
        character_id: u64,
        group_index: u32,
        name: Option<String>,
    )
        requires
            old(self).wf(),
        ensures
            final(self).wf(),
            final(self).in_party(party_instance_id, character_id),
            forall|pid: u32|
                final(self).in_party(pid, character_id) ==> pid == party_instance_id,
            forall|pid: u32, c: u64|
                c != character_id
                    ==> (final(self).in_party(pid, c) <==> old(self).in_party(pid, c)),
    {
        let ghost s0 = self.entries@;
        let n = self.entries.len();
        let mut kept: Vec<PartyEntry> = Vec::new();
        let mut i: usize = 0;
        while i < n
            invariant
                n == s0.len(),
                self.entries@ == s0,
                old(self).entries@ == s0,
                old(self).wf(),
                0 <= i <= n,
                forall|k: int|
                    0 <= k < kept@.len() ==> exists|j: int|
                        0 <= j < i && #[trigger] kept@[k] == s0[j],
                forall|k: int|
                    0 <= k < kept@.len()
                        ==> (#[trigger] kept@[k]).character_id != character_id,
                forall|j: int|
                    0 <= j < i && (#[trigger] s0[j]).character_id != character_id
                        ==> exists|k: int| 0 <= k < kept@.len() && #[trigger] kept@[k] == s0[j],
                forall|k1: int, k2: int|
                    0 <= k1 < k2 < kept@.len()
                        ==> (#[trigger] kept@[k1]).character_id
                        != (#[trigger] kept@[k2]).character_id,
            decreases n - i,
        {
            let ghost kprev = kept@;
            let e = &self.entries[i];
            if e.character_id != character_id {
                let copy = PartyEntry {
                    character_id: e.character_id,
                    party_instance_id: e.party_instance_id,
                    raid_instance_id: e.raid_instance_id,
                    group_index: e.group_index,
                    name: match &e.name {
                        Some(s) => Some(s.clone()),
                        None => None,
                    },
                };
                proof {
                    assert(copy == s0[i as int]);
                }
                kept.push(copy);
                proof {
                    assert(kept@[kept@.len() - 1] == s0[i as int]);
                    assert forall|k: int| 0 <= k < kept@.len() - 1 implies
                        (#[trigger] kept@[k]).character_id
                        != s0[i as int].character_id by {
                        assert(kept@[k] == kprev[k]);
                        let j = choose|j: int| 0 <= j < i && kprev[k] == s0[j];
                        assert(old(self).entries@[j].character_id
                            != old(self).entries@[i as int].character_id);
                    }
                    assert forall|k: int| 0 <= k < kept@.len() implies exists|j: int|
                        0 <= j < i + 1 && #[trigger] kept@[k] == s0[j] by {
                        if k == kept@.len() - 1 {
                            assert(kept@[k] == s0[i as int]);
                        } else {
                            let j = choose|j: int| 0 <= j < i && kprev[k] == s0[j];
                            assert(kept@[k] == s0[j]);
                        }
                    }
                }
            }
            proof {
                assert forall|j: int|
                    0 <= j < i + 1 && (#[trigger] s0[j]).character_id != character_id
                    implies exists|k: int|
                    0 <= k < kept@.len() && #[trigger] kept@[k] == s0[j] by {
                    if j == i {
                        assert(kept@[kept@.len() - 1] == s0[j]);
                    } else {
                        let k = choose|k: int| 0 <= k < kprev.len() && kprev[k] == s0[j];
                        assert(kept@[k] == s0[j]);
                    }
                }
            }
            i = i + 1;
        }
        let ghost kfin = kept@;
        kept.push(
            PartyEntry { character_id, party_instance_id, raid_instance_id, group_index, name },
        );
        self.entries = kept;
        proof {
            assert(self.entries@[self.entries@.len() - 1].character_id == character_id);
            assert forall|pid: u32, c: u64|
                c != character_id && old(self).in_party(pid, c)
                implies self.in_party(pid, c) by {
                let j = choose|j: int|
                    0 <= j < s0.len() && (#[trigger] s0[j]).character_id == c
                        && s0[j].party_instance_id == pid;
                let k = choose|k: int| 0 <= k < kfin.len() && kfin[k] == s0[j];
                assert(self.entries@[k] == s0[j]);
            }
            assert forall|pid: u32, c: u64|
                c != character_id && self.in_party(pid, c)
                implies old(self).in_party(pid, c) by {
                let k = choose|k: int|
                    0 <= k < self.entries@.len()
                        && (#[trigger] self.entries@[k]).character_id == c
                        && self.entries@[k].party_instance_id == pid;
                assert(kfin[k] == self.entries@[k]);
                let j = choose|j: int| 0 <= j < s0.len() && kfin[k] == s0[j];
                assert(old(self).entries@[j] == self.entries@[k]);
            }
        }
    }

    /// Remove from party `party_instance_id` every member carrying `name`;
    /// used on an explicit leave notification, which names the leaver.
    #[verifier::rlimit(50)]
    pub fn remove(&mut self, party_instance_id: u32, name: &String)
        requires
            old(self).wf(),
        ensures
            final(self).wf(),
            !final(self).has_named(party_instance_id, name@),
            forall|pid2: u32, c: u64|
                #[trigger] final(self).in_party(pid2, c) ==> old(self).in_party(pid2, c),
            forall|j: int|
                0 <= j < old(self).entries@.len()
                    && !entry_named(#[trigger] old(self).entries@[j], party_instance_id, name@)
                    ==> final(self).in_party(
                    old(self).entries@[j].party_instance_id,
                    old(self).entries@[j].character_id,
                ),
    {
        let ghost s0 = self.entries@;
        let n = self.entries.len();
        let mut kept: Vec<PartyEntry> = Vec::new();
        let mut i: usize = 0;
        while i < n
            invariant
                n == s0.len(),
                self.entries@ == s0,
                old(self).entries@ == s0,
                old(self).wf(),
                0 <= i <= n,
                forall|k: int|
                    0 <= k < kept@.len() ==> exists|j: int|
                        0 <= j < i && #[trigger] kept@[k] == s0[j],
                forall|k: int|
                    0 <= k < kept@.len()
                        ==> !entry_named(#[trigger] kept@[k], party_instance_id, name@),
                forall|j: int|
                    0 <= j < i && !entry_named(#[trigger] s0[j], party_instance_id, name@)
                        ==> exists|k: int| 0 <= k < kept@.len() && #[trigger] kept@[k] == s0[j],
                forall|k1: int, k2: int|
                    0 <= k1 < k2 < kept@.len()
                        ==> (#[trigger] kept@[k1]).character_id
                        != (#[trigger] kept@[k2]).character_id,
            decreases n - i,
        {
            let ghost kprev = kept@;
            let e = &self.entries[i];
            let matches_leaver = e.party_instance_id == party_instance_id && match &e.name {
                Some(n) => *n == *name,
                None => false,
            };
            proof {
                assert(matches_leaver == entry_named(s0[i as int], party_instance_id, name@));
            }
            if !matches_leaver {
                let copy = PartyEntry {
                    character_id: e.character_id,
                    party_instance_id: e.party_instance_id,
                    raid_instance_id: e.raid_instance_id,
                    group_index: e.group_index,
                    name: match &e.name {
                        Some(s) => Some(s.clone()),
                        None => None,
                    },
                };
                proof {
                    assert(copy == s0[i as int]);
                    assert(!entry_named(copy, party_instance_id, name@));
                }
                kept.push(copy);
                proof {
                    assert(kept@[kept@.len() - 1] == s0[i as int]);
                    assert forall|k: int| 0 <= k < kept@.len() - 1 implies
                        (#[trigger] kept@[k]).character_id
                        != s0[i as int].character_id by {
                        assert(kept@[k] == kprev[k]);
                        let j = choose|j: int| 0 <= j < i && kprev[k] == s0[j];
                        assert(old(self).entries@[j].character_id
                            != old(self).entries@[i as int].character_id);
                    }
                    assert forall|k: int| 0 <= k < kept@.len() implies exists|j: int|
                        0 <= j < i + 1 && #[trigger] kept@[k] == s0[j] by {
                        if k == kept@.len() - 1 {
                            assert(kept@[k] == s0[i as int]);
                        } else {
                            let j = choose|j: int| 0 <= j < i && kprev[k] == s0[j];
                            assert(kept@[k] == s0[j]);
                        }
                    }
                }
            }
            proof {
                assert forall|j: int|
                    0 <= j < i + 1 && !entry_named(#[trigger] s0[j], party_instance_id, name@)
                    implies exists|k: int|
                    0 <= k < kept@.len() && #[trigger] kept@[k] == s0[j] by {
                    if j == i {
                        assert(kept@[kept@.len() - 1] == s0[j]);
                    } else {
                        let k = choose|k: int| 0 <= k < kprev.len() && kprev[k] == s0[j];
                        assert(kept@[k] == s0[j]);
                    }
                }
            }
            i = i + 1;
        }
        let ghost kfin = kept@;
        self.entries = kept;
        proof {
            assert(self.entries@ == kfin);
            assert forall|k1: int, k2: int| 0 <= k1 < k2 < self.entries@.len() implies
                (#[trigger] self.entries@[k1]).character_id
                != (#[trigger] self.entries@[k2]).character_id by {
                assert(self.entries@[k1] == kfin[k1] && self.entries@[k2] == kfin[k2]);
            }
            assert forall|k: int| 0 <= k < self.entries@.len() implies
                !entry_named(#[trigger] self.entries@[k], party_instance_id, name@) by {
                assert(self.entries@[k] == kfin[k]);
            }
            assert forall|pid2: u32, c: u64| #[trigger] self.in_party(pid2, c)
                implies old(self).in_party(pid2, c) by {
                let k = choose|k: int|
                    0 <= k < self.entries@.len()
                        && (#[trigger] self.entries@[k]).character_id == c
                        && self.entries@[k].party_instance_id == pid2;
                assert(kfin[k] == self.entries@[k]);
                let j = choose|j: int| 0 <= j < s0.len() && kfin[k] == s0[j];
                assert((old(self).entries@[j]).character_id == c);
            }
            assert forall|j: int|
                0 <= j < old(self).entries@.len()
                    && !entry_named(#[trigger] old(self).entries@[j], party_instance_id, name@)
                implies self.in_party(
                old(self).entries@[j].party_instance_id,
                old(self).entries@[j].character_id,
            ) by {
                assert(old(self).entries@[j] == s0[j]);
                let k = choose|k: int| 0 <= k < kfin.len() && kfin[k] == s0[j];
                assert((self.entries@[k]).character_id == s0[j].character_id);
                assert(self.entries@[k].party_instance_id == s0[j].party_instance_id);
            }
        }
    }

    /// Character ids of every member of the party containing
    /// `character_id`; empty when that character is in no party.
    pub fn members_of(&self, character_id: u64) -> (r: Vec<u64>)
        requires
            self.wf(),
        ensures
            forall|x: u64|
                #[trigger] crate::models::seq_contains_u64(r@, x)
                    <==> self.same_party(character_id, x),
    {
        let n = self.entries.len();
        let mut pid_found: Option<u32> = None;
        let mut i: usize = 0;
        while i < n
            invariant
                n == self.entries@.len(),
                0 <= i <= n,
                match pid_found {
                    Some(pid) => self.in_party(pid, character_id),
                    None => forall|k: int|
                        0 <= k < i
                            ==> (#[trigger] self.entries@[k]).character_id != character_id,
                },
            decreases n - i,
        {
            if pid_found.is_none() && self.entries[i].character_id == character_id {
                pid_found = Some(self.entries[i].party_instance_id);
                proof {
                    assert(self.entries@[i as int].character_id == character_id);
                }
            }
            i = i + 1;
        }
        match pid_found {
            None => {
                let r: Vec<u64> = Vec::new();
                proof {
                    assert forall|x: u64| !self.same_party(character_id, x) by {
                        if self.same_party(character_id, x) {
                            let pid = choose|pid: u32|
                                self.in_party(pid, character_id)
                                    && #[trigger] self.in_party(pid, x);
                            let i1 = choose|i1: int|
                                0 <= i1 < self.entries@.len()
                                    && (#[trigger] self.entries@[i1]).character_id
                                    == character_id
                                    && self.entries@[i1].party_instance_id == pid;
                        }
                    }
                }
                r
            },
            Some(pid) => {
                let mut r: Vec<u64> = Vec::new();
                let mut k: usize = 0;
                while k < n
                    invariant
                        n == self.entries@.len(),
                        self.wf(),
                        0 <= k <= n,
                        self.in_party(pid, character_id),
                        forall|m: int|
                            0 <= m < r@.len() ==> self.in_party(pid, #[trigger] r@[m]),
                        forall|j: int|
                            0 <= j < k && (#[trigger] self.entries@[j]).party_instance_id
                                == pid ==> exists|m: int|
                                0 <= m < r@.len()
                                    && #[trigger] r@[m] == self.entries@[j].character_id,
                    decreases n - k,
                {
                    let ghost rprev = r@;
                    if self.entries[k].party_instance_id == pid {
                        r.push(self.entries[k].character_id);
                        proof {
                            assert(r@[r@.len() - 1] == self.entries@[k as int].character_id);
                            assert forall|j: int|
                                0 <= j < k + 1
                                && (#[trigger] self.entries@[j]).party_instance_id == pid
                                implies exists|m: int|
                                0 <= m < r@.len()
                                    && #[trigger] r@[m] == self.entries@[j].character_id by {
                                if j == k {
                                    assert(r@[r@.len() - 1]
                                        == self.entries@[j].character_id);
                                } else {
                                    let m = choose|m: int|
                                        0 <= m < rprev.len()
                                            && rprev[m] == self.entries@[j].character_id;
                                    assert(r@[m] == self.entries@[j].character_id);
                                }
                            }
                        }
                    }
                    k = k + 1;
                }
                proof {
                    assert forall|x: u64| self.same_party(character_id, x)
                        implies crate::models::seq_contains_u64(r@, x) by {
                        let pid2 = choose|pid2: u32|
                            self.in_party(pid2, character_id)
                                && #[trigger] self.in_party(pid2, x);
                        let i1 = choose|i1: int|
                            0 <= i1 < self.entries@.len()
                                && (#[trigger] self.entries@[i1]).character_id == character_id
                                && self.entries@[i1].party_instance_id == pid2;
                        let i2 = choose|i2: int|
                            0 <= i2 < self.entries@.len()
                                && (#[trigger] self.entries@[i2]).character_id == character_id
                                && self.entries@[i2].party_instance_id == pid;
                        assert(i1 == i2);
                        let ix = choose|ix: int|
                            0 <= ix < self.entries@.len()
                                && (#[trigger] self.entries@[ix]).character_id == x
                                && self.entries@[ix].party_instance_id == pid2;
                        assert(self.entries@[ix].party_instance_id == pid);
                        let m = choose|m: int|
                            0 <= m < r@.len()
                                && #[trigger] r@[m] == self.entries@[ix].character_id;
                        assert(r@[m] == x);
                    }
                    assert forall|x: u64| crate::models::seq_contains_u64(r@, x)
                        implies self.same_party(character_id, x) by {
                        let m = choose|m: int| 0 <= m < r@.len() && r@[m] == x;
                        assert(self.in_party(pid, r@[m]));
                        assert(self.in_party(pid, character_id) && self.in_party(pid, x));
                    }
                }
                r
            },
        }
    }
}

/// Membership exclusivity: however the list was built by `add` and
/// `remove` calls, a character id belongs to at most one party instance,
/// because the well-formedness every operation preserves keeps the
/// character-id column duplicate-free.
pub proof fn lemma_party_membership_exclusive(t: PartyTracker, c: u64, pid1: u32, pid2: u32)
    requires
        t.wf(),
        t.in_party(pid1, c),
        t.in_party(pid2, c),
    ensures
        pid1 == pid2,
{
    let i1 = choose|i: int|
        0 <= i < t.entries@.len() && (#[trigger] t.entries@[i]).character_id == c
            && t.entries@[i].party_instance_id == pid1;
    let i2 = choose|i: int|
        0 <= i < t.entries@.len() && (#[trigger] t.entries@[i]).character_id == c
            && t.entries@[i].party_instance_id == pid2;
    if i1 != i2 {
        assert(t.entries@[i1].character_id != t.entries@[i2].character_id);
    }
}

} // verus!
