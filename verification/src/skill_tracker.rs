//! Skill/cast correlator: the latest cast per (entity, skill) pair, the
//! permanent links from spawned projectile and trap ids back to the cast
//! that created them, and skill-available-again timestamps from cooldown
//! notifications. Missing correlations degrade gracefully to an unknown
//! source timestamp, never to an error.

use vstd::prelude::*;

verus! {

/// What a cast notification recorded.
#[derive(Clone, Copy, PartialEq, Eq, Structural, Debug)]
pub struct CastInfo {
    /// When the cast started, in milliseconds.
    pub timestamp: u64,
    /// Entity id of the summon that will perform the skill, if any.
    pub summon_source: Option<u64>,
}

/// The correlator's whole state.
pub struct SkillTracker {
    /// Latest cast per (entity id, skill id); a later cast of the same key
    /// supersedes the record.
    pub casts: Vec<((u64, u32), CastInfo)>,
    /// Spawned object id to the timestamp of the cast that produced it;
    /// once written, an id's link is kept for its whole lifetime, even
    /// after the originating cast record is superseded.
    pub projectile_links: Vec<(u64, u64)>,
    /// Per skill id, the tick at which the skill becomes available again.
    pub cooldowns: Vec<(u32, u64)>,
}

impl SkillTracker {
    /// All three maps have duplicate-free key columns.
    pub open spec fn wf(self) -> bool {
        (forall|i: int, j: int|
            0 <= i < j < self.casts@.len() ==> (#[trigger] self.casts@[i]).0 != (
            #[trigger] self.casts@[j]).0) && (forall|i: int, j: int|
            0 <= i < j < self.projectile_links@.len() ==> (#[trigger] self.projectile_links@[i]).0
                != (#[trigger] self.projectile_links@[j]).0) && (forall|i: int, j: int|
            0 <= i < j < self.cooldowns@.len() ==> (#[trigger] self.cooldowns@[i]).0 != (
            #[trigger] self.cooldowns@[j]).0)
    }

    /// Whether the latest cast of `skill_id` by entity `entity_id` is `c`.
    pub open spec fn has_cast(self, entity_id: u64, skill_id: u32, c: CastInfo) -> bool {
        exists|i: int|
            0 <= i < self.casts@.len() && #[trigger] self.casts@[i] == ((entity_id, skill_id), c)
    }

    /// Whether spawned object `object_id` is linked to cast time `ts`.
    pub open spec fn has_link(self, object_id: u64, ts: u64) -> bool {
        exists|i: int|
            0 <= i < self.projectile_links@.len() && #[trigger] self.projectile_links@[i] == (
            object_id,
            ts,
            )
    }

    pub fn new() -> (r: SkillTracker)
        ensures
            r.wf(),
            r.casts@.len() == 0,
            r.projectile_links@.len() == 0,
            r.cooldowns@.len() == 0,
    {
        SkillTracker { casts: Vec::new(), projectile_links: Vec::new(), cooldowns: Vec::new() }
    }

    /// Forget everything; used on a full session reset.
    pub fn clear(&mut self)
        ensures
            final(self).wf(),
            final(self).casts@.len() == 0,
            final(self).projectile_links@.len() == 0,
            final(self).cooldowns@.len() == 0,
    {
        self.casts.clear();
        self.projectile_links.clear();
        self.cooldowns.clear();
    }

    /// Record or overwrite the latest cast of `skill_id` by `entity_id`.
    /// Existing projectile links are untouched: a spawned id keeps its
    /// original cast timestamp even when the cast record is superseded.
    #[verifier::loop_isolation(false)]
    pub fn new_cast(
        &mut self,
        entity_id: u64,
        skill_id: u32,
        summon_source: Option<u64>,
        timestamp: u64,
    )
        requires
            old(self).wf(),
        ensures
            final(self).wf(),
            final(self).has_cast(
                entity_id,
                skill_id,
                CastInfo { timestamp, summon_source },
            ),
            forall|e: u64, s: u32, c: CastInfo|
                (e, s) != (entity_id, skill_id)
                    ==> (final(self).has_cast(e, s, c) <==> old(self).has_cast(e, s, c)),
            final(self).projectile_links@ == old(self).projectile_links@,
            final(self).cooldowns@ == old(self).cooldowns@,
    {
        let info = CastInfo { timestamp, summon_source };
        let n = self.casts.len();
        let mut i: usize = 0;
        while i < n
            invariant
                n == self.casts@.len(),
                old(self).casts@ == self.casts@,
                old(self).wf(),
                self.projectile_links@ == old(self).projectile_links@,
                self.cooldowns@ == old(self).cooldowns@,
                0 <= i <= n,
                forall|k: int|
                    0 <= k < i ==> (#[trigger] self.casts@[k]).0 != (entity_id, skill_id),
            decreases n - i,
        {
            let key = self.casts[i].0;
            if key.0 == entity_id && key.1 == skill_id {
                self.casts.set(i, ((entity_id, skill_id), info));
                proof {
                    assert(self.casts@[i as int] == ((entity_id, skill_id), info));
                    assert(self.has_cast(entity_id, skill_id, info));
                    assert forall|a: int, b: int| 0 <= a < b < self.casts@.len() implies
                        (#[trigger] self.casts@[a]).0 != (#[trigger] self.casts@[b]).0 by {
                        assert(old(self).casts@[a].0 != old(self).casts@[b].0);
                    }
                    assert forall|e: u64, s: u32, c: CastInfo|
                        (e, s) != (entity_id, skill_id) && old(self).has_cast(e, s, c)
                        implies self.has_cast(e, s, c) by {
                        let k = choose|k: int|
                            0 <= k < old(self).casts@.len() && #[trigger] old(self).casts@[k]
                                == ((e, s), c);
                        assert(self.casts@[k] == ((e, s), c));
                    }
                    assert forall|e: u64, s: u32, c: CastInfo|
                        (e, s) != (entity_id, skill_id) && self.has_cast(e, s, c)
                        implies old(self).has_cast(e, s, c) by {
                        let k = choose|k: int|
                            0 <= k < self.casts@.len() && #[trigger] self.casts@[k] == (
                            (e, s),
                            c,
                            );
                        assert(old(self).casts@[k] == ((e, s), c));
                    }
                }
                return;
            }
            i = i + 1;
        }
        self.casts.push(((entity_id, skill_id), info));
        proof {
            assert(self.casts@[self.casts@.len() - 1] == ((entity_id, skill_id), info));
            assert(self.has_cast(entity_id, skill_id, info));
            assert forall|e: u64, s: u32, c: CastInfo|
                (e, s) != (entity_id, skill_id) && self.has_cast(e, s, c)
                implies old(self).has_cast(e, s, c) by {
                let k = choose|k: int|
                    0 <= k < self.casts@.len() && #[trigger] self.casts@[k] == ((e, s), c);
                assert(old(self).casts@[k] == ((e, s), c));
            }
            assert forall|e: u64, s: u32, c: CastInfo|
                (e, s) != (entity_id, skill_id) && old(self).has_cast(e, s, c)
                implies self.has_cast(e, s, c) by {
                let k = choose|k: int|
                    0 <= k < old(self).casts@.len() && #[trigger] old(self).casts@[k] == (
                    (e, s),
                    c,
                    );
                assert(self.casts@[k] == ((e, s), c));
            }
        }
    }

    /// Timestamp of the latest recorded cast of `skill_id` by `entity_id`.
    #[verifier::loop_isolation(false)]
    pub fn cast_timestamp(&self, entity_id: u64, skill_id: u32) -> (r: Option<u64>)
        requires
            self.wf(),
        ensures
            match r {
                Some(ts) => exists|c: CastInfo|
                    #[trigger] self.has_cast(entity_id, skill_id, c) && c.timestamp == ts,
                None => forall|c: CastInfo| !self.has_cast(entity_id, skill_id, c),
            },
    {
        let n = self.casts.len();
        let mut i: usize = 0;
        while i < n
            invariant
                n == self.casts@.len(),
                0 <= i <= n,
                forall|k: int|
                    0 <= k < i ==> (#[trigger] self.casts@[k]).0 != (entity_id, skill_id),
            decreases n - i,
        {
            let key = self.casts[i].0;
            if key.0 == entity_id && key.1 == skill_id {
                let c = self.casts[i].1;
                proof {
                    assert(self.casts@[i as int] == ((entity_id, skill_id), c));
                    assert(self.has_cast(entity_id, skill_id, c));
                }
                return Some(c.timestamp);
            }
            i = i + 1;
        }
        proof {
            assert forall|c: CastInfo| !self.has_cast(entity_id, skill_id, c) by {
                if self.has_cast(entity_id, skill_id, c) {
                    let k = choose|k: int|
                        0 <= k < self.casts@.len() && #[trigger] self.casts@[k] == (
                        (entity_id, skill_id),
                        c,
                        );
                }
            }
        }
        None
    }

    /// Link a spawned projectile or trap id to the timestamp of the cast
    /// that produced it.
    #[verifier::loop_isolation(false)]
    pub fn link_spawned(&mut self, object_id: u64, timestamp: u64)
        requires
            old(self).wf(),
        ensures
            final(self).wf(),
            final(self).has_link(object_id, timestamp),
            forall|o: u64, t: u64|
                o != object_id
                    ==> (final(self).has_link(o, t) <==> old(self).has_link(o, t)),
            final(self).casts@ == old(self).casts@,
            final(self).cooldowns@ == old(self).cooldowns@,
    {
        let n = self.projectile_links.len();
        let mut i: usize = 0;
        while i < n
            invariant
                n == self.projectile_links@.len(),
                old(self).projectile_links@ == self.projectile_links@,
                old(self).wf(),
                self.casts@ == old(self).casts@,
                self.cooldowns@ == old(self).cooldowns@,
                0 <= i <= n,
                forall|k: int|
                    0 <= k < i ==> (#[trigger] self.projectile_links@[k]).0 != object_id,
            decreases n - i,
        {
            if self.projectile_links[i].0 == object_id {
                self.projectile_links.set(i, (object_id, timestamp));
                proof {
                    assert(self.projectile_links@[i as int] == (object_id, timestamp));
                    assert forall|a: int, b: int|
                        0 <= a < b < self.projectile_links@.len() implies
                        (#[trigger] self.projectile_links@[a]).0 != (
                        #[trigger] self.projectile_links@[b]).0 by {
                        assert(old(self).projectile_links@[a].0
                            != old(self).projectile_links@[b].0);
                    }
                    assert forall|o: u64, t: u64|
                        o != object_id && old(self).has_link(o, t) implies self.has_link(
                        o,
                        t,
                    ) by {
                        let k = choose|k: int|
                            0 <= k < old(self).projectile_links@.len()
                                && #[trigger] old(self).projectile_links@[k] == (o, t);
                        assert(self.projectile_links@[k] == (o, t));
                    }
                    assert forall|o: u64, t: u64|
                        o != object_id && self.has_link(o, t) implies old(self).has_link(
                        o,
                        t,
                    ) by {
                        let k = choose|k: int|
                            0 <= k < self.projectile_links@.len()
                                && #[trigger] self.projectile_links@[k] == (o, t);
                        assert(old(self).projectile_links@[k] == (o, t));
                    }
                }
                return;
            }
            i = i + 1;
        }
        self.projectile_links.push((object_id, timestamp));
        proof {
            assert(self.projectile_links@[self.projectile_links@.len() - 1] == (
                object_id,
                timestamp,
            ));
            assert(self.has_link(object_id, timestamp));
            assert forall|o: u64, t: u64|
                o != object_id && self.has_link(o, t) implies old(self).has_link(o, t) by {
                let k = choose|k: int|
                    0 <= k < self.projectile_links@.len()
                        && #[trigger] self.projectile_links@[k] == (o, t);
                assert(old(self).projectile_links@[k] == (o, t));
            }
            assert forall|o: u64, t: u64|
                o != object_id && old(self).has_link(o, t) implies self.has_link(o, t) by {
                let k = choose|k: int|
                    0 <= k < old(self).projectile_links@.len()
                        && #[trigger] old(self).projectile_links@[k] == (o, t);
                assert(self.projectile_links@[k] == (o, t));
            }
        }
    }

    /// Cast timestamp a spawned object was linked to, if it ever was.
    #[verifier::loop_isolation(false)]
    pub fn linked_timestamp(&self, object_id: u64) -> (r: Option<u64>)
        requires
            self.wf(),
        ensures
            match r {
                Some(ts) => self.has_link(object_id, ts),
                None => forall|t: u64| !self.has_link(object_id, t),
            },
    {
        let n = self.projectile_links.len();
        let mut i: usize = 0;
        while i < n
            invariant
                n == self.projectile_links@.len(),
                0 <= i <= n,
                forall|k: int|
                    0 <= k < i ==> (#[trigger] self.projectile_links@[k]).0 != object_id,
            decreases n - i,
        {
            if self.projectile_links[i].0 == object_id {
                let ts = self.projectile_links[i].1;
                proof {
                    assert(self.projectile_links@[i as int] == (object_id, ts));
                }
                return Some(ts);
            }
            i = i + 1;
        }
        proof {
            assert forall|t: u64| !self.has_link(object_id, t) by {
                if self.has_link(object_id, t) {
                    let k = choose|k: int|
                        0 <= k < self.projectile_links@.len()
                            && #[trigger] self.projectile_links@[k] == (object_id, t);
                }
            }
        }
        None
    }

    /// Record when `skill_id` becomes available again, from a cooldown
    /// notification; used to compute per-skill uptime.
    #[verifier::loop_isolation(false)]
    pub fn record_cooldown(&mut self, skill_id: u32, available_at: u64)
        requires
            old(self).wf(),
        ensures
            final(self).wf(),
            final(self).casts@ == old(self).casts@,
            final(self).projectile_links@ == old(self).projectile_links@,
            exists|i: int|
                0 <= i < final(self).cooldowns@.len() && #[trigger] final(self).cooldowns@[i]
                    == (skill_id, available_at),
    {
        let n = self.cooldowns.len();
        let mut i: usize = 0;
        while i < n
            invariant
                n == self.cooldowns@.len(),
                old(self).cooldowns@ == self.cooldowns@,
                old(self).wf(),
                self.casts@ == old(self).casts@,
                self.projectile_links@ == old(self).projectile_links@,
                0 <= i <= n,
                forall|k: int| 0 <= k < i ==> (#[trigger] self.cooldowns@[k]).0 != skill_id,
            decreases n - i,
        {
            if self.cooldowns[i].0 == skill_id {
                self.cooldowns.set(i, (skill_id, available_at));
                proof {
                    assert(self.cooldowns@[i as int] == (skill_id, available_at));
                    assert forall|a: int, b: int| 0 <= a < b < self.cooldowns@.len() implies
                        (#[trigger] self.cooldowns@[a]).0 != (
                        #[trigger] self.cooldowns@[b]).0 by {
                        assert(old(self).cooldowns@[a].0 != old(self).cooldowns@[b].0);
                    }
                }
                return;
            }
            i = i + 1;
        }
        self.cooldowns.push((skill_id, available_at));
        proof {
            assert(self.cooldowns@[self.cooldowns@.len() - 1] == (skill_id, available_at));
        }
    }
}

/// Link permanence: recording further casts never changes what timestamp a
/// spawned object id was linked to. This follows from `new_cast` leaving
/// the link table untouched, stated here over any two successive states.
pub proof fn lemma_link_permanence(pre: SkillTracker, post: SkillTracker, object_id: u64, ts: u64)
    requires
        post.projectile_links@ == pre.projectile_links@,
        pre.has_link(object_id, ts),
    ensures
        post.has_link(object_id, ts),
{
}

} // verus!
