//! Status-effect ledger: every active buff, debuff and shield, keyed by its
//! instance id within a target scope. Instances move Absent -> Active ->
//! Removed; a removed id may later be reused by a new application. All
//! operations on unknown instance ids are silent no-ops, because the wire
//! protocol is allowed to send redundant or late removal notices.

use vstd::prelude::*;

use crate::models::{seq_contains_u32, StatusEffectTargetType, StatusEffectType};
use crate::seq_facts::{lemma_filter_elements, lemma_filter_empty, lemma_filter_identity};

verus! {

/// Removal reason code the wire protocol uses for the benign transition of
/// leaving a crafting workshop; such removals are flagged so the caller can
/// suppress presentation flicker.
pub const LEFT_WORKSHOP_REASON: u8 = 4;

/// One active status-effect instance.
#[derive(Clone, Copy, PartialEq, Eq, Structural, Debug)]
pub struct StatusEffect {
    /// Unique per application within its target scope.
    pub instance_id: u32,
    /// Which effect this is an application of.
    pub status_effect_id: u32,
    /// Whether the instance is keyed by a local object id or by a
    /// party-relative character id.
    pub target_type: StatusEffectTargetType,
    /// Object id (local scope) or character id (party scope) of the holder.
    pub target_id: u64,
    /// Entity id of the applier.
    pub source_id: u64,
    /// Shield, hard crowd control, or anything else.
    pub effect_type: StatusEffectType,
    /// Current magnitude, e.g. remaining shield points.
    pub value: u64,
    /// Tick after which the instance no longer applies, if bounded.
    pub expire_at: Option<u64>,
}

/// Whether two instances occupy the same ledger slot.
pub open spec fn same_key(a: StatusEffect, b: StatusEffect) -> bool {
    a.target_type == b.target_type && a.target_id == b.target_id && a.instance_id == b.instance_id
}

/// Whether `e` is named by a batch removal of `ids` on holder `tid` in
/// scope `tt`.
pub open spec fn removal_match(
    e: StatusEffect,
    tt: StatusEffectTargetType,
    tid: u64,
    ids: Seq<u32>,
) -> bool {
    e.target_type == tt && e.target_id == tid && seq_contains_u32(ids, e.instance_id)
}

/// The ledger after a batch removal: exactly the unnamed instances, in order.
pub open spec fn remaining_after(
    s: Seq<StatusEffect>,
    tt: StatusEffectTargetType,
    tid: u64,
    ids: Seq<u32>,
) -> Seq<StatusEffect> {
    s.filter(|e: StatusEffect| !removal_match(e, tt, tid, ids))
}

/// The instances a batch removal takes out, in ledger order.
pub open spec fn removed_by(
    s: Seq<StatusEffect>,
    tt: StatusEffectTargetType,
    tid: u64,
    ids: Seq<u32>,
) -> Seq<StatusEffect> {
    s.filter(|e: StatusEffect| removal_match(e, tt, tid, ids))
}

/// The shield instances among `s`.
pub open spec fn shields_only(s: Seq<StatusEffect>) -> Seq<StatusEffect> {
    s.filter(|e: StatusEffect| e.effect_type == StatusEffectType::Shield)
}

/// The ledger without the slot that `e` occupies.
pub open spec fn remaining_one(s: Seq<StatusEffect>, e: StatusEffect) -> Seq<StatusEffect> {
    s.filter(|x: StatusEffect| !same_key(x, e))
}

/// Whether `e` is bound to local object `object_id` as holder or source.
pub open spec fn object_bound(e: StatusEffect, object_id: u64) -> bool {
    (e.target_type == StatusEffectTargetType::Local && e.target_id == object_id)
        || e.source_id == object_id
}

/// The ledger after a local object despawns: instances neither held by nor
/// sourced from it.
pub open spec fn without_object(s: Seq<StatusEffect>, object_id: u64) -> Seq<StatusEffect> {
    s.filter(|e: StatusEffect| !object_bound(e, object_id))
}

/// Whether `e` currently applies to the entity with ids `entity_id` /
/// `character_id` at time `now`.
pub open spec fn affects(e: StatusEffect, entity_id: u64, character_id: u64, now: u64) -> bool {
    ((e.target_type == StatusEffectTargetType::Local && e.target_id == entity_id)
        || (e.target_type == StatusEffectTargetType::Party && character_id != 0
        && e.target_id == character_id)) && (match e.expire_at {
        Some(t) => t > now,
        None => true,
    })
}

/// Effect ids of the instances applying to an entity at time `now`.
pub open spec fn effect_ids_on(
    s: Seq<StatusEffect>,
    entity_id: u64,
    character_id: u64,
    now: u64,
) -> Seq<u32> {
    s.filter(|e: StatusEffect| affects(e, entity_id, character_id, now)).map_values(
        |e: StatusEffect| e.status_effect_id,
    )
}

/// No two elements of `s` occupy the same ledger slot.
pub open spec fn distinct_keys(s: Seq<StatusEffect>) -> bool {
    forall|i: int, j: int| 0 <= i < j < s.len() ==> !same_key(#[trigger] s[i], #[trigger] s[j])
}

/// Filtering a ledger cannot introduce a key collision.
proof fn lemma_filter_distinct_keys(s: Seq<StatusEffect>, pred: spec_fn(StatusEffect) -> bool)
    requires
        distinct_keys(s),
    ensures
        distinct_keys(s.filter(pred)),
    decreases s.len(),
{
    reveal(Seq::filter);
    if s.len() > 0 {
        let d = s.drop_last();
        assert(distinct_keys(d));
        lemma_filter_distinct_keys(d, pred);
        if pred(s.last()) {
            lemma_filter_elements(d, pred);
            let fd = d.filter(pred);
            assert forall|k: int| 0 <= k < fd.len() implies !same_key(
                fd[k],
                s[s.len() - 1],
            ) by {
                let j = choose|j: int| 0 <= j < d.len() && fd[k] == d[j];
                assert(!same_key(s[j], s[s.len() - 1]));
            }
            assert(distinct_keys(s.filter(pred)));
        }
    }
}

/// The ledger of active status-effect instances.
pub struct StatusTracker {
    pub effects: Vec<StatusEffect>,
}

impl StatusTracker {
    /// An instance id maps to exactly one live instance per scope.
    pub open spec fn wf(self) -> bool {
        distinct_keys(self.effects@)
    }

    /// Whether `e` is live exactly as given.
    pub open spec fn has_effect(self, e: StatusEffect) -> bool {
        exists|i: int| 0 <= i < self.effects@.len() && self.effects@[i] == e
    }

    /// Whether some instance occupies the slot of `e`.
    pub open spec fn has_instance(
        self,
        tt: StatusEffectTargetType,
        tid: u64,
        instance_id: u32,
    ) -> bool {
        exists|i: int|
            0 <= i < self.effects@.len() && (#[trigger] self.effects@[i]).target_type == tt
                && self.effects@[i].target_id == tid && self.effects@[i].instance_id
                == instance_id
    }

    pub fn new() -> (r: StatusTracker)
        ensures
            r.wf(),
            r.effects@.len() == 0,
    {
        StatusTracker { effects: Vec::new() }
    }

    /// Drop every instance; used on zone transitions, where all effects are
    /// implicitly removed.
    pub fn clear(&mut self)
        ensures
            final(self).wf(),
            final(self).effects@.len() == 0,
    {
        self.effects.clear();
    }

    /// Make `e` the live instance of its slot, replacing any instance the
    /// slot held: an add notification for a live id is an update.
    #[verifier::loop_isolation(false)]
    pub fn register(&mut self, e: StatusEffect)
        requires
            old(self).wf(),
        ensures
            final(self).wf(),
            final(self).effects@ == remaining_one(old(self).effects@, e).push(e),
            final(self).has_effect(e),
    {
        let ghost s0 = self.effects@;
        let n = self.effects.len();
        let mut kept: Vec<StatusEffect> = Vec::new();
        let mut i: usize = 0;
        while i < n
            invariant
                n == s0.len(),
                self.effects@ == s0,
                0 <= i <= n,
                kept@ == remaining_one(s0.subrange(0, i as int), e),
            decreases n - i,
        {
            let x = self.effects[i];
            if !(x.target_type == e.target_type && x.target_id == e.target_id && x.instance_id
                == e.instance_id) {
                kept.push(x);
            }
            proof {
                reveal(Seq::filter);
                assert(s0.subrange(0, i as int + 1).drop_last() =~= s0.subrange(0, i as int));
                assert(s0.subrange(0, i as int + 1).last() == s0[i as int]);
                assert(kept@ == remaining_one(s0.subrange(0, i as int + 1), e));
            }
            i = i + 1;
        }
        proof {
            assert(s0.subrange(0, n as int) =~= s0);
            let ghost pred = |x: StatusEffect| !same_key(x, e);
            lemma_filter_distinct_keys(s0, pred);
            assert forall|k: int| 0 <= k < kept@.len() implies !same_key(kept@[k], e) by {
                s0.lemma_filter_pred(pred, k);
            }
        }
        kept.push(e);
        self.effects = kept;
        proof {
            assert(self.effects@[self.effects@.len() - 1] == e);
        }
    }

    /// Batch removal of the named instance ids on one holder. Classifies the
    /// result so the caller can emit shield-depletion events: whether any
    /// removed instance was a shield, the removed shields, every removed
    /// instance, and whether the stated reason was the benign workshop exit.
    /// Removing ids that are not live is a no-op for them.
    #[verifier::loop_isolation(false)]
    pub fn remove_status_effects(
        &mut self,
        target_id: u64,
        instance_ids: &Vec<u32>,
        reason: u8,
        target_type: StatusEffectTargetType,
    ) -> (r: (bool, Vec<StatusEffect>, Vec<StatusEffect>, bool))
        requires
            old(self).wf(),
        ensures
            final(self).wf(),
            final(self).effects@ == remaining_after(
                old(self).effects@,
                target_type,
                target_id,
                instance_ids@,
            ),
            r.2@ == removed_by(old(self).effects@, target_type, target_id, instance_ids@),
            r.1@ == shields_only(r.2@),
            r.0 == (r.1@.len() > 0),
            r.3 == (reason == LEFT_WORKSHOP_REASON),
            (forall|j: int|
                0 <= j < old(self).effects@.len() ==> !removal_match(
                    #[trigger] old(self).effects@[j],
                    target_type,
                    target_id,
                    instance_ids@,
                )) ==> final(self).effects@ == old(self).effects@ && r.1@.len() == 0
                && r.2@.len() == 0,
    {
        let ghost s0 = self.effects@;
        let ghost ids = instance_ids@;
        let n = self.effects.len();
        let mut kept: Vec<StatusEffect> = Vec::new();
        let mut removed: Vec<StatusEffect> = Vec::new();
        let mut shields: Vec<StatusEffect> = Vec::new();
        let mut i: usize = 0;
        while i < n
            invariant
                n == s0.len(),
                self.effects@ == s0,
                old(self).effects@ == s0,
                old(self).wf(),
                0 <= i <= n,
                kept@ == remaining_after(s0.subrange(0, i as int), target_type, target_id, ids),
                removed@ == removed_by(s0.subrange(0, i as int), target_type, target_id, ids),
                shields@ == shields_only(removed@),
            decreases n - i,
        {
            let x = self.effects[i];
            let ghost rprev = removed@;
            let is_named = x.target_type == target_type && x.target_id == target_id
                && crate::models::contains_u32(instance_ids, x.instance_id);
            if is_named {
                removed.push(x);
                if x.effect_type == StatusEffectType::Shield {
                    shields.push(x);
                }
            } else {
                kept.push(x);
            }
            proof {
                reveal(Seq::filter);
                assert(s0.subrange(0, i as int + 1).drop_last() =~= s0.subrange(0, i as int));
                assert(s0.subrange(0, i as int + 1).last() == s0[i as int]);
                assert(kept@ == remaining_after(
                    s0.subrange(0, i as int + 1),
                    target_type,
                    target_id,
                    ids,
                ));
                assert(removed@ == removed_by(
                    s0.subrange(0, i as int + 1),
                    target_type,
                    target_id,
                    ids,
                ));
                if is_named {
                    assert(removed@.drop_last() =~= rprev);
                    assert(removed@.last() == x);
                    assert(shields@ == shields_only(removed@));
                }
            }
            i = i + 1;
        }
        proof {
            assert(s0.subrange(0, n as int) =~= s0);
            let ghost keepp = |e: StatusEffect| !removal_match(e, target_type, target_id, ids);
            let ghost matchp = |e: StatusEffect| removal_match(e, target_type, target_id, ids);
            lemma_filter_distinct_keys(s0, keepp);
            if forall|j: int|
                0 <= j < s0.len() ==> !removal_match(
                    #[trigger] s0[j],
                    target_type,
                    target_id,
                    ids,
                ) {
                lemma_filter_identity(s0, keepp);
                lemma_filter_empty(s0, matchp);
            }
        }
        let was_shield = shields.len() > 0;
        let left_workshop = reason == LEFT_WORKSHOP_REASON;
        self.effects = kept;
        (was_shield, shields, removed, left_workshop)
    }

    /// Cascading removal of every instance held by or sourced from a local
    /// object; used when the object despawns.
    #[verifier::loop_isolation(false)]
    pub fn remove_local_object(&mut self, object_id: u64)
        requires
            old(self).wf(),
        ensures
            final(self).wf(),
            final(self).effects@ == without_object(old(self).effects@, object_id),
    {
        let ghost s0 = self.effects@;
        let n = self.effects.len();
        let mut kept: Vec<StatusEffect> = Vec::new();
        let mut i: usize = 0;
        while i < n
            invariant
                n == s0.len(),
                self.effects@ == s0,
                old(self).effects@ == s0,
                old(self).wf(),
                0 <= i <= n,
                kept@ == without_object(s0.subrange(0, i as int), object_id),
            decreases n - i,
        {
            let x = self.effects[i];
            let bound = (x.target_type == StatusEffectTargetType::Local && x.target_id
                == object_id) || x.source_id == object_id;
            if !bound {
                kept.push(x);
            }
            proof {
                reveal(Seq::filter);
                assert(s0.subrange(0, i as int + 1).drop_last() =~= s0.subrange(0, i as int));
                assert(s0.subrange(0, i as int + 1).last() == s0[i as int]);
                assert(kept@ == without_object(s0.subrange(0, i as int + 1), object_id));
            }
            i = i + 1;
        }
        proof {
            assert(s0.subrange(0, n as int) =~= s0);
            lemma_filter_distinct_keys(s0, |e: StatusEffect| !object_bound(e, object_id));
        }
        self.effects = kept;
    }

    /// The scope and holder id a sync notification addresses: the local
    /// player's effects are tracked in the local scope under the object id;
    /// other characters' effects are party-scoped under the character id.
    pub open spec fn sync_scope(
        character_id: u64,
        object_id: u64,
        local_character_id: u64,
    ) -> (StatusEffectTargetType, u64) {
        if character_id != 0 && character_id != local_character_id {
            (StatusEffectTargetType::Party, character_id)
        } else {
            (StatusEffectTargetType::Local, object_id)
        }
    }

    /// Update the magnitude of a live instance whose value changed without
    /// an add or remove, e.g. partial shield consumption. Returns the
    /// updated instance and its prior value so the caller can compute the
    /// delta; absent instances are left as a silent no-op.
    #[verifier::loop_isolation(false)]
    pub fn sync_status_effect(
        &mut self,
        instance_id: u32,
        character_id: u64,
        object_id: u64,
        value: u64,
        local_character_id: u64,
    ) -> (r: (Option<StatusEffect>, u64))
        requires
            old(self).wf(),
        ensures
            final(self).wf(),
            match r.0 {
                None => final(self).effects@ == old(self).effects@ && r.1 == 0 && !old(
                    self,
                ).has_instance(
                    Self::sync_scope(character_id, object_id, local_character_id).0,
                    Self::sync_scope(character_id, object_id, local_character_id).1,
                    instance_id,
                ),
                Some(e) => exists|i: int|
                    0 <= i < old(self).effects@.len()
                        && e == (#[trigger] old(self).effects@[i]).value_set(value)
                        && old(self).effects@[i].target_type == Self::sync_scope(
                        character_id,
                        object_id,
                        local_character_id,
                    ).0 && old(self).effects@[i].target_id == Self::sync_scope(
                        character_id,
                        object_id,
                        local_character_id,
                    ).1 && old(self).effects@[i].instance_id == instance_id && r.1 == old(
                        self,
                    ).effects@[i].value && final(self).effects@ == old(self).effects@.update(
                        i,
                        e,
                    ),
            },
    {
        let (use_party, tid) = if character_id != 0 && character_id != local_character_id {
            (true, character_id)
        } else {
            (false, object_id)
        };
        let tt = if use_party {
            StatusEffectTargetType::Party
        } else {
            StatusEffectTargetType::Local
        };
        let n = self.effects.len();
        let mut i: usize = 0;
        while i < n
            invariant
                n == self.effects@.len(),
                old(self).effects@ == self.effects@,
                old(self).wf(),
                0 <= i <= n,
                tt == Self::sync_scope(character_id, object_id, local_character_id).0,
                tid == Self::sync_scope(character_id, object_id, local_character_id).1,
                forall|k: int|
                    0 <= k < i ==> !((#[trigger] self.effects@[k]).target_type == tt
                        && self.effects@[k].target_id == tid && self.effects@[k].instance_id
                        == instance_id),
            decreases n - i,
        {
            let x = self.effects[i];
            if x.target_type == tt && x.target_id == tid && x.instance_id == instance_id {
                let old_value = x.value;
                let mut e = x;
                e.value = value;
                self.effects.set(i, e);
                proof {
                    assert(e == old(self).effects@[i as int].value_set(value));
                    assert forall|a: int, b: int|
                        0 <= a < b < self.effects@.len() implies !same_key(
                        #[trigger] self.effects@[a],
                        #[trigger] self.effects@[b],
                    ) by {
                        assert(!same_key(old(self).effects@[a], old(self).effects@[b]));
                    }
                }
                return (Some(e), old_value);
            }
            i = i + 1;
        }
        (None, 0)
    }

    /// Effect ids of every instance applying to the given entity at `now`,
    /// in ledger order; used to attribute damage to active buffs.
    #[verifier::loop_isolation(false)]
    pub fn active_effect_ids(&self, entity_id: u64, character_id: u64, now: u64) -> (r: Vec<
        u32,
    >)
        ensures
            r@ == effect_ids_on(self.effects@, entity_id, character_id, now),
    {
        let ghost s0 = self.effects@;
        let n = self.effects.len();
        let mut r: Vec<u32> = Vec::new();
        let mut i: usize = 0;
        while i < n
            invariant
                n == s0.len(),
                self.effects@ == s0,
                0 <= i <= n,
                r@ == effect_ids_on(s0.subrange(0, i as int), entity_id, character_id, now),
            decreases n - i,
        {
            let x = self.effects[i];
            let scope_hit = match x.target_type {
                StatusEffectTargetType::Local => x.target_id == entity_id,
                StatusEffectTargetType::Party => character_id != 0 && x.target_id
                    == character_id,
            };
            let live = match x.expire_at {
                Some(t) => t > now,
                None => true,
            };
            let ghost rprev = r@;
            if scope_hit && live {
                r.push(x.status_effect_id);
            }
            proof {
                reveal(Seq::filter);
                assert(s0.subrange(0, i as int + 1).drop_last() =~= s0.subrange(0, i as int));
                assert(s0.subrange(0, i as int + 1).last() == s0[i as int]);
                let prevf = s0.subrange(0, i as int).filter(
                    |e: StatusEffect| affects(e, entity_id, character_id, now),
                );
                let fs = s0.subrange(0, i as int + 1).filter(
                    |e: StatusEffect| affects(e, entity_id, character_id, now),
                );
                if scope_hit && live {
                    assert(fs == prevf.push(s0[i as int]));
                    assert(r@ =~= fs.map_values(|e: StatusEffect| e.status_effect_id));
                } else {
                    assert(fs == prevf);
                }
                assert(r@ == effect_ids_on(
                    s0.subrange(0, i as int + 1),
                    entity_id,
                    character_id,
                    now,
                ));
            }
            i = i + 1;
        }
        proof {
            assert(s0.subrange(0, n as int) =~= s0);
        }
        r
    }

    /// Effect ids active on a damage's owner and on its target at `now`:
    /// the attribution inputs of a damage notification.
    pub fn get_status_effects(
        &self,
        owner_entity_id: u64,
        owner_character_id: u64,
        target_entity_id: u64,
        target_character_id: u64,
        now: u64,
    ) -> (r: (Vec<u32>, Vec<u32>))
        ensures
            r.0@ == effect_ids_on(self.effects@, owner_entity_id, owner_character_id, now),
            r.1@ == effect_ids_on(self.effects@, target_entity_id, target_character_id, now),
    {
        let on_source = self.active_effect_ids(owner_entity_id, owner_character_id, now);
        let on_target = self.active_effect_ids(target_entity_id, target_character_id, now);
        (on_source, on_target)
    }
}

/// The little-endian unsigned value of eight bytes starting at `at`.
pub open spec fn le_u64_at(s: Seq<u8>, at: int) -> u64
    recommends
        0 <= at,
        at + 8 <= s.len(),
{
    (((((((s[at + 7] * 256 + s[at + 6]) * 256 + s[at + 5]) * 256 + s[at + 4]) * 256 + s[at + 3])
        * 256 + s[at + 2]) * 256 + s[at + 1]) * 256 + s[at + 0]) as u64
}

/// A status effect's magnitude as the wire carries it: two little-endian
/// counters of eight bytes each, of which the smaller is current; a single
/// counter stands alone, and anything shorter means zero.
pub open spec fn spec_status_effect_value(s: Seq<u8>) -> u64 {
    if s.len() >= 16 {
        if le_u64_at(s, 0) <= le_u64_at(s, 8) {
            le_u64_at(s, 0)
        } else {
            le_u64_at(s, 8)
        }
    } else if s.len() >= 8 {
        le_u64_at(s, 0)
    } else {
        0u64
    }
}

/// Read one little-endian counter of eight bytes.
fn read_le_u64(bytes: &Vec<u8>, at: usize) -> (r: u64)
    requires
        at + 8 <= bytes@.len(),
    ensures
        r == le_u64_at(bytes@, at as int),
{
    let n = bytes.len();
    let mut v: u64 = bytes[at + 7] as u64;
    v = v * 256 + (bytes[at + 6] as u64);
    v = v * 256 + (bytes[at + 5] as u64);
    v = v * 256 + (bytes[at + 4] as u64);
    v = v * 256 + (bytes[at + 3] as u64);
    v = v * 256 + (bytes[at + 2] as u64);
    v = v * 256 + (bytes[at + 1] as u64);
    v = v * 256 + (bytes[at] as u64);
    v
}

/// Decode a status effect's magnitude from its raw wire bytes.
pub fn get_status_effect_value(bytes: &Vec<u8>) -> (r: u64)
    ensures
        r == spec_status_effect_value(bytes@),
{
    if bytes.len() >= 16 {
        let a = read_le_u64(bytes, 0);
        let b = read_le_u64(bytes, 8);
        if a <= b {
            a
        } else {
            b
        }
    } else if bytes.len() >= 8 {
        read_le_u64(bytes, 0)
    } else {
        0
    }
}

/// A live instance with its magnitude replaced.
impl StatusEffect {
    pub open spec fn value_set(self, value: u64) -> StatusEffect {
        StatusEffect { value, ..self }
    }
}

} // verus!
