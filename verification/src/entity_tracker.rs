//! Entity registry: the authoritative set of every entity seen this
//! session, built lazily from spawn packets and first references. Lookups
//! of unknown ids materialize an unknown-kind placeholder instead of
//! failing, because the wire stream is not guaranteed ordered; entities are
//! pruned only on session reset, never mid-session.

use vstd::prelude::*;

use crate::models::{contains_u32, seq_contains_u32, EntityType, MeterConfig, StatPair};

verus! {

/// Stat-type code under which a spawn payload carries current HP.
pub const STAT_TYPE_HP: u8 = 1;

/// Stat-type code under which a spawn payload carries maximum HP.
pub const STAT_TYPE_MAX_HP: u8 = 27;

/// One trackable in-world object.
pub struct Entity {
    /// Session-scoped object id, unstable across reconnects.
    pub id: u64,
    /// Stable character id, or zero when none is known.
    pub character_id: u64,
    pub name: String,
    pub entity_type: EntityType,
    pub class_id: u32,
    /// Static npc type id, zero for players.
    pub npc_id: u32,
    /// Entity that spawned this one (summons, projectiles, traps), or zero.
    pub owner_id: u64,
    /// Skill that spawned this projectile or trap, or zero.
    pub skill_id: u32,
}

impl Entity {
    /// A field-identical copy.
    pub fn duplicate(&self) -> (r: Entity)
        ensures
            r == *self,
    {
        Entity {
            id: self.id,
            character_id: self.character_id,
            name: self.name.clone(),
            entity_type: self.entity_type,
            class_id: self.class_id,
            npc_id: self.npc_id,
            owner_id: self.owner_id,
            skill_id: self.skill_id,
        }
    }
}

/// Whether `e` is the placeholder materialized for an unknown id.
pub open spec fn is_placeholder(e: Entity, id: u64) -> bool {
    e.id == id && e.character_id == 0 && e.name@ == Seq::<char>::empty() && e.entity_type
        == EntityType::Unknown && e.class_id == 0 && e.npc_id == 0 && e.owner_id == 0
        && e.skill_id == 0
}

/// Value of the last stat pair of type `t`, or zero when none occurs:
/// HP fields are located in raw stat lists by known stat-type codes.
pub open spec fn stat_value(s: Seq<StatPair>, t: u8) -> i64
    decreases s.len(),
{
    if s.len() == 0 {
        0i64
    } else if s.last().stat_type == t {
        s.last().value
    } else {
        stat_value(s.drop_last(), t)
    }
}

/// Locate current and maximum HP in a spawn payload's raw stat list.
#[verifier::loop_isolation(false)]
pub fn get_current_and_max_hp(stat_pairs: &Vec<StatPair>) -> (r: (i64, i64))
    ensures
        r.0 == stat_value(stat_pairs@, STAT_TYPE_HP),
        r.1 == stat_value(stat_pairs@, STAT_TYPE_MAX_HP),
{
    let n = stat_pairs.len();
    let mut hp: i64 = 0;
    let mut max_hp: i64 = 0;
    let mut i: usize = 0;
    while i < n
        invariant
            n == stat_pairs@.len(),
            0 <= i <= n,
            hp == stat_value(stat_pairs@.subrange(0, i as int), STAT_TYPE_HP),
            max_hp == stat_value(stat_pairs@.subrange(0, i as int), STAT_TYPE_MAX_HP),
        decreases n - i,
    {
        let p = stat_pairs[i];
        if p.stat_type == STAT_TYPE_HP {
            hp = p.value;
        } else if p.stat_type == STAT_TYPE_MAX_HP {
            max_hp = p.value;
        }
        proof {
            let pre = stat_pairs@.subrange(0, i as int);
            let cur = stat_pairs@.subrange(0, i as int + 1);
            assert(cur.drop_last() =~= pre);
            assert(cur.last() == stat_pairs@[i as int]);
        }
        i = i + 1;
    }
    proof {
        assert(stat_pairs@.subrange(0, n as int) =~= stat_pairs@);
    }
    (hp, max_hp)
}

/// The registry of all entities seen this session, plus the local player
/// anchors resolved so far.
pub struct EntityTracker {
    /// Registry rows; ids are unique.
    pub entities: Vec<Entity>,
    /// Object id of the local player's entity, or zero if unresolved.
    pub local_entity_id: u64,
    /// Stable character id of the local player, or zero if unresolved.
    pub local_character_id: u64,
}

impl EntityTracker {
    /// Registry ids are duplicate-free.
    pub open spec fn wf(self) -> bool {
        forall|i: int, j: int|
            0 <= i < j < self.entities@.len() ==> (#[trigger] self.entities@[i]).id != (
            #[trigger] self.entities@[j]).id
    }

    /// Whether some registry row has id `id`.
    pub open spec fn has_id(self, id: u64) -> bool {
        exists|i: int| 0 <= i < self.entities@.len() && (#[trigger] self.entities@[i]).id == id
    }

    /// Whether the registry row with id `id` is of player kind.
    pub open spec fn spec_id_is_player(self, id: u64) -> bool {
        exists|i: int|
            0 <= i < self.entities@.len() && (#[trigger] self.entities@[i]).id == id
                && self.entities@[i].entity_type == EntityType::Player
    }

    pub fn new() -> (r: EntityTracker)
        ensures
            r.wf(),
            r.entities@.len() == 0,
            r.local_entity_id == 0,
            r.local_character_id == 0,
    {
        EntityTracker { entities: Vec::new(), local_entity_id: 0, local_character_id: 0 }
    }

    /// First registry index holding id `id`, if any.
    fn find_index(&self, id: u64) -> (r: Option<usize>)
        ensures
            match r {
                Some(i) => i < self.entities@.len() && self.entities@[i as int].id == id
                    && forall|k: int|
                    0 <= k < i ==> (#[trigger] self.entities@[k]).id != id,
                None => forall|k: int|
                    0 <= k < self.entities@.len() ==> (#[trigger] self.entities@[k]).id != id,
            },
    {
        let n = self.entities.len();
        let mut i: usize = 0;
        while i < n
            invariant
                n == self.entities@.len(),
                0 <= i <= n,
                forall|k: int| 0 <= k < i ==> (#[trigger] self.entities@[k]).id != id,
            decreases n - i,
        {
            if self.entities[i].id == id {
                return Some(i);
            }
            i = i + 1;
        }
        None
    }

    /// Insert `e`, replacing the row that already carries its id if there
    /// is one; rows of other ids keep their positions.
    #[verifier::loop_isolation(false)]
    pub fn upsert(&mut self, e: Entity)
        requires
            old(self).wf(),
        ensures
            final(self).wf(),
            final(self).local_entity_id == old(self).local_entity_id,
            final(self).local_character_id == old(self).local_character_id,
            old(self).has_id(e.id) ==> final(self).entities@.len() == old(
                self,
            ).entities@.len(),
            !old(self).has_id(e.id) ==> final(self).entities@ == old(self).entities@.push(e),
            exists|i: int|
                0 <= i < final(self).entities@.len() && #[trigger] final(self).entities@[i]
                    == e,
            forall|k: int|
                0 <= k < old(self).entities@.len() && (#[trigger] old(self).entities@[k]).id
                    != e.id ==> final(self).entities@[k] == old(self).entities@[k],
            forall|k: int|
                0 <= k < final(self).entities@.len()
                    && (#[trigger] final(self).entities@[k]).id == e.id
                    ==> final(self).entities@[k] == e,
    {
        let eid = e.id;
        match self.find_index(eid) {
            Some(i) => {
                self.entities.set(i, e);
                proof {
                    assert(self.entities@[i as int] == e);
                    assert forall|a: int, b: int| 0 <= a < b < self.entities@.len() implies
                        (#[trigger] self.entities@[a]).id != (
                        #[trigger] self.entities@[b]).id by {
                        assert(old(self).entities@[a].id != old(self).entities@[b].id);
                    }
                    assert forall|k: int|
                        0 <= k < self.entities@.len() && (#[trigger] self.entities@[k]).id
                            == e.id implies self.entities@[k] == e by {
                        if k != i {
                            assert(old(self).entities@[k].id != old(self).entities@[i as int].id);
                        }
                    }
                }
            },
            None => {
                self.entities.push(e);
                proof {
                    assert(self.entities@[self.entities@.len() - 1] == e);
                }
            },
        }
    }

    /// The row with id `id`, or a freshly registered unknown placeholder:
    /// lazy materialization for ids referenced before their spawn packet.
    #[verifier::loop_isolation(false)]
    pub fn get_or_create_entity(&mut self, id: u64) -> (r: Entity)
        requires
            old(self).wf(),
        ensures
            final(self).wf(),
            r.id == id,
            final(self).local_entity_id == old(self).local_entity_id,
            final(self).local_character_id == old(self).local_character_id,
            old(self).has_id(id) ==> final(self).entities@ == old(self).entities@
                && exists|i: int|
                0 <= i < old(self).entities@.len() && #[trigger] old(self).entities@[i] == r,
            !old(self).has_id(id) ==> final(self).entities@ == old(self).entities@.push(r)
                && is_placeholder(r, id),
    {
        match self.find_index(id) {
            Some(i) => {
                let r = self.entities[i].duplicate();
                proof {
                    assert(self.entities@[i as int] == r);
                }
                r
            },
            None => {
                let r = Entity {
                    id,
                    character_id: 0,
                    name: String::new(),
                    entity_type: EntityType::Unknown,
                    class_id: 0,
                    npc_id: 0,
                    owner_id: 0,
                    skill_id: 0,
                };
                proof {
                    assert(is_placeholder(r, id));
                }
                let r2 = r.duplicate();
                self.entities.push(r);
                r2
            },
        }
    }

    /// Resolve a damage source to the entity that owns it: a projectile or
    /// trap is attributed to its owner, anything else to itself. Unknown
    /// ids materialize placeholders rather than failing.
    pub fn get_source_entity(&mut self, id: u64) -> (r: Entity)
        requires
            old(self).wf(),
        ensures
            final(self).wf(),
            final(self).local_entity_id == old(self).local_entity_id,
            final(self).local_character_id == old(self).local_character_id,
            old(self).entities@.len() <= final(self).entities@.len() <= old(
                self,
            ).entities@.len() + 2,
            forall|k: int|
                0 <= k < old(self).entities@.len() ==> final(self).entities@[k] == #[trigger] old(
                    self,
                ).entities@[k],
            exists|i: int|
                0 <= i < final(self).entities@.len() && #[trigger] final(self).entities@[i]
                    == r,
            forall|i: int|
                0 <= i < old(self).entities@.len() && (#[trigger] old(self).entities@[i]).id
                    == id ==> (if ((old(self).entities@[i].entity_type == EntityType::Projectile
                    || old(self).entities@[i].entity_type == EntityType::Trap
                    || old(self).entities@[i].entity_type == EntityType::Summon)
                    && old(self).entities@[i].owner_id != 0) {
                    r.id == old(self).entities@[i].owner_id
                } else {
                    r == old(self).entities@[i]
                }),
            !old(self).has_id(id) ==> is_placeholder(r, id),
    {
        let ghost pre = self.entities@;
        let e = self.get_or_create_entity(id);
        let ghost mid = self.entities@;
        proof {
            if old(self).has_id(id) {
                let i = choose|i: int|
                    0 <= i < pre.len() && #[trigger] pre[i] == e;
                assert(self.entities@[i] == e);
            } else {
                assert(self.entities@[mid.len() - 1] == e);
            }
        }
        let follow_owner = match e.entity_type {
            EntityType::Projectile => e.owner_id != 0,
            EntityType::Trap => e.owner_id != 0,
            EntityType::Summon => e.owner_id != 0,
            _ => false,
        };
        if follow_owner {
            let owner = self.get_or_create_entity(e.owner_id);
            proof {
                if exists|i: int|
                    0 <= i < mid.len() && (#[trigger] mid[i]).id == e.owner_id {
                    let i = choose|i: int|
                        0 <= i < mid.len() && #[trigger] mid[i] == owner;
                    assert(self.entities@[i] == owner);
                } else {
                    assert(self.entities@[self.entities@.len() - 1] == owner);
                }
            }
            owner
        } else {
            e
        }
    }

    /// Read-only lookup that never materializes placeholders.
    pub fn get_entity(&self, id: u64) -> (r: Option<Entity>)
        requires
            self.wf(),
        ensures
            match r {
                Some(e) => e.id == id && exists|i: int|
                    0 <= i < self.entities@.len() && #[trigger] self.entities@[i] == e,
                None => !self.has_id(id),
            },
    {
        match self.find_index(id) {
            Some(i) => {
                let r = self.entities[i].duplicate();
                proof {
                    assert(self.entities@[i as int] == r);
                }
                Some(r)
            },
            None => None,
        }
    }

    /// Whether the id is known to belong to a player; gates projectile and
    /// trap correlation, which only tracks player-owned skills.
    pub fn id_is_player(&self, id: u64) -> (r: bool)
        requires
            self.wf(),
        ensures
            r == self.spec_id_is_player(id),
    {
        match self.find_index(id) {
            Some(i) => {
                let is_player = match self.entities[i].entity_type {
                    EntityType::Player => true,
                    _ => false,
                };
                proof {
                    if is_player {
                        assert(self.entities@[i as int].id == id
                            && self.entities@[i as int].entity_type == EntityType::Player);
                    } else {
                        assert forall|k: int|
                            0 <= k < self.entities@.len() implies !((
                            #[trigger] self.entities@[k]).id == id && self.entities@[k].entity_type
                                == EntityType::Player) by {
                            if k != i {
                                assert(self.entities@[k].id != self.entities@[i as int].id);
                            }
                        }
                    }
                }
                is_player
            },
            None => false,
        }
    }

    /// Heuristic reclassification: an unknown-kind entity that casts a
    /// skill from the injected player-only skill table is promoted to
    /// player kind, both in `entity` and in the registry. Spawn packets
    /// can be missed or late, so classification is deliberately
    /// approximate and corrected as evidence arrives.
    pub fn guess_is_player(&mut self, entity: &mut Entity, skill_id: u32, config: &MeterConfig)
        requires
            old(self).wf(),
        ensures
            final(self).wf(),
            final(self).local_entity_id == old(self).local_entity_id,
            final(self).local_character_id == old(self).local_character_id,
            final(entity).entity_type == EntityType::Player <==> (old(entity).entity_type
                == EntityType::Player || (old(entity).entity_type == EntityType::Unknown
                && seq_contains_u32(config.player_skill_ids@, skill_id))),
            final(entity).id == old(entity).id,
            final(entity).name@ == old(entity).name@,
            final(self).entities@.len() >= old(self).entities@.len(),
            !(old(entity).entity_type == EntityType::Unknown && seq_contains_u32(
                config.player_skill_ids@,
                skill_id,
            )) ==> final(self).entities@ == old(self).entities@ && *final(entity) == *old(
                entity,
            ),
            (old(entity).entity_type == EntityType::Unknown && seq_contains_u32(
                config.player_skill_ids@,
                skill_id,
            )) ==> final(self).has_id(old(entity).id) && (forall|k: int|
                0 <= k < final(self).entities@.len() && (#[trigger] final(self).entities@[k]).id
                    == old(entity).id ==> final(self).entities@[k] == *final(entity)),
    {
        let promote = match entity.entity_type {
            EntityType::Unknown => contains_u32(&config.player_skill_ids, skill_id),
            _ => false,
        };
        if promote {
            entity.entity_type = EntityType::Player;
            let copy = entity.duplicate();
            self.upsert(copy);
            proof {
                let i = choose|i: int|
                    0 <= i < self.entities@.len() && #[trigger] self.entities@[i] == copy;
                assert(self.entities@[i].id == entity.id);
            }
        }
    }

    /// Zone entry: the registry is cleared and the local player is
    /// re-anchored under its new object id, keeping what identity is known.
    pub fn init_env(&mut self, player_id: u64) -> (r: Entity)
        requires
            old(self).wf(),
        ensures
            final(self).wf(),
            r.id == player_id,
            r.entity_type == EntityType::Player,
            r.character_id == old(self).local_character_id,
            final(self).local_entity_id == player_id,
            final(self).local_character_id == old(self).local_character_id,
            final(self).entities@.len() == 1,
            final(self).entities@[0] == r,
    {
        let prior = self.get_entity(self.local_entity_id);
        let (name, class_id) = match prior {
            Some(p) => (p.name, p.class_id),
            None => (String::new(), 0),
        };
        let local = Entity {
            id: player_id,
            character_id: self.local_character_id,
            name,
            entity_type: EntityType::Player,
            class_id,
            npc_id: 0,
            owner_id: 0,
            skill_id: 0,
        };
        let r = local.duplicate();
        self.entities.clear();
        self.entities.push(local);
        self.local_entity_id = player_id;
        r
    }

    /// Record the local player from its own spawn packet: the registry is
    /// rebuilt around it and both local anchors are set.
    pub fn init_pc(&mut self, id: u64, character_id: u64, name: String, class_id: u32) -> (r:
        Entity)
        requires
            old(self).wf(),
        ensures
            final(self).wf(),
            r.id == id,
            r.character_id == character_id,
            r.name@ == name@,
            r.class_id == class_id,
            r.entity_type == EntityType::Player,
            final(self).local_entity_id == id,
            final(self).local_character_id == character_id,
            final(self).entities@.len() == 1,
            final(self).entities@[0] == r,
    {
        let local = Entity {
            id,
            character_id,
            name,
            entity_type: EntityType::Player,
            class_id,
            npc_id: 0,
            owner_id: 0,
            skill_id: 0,
        };
        let r = local.duplicate();
        self.entities.clear();
        self.entities.push(local);
        self.local_entity_id = id;
        self.local_character_id = character_id;
        r
    }

    /// Register another player character from its spawn packet.
    pub fn new_pc(&mut self, id: u64, character_id: u64, name: String, class_id: u32) -> (r:
        Entity)
        requires
            old(self).wf(),
        ensures
            final(self).wf(),
            r.id == id,
            r.character_id == character_id,
            r.name@ == name@,
            r.class_id == class_id,
            r.entity_type == EntityType::Player,
            final(self).local_entity_id == old(self).local_entity_id,
            final(self).local_character_id == old(self).local_character_id,
            final(self).has_id(id),
    {
        let e = Entity {
            id,
            character_id,
            name,
            entity_type: EntityType::Player,
            class_id,
            npc_id: 0,
            owner_id: 0,
            skill_id: 0,
        };
        let r = e.duplicate();
        self.upsert(e);
        proof {
            let i = choose|i: int|
                0 <= i < self.entities@.len() && #[trigger] self.entities@[i] == r;
            assert(self.entities@[i].id == id);
        }
        r
    }

    /// Register an npc from its spawn packet; npc ids found in the injected
    /// boss table are boss-tier and considered for the boss banner.
    pub fn new_npc(
        &mut self,
        id: u64,
        npc_id: u32,
        name: String,
        owner_id: u64,
        is_summon: bool,
        config: &MeterConfig,
    ) -> (r: Entity)
        requires
            old(self).wf(),
        ensures
            final(self).wf(),
            r.id == id,
            r.npc_id == npc_id,
            r.name@ == name@,
            r.owner_id == owner_id,
            r.entity_type == (if is_summon {
                EntityType::Summon
            } else if seq_contains_u32(config.boss_npc_ids@, npc_id) {
                EntityType::Boss
            } else {
                EntityType::Npc
            }),
            final(self).local_entity_id == old(self).local_entity_id,
            final(self).local_character_id == old(self).local_character_id,
            final(self).has_id(id),
    {
        let entity_type = if is_summon {
            EntityType::Summon
        } else if contains_u32(&config.boss_npc_ids, npc_id) {
            EntityType::Boss
        } else {
            EntityType::Npc
        };
        let e = Entity {
            id,
            character_id: 0,
            name,
            entity_type,
            class_id: 0,
            npc_id,
            owner_id,
            skill_id: 0,
        };
        let r = e.duplicate();
        self.upsert(e);
        proof {
            let i = choose|i: int|
                0 <= i < self.entities@.len() && #[trigger] self.entities@[i] == r;
            assert(self.entities@[i].id == id);
        }
        r
    }

    /// Register a projectile or trap with its owner and spawning skill.
    pub fn new_spawned_object(
        &mut self,
        id: u64,
        owner_id: u64,
        skill_id: u32,
        is_trap: bool,
    )
        requires
            old(self).wf(),
        ensures
            final(self).wf(),
            final(self).local_entity_id == old(self).local_entity_id,
            final(self).local_character_id == old(self).local_character_id,
            final(self).has_id(id),
            forall|k: int|
                0 <= k < final(self).entities@.len() && (#[trigger] final(self).entities@[k]).id
                    == id ==> final(self).entities@[k].owner_id == owner_id && final(self).entities@[k].skill_id == skill_id && final(self).entities@[k].entity_type == (if is_trap {
                    EntityType::Trap
                } else {
                    EntityType::Projectile
                }),
    {
        let e = Entity {
            id,
            character_id: 0,
            name: String::new(),
            entity_type: if is_trap {
                EntityType::Trap
            } else {
                EntityType::Projectile
            },
            class_id: 0,
            npc_id: 0,
            owner_id,
            skill_id,
        };
        let ghost eg = e;
        self.upsert(e);
        proof {
            let i = choose|i: int|
                0 <= i < self.entities@.len() && #[trigger] self.entities@[i] == eg;
            assert(self.entities@[i].id == id);
        }
    }

    /// Drop the row with id `id`, if present; used on despawn notices.
    #[verifier::loop_isolation(false)]
    pub fn remove_entity(&mut self, id: u64)
        requires
            old(self).wf(),
        ensures
            final(self).wf(),
            final(self).local_entity_id == old(self).local_entity_id,
            final(self).local_character_id == old(self).local_character_id,
            !final(self).has_id(id),
            !old(self).has_id(id) ==> final(self).entities@ == old(self).entities@,
            old(self).has_id(id) ==> exists|i: int|
                0 <= i < old(self).entities@.len() && (#[trigger] old(self).entities@[i]).id
                    == id && final(self).entities@ == old(self).entities@.remove(i),
    {
        match self.find_index(id) {
            Some(i) => {
                self.entities.remove(i);
                proof {
                    old(self).entities@.remove_ensures(i as int);
                    assert(old(self).entities@[i as int].id == id
                        && self.entities@ == old(self).entities@.remove(i as int));
                    assert forall|a: int, b: int| 0 <= a < b < self.entities@.len() implies
                        (#[trigger] self.entities@[a]).id != (
                        #[trigger] self.entities@[b]).id by {
                        let a0 = if a < i { a } else { a + 1 };
                        let b0 = if b < i { b } else { b + 1 };
                        assert(self.entities@[a] == old(self).entities@[a0]
                            && self.entities@[b] == old(self).entities@[b0]);
                        assert(old(self).entities@[a0].id != old(self).entities@[b0].id);
                    }
                    assert forall|k: int| 0 <= k < self.entities@.len() implies !((
                    #[trigger] self.entities@[k]).id == id) by {
                        let k0 = if k < i { k } else { k + 1 };
                        assert(self.entities@[k] == old(self).entities@[k0]);
                        if k0 != i {
                            assert(old(self).entities@[k0].id
                                != old(self).entities@[i as int].id);
                        }
                    }
                }
            },
            None => {},
        }
    }

    /// Record the local player's stable character id once identified.
    pub fn set_local_character_id(&mut self, character_id: u64)
        ensures
            final(self).wf() == old(self).wf(),
            final(self).entities@ == old(self).entities@,
            final(self).local_entity_id == old(self).local_entity_id,
            final(self).local_character_id == character_id,
    {
        self.local_character_id = character_id;
    }
}

} // verus!
