//! Encounter state machine: aggregates dispatched combat events into
//! cumulative statistics and fight-phase transitions, and owns the
//! reset/save/pause lifecycle. Damage validity is a one-way latch: once a
//! decryption failure is recorded, it stays tripped until the next soft
//! reset, because partially decrypted totals are unreliable and must be
//! flagged rather than silently under-reported.

use vstd::prelude::*;

use crate::encounter::{
    bump_skill, distinct_names, ensure_row, entities_extend, zero_encounter_stats, Encounter,
    EncounterEntity,
};
use crate::entity_tracker::Entity;
use crate::models::{
    any_common, contains_u32, seq_contains_u32, spec_any_common, EntityType, FightPhase,
    MeterConfig,
};
use crate::skill_tracker::SkillTracker;

verus! {

/// Saturating addition, the semantics of every cumulative counter.
pub open spec fn add_sat(a: u64, b: u64) -> u64 {
    if a + b > u64::MAX {
        u64::MAX
    } else {
        (a + b) as u64
    }
}

/// Saturating subtraction, used for elapsed-time credits.
pub open spec fn sub_sat(a: u64, b: u64) -> u64 {
    if a >= b {
        (a - b) as u64
    } else {
        0u64
    }
}

/// Whether position `k` of `s` carries `src`'s identity fields and the
/// given HP reading: what registering a player leaves behind.
pub open spec fn pc_row_at(
    s: Seq<EncounterEntity>,
    k: int,
    src: Entity,
    hp: i64,
    max_hp: i64,
) -> bool {
    &&& 0 <= k < s.len()
    &&& s[k].name@ == src.name@
    &&& s[k].id == src.id
    &&& s[k].character_id == src.character_id
    &&& s[k].class_id == src.class_id
    &&& s[k].entity_type == src.entity_type
    &&& s[k].current_hp == hp
    &&& s[k].max_hp == max_hp
}

/// Whether position `k` of `s` carries an npc's identity fields and the
/// given HP reading.
pub open spec fn npc_row_at(
    s: Seq<EncounterEntity>,
    k: int,
    src: Entity,
    hp: i64,
    max_hp: i64,
) -> bool {
    &&& 0 <= k < s.len()
    &&& s[k].name@ == src.name@
    &&& s[k].id == src.id
    &&& s[k].npc_id == src.npc_id
    &&& s[k].entity_type == src.entity_type
    &&& s[k].current_hp == hp
    &&& s[k].max_hp == max_hp
}

/// The damage fields of one decrypted damage event, as the dispatch layer
/// hands them to aggregation.
#[derive(Clone, Copy, PartialEq, Eq, Structural, Debug)]
pub struct DamageData {
    pub skill_id: u32,
    pub skill_effect_id: u32,
    pub damage: u64,
    /// Wire hit-flag bits; the lowest bit marks a critical hit.
    pub modifier: u32,
    pub target_current_hp: i64,
    pub target_max_hp: i64,
    pub shield_damage: u64,
}

/// Whether a damage event is aggregated at all: the dealer must be a
/// combatant whose output is reported, and under boss-only mode one side
/// of the hit must be a boss.
pub open spec fn damage_tracked(owner: Entity, target: Entity, boss_only: bool) -> bool {
    (owner.entity_type == EntityType::Player || owner.entity_type == EntityType::Esther
        || owner.entity_type == EntityType::Boss) && (!boss_only || target.entity_type
        == EntityType::Boss || owner.entity_type == EntityType::Boss)
}

/// Whether a dealer's damage counts into the encounter-wide totals.
pub open spec fn counts_into_totals(owner: Entity) -> bool {
    owner.entity_type == EntityType::Player || owner.entity_type == EntityType::Esther
}

/// Record `dmg` as taken by `target`'s row, materializing it if absent;
/// only that row changes, and only its taken counter and HP fields.
#[verifier::loop_isolation(false)]
fn apply_damage_taken(v: &mut Vec<EncounterEntity>, target: &Entity, dmg: DamageData)
    requires
        distinct_names(old(v)@),
    ensures
        distinct_names(final(v)@),
        entities_extend(old(v)@, final(v)@),
        old(v)@.len() <= final(v)@.len() <= old(v)@.len() + 1,
        forall|k: int|
            0 <= k < old(v)@.len() && (#[trigger] old(v)@[k]).name@ != target.name@
                ==> final(v)@[k] == old(v)@[k],
        forall|k: int|
            0 <= k < old(v)@.len() && (#[trigger] old(v)@[k]).name@ == target.name@
                ==> final(v)@[k].damage_stats == old(v)@[k].damage_stats.with_taken(
                add_sat(old(v)@[k].damage_stats.damage_taken, dmg.damage),
            ) && final(v)@[k].current_hp == dmg.target_current_hp && final(v)@[k].max_hp
                == dmg.target_max_hp && final(v)@[k].name@ == old(v)@[k].name@
                && final(v)@[k].entity_type == old(v)@[k].entity_type
                && final(v)@[k].class_id == old(v)@[k].class_id,
        (forall|k: int|
            0 <= k < old(v)@.len() ==> (#[trigger] old(v)@[k]).name@ != target.name@)
            ==> final(v)@.len() == old(v)@.len() + 1
            && final(v)@[old(v)@.len() as int].name@ == target.name@
            && final(v)@[old(v)@.len() as int].damage_stats.damage_taken == dmg.damage
            && final(v)@[old(v)@.len() as int].damage_stats.damage_dealt == 0
            && final(v)@[old(v)@.len() as int].current_hp == dmg.target_current_hp
            && final(v)@[old(v)@.len() as int].entity_type == target.entity_type,
{
    let ti = ensure_row(v, target, dmg.target_current_hp, dmg.target_max_hp);
    let mut t = v[ti].duplicate();
    let ghost trow = v@[ti as int];
    t.damage_stats.damage_taken = t.damage_stats.damage_taken.saturating_add(dmg.damage);
    t.current_hp = dmg.target_current_hp;
    t.max_hp = dmg.target_max_hp;
    proof {
        assert(t.damage_stats == trow.damage_stats.with_taken(
            add_sat(trow.damage_stats.damage_taken, dmg.damage),
        ));
    }
    v.set(ti, t);
    proof {
        assert forall|a: int, b: int| 0 <= a < b < v@.len() implies (#[trigger] v@[a]).name@
            != (#[trigger] v@[b]).name@ by {
        }
    }
}

/// Record `dmg` as dealt by `owner`'s row, materializing it if absent,
/// with the attribution categories the precomputed flags select; other
/// rows, and the taken counter and HP fields of every row, are unchanged.
#[verifier::loop_isolation(false)]
fn apply_damage_dealt(
    v: &mut Vec<EncounterEntity>,
    owner: &Entity,
    dmg: DamageData,
    buffed: bool,
    debuffed: bool,
    identity: bool,
    hat: bool,
    hyper: bool,
    crit: bool,
)
    requires
        distinct_names(old(v)@),
    ensures
        distinct_names(final(v)@),
        entities_extend(old(v)@, final(v)@),
        old(v)@.len() <= final(v)@.len() <= old(v)@.len() + 1,
        forall|k: int|
            0 <= k < old(v)@.len() && (#[trigger] old(v)@[k]).name@ != owner.name@
                ==> final(v)@[k] == old(v)@[k],
        forall|k: int|
            0 <= k < old(v)@.len() && (#[trigger] old(v)@[k]).name@ == owner.name@
                ==> final(v)@[k].damage_stats.damage_dealt == add_sat(
                old(v)@[k].damage_stats.damage_dealt,
                dmg.damage,
            ) && final(v)@[k].damage_stats.damage_taken == old(v)@[k].damage_stats.damage_taken
                && final(v)@[k].current_hp == old(v)@[k].current_hp
                && final(v)@[k].max_hp == old(v)@[k].max_hp
                && final(v)@[k].name@ == old(v)@[k].name@
                && final(v)@[k].damage_stats.buffed_by_support == (if buffed {
                add_sat(old(v)@[k].damage_stats.buffed_by_support, dmg.damage)
            } else {
                old(v)@[k].damage_stats.buffed_by_support
            }) && final(v)@[k].damage_stats.debuffed_by_support == (if debuffed {
                add_sat(old(v)@[k].damage_stats.debuffed_by_support, dmg.damage)
            } else {
                old(v)@[k].damage_stats.debuffed_by_support
            }) && final(v)@[k].damage_stats.buffed_by_identity == (if identity {
                add_sat(old(v)@[k].damage_stats.buffed_by_identity, dmg.damage)
            } else {
                old(v)@[k].damage_stats.buffed_by_identity
            }) && final(v)@[k].damage_stats.buffed_by_hat == (if hat {
                add_sat(old(v)@[k].damage_stats.buffed_by_hat, dmg.damage)
            } else {
                old(v)@[k].damage_stats.buffed_by_hat
            }) && final(v)@[k].damage_stats.hyper_awakening_damage == (if hyper {
                add_sat(old(v)@[k].damage_stats.hyper_awakening_damage, dmg.damage)
            } else {
                old(v)@[k].damage_stats.hyper_awakening_damage
            }),
        (forall|k: int|
            0 <= k < old(v)@.len() ==> (#[trigger] old(v)@[k]).name@ != owner.name@)
            ==> final(v)@.len() == old(v)@.len() + 1
            && final(v)@[old(v)@.len() as int].name@ == owner.name@
            && final(v)@[old(v)@.len() as int].damage_stats.damage_dealt == dmg.damage
            && final(v)@[old(v)@.len() as int].entity_type == owner.entity_type
            && final(v)@[old(v)@.len() as int].class_id == owner.class_id,
{
    let oi = ensure_row(v, owner, 0, 0);
    let mut o = v[oi].duplicate();
    let ghost orow = v@[oi as int];
    o.damage_stats.damage_dealt = o.damage_stats.damage_dealt.saturating_add(dmg.damage);
    if buffed {
        o.damage_stats.buffed_by_support = o.damage_stats.buffed_by_support.saturating_add(
            dmg.damage,
        );
    }
    if debuffed {
        o.damage_stats.debuffed_by_support = o.damage_stats.debuffed_by_support.saturating_add(
            dmg.damage,
        );
    }
    if identity {
        o.damage_stats.buffed_by_identity = o.damage_stats.buffed_by_identity.saturating_add(
            dmg.damage,
        );
    }
    if hat {
        o.damage_stats.buffed_by_hat = o.damage_stats.buffed_by_hat.saturating_add(dmg.damage);
    }
    if hyper {
        o.damage_stats.hyper_awakening_damage =
            o.damage_stats.hyper_awakening_damage.saturating_add(dmg.damage);
    }
    o.skill_stats.hits = o.skill_stats.hits.saturating_add(1);
    if crit {
        o.skill_stats.crits = o.skill_stats.crits.saturating_add(1);
    }
    bump_skill(&mut o.skills, dmg.skill_id, false, true, crit, dmg.damage);
    v.set(oi, o);
    proof {
        assert forall|a: int, b: int| 0 <= a < b < v@.len() implies (#[trigger] v@[a]).name@
            != (#[trigger] v@[b]).name@ by {
        }
    }
}

/// The live encounter state machine.
pub struct EncounterState {
    pub encounter: Encounter,
    pub phase: FightPhase,
    /// One-way validity latch: false after any decryption failure, until
    /// the next soft reset.
    pub damage_is_valid: bool,
    pub raid_difficulty: String,
    pub raid_difficulty_id: u32,
    pub party_info: Vec<Vec<String>>,
    pub raid_clear: bool,
    pub boss_only_damage: bool,
    /// Set when an encounter end was observed and the state should be
    /// saved and cleared after the next publication.
    pub resetting: bool,
    pub saved: bool,
    /// Set when the current boss died and the next snapshot must show it
    /// at zero HP.
    pub boss_dead_update: bool,
    pub region: Option<String>,
    pub skill_tracker: SkillTracker,
    /// Hard-crowd-control applications currently active on players:
    /// instance id, start time, and the held entity's row name.
    pub active_ccs: Vec<(u32, u64, String)>,
}

impl EncounterState {
    pub open spec fn wf(self) -> bool {
        self.encounter.wf() && self.skill_tracker.wf()
    }

    /// Flags and anchors that plain row bookkeeping never touches.
    pub open spec fn same_flags(pre: EncounterState, post: EncounterState) -> bool {
        post.damage_is_valid == pre.damage_is_valid && post.raid_clear == pre.raid_clear
            && post.boss_only_damage == pre.boss_only_damage && post.resetting == pre.resetting
            && post.saved == pre.saved && post.region == pre.region
            && post.raid_difficulty_id == pre.raid_difficulty_id
    }

    pub fn new(boss_only_damage: bool, region: Option<String>) -> (r: EncounterState)
        ensures
            r.wf(),
            r.damage_is_valid,
            r.phase == FightPhase::Idle,
            r.encounter.fight_start == 0,
            r.encounter.entities@.len() == 0,
            r.boss_only_damage == boss_only_damage,
            !r.resetting,
            !r.saved,
            !r.raid_clear,
            !r.boss_dead_update,
    {
        let mut encounter = Encounter::new();
        encounter.region = match &region {
            Some(s) => Some(s.clone()),
            None => None,
        };
        EncounterState {
            encounter,
            phase: FightPhase::Idle,
            damage_is_valid: true,
            raid_difficulty: String::new(),
            raid_difficulty_id: 0,
            party_info: Vec::new(),
            raid_clear: false,
            boss_only_damage,
            resetting: false,
            saved: false,
            boss_dead_update: false,
            region,
            skill_tracker: SkillTracker::new(),
            active_ccs: Vec::new(),
        }
    }

    /// Clear the encounter for a fresh pull: entities, totals, the combat
    /// clock, phase and the validity latch are re-armed; identity anchors,
    /// region and the boss-only flag survive. The identity and party
    /// resolvers are not touched here — a full reset clears those at the
    /// engine level.
    pub fn soft_reset(&mut self)
        ensures
            final(self).wf(),
            final(self).damage_is_valid,
            final(self).phase == FightPhase::Idle,
            final(self).encounter.fight_start == 0,
            final(self).encounter.last_combat_packet == 0,
            final(self).encounter.entities@.len() == 0,
            final(self).encounter.stats == zero_encounter_stats(),
            !final(self).raid_clear,
            !final(self).resetting,
            !final(self).saved,
            !final(self).boss_dead_update,
            final(self).party_info@.len() == 0,
            final(self).boss_only_damage == old(self).boss_only_damage,
            final(self).encounter.local_player@ == old(self).encounter.local_player@,
            final(self).region == old(self).region,
    {
        self.encounter.fight_start = 0;
        self.encounter.last_combat_packet = 0;
        self.encounter.entities.clear();
        self.encounter.current_boss_name = String::new();
        self.encounter.stats = zero_stats_exec();
        self.phase = FightPhase::Idle;
        self.damage_is_valid = true;
        self.raid_clear = false;
        self.resetting = false;
        self.saved = false;
        self.boss_dead_update = false;
        self.skill_tracker.clear();
        self.active_ccs.clear();
        self.party_info.clear();
    }

    /// Zone entry: the encounter is cleared, the validity latch re-armed,
    /// difficulty forgotten, the local player re-anchored and the region
    /// recorded.
    pub fn on_init_env(&mut self, local: &Entity, region: Option<String>)
        ensures
            final(self).wf(),
            final(self).damage_is_valid,
            final(self).phase == FightPhase::Idle,
            final(self).encounter.fight_start == 0,
            final(self).encounter.entities@.len() == 0,
            final(self).encounter.local_player@ == local.name@,
            final(self).raid_difficulty_id == 0,
            final(self).raid_difficulty@ == Seq::<char>::empty(),
            final(self).boss_only_damage == old(self).boss_only_damage,
    {
        self.soft_reset();
        self.raid_difficulty = String::new();
        self.raid_difficulty_id = 0;
        self.encounter.local_player = local.name.clone();
        self.region = match &region {
            Some(s) => Some(s.clone()),
            None => None,
        };
        self.encounter.region = region;
    }

    /// Register the local player's row and anchor its name.
    pub fn on_init_pc(&mut self, e: &Entity, hp: i64, max_hp: i64)
        requires
            old(self).wf(),
        ensures
            final(self).wf(),
            Self::same_flags(*old(self), *final(self)),
            final(self).phase == old(self).phase,
            final(self).encounter.local_player@ == e.name@,
            entities_extend(old(self).encounter.entities@, final(self).encounter.entities@),
            forall|k: int|
                0 <= k < old(self).encounter.entities@.len()
                    && (#[trigger] old(self).encounter.entities@[k]).name@ == e.name@
                    ==> pc_row_at(final(self).encounter.entities@, k, *e, hp, max_hp),
            (forall|k: int|
                0 <= k < old(self).encounter.entities@.len()
                    ==> (#[trigger] old(self).encounter.entities@[k]).name@ != e.name@)
                ==> final(self).encounter.entities@.len() == old(self).encounter.entities@.len() + 1 && pc_row_at(
                final(self).encounter.entities@,
                old(self).encounter.entities@.len() as int,
                *e,
                hp,
                max_hp,
            ),
    {
        self.encounter.local_player = e.name.clone();
        let i = ensure_row(&mut self.encounter.entities, e, hp, max_hp);
        let mut row = self.encounter.entities[i].duplicate();
        row.id = e.id;
        row.character_id = e.character_id;
        row.class_id = e.class_id;
        row.entity_type = e.entity_type;
        row.current_hp = hp;
        row.max_hp = max_hp;
        self.encounter.entities.set(i, row);
        proof {
            assert forall|a: int, b: int|
                0 <= a < b < self.encounter.entities@.len() implies (
            #[trigger] self.encounter.entities@[a]).name@ != (
            #[trigger] self.encounter.entities@[b]).name@ by {
            }
        }
    }

    /// Register another player's row.
    pub fn on_new_pc(&mut self, e: &Entity, hp: i64, max_hp: i64)
        requires
            old(self).wf(),
        ensures
            final(self).wf(),
            Self::same_flags(*old(self), *final(self)),
            final(self).phase == old(self).phase,
            entities_extend(old(self).encounter.entities@, final(self).encounter.entities@),
            forall|k: int|
                0 <= k < old(self).encounter.entities@.len()
                    && (#[trigger] old(self).encounter.entities@[k]).name@ == e.name@
                    ==> pc_row_at(final(self).encounter.entities@, k, *e, hp, max_hp),
            (forall|k: int|
                0 <= k < old(self).encounter.entities@.len()
                    ==> (#[trigger] old(self).encounter.entities@[k]).name@ != e.name@)
                ==> final(self).encounter.entities@.len() == old(self).encounter.entities@.len() + 1 && pc_row_at(
                final(self).encounter.entities@,
                old(self).encounter.entities@.len() as int,
                *e,
                hp,
                max_hp,
            ),
    {
        let i = ensure_row(&mut self.encounter.entities, e, hp, max_hp);
        let mut row = self.encounter.entities[i].duplicate();
        row.id = e.id;
        row.character_id = e.character_id;
        row.class_id = e.class_id;
        row.entity_type = e.entity_type;
        row.current_hp = hp;
        row.max_hp = max_hp;
        self.encounter.entities.set(i, row);
        proof {
            assert forall|a: int, b: int|
                0 <= a < b < self.encounter.entities@.len() implies (
            #[trigger] self.encounter.entities@[a]).name@ != (
            #[trigger] self.encounter.entities@[b]).name@ by {
            }
        }
    }

    /// Register an npc's row; a live boss-kind npc is considered for the
    /// boss banner when it is the first seen or outranks the current one
    /// by maximum HP.
    pub fn on_new_npc(&mut self, e: &Entity, hp: i64, max_hp: i64)
        requires
            old(self).wf(),
        ensures
            final(self).wf(),
            Self::same_flags(*old(self), *final(self)),
            final(self).phase == old(self).phase,
            entities_extend(old(self).encounter.entities@, final(self).encounter.entities@),
            forall|k: int|
                0 <= k < old(self).encounter.entities@.len()
                    && (#[trigger] old(self).encounter.entities@[k]).name@ == e.name@
                    ==> npc_row_at(final(self).encounter.entities@, k, *e, hp, max_hp),
            (forall|k: int|
                0 <= k < old(self).encounter.entities@.len()
                    ==> (#[trigger] old(self).encounter.entities@[k]).name@ != e.name@)
                ==> final(self).encounter.entities@.len() == old(self).encounter.entities@.len() + 1 && npc_row_at(
                final(self).encounter.entities@,
                old(self).encounter.entities@.len() as int,
                *e,
                hp,
                max_hp,
            ),
            final(self).encounter.current_boss_name@ == e.name@
                || final(self).encounter.current_boss_name@ == old(self).encounter.current_boss_name@,
            (e.entity_type != EntityType::Boss || max_hp <= 0) ==> final(self).encounter.current_boss_name@ == old(self).encounter.current_boss_name@,
            (e.entity_type == EntityType::Boss && max_hp > 0 && (forall|k: int|
                0 <= k < old(self).encounter.entities@.len()
                    && (#[trigger] old(self).encounter.entities@[k]).name@ == old(self).encounter.current_boss_name@ ==> (old(self).encounter.entities@[k].is_dead
                    || old(self).encounter.entities@[k].max_hp <= max_hp))) ==> final(self).encounter.current_boss_name@ == e.name@,
    {
        let i = ensure_row(&mut self.encounter.entities, e, hp, max_hp);
        let mut row = self.encounter.entities[i].duplicate();
        row.id = e.id;
        row.npc_id = e.npc_id;
        row.entity_type = e.entity_type;
        row.current_hp = hp;
        row.max_hp = max_hp;
        self.encounter.entities.set(i, row);
        proof {
            assert forall|a: int, b: int|
                0 <= a < b < self.encounter.entities@.len() implies (
            #[trigger] self.encounter.entities@[a]).name@ != (
            #[trigger] self.encounter.entities@[b]).name@ by {
            }
        }
        let is_boss = match e.entity_type {
            EntityType::Boss => true,
            _ => false,
        };
        if is_boss && max_hp > 0 {
            let take_banner = if self.encounter.current_boss_name.as_str().is_empty() {
                true
            } else {
                match crate::encounter::find_row(
                    &self.encounter.entities,
                    &self.encounter.current_boss_name,
                ) {
                    Some(b) => {
                        let outranked = self.encounter.entities[b].is_dead
                            || self.encounter.entities[b].max_hp <= max_hp;
                        proof {
                            if !outranked {
                                if b == i {
                                    assert(false);
                                } else {
                                    assert(self.encounter.entities@[b as int]
                                        == old(self).encounter.entities@[b as int]);
                                }
                            }
                        }
                        outranked
                    },
                    None => true,
                }
            };
            if take_banner {
                self.encounter.current_boss_name = e.name.clone();
            }
        }
    }

    /// Core aggregation of one decrypted damage event: the dealer's and
    /// target's rows are materialized and their cumulative counters grown,
    /// attribution categories credited from the status effects active at
    /// the hit, the combat clock advanced, and the fight marked in
    /// progress. Untracked events change nothing.
    #[verifier::loop_isolation(false)]
    pub fn on_damage(
        &mut self,
        owner: &Entity,
        target: &Entity,
        dmg: DamageData,
        se_on_source: &Vec<u32>,
        se_on_target: &Vec<u32>,
        config: &MeterConfig,
        now: u64,
    )
        requires
            old(self).wf(),
        ensures
            final(self).wf(),
            final(self).damage_is_valid == old(self).damage_is_valid,
            final(self).resetting == old(self).resetting,
            final(self).raid_clear == old(self).raid_clear,
            final(self).boss_only_damage == old(self).boss_only_damage,
            entities_extend(old(self).encounter.entities@, final(self).encounter.entities@),
            !damage_tracked(*owner, *target, old(self).boss_only_damage) ==> *final(self)
                == *old(self),
            damage_tracked(*owner, *target, old(self).boss_only_damage) ==> {
                &&& final(self).phase == FightPhase::InProgress
                &&& final(self).encounter.fight_start == (if old(self).encounter.fight_start
                    == 0 {
                    now
                } else {
                    old(self).encounter.fight_start
                })
                &&& final(self).encounter.last_combat_packet >= final(self).encounter.fight_start
                &&& final(self).encounter.last_combat_packet >= now
                &&& (forall|k: int|
                    0 <= k < old(self).encounter.entities@.len() && (#[trigger] old(self).encounter.entities@[k]).name@ == owner.name@ ==> final(self).encounter.entities@[k].damage_stats.damage_dealt == add_sat(
                        old(self).encounter.entities@[k].damage_stats.damage_dealt,
                        dmg.damage,
                    ))
                &&& (forall|k: int|
                    0 <= k < old(self).encounter.entities@.len() && (#[trigger] old(self).encounter.entities@[k]).name@ == owner.name@
                        ==> final(self).encounter.entities@[k].damage_stats.buffed_by_support == (
                        if spec_any_common(se_on_source@, config.support_buff_ids@) {
                            add_sat(
                                old(self).encounter.entities@[k].damage_stats.buffed_by_support,
                                dmg.damage,
                            )
                        } else {
                            old(self).encounter.entities@[k].damage_stats.buffed_by_support
                        }) && final(self).encounter.entities@[k].damage_stats.debuffed_by_support
                        == (if spec_any_common(se_on_target@, config.support_debuff_ids@) {
                        add_sat(
                            old(self).encounter.entities@[k].damage_stats.debuffed_by_support,
                            dmg.damage,
                        )
                    } else {
                        old(self).encounter.entities@[k].damage_stats.debuffed_by_support
                    }) && final(self).encounter.entities@[k].damage_stats.buffed_by_identity == (
                        if spec_any_common(se_on_source@, config.identity_buff_ids@) {
                            add_sat(
                                old(self).encounter.entities@[k].damage_stats.buffed_by_identity,
                                dmg.damage,
                            )
                        } else {
                            old(self).encounter.entities@[k].damage_stats.buffed_by_identity
                        }) && final(self).encounter.entities@[k].damage_stats.hyper_awakening_damage
                        == (if seq_contains_u32(config.hyper_awakening_skill_ids@, dmg.skill_id) {
                        add_sat(
                            old(self).encounter.entities@[k].damage_stats.hyper_awakening_damage,
                            dmg.damage,
                        )
                    } else {
                        old(self).encounter.entities@[k].damage_stats.hyper_awakening_damage
                    }))
                &&& (forall|k: int|
                    0 <= k < old(self).encounter.entities@.len() && (#[trigger] old(self).encounter.entities@[k]).name@ == target.name@ ==> final(self).encounter.entities@[k].damage_stats.damage_taken == add_sat(
                        old(self).encounter.entities@[k].damage_stats.damage_taken,
                        dmg.damage,
                    ))
                &&& final(self).encounter.stats.total_damage_dealt == (if counts_into_totals(
                    *owner,
                ) {
                    add_sat(old(self).encounter.stats.total_damage_dealt, dmg.damage)
                } else {
                    old(self).encounter.stats.total_damage_dealt
                })
            },
    {
        let aggregated = (match owner.entity_type {
            EntityType::Player => true,
            EntityType::Esther => true,
            EntityType::Boss => true,
            _ => false,
        }) && (!self.boss_only_damage || (match target.entity_type {
            EntityType::Boss => true,
            _ => false,
        }) || (match owner.entity_type {
            EntityType::Boss => true,
            _ => false,
        }));
        if !aggregated {
            return;
        }
        if self.encounter.fight_start == 0 {
            self.encounter.fight_start = now;
        }
        self.phase = FightPhase::InProgress;
        if now > self.encounter.fight_start {
            self.encounter.last_combat_packet = now;
        } else {
            self.encounter.last_combat_packet = self.encounter.fight_start;
        }
        let buffed = any_common(se_on_source, &config.support_buff_ids);
        let debuffed = any_common(se_on_target, &config.support_debuff_ids);
        let identity = any_common(se_on_source, &config.identity_buff_ids);
        let hat = any_common(se_on_source, &config.hat_buff_ids);
        let hyper = contains_u32(&config.hyper_awakening_skill_ids, dmg.skill_id);
        let crit = dmg.modifier & 1 == 1;
        let ghost s0 = self.encounter.entities@;
        apply_damage_taken(&mut self.encounter.entities, target, dmg);
        let ghost s1 = self.encounter.entities@;
        apply_damage_dealt(
            &mut self.encounter.entities,
            owner,
            dmg,
            buffed,
            debuffed,
            identity,
            hat,
            hyper,
            crit,
        );
        let ghost s2 = self.encounter.entities@;
        proof {
            crate::encounter::lemma_extend_trans(s0, s1, s2);
            assert forall|k: int|
                0 <= k < s0.len() && (#[trigger] s0[k]).name@ == owner.name@ implies
                s2[k].damage_stats.damage_dealt == add_sat(
                s0[k].damage_stats.damage_dealt,
                dmg.damage,
            ) by {
                if s0[k].name@ == target.name@ {
                    assert(s1[k].damage_stats.damage_dealt == s0[k].damage_stats.damage_dealt);
                } else {
                    assert(s1[k] == s0[k]);
                }
                assert(s1[k].name@ == owner.name@);
            }
            assert forall|k: int|
                0 <= k < s0.len() && (#[trigger] s0[k]).name@ == target.name@ implies
                s2[k].damage_stats.damage_taken == add_sat(
                s0[k].damage_stats.damage_taken,
                dmg.damage,
            ) by {
                assert(s1[k].damage_stats.damage_taken == add_sat(
                    s0[k].damage_stats.damage_taken,
                    dmg.damage,
                ));
                assert(s1[k].name@ == target.name@);
                if s1[k].name@ == owner.name@ {
                    assert(s2[k].damage_stats.damage_taken == s1[k].damage_stats.damage_taken);
                } else {
                    assert(s2[k] == s1[k]);
                }
            }
        }
        let counts = match owner.entity_type {
            EntityType::Player => true,
            EntityType::Esther => true,
            _ => false,
        };
        if counts {
            self.encounter.stats.total_damage_dealt =
                self.encounter.stats.total_damage_dealt.saturating_add(dmg.damage);
        }
    }

    /// Mark an entity's row dead at `now`.
    pub fn on_death(&mut self, target: &Entity, now: u64)
        requires
            old(self).wf(),
        ensures
            final(self).wf(),
            Self::same_flags(*old(self), *final(self)),
            final(self).phase == old(self).phase,
            entities_extend(old(self).encounter.entities@, final(self).encounter.entities@),
            forall|k: int|
                0 <= k < old(self).encounter.entities@.len() && (#[trigger] old(self).encounter.entities@[k]).name@ == target.name@ ==> final(self).encounter.entities@[k].is_dead && final(self).encounter.entities@[k].damage_stats.death_time
                    == now && final(self).encounter.entities@[k].damage_stats.deaths == add_sat(
                    old(self).encounter.entities@[k].damage_stats.deaths,
                    1,
                ),
    {
        let i = ensure_row(&mut self.encounter.entities, target, 0, 0);
        let mut row = self.encounter.entities[i].duplicate();
        row.is_dead = true;
        row.current_hp = 0;
        row.damage_stats.deaths = row.damage_stats.deaths.saturating_add(1);
        row.damage_stats.death_time = now;
        self.encounter.entities.set(i, row);
        proof {
            assert forall|a: int, b: int|
                0 <= a < b < self.encounter.entities@.len() implies (
            #[trigger] self.encounter.entities@[a]).name@ != (
            #[trigger] self.encounter.entities@[b]).name@ by {
            }
        }
    }

    /// Count a counter-attack by this entity.
    pub fn on_counterattack(&mut self, e: &Entity)
        requires
            old(self).wf(),
        ensures
            final(self).wf(),
            Self::same_flags(*old(self), *final(self)),
            final(self).phase == old(self).phase,
            entities_extend(old(self).encounter.entities@, final(self).encounter.entities@),
            forall|k: int|
                0 <= k < old(self).encounter.entities@.len() && (#[trigger] old(self).encounter.entities@[k]).name@ == e.name@ ==> final(self).encounter.entities@[k].skill_stats.counters == add_sat(
                    old(self).encounter.entities@[k].skill_stats.counters,
                    1,
                ),
    {
        let i = ensure_row(&mut self.encounter.entities, e, 0, 0);
        let mut row = self.encounter.entities[i].duplicate();
        row.skill_stats.counters = row.skill_stats.counters.saturating_add(1);
        self.encounter.entities.set(i, row);
        proof {
            assert forall|a: int, b: int|
                0 <= a < b < self.encounter.entities@.len() implies (
            #[trigger] self.encounter.entities@[a]).name@ != (
            #[trigger] self.encounter.entities@[b]).name@ by {
            }
        }
    }

    /// Count an abnormal-move hit, which can knock a player down.
    pub fn on_abnormal_move(&mut self, target: &Entity)
        requires
            old(self).wf(),
        ensures
            final(self).wf(),
            Self::same_flags(*old(self), *final(self)),
            final(self).phase == old(self).phase,
            entities_extend(old(self).encounter.entities@, final(self).encounter.entities@),
            forall|k: int|
                0 <= k < old(self).encounter.entities@.len() && (#[trigger] old(self).encounter.entities@[k]).name@ == target.name@ ==> final(self).encounter.entities@[k].skill_stats.knockdowns == add_sat(
                    old(self).encounter.entities@[k].skill_stats.knockdowns,
                    1,
                ),
            (forall|k: int|
                0 <= k < old(self).encounter.entities@.len()
                    ==> (#[trigger] old(self).encounter.entities@[k]).name@ != target.name@)
                ==> final(self).encounter.entities@.len() == old(self).encounter.entities@.len()
                + 1 && final(self).encounter.entities@[old(self).encounter.entities@.len() as int].name@
                == target.name@ && final(self).encounter.entities@[old(self).encounter.entities@.len() as int].skill_stats.knockdowns
                == 1,
    {
        let i = ensure_row(&mut self.encounter.entities, target, 0, 0);
        let mut row = self.encounter.entities[i].duplicate();
        row.skill_stats.knockdowns = row.skill_stats.knockdowns.saturating_add(1);
        self.encounter.entities.set(i, row);
        proof {
            assert forall|a: int, b: int|
                0 <= a < b < self.encounter.entities@.len() implies (
            #[trigger] self.encounter.entities@[a]).name@ != (
            #[trigger] self.encounter.entities@[b]).name@ by {
            }
        }
    }

    /// Record a skill start on the caster's row: one more cast overall and
    /// for that skill.
    pub fn on_skill_start(&mut self, e: &Entity, skill_id: u32)
        requires
            old(self).wf(),
        ensures
            final(self).wf(),
            Self::same_flags(*old(self), *final(self)),
            final(self).phase == old(self).phase,
            entities_extend(old(self).encounter.entities@, final(self).encounter.entities@),
            forall|k: int|
                0 <= k < old(self).encounter.entities@.len() && (#[trigger] old(self).encounter.entities@[k]).name@ == e.name@ ==> final(self).encounter.entities@[k].skill_stats.casts == add_sat(
                    old(self).encounter.entities@[k].skill_stats.casts,
                    1,
                ),
    {
        let i = ensure_row(&mut self.encounter.entities, e, 0, 0);
        let mut row = self.encounter.entities[i].duplicate();
        row.skill_stats.casts = row.skill_stats.casts.saturating_add(1);
        bump_skill(&mut row.skills, skill_id, true, false, false, 0);
        self.encounter.entities.set(i, row);
        proof {
            assert forall|a: int, b: int|
                0 <= a < b < self.encounter.entities@.len() implies (
            #[trigger] self.encounter.entities@[a]).name@ != (
            #[trigger] self.encounter.entities@[b]).name@ by {
            }
        }
    }

    /// A shield application landed on the current boss: show its remaining
    /// shield points.
    pub fn on_boss_shield(&mut self, target: &Entity, value: u64)
        requires
            old(self).wf(),
        ensures
            final(self).wf(),
            Self::same_flags(*old(self), *final(self)),
            final(self).phase == old(self).phase,
            entities_extend(old(self).encounter.entities@, final(self).encounter.entities@),
            target.name@ == old(self).encounter.current_boss_name@ ==> forall|k: int|
                0 <= k < old(self).encounter.entities@.len() && (#[trigger] old(self).encounter.entities@[k]).name@ == target.name@ ==> final(self).encounter.entities@[k].current_shield
                    == value,
            target.name@ != old(self).encounter.current_boss_name@ ==> final(self).encounter.entities@
                == old(self).encounter.entities@,
    {
        if *(&target.name) == *(&self.encounter.current_boss_name) {
            match crate::encounter::find_row(&self.encounter.entities, &target.name) {
                Some(i) => {
                    let mut row = self.encounter.entities[i].duplicate();
                    row.current_shield = value;
                    self.encounter.entities.set(i, row);
                    proof {
                        assert forall|a: int, b: int|
                            0 <= a < b < self.encounter.entities@.len() implies (
                        #[trigger] self.encounter.entities@[a]).name@ != (
                        #[trigger] self.encounter.entities@[b]).name@ by {
                        }
                    }
                },
                None => {},
            }
        }
    }

    /// Shield bookkeeping at application time: the granted points count
    /// toward the source's given and the target's received shielding, and
    /// toward the encounter total.
    pub fn on_shield_applied(&mut self, source: &Entity, target: &Entity, value: u64)
        requires
            old(self).wf(),
        ensures
            final(self).wf(),
            Self::same_flags(*old(self), *final(self)),
            final(self).phase == old(self).phase,
            entities_extend(old(self).encounter.entities@, final(self).encounter.entities@),
            final(self).encounter.stats.total_shielding == add_sat(
                old(self).encounter.stats.total_shielding,
                value,
            ),
            forall|k: int|
                0 <= k < old(self).encounter.entities@.len() && (#[trigger] old(self).encounter.entities@[k]).name@ == source.name@ ==> final(self).encounter.entities@[k].damage_stats.shields_given
                    == add_sat(
                    old(self).encounter.entities@[k].damage_stats.shields_given,
                    value,
                ),
            forall|k: int|
                0 <= k < old(self).encounter.entities@.len() && (#[trigger] old(self).encounter.entities@[k]).name@ == target.name@ ==> final(self).encounter.entities@[k].damage_stats.shields_received
                    == add_sat(
                    old(self).encounter.entities@[k].damage_stats.shields_received,
                    value,
                ),
    {
        let ghost s0 = self.encounter.entities@;
        let si = ensure_row(&mut self.encounter.entities, source, 0, 0);
        let mut srow = self.encounter.entities[si].duplicate();
        srow.damage_stats.shields_given = srow.damage_stats.shields_given.saturating_add(value);
        self.encounter.entities.set(si, srow);
        let ghost s1 = self.encounter.entities@;
        proof {
            assert forall|a: int, b: int|
                0 <= a < b < self.encounter.entities@.len() implies (
            #[trigger] self.encounter.entities@[a]).name@ != (
            #[trigger] self.encounter.entities@[b]).name@ by {
            }
            assert(entities_extend(s0, s1));
        }
        let ti = ensure_row(&mut self.encounter.entities, target, 0, 0);
        let mut trow = self.encounter.entities[ti].duplicate();
        trow.damage_stats.shields_received = trow.damage_stats.shields_received.saturating_add(
            value,
        );
        self.encounter.entities.set(ti, trow);
        let ghost s2 = self.encounter.entities@;
        proof {
            assert forall|a: int, b: int|
                0 <= a < b < self.encounter.entities@.len() implies (
            #[trigger] self.encounter.entities@[a]).name@ != (
            #[trigger] self.encounter.entities@[b]).name@ by {
            }
            assert(entities_extend(s1, s2));
            crate::encounter::lemma_extend_trans(s0, s1, s2);
            assert forall|k: int|
                0 <= k < s0.len() && (#[trigger] s0[k]).name@ == source.name@ implies
                s2[k].damage_stats.shields_given == add_sat(
                s0[k].damage_stats.shields_given,
                value,
            ) by {
                assert(s1[k].name@ == source.name@);
                if s1[k].name@ == target.name@ {
                    assert(s2[k].damage_stats.shields_given == s1[k].damage_stats.shields_given);
                } else {
                    assert(s2[k] == s1[k]);
                }
            }
            assert forall|k: int|
                0 <= k < s0.len() && (#[trigger] s0[k]).name@ == target.name@ implies
                s2[k].damage_stats.shields_received == add_sat(
                s0[k].damage_stats.shields_received,
                value,
            ) by {
                if s0[k].name@ == source.name@ {
                    assert(s1[k].damage_stats.shields_received
                        == s0[k].damage_stats.shields_received);
                } else {
                    assert(s1[k] == s0[k]);
                }
                assert(s1[k].name@ == target.name@);
            }
        }
        self.encounter.stats.total_shielding = self.encounter.stats.total_shielding.saturating_add(
            value,
        );
    }

    /// Shield bookkeeping at consumption time: the absorbed points count
    /// toward the source's effective shielding, the target's absorbed
    /// damage, and the encounter total.
    pub fn on_shield_used(&mut self, source: &Entity, target: &Entity, change: u64)
        requires
            old(self).wf(),
        ensures
            final(self).wf(),
            Self::same_flags(*old(self), *final(self)),
            final(self).phase == old(self).phase,
            entities_extend(old(self).encounter.entities@, final(self).encounter.entities@),
            final(self).encounter.stats.total_effective_shielding == add_sat(
                old(self).encounter.stats.total_effective_shielding,
                change,
            ),
            forall|k: int|
                0 <= k < old(self).encounter.entities@.len() && (#[trigger] old(self).encounter.entities@[k]).name@ == source.name@ ==> final(self).encounter.entities@[k].damage_stats.effective_shielding_given
                    == add_sat(
                    old(self).encounter.entities@[k].damage_stats.effective_shielding_given,
                    change,
                ),
            forall|k: int|
                0 <= k < old(self).encounter.entities@.len() && (#[trigger] old(self).encounter.entities@[k]).name@ == target.name@ ==> final(self).encounter.entities@[k].damage_stats.damage_absorbed
                    == add_sat(
                    old(self).encounter.entities@[k].damage_stats.damage_absorbed,
                    change,
                ),
    {
        let ghost s0 = self.encounter.entities@;
        let si = ensure_row(&mut self.encounter.entities, source, 0, 0);
        let mut srow = self.encounter.entities[si].duplicate();
        srow.damage_stats.effective_shielding_given =
            srow.damage_stats.effective_shielding_given.saturating_add(change);
        self.encounter.entities.set(si, srow);
        let ghost s1 = self.encounter.entities@;
        proof {
            assert forall|a: int, b: int|
                0 <= a < b < self.encounter.entities@.len() implies (
            #[trigger] self.encounter.entities@[a]).name@ != (
            #[trigger] self.encounter.entities@[b]).name@ by {
            }
            assert(entities_extend(s0, s1));
        }
        let ti = ensure_row(&mut self.encounter.entities, target, 0, 0);
        let mut trow = self.encounter.entities[ti].duplicate();
        trow.damage_stats.damage_absorbed = trow.damage_stats.damage_absorbed.saturating_add(
            change,
        );
        self.encounter.entities.set(ti, trow);
        let ghost s2 = self.encounter.entities@;
        proof {
            assert forall|a: int, b: int|
                0 <= a < b < self.encounter.entities@.len() implies (
            #[trigger] self.encounter.entities@[a]).name@ != (
            #[trigger] self.encounter.entities@[b]).name@ by {
            }
            assert(entities_extend(s1, s2));
            crate::encounter::lemma_extend_trans(s0, s1, s2);
            assert forall|k: int|
                0 <= k < s0.len() && (#[trigger] s0[k]).name@ == source.name@ implies
                s2[k].damage_stats.effective_shielding_given == add_sat(
                s0[k].damage_stats.effective_shielding_given,
                change,
            ) by {
                assert(s1[k].name@ == source.name@);
                if s1[k].name@ == target.name@ {
                    assert(s2[k].damage_stats.effective_shielding_given
                        == s1[k].damage_stats.effective_shielding_given);
                } else {
                    assert(s2[k] == s1[k]);
                }
            }
            assert forall|k: int|
                0 <= k < s0.len() && (#[trigger] s0[k]).name@ == target.name@ implies
                s2[k].damage_stats.damage_absorbed == add_sat(
                s0[k].damage_stats.damage_absorbed,
                change,
            ) by {
                if s0[k].name@ == source.name@ {
                    assert(s1[k].damage_stats.damage_absorbed
                        == s0[k].damage_stats.damage_absorbed);
                } else {
                    assert(s1[k] == s0[k]);
                }
                assert(s1[k].name@ == target.name@);
            }
        }
        self.encounter.stats.total_effective_shielding =
            self.encounter.stats.total_effective_shielding.saturating_add(change);
    }

    /// A hard crowd control landed on a player: remember when it started.
    pub fn on_cc_applied(&mut self, target: &Entity, instance_id: u32, now: u64)
        requires
            old(self).wf(),
        ensures
            final(self).wf(),
            Self::same_flags(*old(self), *final(self)),
            final(self).phase == old(self).phase,
            final(self).encounter.entities@ == old(self).encounter.entities@,
            final(self).active_ccs@.len() == old(self).active_ccs@.len() + 1,
            final(self).active_ccs@[old(self).active_ccs@.len() as int].0 == instance_id,
            final(self).active_ccs@[old(self).active_ccs@.len() as int].1 == now,
            final(self).active_ccs@[old(self).active_ccs@.len() as int].2@ == target.name@,
            forall|j: int|
                0 <= j < old(self).active_ccs@.len() ==> final(self).active_ccs@[j] == #[trigger] old(self).active_ccs@[j],
    {
        self.active_ccs.push((instance_id, now, target.name.clone()));
    }

    /// A hard crowd control ended: credit the held time to the target's
    /// incapacitated total and forget the application.
    #[verifier::loop_isolation(false)]
    pub fn on_cc_removed(&mut self, target: &Entity, instance_id: u32, now: u64)
        requires
            old(self).wf(),
        ensures
            final(self).wf(),
            Self::same_flags(*old(self), *final(self)),
            final(self).phase == old(self).phase,
            entities_extend(old(self).encounter.entities@, final(self).encounter.entities@),
            (forall|j: int|
                0 <= j < old(self).active_ccs@.len() ==> (#[trigger] old(self).active_ccs@[j]).0 != instance_id) ==> *final(self) == *old(self),
            forall|j: int|
                0 <= j < old(self).active_ccs@.len() && (#[trigger] old(self).active_ccs@[j]).0
                    == instance_id && (forall|j2: int|
                    0 <= j2 < j ==> (#[trigger] old(self).active_ccs@[j2]).0 != instance_id)
                    ==> final(self).active_ccs@ == old(self).active_ccs@.remove(j) && (forall|
                    k: int,
                |
                    0 <= k < old(self).encounter.entities@.len() && (#[trigger] old(self).encounter.entities@[k]).name@ == target.name@ ==> final(self).encounter.entities@[k].damage_stats.incapacitated_ms
                        == add_sat(
                        old(self).encounter.entities@[k].damage_stats.incapacitated_ms,
                        sub_sat(now, old(self).active_ccs@[j].1),
                    )),
    {
        let n = self.active_ccs.len();
        let mut found: Option<usize> = None;
        let mut j: usize = 0;
        while j < n
            invariant
                n == self.active_ccs@.len(),
                self.active_ccs@ == old(self).active_ccs@,
                *self == *old(self),
                0 <= j <= n,
                match found {
                    Some(f) => f < n && self.active_ccs@[f as int].0 == instance_id
                        && forall|j2: int|
                        0 <= j2 < f ==> (#[trigger] self.active_ccs@[j2]).0 != instance_id,
                    None => forall|j2: int|
                        0 <= j2 < j ==> (#[trigger] self.active_ccs@[j2]).0 != instance_id,
                },
            decreases n - j,
        {
            if found.is_none() && self.active_ccs[j].0 == instance_id {
                found = Some(j);
            }
            j = j + 1;
        }
        match found {
            Some(f) => {
                let start = self.active_ccs[f].1;
                let held = now.saturating_sub(start);
                self.active_ccs.remove(f);
                let i = ensure_row(&mut self.encounter.entities, target, 0, 0);
                let mut row = self.encounter.entities[i].duplicate();
                row.damage_stats.incapacitated_ms =
                    row.damage_stats.incapacitated_ms.saturating_add(held);
                self.encounter.entities.set(i, row);
                proof {
                    assert forall|a: int, b: int|
                        0 <= a < b < self.encounter.entities@.len() implies (
                    #[trigger] self.encounter.entities@[a]).name@ != (
                    #[trigger] self.encounter.entities@[b]).name@ by {
                    }
                    assert forall|j: int|
                        0 <= j < old(self).active_ccs@.len() && (#[trigger] old(self).active_ccs@[j]).0 == instance_id && (forall|j2: int|
                            0 <= j2 < j ==> (#[trigger] old(self).active_ccs@[j2]).0
                                != instance_id) implies j == f by {
                        if j < f {
                            assert(old(self).active_ccs@[j].0 != instance_id);
                        }
                        if j > f {
                            assert(old(self).active_ccs@[f as int].0 != instance_id);
                        }
                    }
                }
            },
            None => {},
        }
    }

    /// Refresh an entity's HP reading from a troop member update.
    pub fn update_entity_hp(&mut self, e: &Entity, cur_hp: i64, max_hp: i64)
        requires
            old(self).wf(),
        ensures
            final(self).wf(),
            Self::same_flags(*old(self), *final(self)),
            final(self).phase == old(self).phase,
            entities_extend(old(self).encounter.entities@, final(self).encounter.entities@),
            forall|k: int|
                0 <= k < old(self).encounter.entities@.len() && (#[trigger] old(self).encounter.entities@[k]).name@ == e.name@ ==> final(self).encounter.entities@[k].current_hp == cur_hp
                    && final(self).encounter.entities@[k].max_hp == max_hp,
            (forall|k: int|
                0 <= k < old(self).encounter.entities@.len()
                    ==> (#[trigger] old(self).encounter.entities@[k]).name@ != e.name@)
                ==> final(self).encounter.entities@ == old(self).encounter.entities@,
    {
        match crate::encounter::find_row(&self.encounter.entities, &e.name) {
            Some(i) => {
                let mut row = self.encounter.entities[i].duplicate();
                row.current_hp = cur_hp;
                row.max_hp = max_hp;
                self.encounter.entities.set(i, row);
                proof {
                    assert forall|a: int, b: int|
                        0 <= a < b < self.encounter.entities@.len() implies (
                    #[trigger] self.encounter.entities@[a]).name@ != (
                    #[trigger] self.encounter.entities@[b]).name@ by {
                    }
                }
            },
            None => {},
        }
    }

    /// Re-anchor the local player's display name.
    pub fn update_local_player(&mut self, e: &Entity)
        requires
            old(self).wf(),
        ensures
            final(self).wf(),
            Self::same_flags(*old(self), *final(self)),
            final(self).phase == old(self).phase,
            final(self).encounter.local_player@ == e.name@,
            final(self).encounter.entities@ == old(self).encounter.entities@,
    {
        self.encounter.local_player = e.name.clone();
    }

    /// A fight-phase transition. Codes: result shown, boss kill, clear
    /// signal, reset trigger for a new pull, wipe signal. The reset
    /// trigger performs a soft reset, which is the only way the validity
    /// latch is re-armed here.
    pub fn on_phase_transition(&mut self, code: u8)
        ensures
            old(self).wf() ==> final(self).wf(),
            code == 0 ==> final(self).phase == old(self).phase && final(self).resetting
                && final(self).damage_is_valid == old(self).damage_is_valid,
            code == 1 ==> final(self).phase == FightPhase::Cleared && final(self).boss_dead_update && final(self).damage_is_valid == old(self).damage_is_valid,
            code == 2 ==> final(self).phase == FightPhase::Cleared && final(self).resetting
                && final(self).damage_is_valid == old(self).damage_is_valid,
            code == 3 ==> final(self).phase == FightPhase::Idle && final(self).damage_is_valid
                && final(self).encounter.fight_start == 0,
            code == 4 ==> final(self).phase == FightPhase::Wiped && final(self).resetting
                && final(self).damage_is_valid == old(self).damage_is_valid,
            code > 4 ==> *final(self) == *old(self),
            code != 3 ==> final(self).encounter.entities@ == old(self).encounter.entities@
                && final(self).raid_clear == old(self).raid_clear,
            code == 3 ==> final(self).encounter.entities@.len() == 0,
            final(self).boss_only_damage == old(self).boss_only_damage,
    {
        if code == 0 {
            self.resetting = true;
        } else if code == 1 {
            self.phase = FightPhase::Cleared;
            self.boss_dead_update = true;
        } else if code == 2 {
            self.phase = FightPhase::Cleared;
            self.resetting = true;
        } else if code == 3 {
            self.soft_reset();
        } else if code == 4 {
            self.phase = FightPhase::Wiped;
            self.resetting = true;
        }
    }
}

/// Zero totals as an executable value.
fn zero_stats_exec() -> (r: crate::encounter::EncounterDamageStats)
    ensures
        r == zero_encounter_stats(),
{
    crate::encounter::EncounterDamageStats {
        total_damage_dealt: 0,
        top_damage_dealt: 0,
        total_damage_taken: 0,
        top_damage_taken: 0,
        total_shielding: 0,
        total_effective_shielding: 0,
        dps: 0,
    }
}

} // verus!
