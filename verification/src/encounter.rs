//! Encounter aggregate: the per-entity cumulative statistics rows and the
//! encounter-wide totals that damage dispatch maintains, keyed by entity
//! name. Rows are only ever appended or updated in place, so positions are
//! stable within an encounter and cumulative counters never decrease
//! except on a reset.

use vstd::prelude::*;

use crate::entity_tracker::Entity;
use crate::models::EntityType;

verus! {

/// Cumulative damage bookkeeping of one entity. Monotonically
/// non-decreasing within one encounter except for a full reset.
#[derive(Clone, Copy, PartialEq, Eq, Structural, Debug)]
pub struct DamageStats {
    pub damage_dealt: u64,
    pub damage_taken: u64,
    /// Damage dealt while a support's buff was active on the dealer.
    pub buffed_by_support: u64,
    /// Damage dealt while a support's debuff was active on the target.
    pub debuffed_by_support: u64,
    /// Damage dealt while a support's identity buff was active.
    pub buffed_by_identity: u64,
    /// Damage dealt while a hyper-awakening-technique buff was active.
    pub buffed_by_hat: u64,
    /// Damage dealt by hyper-awakening skills themselves.
    pub hyper_awakening_damage: u64,
    /// Shield points this entity granted to others.
    pub shields_given: u64,
    /// Shield points granted to this entity.
    pub shields_received: u64,
    /// Damage soaked by shields on this entity.
    pub damage_absorbed: u64,
    /// Damage soaked by shields this entity had granted.
    pub effective_shielding_given: u64,
    pub deaths: u64,
    pub death_time: u64,
    /// Milliseconds spent hard-crowd-controlled.
    pub incapacitated_ms: u64,
    pub dps: u64,
}

/// Skill usage counters of one entity.
#[derive(Clone, Copy, PartialEq, Eq, Structural, Debug)]
pub struct SkillStats {
    pub casts: u64,
    pub hits: u64,
    pub crits: u64,
    pub counters: u64,
    pub knockdowns: u64,
}

/// Per-skill accumulators of one entity.
#[derive(Clone, Copy, PartialEq, Eq, Structural, Debug)]
pub struct SkillEntry {
    pub casts: u64,
    pub hits: u64,
    pub crits: u64,
    pub total_damage: u64,
    pub dps: u64,
}

/// Encounter-wide totals.
#[derive(Clone, Copy, PartialEq, Eq, Structural, Debug)]
pub struct EncounterDamageStats {
    pub total_damage_dealt: u64,
    pub top_damage_dealt: u64,
    pub total_damage_taken: u64,
    pub top_damage_taken: u64,
    pub total_shielding: u64,
    pub total_effective_shielding: u64,
    pub dps: u64,
}

impl DamageStats {
    /// This bookkeeping with the taken counter replaced.
    pub open spec fn with_taken(self, taken: u64) -> DamageStats {
        DamageStats { damage_taken: taken, ..self }
    }
}

/// All-zero damage bookkeeping.
pub open spec fn zero_damage_stats() -> DamageStats {
    DamageStats {
        damage_dealt: 0,
        damage_taken: 0,
        buffed_by_support: 0,
        debuffed_by_support: 0,
        buffed_by_identity: 0,
        buffed_by_hat: 0,
        hyper_awakening_damage: 0,
        shields_given: 0,
        shields_received: 0,
        damage_absorbed: 0,
        effective_shielding_given: 0,
        deaths: 0,
        death_time: 0,
        incapacitated_ms: 0,
        dps: 0,
    }
}

/// All-zero skill usage counters.
pub open spec fn zero_skill_stats() -> SkillStats {
    SkillStats { casts: 0, hits: 0, crits: 0, counters: 0, knockdowns: 0 }
}

/// All-zero encounter totals.
pub open spec fn zero_encounter_stats() -> EncounterDamageStats {
    EncounterDamageStats {
        total_damage_dealt: 0,
        top_damage_dealt: 0,
        total_damage_taken: 0,
        top_damage_taken: 0,
        total_shielding: 0,
        total_effective_shielding: 0,
        dps: 0,
    }
}

/// One entity's statistics row within the encounter, keyed by name.
pub struct EncounterEntity {
    pub name: String,
    pub id: u64,
    pub character_id: u64,
    pub npc_id: u32,
    pub entity_type: EntityType,
    pub class_id: u32,
    pub current_hp: i64,
    pub max_hp: i64,
    pub is_dead: bool,
    /// Remaining shield points currently on this entity.
    pub current_shield: u64,
    pub damage_stats: DamageStats,
    pub skill_stats: SkillStats,
    pub skills: Vec<(u32, SkillEntry)>,
}

/// A field-identical copy of a skills table.
fn copy_skills(v: &Vec<(u32, SkillEntry)>) -> (r: Vec<(u32, SkillEntry)>)
    ensures
        r@ == v@,
{
    let n = v.len();
    let mut r: Vec<(u32, SkillEntry)> = Vec::new();
    let mut i: usize = 0;
    while i < n
        invariant
            n == v@.len(),
            0 <= i <= n,
            r@ == v@.subrange(0, i as int),
        decreases n - i,
    {
        r.push(v[i]);
        proof {
            assert(r@ =~= v@.subrange(0, i as int + 1));
        }
        i = i + 1;
    }
    proof {
        assert(v@.subrange(0, n as int) =~= v@);
    }
    r
}

/// Field-wise equality of two rows; the skills tables are compared by
/// their contents.
pub open spec fn row_eq(a: EncounterEntity, b: EncounterEntity) -> bool {
    a.name@ == b.name@ && a.id == b.id && a.character_id == b.character_id && a.npc_id == b.npc_id
        && a.entity_type == b.entity_type && a.class_id == b.class_id && a.current_hp
        == b.current_hp && a.max_hp == b.max_hp && a.is_dead == b.is_dead && a.current_shield
        == b.current_shield && a.damage_stats == b.damage_stats && a.skill_stats == b.skill_stats
        && a.skills@ == b.skills@
}

impl EncounterEntity {
    /// A field-identical copy.
    pub fn duplicate(&self) -> (r: EncounterEntity)
        ensures
            row_eq(r, *self),
    {
        let r = EncounterEntity {
            name: self.name.clone(),
            id: self.id,
            character_id: self.character_id,
            npc_id: self.npc_id,
            entity_type: self.entity_type,
            class_id: self.class_id,
            current_hp: self.current_hp,
            max_hp: self.max_hp,
            is_dead: self.is_dead,
            current_shield: self.current_shield,
            damage_stats: self.damage_stats,
            skill_stats: self.skill_stats,
            skills: copy_skills(&self.skills),
        };
        r
    }
}

/// Whether `row` is a freshly materialized statistics row for `src`.
pub open spec fn fresh_row(row: EncounterEntity, src: Entity, hp: i64, max_hp: i64) -> bool {
    row.name@ == src.name@ && row.id == src.id && row.character_id == src.character_id
        && row.npc_id == src.npc_id && row.entity_type == src.entity_type && row.class_id
        == src.class_id && row.current_hp == hp && row.max_hp == max_hp && !row.is_dead
        && row.current_shield == 0 && row.damage_stats == zero_damage_stats() && row.skill_stats
        == zero_skill_stats() && row.skills@ == Seq::<(u32, SkillEntry)>::empty()
}

/// Row names are duplicate-free.
pub open spec fn distinct_names(s: Seq<EncounterEntity>) -> bool {
    forall|i: int, j: int|
        0 <= i < j < s.len() ==> (#[trigger] s[i]).name@ != (#[trigger] s[j]).name@
}

/// `b` carries every row of `a` at its position, with the same name and
/// with cumulative damage counters at least as large: rows are appended or
/// updated in place, never removed or reordered, and damage only grows.
pub open spec fn entities_extend(a: Seq<EncounterEntity>, b: Seq<EncounterEntity>) -> bool {
    a.len() <= b.len() && forall|i: int|
        0 <= i < a.len() ==> (#[trigger] b[i]).name@ == a[i].name@
            && b[i].damage_stats.damage_dealt >= a[i].damage_stats.damage_dealt
            && b[i].damage_stats.damage_taken >= a[i].damage_stats.damage_taken
}

/// Extension is reflexive.
pub proof fn lemma_extend_refl(a: Seq<EncounterEntity>)
    ensures
        entities_extend(a, a),
{
}

/// Extension is transitive.
pub proof fn lemma_extend_trans(
    a: Seq<EncounterEntity>,
    b: Seq<EncounterEntity>,
    c: Seq<EncounterEntity>,
)
    requires
        entities_extend(a, b),
        entities_extend(b, c),
    ensures
        entities_extend(a, c),
{
}

/// Cumulative per-entity damage is non-decreasing over any ordered chain
/// of states in which each step extends the last: the single-step
/// guarantees of damage dispatch compose over whole packet sequences.
pub proof fn lemma_damage_monotonic(states: Seq<Seq<EncounterEntity>>)
    requires
        states.len() > 0,
        forall|i: int|
            0 <= i < states.len() - 1 ==> entities_extend(#[trigger] states[i], states[i + 1]),
    ensures
        entities_extend(states[0], states[states.len() - 1]),
    decreases states.len(),
{
    if states.len() == 1 {
        lemma_extend_refl(states[0]);
    } else {
        let prefix = states.drop_last();
        assert(forall|i: int|
            0 <= i < prefix.len() - 1 ==> entities_extend(
                #[trigger] prefix[i],
                prefix[i + 1],
            ));
        lemma_damage_monotonic(prefix);
        assert(entities_extend(states[states.len() - 2], states[states.len() - 1]));
        lemma_extend_trans(states[0], states[states.len() - 2], states[states.len() - 1]);
    }
}

/// First row index carrying `name`, if any.
pub fn find_row(v: &Vec<EncounterEntity>, name: &String) -> (r: Option<usize>)
    ensures
        match r {
            Some(i) => i < v@.len() && v@[i as int].name@ == name@ && forall|k: int|
                0 <= k < i ==> (#[trigger] v@[k]).name@ != name@,
            None => forall|k: int| 0 <= k < v@.len() ==> (#[trigger] v@[k]).name@ != name@,
        },
{
    let n = v.len();
    let mut i: usize = 0;
    while i < n
        invariant
            n == v@.len(),
            0 <= i <= n,
            forall|k: int| 0 <= k < i ==> (#[trigger] v@[k]).name@ != name@,
        decreases n - i,
    {
        if *(&v[i].name) == *name {
            return Some(i);
        }
        i = i + 1;
    }
    None
}

/// Index of the row for `src`, materializing a fresh one when the name is
/// not yet present. Existing rows are left untouched.
#[verifier::loop_isolation(false)]
pub fn ensure_row(v: &mut Vec<EncounterEntity>, src: &Entity, hp: i64, max_hp: i64) -> (i:
    usize)
    requires
        distinct_names(old(v)@),
    ensures
        distinct_names(final(v)@),
        old(v)@.len() <= final(v)@.len() <= old(v)@.len() + 1,
        forall|k: int| 0 <= k < old(v)@.len() ==> final(v)@[k] == #[trigger] old(v)@[k],
        i < final(v)@.len(),
        final(v)@[i as int].name@ == src.name@,
        final(v)@.len() > old(v)@.len() ==> i == old(v)@.len(),
        forall|k: int|
            0 <= k < old(v)@.len() && (#[trigger] old(v)@[k]).name@ == src.name@ ==> i == k,
        (forall|k: int| 0 <= k < old(v)@.len() ==> (#[trigger] old(v)@[k]).name@ != src.name@)
            ==> (final(v)@.len() == old(v)@.len() + 1 && i == old(v)@.len() && fresh_row(
            final(v)@[i as int],
            *src,
            hp,
            max_hp,
        )),
    {
        match find_row(v, &src.name) {
            Some(i) => {
                proof {
                    assert forall|k: int|
                        0 <= k < v@.len() && (#[trigger] v@[k]).name@ == src.name@
                        implies i == k by {
                        if k != i {
                            assert(v@[k].name@ != v@[i as int].name@);
                        }
                    }
                }
                i
            },
            None => {
                let i = v.len();
                let row = EncounterEntity {
                    name: src.name.clone(),
                    id: src.id,
                    character_id: src.character_id,
                    npc_id: src.npc_id,
                    entity_type: src.entity_type,
                    class_id: src.class_id,
                    current_hp: hp,
                    max_hp: max_hp,
                    is_dead: false,
                    current_shield: 0,
                    damage_stats: DamageStats {
                        damage_dealt: 0,
                        damage_taken: 0,
                        buffed_by_support: 0,
                        debuffed_by_support: 0,
                        buffed_by_identity: 0,
                        buffed_by_hat: 0,
                        hyper_awakening_damage: 0,
                        shields_given: 0,
                        shields_received: 0,
                        damage_absorbed: 0,
                        effective_shielding_given: 0,
                        deaths: 0,
                        death_time: 0,
                        incapacitated_ms: 0,
                        dps: 0,
                    },
                    skill_stats: SkillStats {
                        casts: 0,
                        hits: 0,
                        crits: 0,
                        counters: 0,
                        knockdowns: 0,
                    },
                    skills: Vec::new(),
                };
                proof {
                    assert(fresh_row(row, *src, hp, max_hp));
                }
                v.push(row);
                proof {
                    assert(v@[i as int].name@ == src.name@);
                }
                i
            },
        }
    }

/// Upsert one skill's accumulators within a row's skills table.
#[verifier::loop_isolation(false)]
pub fn bump_skill(
    skills: &mut Vec<(u32, SkillEntry)>,
    skill_id: u32,
    add_cast: bool,
    add_hit: bool,
    add_crit: bool,
    add_damage: u64,
)
    ensures
        final(skills)@.len() >= old(skills)@.len(),
{
    let n = skills.len();
    let mut i: usize = 0;
    while i < n
        invariant
            n == skills@.len(),
            old(skills)@ == skills@,
            0 <= i <= n,
        decreases n - i,
    {
        if skills[i].0 == skill_id {
            let (k, mut e) = skills[i];
            if add_cast {
                e.casts = e.casts.saturating_add(1);
            }
            if add_hit {
                e.hits = e.hits.saturating_add(1);
            }
            if add_crit {
                e.crits = e.crits.saturating_add(1);
            }
            e.total_damage = e.total_damage.saturating_add(add_damage);
            skills.set(i, (k, e));
            return;
        }
        i = i + 1;
    }
    let e = SkillEntry {
        casts: if add_cast {
            1
        } else {
            0
        },
        hits: if add_hit {
            1
        } else {
            0
        },
        crits: if add_crit {
            1
        } else {
            0
        },
        total_damage: add_damage,
        dps: 0,
    };
    skills.push((skill_id, e));
}

/// The whole encounter: identity anchors, per-entity rows and totals.
pub struct Encounter {
    /// Timestamp of the first combat packet of this fight, zero while idle.
    pub fight_start: u64,
    /// Timestamp of the latest combat packet; at least `fight_start` once
    /// the fight has started.
    pub last_combat_packet: u64,
    pub local_player: String,
    pub current_boss_name: String,
    pub entities: Vec<EncounterEntity>,
    pub stats: EncounterDamageStats,
    pub region: Option<String>,
    pub boss_only_damage: bool,
}

impl Encounter {
    /// Names are unique and the combat clock is consistent.
    pub open spec fn wf(self) -> bool {
        distinct_names(self.entities@) && (self.fight_start > 0
            ==> self.last_combat_packet >= self.fight_start)
    }

    pub fn new() -> (r: Encounter)
        ensures
            r.wf(),
            r.fight_start == 0,
            r.last_combat_packet == 0,
            r.entities@.len() == 0,
            r.stats == zero_encounter_stats(),
            r.local_player@ == Seq::<char>::empty(),
            r.current_boss_name@ == Seq::<char>::empty(),
            r.region is None,
            !r.boss_only_damage,
    {
        Encounter {
            fight_start: 0,
            last_combat_packet: 0,
            local_player: String::new(),
            current_boss_name: String::new(),
            entities: Vec::new(),
            stats: EncounterDamageStats {
                total_damage_dealt: 0,
                top_damage_dealt: 0,
                total_damage_taken: 0,
                top_damage_taken: 0,
                total_shielding: 0,
                total_effective_shielding: 0,
                dps: 0,
            },
            region: None,
            boss_only_damage: false,
        }
    }
}

} // verus!
