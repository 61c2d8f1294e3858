//! Snapshot publisher decisions: rate-limited projection of the encounter
//! state into an external-facing snapshot. Each snapshot is a
//! self-consistent full copy filtered to reportable combatants; when the
//! validity latch is tripped, an invalid-damage signal is published in
//! place of totals that would under-report.

use vstd::prelude::*;

use crate::encounter::{Encounter, EncounterEntity};
use crate::encounter_state::EncounterState;
use crate::models::EntityType;

verus! {

/// Default milliseconds between two snapshots.
pub const SNAPSHOT_INTERVAL_MS: u64 = 200;

/// Snapshot interval under low-performance mode.
pub const SNAPSHOT_INTERVAL_SLOW_MS: u64 = 1500;

/// Milliseconds between two party-composition publications.
pub const PARTY_INTERVAL_MS: u64 = 2000;

/// Throttle bookkeeping of the publisher.
pub struct SnapshotGate {
    pub last_update_ms: u64,
    pub interval_ms: u64,
    pub last_party_update_ms: u64,
    pub party_interval_ms: u64,
}

/// Whether a row is reported at all: a classified player, an esther or a
/// boss that has dealt damage.
pub open spec fn reportable(e: EncounterEntity) -> bool {
    ((e.entity_type == EntityType::Player && e.class_id > 0) || e.entity_type == EntityType::Esther
        || e.entity_type == EntityType::Boss) && e.damage_stats.damage_dealt > 0
}

/// What one publication tick emits.
pub enum Snapshot {
    /// The validity latch is tripped: totals are unreliable and must be
    /// flagged, not shown.
    InvalidDamage,
    /// A full self-consistent copy, filtered to reportable rows, with the
    /// current boss's own row alongside and the party composition when it
    /// was due.
    Update {
        encounter: Encounter,
        current_boss: Option<EncounterEntity>,
        party: Option<Vec<Vec<String>>>,
    },
}

impl SnapshotGate {
    pub open spec fn wf(self) -> bool {
        self.interval_ms > 0 && self.party_interval_ms > 0
    }

    pub fn new(low_performance_mode: bool, now: u64) -> (r: SnapshotGate)
        ensures
            r.wf(),
            r.interval_ms == (if low_performance_mode {
                SNAPSHOT_INTERVAL_SLOW_MS
            } else {
                SNAPSHOT_INTERVAL_MS
            }),
            r.party_interval_ms == PARTY_INTERVAL_MS,
            r.last_update_ms == now,
            r.last_party_update_ms == now,
    {
        SnapshotGate {
            last_update_ms: now,
            interval_ms: if low_performance_mode {
                SNAPSHOT_INTERVAL_SLOW_MS
            } else {
                SNAPSHOT_INTERVAL_MS
            },
            last_party_update_ms: now,
            party_interval_ms: PARTY_INTERVAL_MS,
        }
    }

    /// Whether a snapshot is emitted now: the interval elapsed, or a reset
    /// is in progress, or the boss just died.
    pub fn can_send(&self, state: &EncounterState, now: u64) -> (r: bool)
        requires
            self.wf(),
        ensures
            r == (now >= self.last_update_ms + self.interval_ms || state.resetting
                || state.boss_dead_update),
    {
        now.saturating_sub(self.last_update_ms) >= self.interval_ms || state.resetting
            || state.boss_dead_update
    }

    /// Whether the party composition is due for publication.
    pub fn party_due(&self, now: u64, party_freeze: bool) -> (r: bool)
        requires
            self.wf(),
        ensures
            r == (now >= self.last_party_update_ms + self.party_interval_ms && !party_freeze),
    {
        now.saturating_sub(self.last_party_update_ms) >= self.party_interval_ms && !party_freeze
    }

    /// Note that a snapshot was emitted at `now`.
    pub fn mark_sent(&mut self, now: u64)
        requires
            old(self).wf(),
        ensures
            final(self).wf(),
            final(self).last_update_ms == now,
            final(self).last_party_update_ms == old(self).last_party_update_ms,
            final(self).interval_ms == old(self).interval_ms,
            final(self).party_interval_ms == old(self).party_interval_ms,
    {
        self.last_update_ms = now;
    }

    /// Note that the party composition was published at `now`.
    pub fn mark_party_sent(&mut self, now: u64)
        requires
            old(self).wf(),
        ensures
            final(self).wf(),
            final(self).last_party_update_ms == now,
            final(self).last_update_ms == old(self).last_update_ms,
            final(self).interval_ms == old(self).interval_ms,
            final(self).party_interval_ms == old(self).party_interval_ms,
    {
        self.last_party_update_ms = now;
    }
}

/// Project the current encounter into a publishable snapshot: a deep copy
/// filtered to reportable rows, with the dead boss shown at zero HP, or
/// the invalid-damage signal when the latch is tripped, or nothing when no
/// row is reportable.
/// Whether a snapshot row faithfully mirrors a source row: same name and
/// identity fields, and the same cumulative statistics.
pub open spec fn mirrors(a: EncounterEntity, b: EncounterEntity) -> bool {
    a.name@ == b.name@ && a.damage_stats == b.damage_stats && a.entity_type == b.entity_type
        && a.class_id == b.class_id
}

/// The reportable rows of `src`, deep-copied, with the dead boss marked.
#[verifier::loop_isolation(false)]
#[verifier::spinoff_prover]
fn filter_reportable(
    src: &Vec<EncounterEntity>,
    boss_dead: bool,
    boss_name: &String,
) -> (rows: Vec<EncounterEntity>)
    ensures
        forall|k: int| 0 <= k < rows@.len() ==> reportable(#[trigger] rows@[k]),
        forall|k: int|
            0 <= k < rows@.len() && boss_dead && (#[trigger] rows@[k]).name@ == boss_name@
                ==> rows@[k].is_dead && rows@[k].current_hp == 0,
        forall|k: int|
            0 <= k < rows@.len() ==> exists|j: int|
                0 <= j < src@.len() && mirrors(#[trigger] rows@[k], #[trigger] src@[j]),
        forall|j: int|
            0 <= j < src@.len() && reportable(#[trigger] src@[j]) ==> exists|k: int|
                0 <= k < rows@.len() && (#[trigger] rows@[k]).name@ == src@[j].name@,
{
    let n = src.len();
    let mut rows: Vec<EncounterEntity> = Vec::new();
    let mut i: usize = 0;
    while i < n
        invariant
            n == src@.len(),
            0 <= i <= n,
            forall|k: int| 0 <= k < rows@.len() ==> reportable(#[trigger] rows@[k]),
            forall|k: int|
                0 <= k < rows@.len() && boss_dead && (#[trigger] rows@[k]).name@ == boss_name@
                    ==> rows@[k].is_dead && rows@[k].current_hp == 0,
            forall|k: int|
                0 <= k < rows@.len() ==> exists|j: int|
                    0 <= j < src@.len() && mirrors(#[trigger] rows@[k], #[trigger] src@[j]),
            forall|j: int|
                0 <= j < i && reportable(#[trigger] src@[j]) ==> exists|k: int|
                    0 <= k < rows@.len() && (#[trigger] rows@[k]).name@ == src@[j].name@,
        decreases n - i,
    {
        let e = &src[i];
        let keep = (match e.entity_type {
            EntityType::Player => e.class_id > 0,
            EntityType::Esther => true,
            EntityType::Boss => true,
            _ => false,
        }) && e.damage_stats.damage_dealt > 0;
        if keep {
            let mut row = e.duplicate();
            if boss_dead && *(&row.name) == *boss_name {
                row.is_dead = true;
                row.current_hp = 0;
            }
            let ghost rprev = rows@;
            rows.push(row);
            proof {
                assert(mirrors(rows@[rows@.len() - 1], src@[i as int]));
                assert forall|k: int| 0 <= k < rows@.len() implies exists|j: int|
                    0 <= j < src@.len() && mirrors(#[trigger] rows@[k], #[trigger] src@[j]) by {
                    if k < rows@.len() - 1 {
                        let j = choose|j: int|
                            0 <= j < src@.len() && mirrors(#[trigger] rprev[k], src@[j]);
                        assert(rows@[k] == rprev[k]);
                        assert(mirrors(rows@[k], src@[j]));
                    }
                }
                assert forall|j: int|
                    0 <= j < i + 1 && reportable(#[trigger] src@[j]) implies exists|k: int|
                    0 <= k < rows@.len() && (#[trigger] rows@[k]).name@ == src@[j].name@ by {
                    if j == i {
                        assert(rows@[rows@.len() - 1].name@ == src@[j].name@);
                    } else {
                        let k = choose|k: int|
                            0 <= k < rprev.len() && (#[trigger] rprev[k]).name@ == src@[j].name@;
                        assert(rows@[k].name@ == src@[j].name@);
                    }
                }
            }
        }
        i = i + 1;
    }
    rows
}

/// Project the current encounter into a publishable snapshot: a deep copy
/// filtered to reportable rows, with the dead boss shown at zero HP, or
/// the invalid-damage signal when the latch is tripped, or nothing when no
/// row is reportable.

#[verifier::loop_isolation(false)]
pub fn build_snapshot(
    state: &EncounterState,
    boss_dead: bool,
    party: Option<Vec<Vec<String>>>,
) -> (r: Option<Snapshot>)
    requires
        state.wf(),
    ensures
        (r is None) == (forall|j: int|
            0 <= j < state.encounter.entities@.len() ==> !reportable(
                #[trigger] state.encounter.entities@[j],
            )),
        r is Some && !state.damage_is_valid ==> r->0 is InvalidDamage,
        r is Some && state.damage_is_valid ==> r->0 is Update,
        match r {
            Some(Snapshot::Update { encounter, current_boss, party: _ }) => {
                &&& (boss_dead && exists|j: int|
                    0 <= j < state.encounter.entities@.len() && (#[trigger] state.encounter.entities@[j]).name@
                        == state.encounter.current_boss_name@) ==> (current_boss is Some
                    && current_boss->0.is_dead && current_boss->0.current_hp == 0
                    && current_boss->0.name@ == state.encounter.current_boss_name@)
                &&& forall|k: int|
                    0 <= k < encounter.entities@.len() ==> reportable(
                        #[trigger] encounter.entities@[k],
                    )
                &&& forall|k: int|
                    0 <= k < encounter.entities@.len() && boss_dead && (#[trigger] encounter.entities@[k]).name@
                        == state.encounter.current_boss_name@
                        ==> encounter.entities@[k].is_dead && encounter.entities@[k].current_hp
                        == 0
                &&& forall|k: int|
                    0 <= k < encounter.entities@.len() ==> exists|j: int|
                        0 <= j < state.encounter.entities@.len() && mirrors(
                            #[trigger] encounter.entities@[k],
                            #[trigger] state.encounter.entities@[j],
                        )
                &&& forall|j: int|
                    0 <= j < state.encounter.entities@.len() && reportable(
                        #[trigger] state.encounter.entities@[j],
                    ) ==> exists|k: int|
                        0 <= k < encounter.entities@.len() && (#[trigger] encounter.entities@[k]).name@
                            == state.encounter.entities@[j].name@
                &&& encounter.fight_start == state.encounter.fight_start
                &&& encounter.last_combat_packet == state.encounter.last_combat_packet
                &&& encounter.stats == state.encounter.stats
                &&& encounter.local_player@ == state.encounter.local_player@
                &&& encounter.current_boss_name@ == state.encounter.current_boss_name@
            },
            _ => true,
        },
{
    let src = &state.encounter.entities;
    let rows = filter_reportable(src, boss_dead, &state.encounter.current_boss_name);
    if rows.len() == 0 {
        proof {
            assert forall|j: int| 0 <= j < src@.len() implies !reportable(
                #[trigger] src@[j],
            ) by {
                if reportable(src@[j]) {
                    let k = choose|k: int|
                        0 <= k < rows@.len() && (#[trigger] rows@[k]).name@ == src@[j].name@;
                }
            }
        }
        return None;
    }
    proof {
        let j0 = choose|j: int|
            0 <= j < src@.len() && mirrors(#[trigger] rows@[0], #[trigger] src@[j]);
        assert(reportable(src@[j0]));
    }
    if !state.damage_is_valid {
        return Some(Snapshot::InvalidDamage);
    }
    let current_boss = match crate::encounter::find_row(
        src,
        &state.encounter.current_boss_name,
    ) {
        Some(bi) => {
            let mut boss = src[bi].duplicate();
            if boss_dead {
                boss.is_dead = true;
                boss.current_hp = 0;
            }
            Some(boss)
        },
        None => None,
    };
    let encounter = Encounter {
        fight_start: state.encounter.fight_start,
        last_combat_packet: state.encounter.last_combat_packet,
        local_player: state.encounter.local_player.clone(),
        current_boss_name: state.encounter.current_boss_name.clone(),
        entities: rows,
        stats: state.encounter.stats,
        region: match &state.encounter.region {
            Some(s) => Some(s.clone()),
            None => None,
        },
        boss_only_damage: state.encounter.boss_only_damage,
    };
    Some(Snapshot::Update { encounter, current_boss, party })
}

} // verus!
