//! Packet dispatch: a total function from one decoded packet to side
//! effects on the trackers and the encounter state machine. Packets are
//! processed strictly in arrival order on one logical writer; unrecognized
//! payloads fall through without any state change. The ten-second
//! suppression window after a transition to cleared or wiped is enforced
//! here by timestamp comparison, so stray in-flight damage packets cannot
//! corrupt post-fight totals.

use vstd::prelude::*;

use crate::encounter_state::{DamageData, EncounterState};
use crate::entity_tracker::{get_current_and_max_hp, EntityTracker};
use crate::id_tracker::IdTracker;
use crate::models::{EntityType, Identity, MeterConfig, StatPair, TripodIndex};
use crate::party_tracker::PartyTracker;
use crate::status_tracker::{
    get_status_effect_value, StatusEffect, StatusTracker,
};
use crate::models::{StatusEffectTargetType, StatusEffectType};

verus! {

/// Milliseconds after a transition to cleared or wiped during which damage
/// notifications are ignored entirely.
pub const DAMAGE_SUPPRESSION_WINDOW_MS: u64 = 10000;

/// One damage event of a damage notification, after decryption.
#[derive(Clone, Copy, PartialEq, Eq, Structural, Debug)]
pub struct DamageEvent {
    pub target_id: u64,
    pub damage: u64,
    pub modifier: u32,
    pub cur_hp: i64,
    pub max_hp: i64,
    pub shield_damage: u64,
}

/// A player character's spawn payload.
pub struct PcData {
    pub player_id: u64,
    pub character_id: u64,
    pub name: String,
    pub class_id: u32,
    pub stat_pairs: Vec<StatPair>,
}

/// An npc or summon spawn payload.
pub struct NpcData {
    pub object_id: u64,
    pub npc_id: u32,
    pub name: String,
    pub owner_id: u64,
    pub stat_pairs: Vec<StatPair>,
}

/// A status-effect application as it appears on the wire.
pub struct StatusEffectData {
    pub instance_id: u32,
    pub status_effect_id: u32,
    pub source_id: u64,
    /// Raw magnitude bytes; the value is the smaller of the two
    /// little-endian counters they hold.
    pub value_bytes: Vec<u8>,
    /// Tick after which the effect expires, if bounded.
    pub expire_at: Option<u64>,
}

/// One member of a party notification.
pub struct PartyMemberInfo {
    pub character_id: u64,
    pub name: String,
}

/// One decoded packet, reduced to the fields dispatch reads.
pub enum PacketEvent {
    CounterAttackNotify { source_id: u64 },
    DeathNotify { target_id: u64 },
    IdentityGaugeChangeNotify { gauge1: u32, gauge2: u32, gauge3: u32 },
    InitEnv { player_id: u64, region: Option<String> },
    InitPc { pc: PcData },
    NewPc { pc: PcData },
    NewVehicle { pc: Option<PcData> },
    NewNpc { npc: NpcData },
    NewNpcSummon { npc: NpcData },
    NewProjectile { projectile_id: u64, owner_id: u64, skill_id: u32 },
    NewTrap { object_id: u64, owner_id: u64, skill_id: u32 },
    RaidBegin { raid_id: u32 },
    RaidBossKillNotify,
    RaidResult,
    RemoveObject { object_ids: Vec<u64> },
    SkillCastNotify { source_id: u64, skill_id: u32 },
    SkillCooldownNotify { skill_id: u32, available_at: u64 },
    SkillStartNotify { source_id: u64, skill_id: u32, tripod_index: Option<TripodIndex> },
    SkillDamageAbnormalMoveNotify {
        source_id: u64,
        skill_id: u32,
        skill_effect_id: u32,
        events: Vec<DamageEvent>,
    },
    SkillDamageNotify {
        source_id: u64,
        skill_id: u32,
        skill_effect_id: u32,
        events: Vec<DamageEvent>,
    },
    PartyInfo { raid_instance_id: u32, party_instance_id: u32, members: Vec<PartyMemberInfo> },
    PartyLeaveResult { party_instance_id: u32, name: String },
    PartyStatusEffectAddNotify { character_id: u64, effects: Vec<StatusEffectData> },
    PartyStatusEffectRemoveNotify { character_id: u64, instance_ids: Vec<u32>, reason: u8 },
    PartyStatusEffectResultNotify {
        raid_instance_id: u32,
        party_instance_id: u32,
        character_id: u64,
    },
    StatusEffectAddNotify { object_id: u64, effect: StatusEffectData },
    StatusEffectRemoveNotify { object_id: u64, instance_ids: Vec<u32>, reason: u8 },
    TriggerBossBattleStatus,
    TriggerStartNotify { signal: u32 },
    ZoneMemberLoadStatusNotify { zone_id: u32, zone_level: u32 },
    ZoneObjectUnpublishNotify { object_id: u64 },
    StatusEffectSyncDataNotify { object_id: u64, character_id: u64, instance_id: u32, value: u64 },
    TroopMemberUpdateMinNotify {
        character_id: u64,
        cur_hp: i64,
        max_hp: i64,
        effects: Vec<(u32, u64)>,
    },
    NewTransit { zone_instance_id: u32 },
}

/// The damage-decryption capability, as the surrounding application
/// implements it: it either decrypts an event in place or reports failure,
/// and is told the zone instance for its key schedule. Nothing is assumed
/// of its behaviour; dispatch states what holds whatever it returns.
pub trait DamageEncryptionHandler {
    fn decrypt_damage_event(&self, event: &mut DamageEvent) -> bool;

    fn update_zone_instance_id(&mut self, zone_instance_id: u32);
}

/// One local player identity remembered across sessions for faster
/// resolution on reconnect.
pub struct LocalPlayer {
    pub name: String,
    pub count: u32,
}

/// Whether a damage notification at `now` falls inside the suppression
/// window that opened at `raid_end`.
pub open spec fn suppressed(now: u64, raid_end: u64) -> bool {
    now < raid_end + DAMAGE_SUPPRESSION_WINDOW_MS
}

/// Whether an event is a damage notification, the only packets the
/// suppression window applies to.
pub open spec fn is_damage_event(op: PacketEvent) -> bool {
    op is SkillDamageNotify || op is SkillDamageAbnormalMoveNotify
}

/// Whether an event can re-arm the validity latch: only a zone entry or
/// the new-pull trigger, both of which reset the encounter.
pub open spec fn rearms_validity(op: PacketEvent) -> bool {
    op is InitEnv || op is TriggerBossBattleStatus
}

/// One step of the validity latch: dispatch can only set the latch back to
/// valid through an encounter reset.
pub open spec fn latch_step(pre: Engine, post: Engine, op: PacketEvent) -> bool {
    post.state.damage_is_valid ==> (pre.state.damage_is_valid || rearms_validity(op))
}

/// Raid ids of the trial difficulty tier.
pub open spec fn is_trial_raid(raid_id: u32) -> bool {
    raid_id == 308226 || raid_id == 308227 || raid_id == 308239 || raid_id == 308339
}

/// Raid ids of the challenge difficulty tier.
pub open spec fn is_challenge_raid(raid_id: u32) -> bool {
    raid_id == 308428 || raid_id == 308429 || raid_id == 308420 || raid_id == 308410 || raid_id
        == 308411 || raid_id == 308414 || raid_id == 308422 || raid_id == 308424 || raid_id
        == 308421 || raid_id == 308412 || raid_id == 308423 || raid_id == 308426 || raid_id
        == 308416 || raid_id == 308419 || raid_id == 308415 || raid_id == 308437 || raid_id
        == 308417 || raid_id == 308418 || raid_id == 308425 || raid_id == 308430
}

/// The difficulty label a raid-begin notification sets.
pub open spec fn raid_difficulty_label(raid_id: u32) -> Seq<char> {
    if is_trial_raid(raid_id) {
        "Trial"@
    } else if is_challenge_raid(raid_id) {
        "Challenge"@
    } else {
        Seq::<char>::empty()
    }
}

/// The difficulty id a raid-begin notification sets.
pub open spec fn raid_difficulty_id(raid_id: u32) -> u32 {
    if is_trial_raid(raid_id) {
        7u32
    } else if is_challenge_raid(raid_id) {
        8u32
    } else {
        0u32
    }
}

/// The difficulty label a zone member load status sets for each zone level.
pub open spec fn zone_difficulty_label(zone_level: u32) -> Seq<char> {
    if zone_level == 0 {
        "Normal"@
    } else if zone_level == 1 {
        "Hard"@
    } else if zone_level == 2 {
        "Inferno"@
    } else if zone_level == 3 {
        "Challenge"@
    } else if zone_level == 4 {
        "Solo"@
    } else {
        "The First"@
    }
}

/// Trigger signals announcing a cleared encounter.
pub open spec fn is_clear_signal(signal: u32) -> bool {
    signal == 57 || signal == 59 || signal == 61 || signal == 63 || signal == 74 || signal == 76
}

/// Trigger signals announcing a wiped encounter.
pub open spec fn is_wipe_signal(signal: u32) -> bool {
    signal == 58 || signal == 60 || signal == 62 || signal == 64 || signal == 75 || signal == 77
}

/// Whether `group` lists exactly the named members of party instance
/// `pid`: every listed name belongs to a named member of that party, and
/// every named member of that party is listed.
pub open spec fn group_of_party(t: PartyTracker, pid: u32, group: Seq<String>) -> bool {
    (forall|m: int| 0 <= m < group.len() ==> t.has_named(pid, (#[trigger] group[m])@)) && (forall|
        i: int,
    |
        0 <= i < t.entries@.len() && (#[trigger] t.entries@[i]).party_instance_id == pid
            && t.entries@[i].name is Some ==> exists|m: int|
            #![trigger group[m]]
            0 <= m < group.len() && group[m]@ == t.entries@[i].name->0@)
}

/// Whether `groups` is a faithful party publication for tracker `t`: each
/// group nonempty and exactly one party instance's named members, and
/// every named member listed somewhere.
pub open spec fn party_groups_exact(t: PartyTracker, groups: Seq<Vec<String>>) -> bool {
    (forall|g: int|
        0 <= g < groups.len() ==> (#[trigger] groups[g])@.len() > 0 && exists|pid: u32|
            group_of_party(t, pid, groups[g]@)) && (forall|i: int|
        0 <= i < t.entries@.len() && (#[trigger] t.entries@[i]).name is Some ==> exists|
            g2: int,
            m: int,
        |
            0 <= g2 < groups.len() && 0 <= m < groups[g2]@.len() && (#[trigger] groups[g2][m])@
                == t.entries@[i].name->0@)
}

/// The whole tracking engine: one logical writer owns every tracker and
/// passes scoped references into dispatch; nothing else holds them.
pub struct Engine {
    pub config: MeterConfig,
    pub id_tracker: IdTracker,
    pub party_tracker: PartyTracker,
    pub status_tracker: StatusTracker,
    pub entity_tracker: EntityTracker,
    pub state: EncounterState,
    /// When the latest transition to cleared or wiped happened; damage
    /// inside the window after it is ignored.
    pub raid_end_cd: u64,
    /// Party publication is frozen after an encounter end until reset.
    pub party_freeze: bool,
    /// Cached member-name groups, reused while membership is unchanged.
    pub party_cache: Option<Vec<Vec<String>>>,
    /// Local player identities remembered for the on-disk cache, keyed by
    /// character id.
    pub local_players: Vec<(u64, LocalPlayer)>,
    /// Set when `local_players` changed and should be persisted.
    pub local_dirty: bool,
}

impl Engine {
    pub open spec fn wf(self) -> bool {
        self.id_tracker.wf() && self.party_tracker.wf() && self.status_tracker.wf()
            && self.entity_tracker.wf() && self.state.wf()
    }

    pub fn new(config: MeterConfig, boss_only_damage: bool, region: Option<String>, now: u64)
        -> (r: Engine)
        ensures
            r.wf(),
            r.state.damage_is_valid,
            r.raid_end_cd == now,
            !r.party_freeze,
            r.state.boss_only_damage == boss_only_damage,
    {
        Engine {
            config,
            id_tracker: IdTracker::new(),
            party_tracker: PartyTracker::new(),
            status_tracker: StatusTracker::new(),
            entity_tracker: EntityTracker::new(),
            state: EncounterState::new(boss_only_damage, region),
            raid_end_cd: now,
            party_freeze: false,
            party_cache: None,
            local_players: Vec::new(),
            local_dirty: false,
        }
    }

    /// Clear the encounter; a full reset also clears the identity, party
    /// and status resolvers. The entity registry survives either way, as
    /// it is rebuilt only on zone entry.
    pub fn soft_reset(&mut self, full: bool)
        requires
            old(self).wf(),
        ensures
            final(self).wf(),
            final(self).state.damage_is_valid,
            final(self).state.encounter.entities@.len() == 0,
            final(self).state.phase == crate::models::FightPhase::Idle,
            !final(self).party_freeze,
            !final(self).state.resetting,
            !final(self).state.saved,
            full ==> forall|pid: u32, c: u64| !final(self).party_tracker.in_party(pid, c),
    {
        self.state.soft_reset();
        self.party_freeze = false;
        self.party_cache = None;
        if full {
            self.id_tracker.clear();
            self.party_tracker.reset_party_mappings();
            self.status_tracker.clear();
        }
    }

    /// The current member-name groups: each group lists exactly the named
    /// members of one party instance, every named member appears in some
    /// group, and only parties with a named member produce a group.
    #[verifier::loop_isolation(false)]
    #[verifier::rlimit(100)]
    #[verifier::spinoff_prover]
    pub fn update_party(&self) -> (r: Vec<Vec<String>>)
        requires
            self.wf(),
        ensures
            party_groups_exact(self.party_tracker, r@),
            forall|g: int|
                0 <= g < r@.len() ==> (#[trigger] r@[g])@.len() > 0 && exists|pid: u32|
                    group_of_party(self.party_tracker, pid, r@[g]@),
            forall|i: int|
                0 <= i < self.party_tracker.entries@.len()
                    && (#[trigger] self.party_tracker.entries@[i]).name is Some
                    ==> exists|g2: int, m: int|
                    0 <= g2 < r@.len() && 0 <= m < r@[g2]@.len() && (#[trigger] r@[g2][m])@
                        == self.party_tracker.entries@[i].name->0@,
    {
        let n = self.party_tracker.entries.len();
        let mut pids: Vec<u32> = Vec::new();
        let mut i: usize = 0;
        while i < n
            invariant
                n == self.party_tracker.entries@.len(),
                0 <= i <= n,
                forall|j: int|
                    0 <= j < i ==> crate::models::seq_contains_u32(
                        pids@,
                        (#[trigger] self.party_tracker.entries@[j]).party_instance_id,
                    ),
            decreases n - i,
        {
            let ghost pprev = pids@;
            let pid = self.party_tracker.entries[i].party_instance_id;
            if !crate::models::contains_u32(&pids, pid) {
                pids.push(pid);
                proof {
                    assert(pids@[pids@.len() - 1] == pid);
                    assert forall|j: int|
                        0 <= j < i + 1 implies crate::models::seq_contains_u32(
                        pids@,
                        (#[trigger] self.party_tracker.entries@[j]).party_instance_id,
                    ) by {
                        if j < i {
                            let k = choose|k: int|
                                0 <= k < pprev.len() && pprev[k]
                                    == self.party_tracker.entries@[j].party_instance_id;
                            assert(pids@[k]
                                == self.party_tracker.entries@[j].party_instance_id);
                        } else {
                            assert(pids@[pids@.len() - 1]
                                == self.party_tracker.entries@[j].party_instance_id);
                        }
                    }
                }
            }
            i = i + 1;
        }
        let mut r: Vec<Vec<String>> = Vec::new();
        let mut g: usize = 0;
        while g < pids.len()
            invariant
                n == self.party_tracker.entries@.len(),
                self.wf(),
                0 <= g <= pids@.len(),
                forall|j: int|
                    0 <= j < n ==> crate::models::seq_contains_u32(
                        pids@,
                        (#[trigger] self.party_tracker.entries@[j]).party_instance_id,
                    ),
                forall|gi: int|
                    0 <= gi < r@.len() ==> (#[trigger] r@[gi])@.len() > 0 && exists|pid: u32|
                        group_of_party(self.party_tracker, pid, r@[gi]@),
                forall|j: int|
                    0 <= j < n && (#[trigger] self.party_tracker.entries@[j]).name is Some && (
                    exists|gi: int|
                        0 <= gi < g && pids@[gi]
                            == self.party_tracker.entries@[j].party_instance_id)
                    ==> exists|g2: int, m: int|
                    0 <= g2 < r@.len() && 0 <= m < r@[g2]@.len() && (#[trigger] r@[g2][m])@
                        == self.party_tracker.entries@[j].name->0@,
            decreases pids@.len() - g,
        {
            let pid = pids[g];
            let group = self.collect_group(pid);
            if group.len() > 0 {
                let ghost rprev = r@;
                let ghost gsnap = group@;
                r.push(group);
                proof {
                    assert(r@[r@.len() - 1]@ == gsnap);
                    assert forall|gi: int|
                        0 <= gi < r@.len() implies (#[trigger] r@[gi])@.len() > 0 && exists|
                        pid2: u32,
                    | group_of_party(self.party_tracker, pid2, r@[gi]@) by {
                        if gi < r@.len() - 1 {
                            assert(r@[gi] == rprev[gi]);
                        } else {
                            assert(group_of_party(self.party_tracker, pid, r@[gi]@));
                        }
                    }
                    assert forall|j2: int|
                        0 <= j2 < n && (#[trigger] self.party_tracker.entries@[j2]).name is Some
                            && (exists|gi: int|
                            0 <= gi < g + 1 && pids@[gi]
                                == self.party_tracker.entries@[j2].party_instance_id)
                        implies exists|g2: int, m: int|
                        0 <= g2 < r@.len() && 0 <= m < r@[g2]@.len() && (#[trigger] r@[g2][m])@
                            == self.party_tracker.entries@[j2].name->0@ by {
                        if self.party_tracker.entries@[j2].party_instance_id == pid {
                            let m = choose|m: int|
                                #![trigger gsnap[m]]
                                0 <= m < gsnap.len() && gsnap[m]@
                                    == self.party_tracker.entries@[j2].name->0@;
                            assert((r@[r@.len() - 1][m])@
                                == self.party_tracker.entries@[j2].name->0@);
                        } else {
                            let gi = choose|gi: int|
                                0 <= gi < g + 1 && pids@[gi]
                                    == self.party_tracker.entries@[j2].party_instance_id;
                            assert(gi < g);
                            let (g2, m) = choose|g2: int, m: int|
                                0 <= g2 < rprev.len() && 0 <= m < rprev[g2]@.len() && (
                                #[trigger] rprev[g2][m])@
                                    == self.party_tracker.entries@[j2].name->0@;
                            assert(r@[g2] == rprev[g2]);
                            assert((r@[g2][m])@ == self.party_tracker.entries@[j2].name->0@);
                        }
                    }
                }
            } else {
                proof {
                    assert forall|j2: int|
                        0 <= j2 < n && (#[trigger] self.party_tracker.entries@[j2]).name is Some
                            && (exists|gi: int|
                            0 <= gi < g + 1 && pids@[gi]
                                == self.party_tracker.entries@[j2].party_instance_id)
                        implies exists|g2: int, m: int|
                        0 <= g2 < r@.len() && 0 <= m < r@[g2]@.len() && (#[trigger] r@[g2][m])@
                            == self.party_tracker.entries@[j2].name->0@ by {
                        let gi = choose|gi: int|
                            0 <= gi < g + 1 && pids@[gi]
                                == self.party_tracker.entries@[j2].party_instance_id;
                        if self.party_tracker.entries@[j2].party_instance_id == pid {
                            assert(false);
                        } else {
                            assert(gi < g);
                        }
                    }
                }
            }
            g = g + 1;
        }
        proof {
            assert forall|i2: int|
                0 <= i2 < self.party_tracker.entries@.len()
                    && (#[trigger] self.party_tracker.entries@[i2]).name is Some
                implies exists|g2: int, m: int|
                0 <= g2 < r@.len() && 0 <= m < r@[g2]@.len() && (#[trigger] r@[g2][m])@
                    == self.party_tracker.entries@[i2].name->0@ by {
                let k = choose|k: int|
                    0 <= k < pids@.len() && pids@[k]
                        == self.party_tracker.entries@[i2].party_instance_id;
            }
        }
        r
    }

    /// The names of party instance `pid`'s named members, in entry order.
    #[verifier::loop_isolation(false)]
    #[verifier::rlimit(100)]
    #[verifier::spinoff_prover]
    fn collect_group(&self, pid: u32) -> (group: Vec<String>)
        ensures
            group_of_party(self.party_tracker, pid, group@),
    {
        let n = self.party_tracker.entries.len();
        let mut group: Vec<String> = Vec::new();
        let mut j: usize = 0;
        while j < n
            invariant
                n == self.party_tracker.entries@.len(),
                0 <= j <= n,
                forall|m: int|
                    0 <= m < group@.len() ==> self.party_tracker.has_named(
                        pid,
                        (#[trigger] group@[m])@,
                    ),
                forall|j2: int|
                    0 <= j2 < j && (#[trigger] self.party_tracker.entries@[j2]).party_instance_id
                        == pid && self.party_tracker.entries@[j2].name is Some
                        ==> exists|m: int|
                        #![trigger group@[m]]
                        0 <= m < group@.len() && group@[m]@
                            == self.party_tracker.entries@[j2].name->0@,
            decreases n - j,
        {
            let ghost gprev = group@;
            let e = &self.party_tracker.entries[j];
            if e.party_instance_id == pid {
                match &e.name {
                    Some(name) => {
                        group.push(name.clone());
                        proof {
                            assert(group@[group@.len() - 1]@
                                == self.party_tracker.entries@[j as int].name->0@);
                            assert(crate::party_tracker::entry_named(
                                self.party_tracker.entries@[j as int],
                                pid,
                                group@[group@.len() - 1]@,
                            ));
                            assert(self.party_tracker.has_named(
                                pid,
                                group@[group@.len() - 1]@,
                            ));
                            assert forall|m: int|
                                0 <= m < group@.len() implies self.party_tracker.has_named(
                                pid,
                                (#[trigger] group@[m])@,
                            ) by {
                                if m < group@.len() - 1 {
                                    assert(group@[m] == gprev[m]);
                                }
                            }
                            assert forall|j2: int|
                                0 <= j2 < j + 1 && (
                                #[trigger] self.party_tracker.entries@[j2]).party_instance_id
                                    == pid && self.party_tracker.entries@[j2].name is Some
                                implies exists|m: int|
                                #![trigger group@[m]]
                                0 <= m < group@.len() && group@[m]@
                                    == self.party_tracker.entries@[j2].name->0@ by {
                                if j2 == j {
                                    assert(group@[group@.len() - 1]@
                                        == self.party_tracker.entries@[j2].name->0@);
                                } else {
                                    let m = choose|m: int|
                                        #![trigger gprev[m]]
                                        0 <= m < gprev.len() && gprev[m]@
                                            == self.party_tracker.entries@[j2].name->0@;
                                    assert(group@[m]@
                                        == self.party_tracker.entries@[j2].name->0@);
                                }
                            }
                        }
                    },
                    None => {},
                }
            }
            j = j + 1;
        }
        group
    }

    /// Resolve a depleted or reduced shield to its source and holder, and
    /// credit the consumed points.
    fn on_shield_change(&mut self, se: StatusEffect, change: u64)
        requires
            old(self).wf(),
        ensures
            final(self).wf(),
            final(self).state.damage_is_valid == old(self).state.damage_is_valid,
            final(self).state.resetting == old(self).state.resetting,
            final(self).state.phase == old(self).state.phase,
            final(self).raid_end_cd == old(self).raid_end_cd,
            crate::encounter::entities_extend(
                old(self).state.encounter.entities@,
                final(self).state.encounter.entities@,
            ),
            final(self).status_tracker.effects@ == old(self).status_tracker.effects@,
            final(self).party_tracker.entries@ == old(self).party_tracker.entries@,
    {
        let target_entity_id = match se.target_type {
            StatusEffectTargetType::Party => match self.id_tracker.get_entity_id(se.target_id) {
                Some(eid) => eid,
                None => 0,
            },
            StatusEffectTargetType::Local => se.target_id,
        };
        let source = self.entity_tracker.get_source_entity(se.source_id);
        let target = self.entity_tracker.get_source_entity(target_entity_id);
        self.state.on_shield_used(&source, &target, change);
    }

    /// Build a status-effect record from wire data, classify it from the
    /// injected effect tables, and make it live.
    fn build_and_register_status_effect(
        &mut self,
        data: &StatusEffectData,
        target_type: StatusEffectTargetType,
        target_id: u64,
    ) -> (r: StatusEffect)
        requires
            old(self).wf(),
        ensures
            final(self).wf(),
            final(self).state == old(self).state,
            final(self).raid_end_cd == old(self).raid_end_cd,
            r.target_type == target_type,
            r.target_id == target_id,
            r.instance_id == data.instance_id,
            final(self).status_tracker.has_effect(r),
    {
        let value = get_status_effect_value(&data.value_bytes);
        let effect_type = if crate::models::contains_u32(
            &self.config.shield_effect_ids,
            data.status_effect_id,
        ) {
            StatusEffectType::Shield
        } else if crate::models::contains_u32(
            &self.config.hard_cc_effect_ids,
            data.status_effect_id,
        ) {
            StatusEffectType::HardCrowdControl
        } else {
            StatusEffectType::Other
        };
        let se = StatusEffect {
            instance_id: data.instance_id,
            status_effect_id: data.status_effect_id,
            target_type,
            target_id,
            source_id: data.source_id,
            effect_type,
            value,
            expire_at: data.expire_at,
        };
        self.status_tracker.register(se);
        se
    }
}

impl Engine {
    /// Dispatch one decoded packet at `now`. Damage notifications inside
    /// the post-encounter suppression window change nothing at all; the
    /// validity latch can only be re-armed by an encounter reset; an
    /// identity gauge update is handed back for publication when details
    /// were requested.
    #[verifier::rlimit(100)]
    pub fn handle<DH: DamageEncryptionHandler>(
        &mut self,
        op: PacketEvent,
        now: u64,
        can_emit_details: bool,
        dh: &mut DH,
    ) -> (r: Option<Identity>)
        requires
            old(self).wf(),
        ensures
            final(self).wf(),
            latch_step(*old(self), *final(self), op),
            is_damage_event(op) && suppressed(now, old(self).raid_end_cd) ==> *final(self)
                == *old(self) && r is None,
            r is Some ==> op is IdentityGaugeChangeNotify && can_emit_details,
            final(self).raid_end_cd == old(self).raid_end_cd || final(self).raid_end_cd == now,
            !rearms_validity(op) ==> crate::encounter::entities_extend(
                old(self).state.encounter.entities@,
                final(self).state.encounter.entities@,
            ),
            op is InitEnv ==> final(self).state.damage_is_valid && final(self).state.encounter.entities@.len() == 0 && final(self).status_tracker.effects@.len() == 0 && final(self).state.raid_difficulty_id == 0 && final(self).state.raid_difficulty@
                == Seq::<char>::empty() && (forall|pid: u32, c: u64|
                !final(self).party_tracker.in_party(pid, c)),
            op matches PacketEvent::IdentityGaugeChangeNotify { gauge1, gauge2, gauge3 } ==> r
                == (if can_emit_details {
                Some(Identity { gauge1, gauge2, gauge3 })
            } else {
                Option::<Identity>::None
            }),
            op matches PacketEvent::SkillCooldownNotify { skill_id, available_at }
                ==> exists|i: int|
                0 <= i < final(self).state.skill_tracker.cooldowns@.len()
                    && #[trigger] final(self).state.skill_tracker.cooldowns@[i] == (
                skill_id,
                available_at,
                ),
            op matches PacketEvent::ZoneObjectUnpublishNotify { object_id } ==> final(self).status_tracker.effects@
                == crate::status_tracker::without_object(
                old(self).status_tracker.effects@,
                object_id,
            ),
            op matches PacketEvent::NewProjectile { projectile_id, owner_id, skill_id } ==> final(self).entity_tracker.has_id(projectile_id) && (forall|k: int|
                0 <= k < final(self).entity_tracker.entities@.len()
                    && (#[trigger] final(self).entity_tracker.entities@[k]).id == projectile_id
                    ==> final(self).entity_tracker.entities@[k].owner_id == owner_id && final(self).entity_tracker.entities@[k].skill_id == skill_id && final(self).entity_tracker.entities@[k].entity_type
                    == EntityType::Projectile),
            op matches PacketEvent::NewTrap { object_id, owner_id, skill_id } ==> final(self).entity_tracker.has_id(object_id) && (forall|k: int|
                0 <= k < final(self).entity_tracker.entities@.len()
                    && (#[trigger] final(self).entity_tracker.entities@[k]).id == object_id
                    ==> final(self).entity_tracker.entities@[k].owner_id == owner_id && final(self).entity_tracker.entities@[k].skill_id == skill_id && final(self).entity_tracker.entities@[k].entity_type
                    == EntityType::Trap),
            op is RaidBossKillNotify ==> final(self).state.raid_clear && final(self).state.phase
                == crate::models::FightPhase::Cleared,
            op is RaidResult ==> final(self).state.resetting && final(self).raid_end_cd == now,
            op matches PacketEvent::RaidBegin { raid_id } ==> final(self).state.raid_difficulty@
                == raid_difficulty_label(raid_id) && final(self).state.raid_difficulty_id
                == raid_difficulty_id(raid_id),
            op matches PacketEvent::ZoneMemberLoadStatusNotify { zone_id, zone_level } ==> (
            if old(self).state.raid_difficulty_id >= zone_id && old(self).state.raid_difficulty@.len() > 0 {
                final(self).state.raid_difficulty@ == old(self).state.raid_difficulty@
                    && final(self).state.raid_difficulty_id == old(self).state.raid_difficulty_id
            } else if zone_level <= 5 {
                final(self).state.raid_difficulty@ == zone_difficulty_label(zone_level)
                    && final(self).state.raid_difficulty_id == zone_level
            } else {
                final(self).state.raid_difficulty@ == old(self).state.raid_difficulty@
                    && final(self).state.raid_difficulty_id == old(self).state.raid_difficulty_id
            }),
            op matches PacketEvent::StatusEffectRemoveNotify { object_id, instance_ids, reason }
                ==> final(self).status_tracker.effects@ == crate::status_tracker::remaining_after(
                old(self).status_tracker.effects@,
                StatusEffectTargetType::Local,
                object_id,
                instance_ids@,
            ),
            op matches PacketEvent::PartyStatusEffectRemoveNotify {
                character_id,
                instance_ids,
                reason,
            } ==> final(self).status_tracker.effects@ == crate::status_tracker::remaining_after(
                old(self).status_tracker.effects@,
                StatusEffectTargetType::Party,
                character_id,
                instance_ids@,
            ),
            op matches PacketEvent::SkillStartNotify { source_id, skill_id, tripod_index }
                ==> (skill_id > 0 ==> forall|i: int|
                0 <= i < old(self).entity_tracker.entities@.len() && (#[trigger] old(self).entity_tracker.entities@[i]).id == source_id && old(self).entity_tracker.entities@[i].entity_type
                    == EntityType::Player ==> final(self).state.skill_tracker.has_cast(
                    source_id,
                    skill_id,
                    crate::skill_tracker::CastInfo { timestamp: now, summon_source: Option::<u64>::None },
                )),
            op matches PacketEvent::StatusEffectAddNotify { object_id, effect } ==> final(self).status_tracker.has_instance(
                StatusEffectTargetType::Local,
                object_id,
                effect.instance_id,
            ),
            op matches PacketEvent::PartyInfo { raid_instance_id, party_instance_id, members }
                ==> (forall|m: int|
                0 <= m < members@.len() ==> final(self).party_tracker.in_party(
                    party_instance_id,
                    (#[trigger] members@[m]).character_id,
                )),
            op matches PacketEvent::DeathNotify { target_id } ==> (forall|i: int|
                0 <= i < old(self).entity_tracker.entities@.len() && (#[trigger] old(self).entity_tracker.entities@[i]).id == target_id ==> (forall|k: int|
                    0 <= k < old(self).state.encounter.entities@.len() && (#[trigger] old(self).state.encounter.entities@[k]).name@
                        == old(self).entity_tracker.entities@[i].name@ ==> final(self).state.encounter.entities@[k].is_dead
                        && final(self).state.encounter.entities@[k].damage_stats.death_time
                        == now)),
            op matches PacketEvent::NewNpc { npc } ==> (exists|k: int|
                0 <= k < final(self).state.encounter.entities@.len() && (#[trigger] final(self).state.encounter.entities@[k]).name@ == npc.name@) && (forall|k: int|
                0 <= k < old(self).state.encounter.entities@.len() && (#[trigger] old(self).state.encounter.entities@[k]).name@ == npc.name@ ==> final(self).state.encounter.entities@[k].id
                    == npc.object_id && final(self).state.encounter.entities@[k].npc_id
                    == npc.npc_id && final(self).state.encounter.entities@[k].current_hp
                    == crate::entity_tracker::stat_value(
                    npc.stat_pairs@,
                    crate::entity_tracker::STAT_TYPE_HP,
                ) && final(self).state.encounter.entities@[k].max_hp
                    == crate::entity_tracker::stat_value(
                    npc.stat_pairs@,
                    crate::entity_tracker::STAT_TYPE_MAX_HP,
                ) && final(self).state.encounter.entities@[k].entity_type == (
                if crate::models::seq_contains_u32(old(self).config.boss_npc_ids@, npc.npc_id) {
                    EntityType::Boss
                } else {
                    EntityType::Npc
                })),
            op matches PacketEvent::NewPc { pc } ==> (exists|k: int|
                0 <= k < final(self).state.encounter.entities@.len() && (#[trigger] final(self).state.encounter.entities@[k]).name@ == pc.name@) && (forall|k: int|
                0 <= k < old(self).state.encounter.entities@.len() && (#[trigger] old(self).state.encounter.entities@[k]).name@ == pc.name@ ==> final(self).state.encounter.entities@[k].id
                    == pc.player_id && final(self).state.encounter.entities@[k].character_id
                    == pc.character_id && final(self).state.encounter.entities@[k].class_id
                    == pc.class_id && final(self).state.encounter.entities@[k].entity_type
                    == EntityType::Player && final(self).state.encounter.entities@[k].current_hp
                    == crate::entity_tracker::stat_value(
                    pc.stat_pairs@,
                    crate::entity_tracker::STAT_TYPE_HP,
                ) && final(self).state.encounter.entities@[k].max_hp
                    == crate::entity_tracker::stat_value(
                    pc.stat_pairs@,
                    crate::entity_tracker::STAT_TYPE_MAX_HP,
                )),
            op matches PacketEvent::StatusEffectSyncDataNotify {
                object_id,
                character_id,
                instance_id,
                value,
            } ==> ({
                let scope = StatusTracker::sync_scope(
                    character_id,
                    object_id,
                    old(self).entity_tracker.local_character_id,
                );
                &&& (!old(self).status_tracker.has_instance(scope.0, scope.1, instance_id)
                    ==> final(self).status_tracker.effects@ == old(self).status_tracker.effects@)
                &&& (forall|i: int|
                    0 <= i < old(self).status_tracker.effects@.len() && (#[trigger] old(self).status_tracker.effects@[i]).target_type == scope.0 && old(self).status_tracker.effects@[i].target_id == scope.1 && old(self).status_tracker.effects@[i].instance_id
                        == instance_id ==> final(self).status_tracker.effects@ == old(self).status_tracker.effects@.update(
                        i,
                        old(self).status_tracker.effects@[i].value_set(value),
                    ))
            }),
            op matches PacketEvent::TriggerStartNotify { signal } ==> ((is_clear_signal(signal)
                ==> final(self).state.raid_clear && final(self).state.phase
                == crate::models::FightPhase::Cleared && final(self).raid_end_cd == now) && (
            is_wipe_signal(signal) ==> !final(self).state.raid_clear && final(self).state.phase
                == crate::models::FightPhase::Wiped && final(self).raid_end_cd == now)),
    {
        match op {
            PacketEvent::CounterAttackNotify { source_id } => {
                match self.entity_tracker.get_entity(source_id) {
                    Some(e) => {
                        self.state.on_counterattack(&e);
                    },
                    None => {},
                }
                None
            },
            PacketEvent::DeathNotify { target_id } => {
                self.handle_death(target_id, now);
                None
            },
            PacketEvent::IdentityGaugeChangeNotify { gauge1, gauge2, gauge3 } => {
                if can_emit_details {
                    Some(Identity { gauge1, gauge2, gauge3 })
                } else {
                    None
                }
            },
            PacketEvent::InitEnv { player_id, region } => {
                self.party_tracker.reset_party_mappings();
                self.status_tracker.clear();
                self.party_cache = None;
                let local = self.entity_tracker.init_env(player_id);
                self.state.on_init_env(&local, region);
                None
            },
            PacketEvent::InitPc { pc } => {
                let (hp, max_hp) = get_current_and_max_hp(&pc.stat_pairs);
                let e = self.entity_tracker.init_pc(
                    pc.player_id,
                    pc.character_id,
                    pc.name,
                    pc.class_id,
                );
                if pc.character_id != 0 {
                    self.id_tracker.bind(pc.character_id, pc.player_id);
                }
                self.remember_local_player(pc.character_id, &e.name);
                self.state.on_init_pc(&e, hp, max_hp);
                None
            },
            PacketEvent::NewPc { pc } => {
                self.register_pc(pc);
                None
            },
            PacketEvent::NewVehicle { pc } => {
                match pc {
                    Some(pc) => {
                        self.register_pc(pc);
                    },
                    None => {},
                }
                None
            },
            PacketEvent::NewNpc { npc } => {
                self.register_npc(npc);
                None
            },
            PacketEvent::NewNpcSummon { npc } => {
                let (hp, max_hp) = get_current_and_max_hp(&npc.stat_pairs);
                let e = self.entity_tracker.new_npc(
                    npc.object_id,
                    npc.npc_id,
                    npc.name,
                    npc.owner_id,
                    true,
                    &self.config,
                );
                self.state.on_new_npc(&e, hp, max_hp);
                None
            },
            PacketEvent::NewProjectile { projectile_id, owner_id, skill_id } => {
                self.entity_tracker.new_spawned_object(projectile_id, owner_id, skill_id, false);
                self.link_spawned_to_cast(projectile_id, owner_id, skill_id);
                None
            },
            PacketEvent::NewTrap { object_id, owner_id, skill_id } => {
                self.entity_tracker.new_spawned_object(object_id, owner_id, skill_id, true);
                self.link_spawned_to_cast(object_id, owner_id, skill_id);
                None
            },
            PacketEvent::RaidBegin { raid_id } => {
                if raid_id == 308226 || raid_id == 308227 || raid_id == 308239 || raid_id
                    == 308339 {
                    self.state.raid_difficulty = "Trial".to_owned();
                    self.state.raid_difficulty_id = 7;
                } else if raid_id == 308428 || raid_id == 308429 || raid_id == 308420 || raid_id
                    == 308410 || raid_id == 308411 || raid_id == 308414 || raid_id == 308422
                    || raid_id == 308424 || raid_id == 308421 || raid_id == 308412 || raid_id
                    == 308423 || raid_id == 308426 || raid_id == 308416 || raid_id == 308419
                    || raid_id == 308415 || raid_id == 308437 || raid_id == 308417 || raid_id
                    == 308418 || raid_id == 308425 || raid_id == 308430 {
                    self.state.raid_difficulty = "Challenge".to_owned();
                    self.state.raid_difficulty_id = 8;
                } else {
                    self.state.raid_difficulty = String::new();
                    self.state.raid_difficulty_id = 0;
                }
                None
            },
            PacketEvent::RaidBossKillNotify => {
                self.state.on_phase_transition(1);
                self.state.raid_clear = true;
                None
            },
            PacketEvent::RaidResult => {
                self.party_freeze = true;
                let party = match self.party_cache.take() {
                    Some(p) => p,
                    None => self.update_party(),
                };
                self.state.party_info = party;
                self.state.on_phase_transition(0);
                self.raid_end_cd = now;
                None
            },
            PacketEvent::RemoveObject { object_ids } => {
                let n = object_ids.len();
                let mut i: usize = 0;
                while i < n
                    invariant
                        self.wf(),
                        self.state.damage_is_valid == old(self).state.damage_is_valid,
                        self.raid_end_cd == old(self).raid_end_cd,
                        self.state.encounter.entities@ == old(self).state.encounter.entities@,
                        0 <= i <= n,
                        n == object_ids@.len(),
                    decreases n - i,
                {
                    let id = object_ids[i];
                    self.entity_tracker.remove_entity(id);
                    self.status_tracker.remove_local_object(id);
                    i = i + 1;
                }
                None
            },
            PacketEvent::SkillCastNotify { source_id, skill_id } => {
                let mut e = self.entity_tracker.get_source_entity(source_id);
                self.entity_tracker.guess_is_player(&mut e, skill_id, &self.config);
                if e.class_id == 202 || e.class_id == 204 {
                    self.state.on_skill_start(&e, skill_id);
                }
                None
            },
            PacketEvent::SkillCooldownNotify { skill_id, available_at } => {
                self.state.skill_tracker.record_cooldown(skill_id, available_at);
                None
            },
            PacketEvent::SkillStartNotify { source_id, skill_id, tripod_index: _tripod } => {
                self.handle_skill_start(source_id, skill_id, now);
                None
            },
            PacketEvent::SkillDamageAbnormalMoveNotify {
                source_id,
                skill_id,
                skill_effect_id,
                events,
            } => {
                if self.damage_suppressed(now) {
                    return None;
                }
                let _ = self.apply_damage_events(
                    source_id,
                    skill_id,
                    skill_effect_id,
                    &events,
                    true,
                    now,
                    dh,
                );
                None
            },
            PacketEvent::SkillDamageNotify { source_id, skill_id, skill_effect_id, events } => {
                if self.damage_suppressed(now) {
                    return None;
                }
                let _ = self.apply_damage_events(
                    source_id,
                    skill_id,
                    skill_effect_id,
                    &events,
                    false,
                    now,
                    dh,
                );
                None
            },
            PacketEvent::PartyInfo { raid_instance_id, party_instance_id, members } => {
                self.handle_party_info(raid_instance_id, party_instance_id, members);
                None
            },
            PacketEvent::PartyLeaveResult { party_instance_id, name } => {
                self.party_tracker.remove(party_instance_id, &name);
                self.party_cache = None;
                None
            },
            PacketEvent::PartyStatusEffectAddNotify { character_id, effects } => {
                let n = effects.len();
                let mut i: usize = 0;
                while i < n
                    invariant
                        self.wf(),
                        self.state.damage_is_valid == old(self).state.damage_is_valid,
                        self.raid_end_cd == old(self).raid_end_cd,
                        crate::encounter::entities_extend(
                            old(self).state.encounter.entities@,
                            self.state.encounter.entities@,
                        ),
                        0 <= i <= n,
                        n == effects@.len(),
                    decreases n - i,
                {
                    let ghost epre = self.state.encounter.entities@;
                    let se = self.build_and_register_status_effect(
                        &effects[i],
                        StatusEffectTargetType::Party,
                        character_id,
                    );
                    self.notify_shield_applied(se);
                    proof {
                        crate::encounter::lemma_extend_trans(
                            old(self).state.encounter.entities@,
                            epre,
                            self.state.encounter.entities@,
                        );
                    }
                    i = i + 1;
                }
                None
            },
            PacketEvent::PartyStatusEffectRemoveNotify { character_id, instance_ids, reason } => {
                let (is_shield, shields_broken, _effects_removed, _left_workshop) =
                    self.status_tracker.remove_status_effects(
                    character_id,
                    &instance_ids,
                    reason,
                    StatusEffectTargetType::Party,
                );
                let ghost ledger = self.status_tracker.effects@;
                if is_shield {
                    let n = shields_broken.len();
                    let mut i: usize = 0;
                    while i < n
                        invariant
                            self.wf(),
                            self.state.damage_is_valid == old(self).state.damage_is_valid,
                            self.raid_end_cd == old(self).raid_end_cd,
                            self.status_tracker.effects@ == ledger,
                            crate::encounter::entities_extend(
                                old(self).state.encounter.entities@,
                                self.state.encounter.entities@,
                            ),
                            0 <= i <= n,
                            n == shields_broken@.len(),
                        decreases n - i,
                    {
                        let ghost epre = self.state.encounter.entities@;
                        let se = shields_broken[i];
                        self.on_shield_change(se, se.value);
                        proof {
                            crate::encounter::lemma_extend_trans(
                                old(self).state.encounter.entities@,
                                epre,
                                self.state.encounter.entities@,
                            );
                        }
                        i = i + 1;
                    }
                }
                None
            },
            PacketEvent::PartyStatusEffectResultNotify {
                raid_instance_id,
                party_instance_id,
                character_id,
            } => {
                self.party_tracker.add(raid_instance_id, party_instance_id, character_id, 0, None);
                None
            },
            PacketEvent::StatusEffectAddNotify { object_id, effect } => {
                self.handle_status_add(object_id, effect, now);
                None
            },
            PacketEvent::StatusEffectRemoveNotify { object_id, instance_ids, reason } => {
                let (is_shield, shields_broken, effects_removed, _left_workshop) =
                    self.status_tracker.remove_status_effects(
                    object_id,
                    &instance_ids,
                    reason,
                    StatusEffectTargetType::Local,
                );
                let ghost ledger = self.status_tracker.effects@;
                if is_shield {
                    let n = shields_broken.len();
                    let mut i: usize = 0;
                    while i < n
                        invariant
                            self.wf(),
                            self.state.damage_is_valid == old(self).state.damage_is_valid,
                            self.raid_end_cd == old(self).raid_end_cd,
                            self.status_tracker.effects@ == ledger,
                            crate::encounter::entities_extend(
                                old(self).state.encounter.entities@,
                                self.state.encounter.entities@,
                            ),
                            0 <= i <= n,
                            n == shields_broken@.len(),
                        decreases n - i,
                    {
                        let ghost epre = self.state.encounter.entities@;
                        let se = shields_broken[i];
                        self.on_shield_change(se, se.value);
                        proof {
                            crate::encounter::lemma_extend_trans(
                                old(self).state.encounter.entities@,
                                epre,
                                self.state.encounter.entities@,
                            );
                        }
                        i = i + 1;
                    }
                }
                let n = effects_removed.len();
                let mut i: usize = 0;
                while i < n
                    invariant
                        self.wf(),
                        self.state.damage_is_valid == old(self).state.damage_is_valid,
                        self.raid_end_cd == old(self).raid_end_cd,
                        self.status_tracker.effects@ == ledger,
                        crate::encounter::entities_extend(
                            old(self).state.encounter.entities@,
                            self.state.encounter.entities@,
                        ),
                        0 <= i <= n,
                        n == effects_removed@.len(),
                    decreases n - i,
                {
                    let ghost epre = self.state.encounter.entities@;
                    let se = effects_removed[i];
                    let is_cc = match se.effect_type {
                        StatusEffectType::HardCrowdControl => true,
                        _ => false,
                    };
                    if is_cc {
                        let target = self.entity_tracker.get_source_entity(se.target_id);
                        let is_player = match target.entity_type {
                            EntityType::Player => true,
                            _ => false,
                        };
                        if is_player {
                            self.state.on_cc_removed(&target, se.instance_id, now);
                        }
                    }
                    proof {
                        crate::encounter::lemma_extend_trans(
                            old(self).state.encounter.entities@,
                            epre,
                            self.state.encounter.entities@,
                        );
                    }
                    i = i + 1;
                }
                None
            },
            PacketEvent::TriggerBossBattleStatus => {
                let boss_unset = self.state.encounter.current_boss_name.as_str().is_empty();
                let saydon: String = "Saydon".to_owned();
                let special = *(&self.state.encounter.current_boss_name) == saydon;
                if boss_unset || self.state.encounter.fight_start == 0 || special {
                    self.state.on_phase_transition(3);
                }
                None
            },
            PacketEvent::TriggerStartNotify { signal } => {
                if signal == 57 || signal == 59 || signal == 61 || signal == 63 || signal == 74
                    || signal == 76 {
                    self.party_freeze = true;
                    let party = match self.party_cache.take() {
                        Some(p) => p,
                        None => self.update_party(),
                    };
                    self.state.party_info = party;
                    self.state.raid_clear = true;
                    self.state.on_phase_transition(2);
                    self.raid_end_cd = now;
                } else if signal == 58 || signal == 60 || signal == 62 || signal == 64 || signal
                    == 75 || signal == 77 {
                    self.party_freeze = true;
                    let party = match self.party_cache.take() {
                        Some(p) => p,
                        None => self.update_party(),
                    };
                    self.state.party_info = party;
                    self.state.raid_clear = false;
                    self.state.on_phase_transition(4);
                    self.raid_end_cd = now;
                }
                None
            },
            PacketEvent::ZoneMemberLoadStatusNotify { zone_id, zone_level } => {
                let difficulty_known = !self.state.raid_difficulty.as_str().is_empty();
                if self.state.raid_difficulty_id >= zone_id && difficulty_known {
                    return None;
                }
                if zone_level == 0 {
                    self.state.raid_difficulty = "Normal".to_owned();
                    self.state.raid_difficulty_id = 0;
                } else if zone_level == 1 {
                    self.state.raid_difficulty = "Hard".to_owned();
                    self.state.raid_difficulty_id = 1;
                } else if zone_level == 2 {
                    self.state.raid_difficulty = "Inferno".to_owned();
                    self.state.raid_difficulty_id = 2;
                } else if zone_level == 3 {
                    self.state.raid_difficulty = "Challenge".to_owned();
                    self.state.raid_difficulty_id = 3;
                } else if zone_level == 4 {
                    self.state.raid_difficulty = "Solo".to_owned();
                    self.state.raid_difficulty_id = 4;
                } else if zone_level == 5 {
                    self.state.raid_difficulty = "The First".to_owned();
                    self.state.raid_difficulty_id = 5;
                }
                None
            },
            PacketEvent::ZoneObjectUnpublishNotify { object_id } => {
                self.status_tracker.remove_local_object(object_id);
                None
            },
            PacketEvent::StatusEffectSyncDataNotify {
                object_id,
                character_id,
                instance_id,
                value,
            } => {
                self.handle_status_sync(object_id, character_id, instance_id, value);
                None
            },
            PacketEvent::TroopMemberUpdateMinNotify { character_id, cur_hp, max_hp, effects } => {
                match self.id_tracker.get_entity_id(character_id) {
                    Some(eid) => {
                        match self.entity_tracker.get_entity(eid) {
                            Some(e) => {
                                self.state.update_entity_hp(&e, cur_hp, max_hp);
                            },
                            None => {},
                        }
                        let n = effects.len();
                        let mut i: usize = 0;
                        while i < n
                            invariant
                                self.wf(),
                                self.state.damage_is_valid == old(self).state.damage_is_valid,
                                self.raid_end_cd == old(self).raid_end_cd,
                                crate::encounter::entities_extend(
                                    old(self).state.encounter.entities@,
                                    self.state.encounter.entities@,
                                ),
                                0 <= i <= n,
                                n == effects@.len(),
                            decreases n - i,
                        {
                            let ghost epre = self.state.encounter.entities@;
                            let (instance_id, value) = effects[i];
                            let local_character_id = self.entity_tracker.local_character_id;
                            let (updated, old_value) = self.status_tracker.sync_status_effect(
                                instance_id,
                                character_id,
                                0,
                                value,
                                local_character_id,
                            );
                            match updated {
                                Some(se) => {
                                    let is_shield = match se.effect_type {
                                        StatusEffectType::Shield => true,
                                        _ => false,
                                    };
                                    if is_shield {
                                        let change = old_value.saturating_sub(se.value);
                                        self.on_shield_change(se, change);
                                    }
                                },
                                None => {},
                            }
                            proof {
                                crate::encounter::lemma_extend_trans(
                                    old(self).state.encounter.entities@,
                                    epre,
                                    self.state.encounter.entities@,
                                );
                            }
                            i = i + 1;
                        }
                    },
                    None => {},
                }
                None
            },
            PacketEvent::NewTransit { zone_instance_id } => {
                dh.update_zone_instance_id(zone_instance_id);
                None
            },
        }
    }

    /// Dispatch one decoded packet stamped with the current wall clock;
    /// the latch guarantee holds whatever time the clock returns.
    pub fn handle_at_now<DH: DamageEncryptionHandler>(
        &mut self,
        op: PacketEvent,
        can_emit_details: bool,
        dh: &mut DH,
    ) -> (r: Option<Identity>)
        requires
            old(self).wf(),
        ensures
            final(self).wf(),
            latch_step(*old(self), *final(self), op),
            r is Some ==> op is IdentityGaugeChangeNotify && can_emit_details,
            !rearms_validity(op) ==> crate::encounter::entities_extend(
                old(self).state.encounter.entities@,
                final(self).state.encounter.entities@,
            ),
    {
        let now = crate::clock::now_ms();
        self.handle(op, now, can_emit_details, dh)
    }

    /// Mark the death of the entity registered under `target_id`: its row
    /// is marked dead at `now`. Unknown ids change nothing.
    fn handle_death(&mut self, target_id: u64, now: u64)
        requires
            old(self).wf(),
        ensures
            final(self).wf(),
            final(self).state.damage_is_valid == old(self).state.damage_is_valid,
            final(self).raid_end_cd == old(self).raid_end_cd,
            crate::encounter::entities_extend(
                old(self).state.encounter.entities@,
                final(self).state.encounter.entities@,
            ),
            forall|i: int|
                0 <= i < old(self).entity_tracker.entities@.len() && (#[trigger] old(self).entity_tracker.entities@[i]).id == target_id ==> (forall|k: int|
                    0 <= k < old(self).state.encounter.entities@.len() && (#[trigger] old(self).state.encounter.entities@[k]).name@
                        == old(self).entity_tracker.entities@[i].name@ ==> final(self).state.encounter.entities@[k].is_dead
                        && final(self).state.encounter.entities@[k].damage_stats.death_time
                        == now),
    {
        match self.entity_tracker.get_entity(target_id) {
            Some(e) => {
                self.state.on_death(&e, now);
                proof {
                    let j = choose|j: int|
                        0 <= j < old(self).entity_tracker.entities@.len()
                            && #[trigger] old(self).entity_tracker.entities@[j] == e;
                    assert forall|i: int|
                        0 <= i < old(self).entity_tracker.entities@.len() && (
                        #[trigger] old(self).entity_tracker.entities@[i]).id == target_id
                        implies old(self).entity_tracker.entities@[i] == e by {
                        if i != j {
                            assert(old(self).entity_tracker.entities@[i].id
                                != old(self).entity_tracker.entities@[j].id);
                        }
                    }
                }
            },
            None => {},
        }
    }

    /// Register an npc spawn: its statistics row carries the payload's
    /// identity and the HP located in the raw stat list, and boss-tier
    /// npc ids are typed as bosses.
    fn register_npc(&mut self, npc: NpcData)
        requires
            old(self).wf(),
        ensures
            final(self).wf(),
            final(self).state.damage_is_valid == old(self).state.damage_is_valid,
            final(self).raid_end_cd == old(self).raid_end_cd,
            crate::encounter::entities_extend(
                old(self).state.encounter.entities@,
                final(self).state.encounter.entities@,
            ),
            exists|k: int|
                0 <= k < final(self).state.encounter.entities@.len() && (#[trigger] final(self).state.encounter.entities@[k]).name@ == npc.name@,
            forall|k: int|
                0 <= k < old(self).state.encounter.entities@.len() && (#[trigger] old(self).state.encounter.entities@[k]).name@ == npc.name@ ==> final(self).state.encounter.entities@[k].id
                    == npc.object_id && final(self).state.encounter.entities@[k].npc_id
                    == npc.npc_id && final(self).state.encounter.entities@[k].current_hp
                    == crate::entity_tracker::stat_value(
                    npc.stat_pairs@,
                    crate::entity_tracker::STAT_TYPE_HP,
                ) && final(self).state.encounter.entities@[k].max_hp
                    == crate::entity_tracker::stat_value(
                    npc.stat_pairs@,
                    crate::entity_tracker::STAT_TYPE_MAX_HP,
                ) && final(self).state.encounter.entities@[k].entity_type == (
                if crate::models::seq_contains_u32(old(self).config.boss_npc_ids@, npc.npc_id) {
                    EntityType::Boss
                } else {
                    EntityType::Npc
                }),
    {
        let (hp, max_hp) = get_current_and_max_hp(&npc.stat_pairs);
        let e = self.entity_tracker.new_npc(
            npc.object_id,
            npc.npc_id,
            npc.name,
            0,
            false,
            &self.config,
        );
        let ghost pre_rows = self.state.encounter.entities@;
        self.state.on_new_npc(&e, hp, max_hp);
        proof {
            if forall|k: int|
                0 <= k < pre_rows.len() ==> (#[trigger] pre_rows[k]).name@ != e.name@ {
                assert(crate::encounter_state::npc_row_at(
                    self.state.encounter.entities@,
                    pre_rows.len() as int,
                    e,
                    hp,
                    max_hp,
                ));
            } else {
                let k = choose|k: int|
                    0 <= k < pre_rows.len() && (#[trigger] pre_rows[k]).name@ == e.name@;
                assert(crate::encounter_state::npc_row_at(
                    self.state.encounter.entities@,
                    k,
                    e,
                    hp,
                    max_hp,
                ));
            }
        }
    }

    /// Enroll a party notification's members, anchoring the local player's
    /// stable identity when its name appears.
    #[verifier::loop_isolation(false)]
    fn handle_party_info(
        &mut self,
        raid_instance_id: u32,
        party_instance_id: u32,
        members: Vec<PartyMemberInfo>,
    )
        requires
            old(self).wf(),
        ensures
            final(self).wf(),
            final(self).state.damage_is_valid == old(self).state.damage_is_valid,
            final(self).raid_end_cd == old(self).raid_end_cd,
            final(self).state.encounter.entities@ == old(self).state.encounter.entities@,
            forall|m: int|
                0 <= m < members@.len() ==> final(self).party_tracker.in_party(
                    party_instance_id,
                    (#[trigger] members@[m]).character_id,
                ),
    {
        let n = members.len();
        let mut i: usize = 0;
        while i < n
            invariant
                self.wf(),
                self.state.damage_is_valid == old(self).state.damage_is_valid,
                self.raid_end_cd == old(self).raid_end_cd,
                self.state.encounter.entities@ == old(self).state.encounter.entities@,
                0 <= i <= n,
                n == members@.len(),
                forall|m2: int|
                    0 <= m2 < i ==> self.party_tracker.in_party(
                        party_instance_id,
                        (#[trigger] members@[m2]).character_id,
                    ),
            decreases n - i,
        {
            let m = &members[i];
            self.party_tracker.add(
                raid_instance_id,
                party_instance_id,
                m.character_id,
                #[verifier::truncate] (i as u32),
                Some(m.name.clone()),
            );
            proof {
                assert forall|m2: int| 0 <= m2 < i + 1 implies self.party_tracker.in_party(
                    party_instance_id,
                    (#[trigger] members@[m2]).character_id,
                ) by {
                    if members@[m2].character_id != members@[i as int].character_id {
                    }
                }
            }
            let is_local = *(&m.name) == *(&self.state.encounter.local_player);
            if is_local && m.character_id != 0 {
                self.entity_tracker.set_local_character_id(m.character_id);
                let leid = self.entity_tracker.local_entity_id;
                if leid != 0 {
                    self.id_tracker.bind(m.character_id, leid);
                }
            }
            i = i + 1;
        }
        let leid = self.entity_tracker.local_entity_id;
        match self.entity_tracker.get_entity(leid) {
            Some(e) => {
                self.state.update_local_player(&e);
            },
            None => {},
        }
        self.party_cache = None;
    }

    /// Make a local-scope status application live and account for it: a
    /// shield is credited, a hard crowd control on a player starts its
    /// held-time clock.
    fn handle_status_add(&mut self, object_id: u64, effect: StatusEffectData, now: u64)
        requires
            old(self).wf(),
        ensures
            final(self).wf(),
            final(self).state.damage_is_valid == old(self).state.damage_is_valid,
            final(self).raid_end_cd == old(self).raid_end_cd,
            crate::encounter::entities_extend(
                old(self).state.encounter.entities@,
                final(self).state.encounter.entities@,
            ),
            final(self).status_tracker.has_instance(
                StatusEffectTargetType::Local,
                object_id,
                effect.instance_id,
            ),
    {
        let se = self.build_and_register_status_effect(
            &effect,
            StatusEffectTargetType::Local,
            object_id,
        );
        let ghost ledger = self.status_tracker.effects@;
        proof {
            assert(self.status_tracker.has_effect(se));
        }
        self.notify_shield_applied(se);
        let is_cc = match se.effect_type {
            StatusEffectType::HardCrowdControl => true,
            _ => false,
        };
        if is_cc {
            let target = self.entity_tracker.get_source_entity(object_id);
            let is_player = match target.entity_type {
                EntityType::Player => true,
                _ => false,
            };
            if is_player {
                self.state.on_cc_applied(&target, se.instance_id, now);
            }
        }
        proof {
            assert(self.status_tracker.effects@ == ledger);
            let i0 = choose|i0: int| 0 <= i0 < ledger.len() && #[trigger] ledger[i0] == se;
            assert(self.status_tracker.effects@[i0] == se);
        }
    }

    /// Apply a magnitude sync to the addressed instance: the slot's value
    /// is replaced and a shrinking shield is credited as consumed; unknown
    /// instances change nothing.
    fn handle_status_sync(
        &mut self,
        object_id: u64,
        character_id: u64,
        instance_id: u32,
        value: u64,
    )
        requires
            old(self).wf(),
        ensures
            final(self).wf(),
            final(self).state.damage_is_valid == old(self).state.damage_is_valid,
            final(self).raid_end_cd == old(self).raid_end_cd,
            crate::encounter::entities_extend(
                old(self).state.encounter.entities@,
                final(self).state.encounter.entities@,
            ),
            !old(self).status_tracker.has_instance(
                StatusTracker::sync_scope(
                    character_id,
                    object_id,
                    old(self).entity_tracker.local_character_id,
                ).0,
                StatusTracker::sync_scope(
                    character_id,
                    object_id,
                    old(self).entity_tracker.local_character_id,
                ).1,
                instance_id,
            ) ==> final(self).status_tracker.effects@ == old(self).status_tracker.effects@,
            forall|i: int|
                0 <= i < old(self).status_tracker.effects@.len() && (#[trigger] old(self).status_tracker.effects@[i]).target_type == StatusTracker::sync_scope(
                    character_id,
                    object_id,
                    old(self).entity_tracker.local_character_id,
                ).0 && old(self).status_tracker.effects@[i].target_id
                    == StatusTracker::sync_scope(
                    character_id,
                    object_id,
                    old(self).entity_tracker.local_character_id,
                ).1 && old(self).status_tracker.effects@[i].instance_id == instance_id
                    ==> final(self).status_tracker.effects@ == old(self).status_tracker.effects@.update(
                    i,
                    old(self).status_tracker.effects@[i].value_set(value),
                ),
    {
        let local_character_id = self.entity_tracker.local_character_id;
        let ghost pre = self.status_tracker.effects@;
        let (updated, old_value) = self.status_tracker.sync_status_effect(
            instance_id,
            character_id,
            object_id,
            value,
            local_character_id,
        );
        proof {
            let ghost scope = StatusTracker::sync_scope(
                character_id,
                object_id,
                local_character_id,
            );
            assert forall|i: int|
                0 <= i < pre.len() && (#[trigger] pre[i]).target_type == scope.0
                    && pre[i].target_id == scope.1 && pre[i].instance_id == instance_id
                implies self.status_tracker.effects@ == pre.update(
                i,
                pre[i].value_set(value),
            ) by {
                match updated {
                    Some(e) => {
                        let i0 = choose|i0: int|
                            0 <= i0 < pre.len() && e == (#[trigger] pre[i0]).value_set(value)
                                && pre[i0].target_type == scope.0 && pre[i0].target_id == scope.1
                                && pre[i0].instance_id == instance_id
                                && self.status_tracker.effects@ == pre.update(i0, e);
                        if i != i0 {
                            assert(!crate::status_tracker::same_key(pre[i], pre[i0]));
                        }
                    },
                    None => {
                        assert(false);
                    },
                }
            }
        }
        match updated {
            Some(se) => {
                let is_shield = match se.effect_type {
                    StatusEffectType::Shield => true,
                    _ => false,
                };
                if is_shield {
                    let change = old_value.saturating_sub(se.value);
                    self.on_shield_change(se, change);
                }
            },
            None => {},
        }
    }

    /// Record a skill start: the caster's cast counters grow, and a
    /// player's cast is remembered for projectile correlation.
    fn handle_skill_start(&mut self, source_id: u64, skill_id: u32, now: u64)
        requires
            old(self).wf(),
        ensures
            final(self).wf(),
            final(self).state.damage_is_valid == old(self).state.damage_is_valid,
            final(self).raid_end_cd == old(self).raid_end_cd,
            crate::encounter::entities_extend(
                old(self).state.encounter.entities@,
                final(self).state.encounter.entities@,
            ),
            skill_id > 0 ==> forall|i: int|
                0 <= i < old(self).entity_tracker.entities@.len() && (#[trigger] old(self).entity_tracker.entities@[i]).id == source_id && old(self).entity_tracker.entities@[i].entity_type
                    == EntityType::Player ==> final(self).state.skill_tracker.has_cast(
                    source_id,
                    skill_id,
                    crate::skill_tracker::CastInfo {
                        timestamp: now,
                        summon_source: Option::<u64>::None,
                    },
                ),
    {
        let mut e = self.entity_tracker.get_source_entity(source_id);
        proof {
            assert forall|i: int|
                0 <= i < old(self).entity_tracker.entities@.len() && (#[trigger] old(self).entity_tracker.entities@[i]).id == source_id && old(self).entity_tracker.entities@[i].entity_type
                    == EntityType::Player implies e == old(self).entity_tracker.entities@[i] by {
            }
        }
        let ghost e0 = e;
        self.entity_tracker.guess_is_player(&mut e, skill_id, &self.config);
        self.state.on_skill_start(&e, skill_id);
        let is_player = match e.entity_type {
            EntityType::Player => true,
            _ => false,
        };
        if is_player && skill_id > 0 {
            self.state.skill_tracker.new_cast(e.id, skill_id, None, now);
        }
        proof {
            if skill_id > 0 {
                assert forall|i: int|
                    0 <= i < old(self).entity_tracker.entities@.len() && (#[trigger] old(self).entity_tracker.entities@[i]).id == source_id && old(self).entity_tracker.entities@[i].entity_type
                        == EntityType::Player implies self.state.skill_tracker.has_cast(
                    source_id,
                    skill_id,
                    crate::skill_tracker::CastInfo {
                        timestamp: now,
                        summon_source: Option::<u64>::None,
                    },
                ) by {
                    assert(e0 == old(self).entity_tracker.entities@[i]);
                    assert(e0.entity_type == EntityType::Player);
                    assert(e.entity_type == EntityType::Player && e.id == source_id);
                }
            }
        }
    }

    /// Whether `now` falls inside the post-encounter suppression window.
    fn damage_suppressed(&self, now: u64) -> (r: bool)
        ensures
            r == suppressed(now, self.raid_end_cd),
    {
        if self.raid_end_cd > u64::MAX - DAMAGE_SUPPRESSION_WINDOW_MS {
            true
        } else {
            now < self.raid_end_cd + DAMAGE_SUPPRESSION_WINDOW_MS
        }
    }

    /// Register a player spawn and bind its stable identity.
    fn register_pc(&mut self, pc: PcData)
        requires
            old(self).wf(),
        ensures
            final(self).wf(),
            final(self).state.damage_is_valid == old(self).state.damage_is_valid,
            final(self).state.resetting == old(self).state.resetting,
            final(self).raid_end_cd == old(self).raid_end_cd,
            crate::encounter::entities_extend(
                old(self).state.encounter.entities@,
                final(self).state.encounter.entities@,
            ),
            exists|k: int|
                0 <= k < final(self).state.encounter.entities@.len() && (#[trigger] final(self).state.encounter.entities@[k]).name@ == pc.name@,
            forall|k: int|
                0 <= k < old(self).state.encounter.entities@.len() && (#[trigger] old(self).state.encounter.entities@[k]).name@ == pc.name@ ==> final(self).state.encounter.entities@[k].id
                    == pc.player_id && final(self).state.encounter.entities@[k].character_id
                    == pc.character_id && final(self).state.encounter.entities@[k].class_id
                    == pc.class_id && final(self).state.encounter.entities@[k].entity_type
                    == EntityType::Player && final(self).state.encounter.entities@[k].current_hp
                    == crate::entity_tracker::stat_value(
                    pc.stat_pairs@,
                    crate::entity_tracker::STAT_TYPE_HP,
                ) && final(self).state.encounter.entities@[k].max_hp
                    == crate::entity_tracker::stat_value(
                    pc.stat_pairs@,
                    crate::entity_tracker::STAT_TYPE_MAX_HP,
                ),
    {
        let (hp, max_hp) = get_current_and_max_hp(&pc.stat_pairs);
        let e = self.entity_tracker.new_pc(pc.player_id, pc.character_id, pc.name, pc.class_id);
        if pc.character_id != 0 {
            self.id_tracker.bind(pc.character_id, pc.player_id);
        }
        let ghost pre_rows = self.state.encounter.entities@;
        self.state.on_new_pc(&e, hp, max_hp);
        proof {
            if forall|k: int|
                0 <= k < pre_rows.len() ==> (#[trigger] pre_rows[k]).name@ != e.name@ {
                assert(crate::encounter_state::pc_row_at(
                    self.state.encounter.entities@,
                    pre_rows.len() as int,
                    e,
                    hp,
                    max_hp,
                ));
            } else {
                let k = choose|k: int|
                    0 <= k < pre_rows.len() && (#[trigger] pre_rows[k]).name@ == e.name@;
                assert(crate::encounter_state::pc_row_at(
                    self.state.encounter.entities@,
                    k,
                    e,
                    hp,
                    max_hp,
                ));
            }
        }
    }

    /// Remember a local player identity for the on-disk cache and mark the
    /// cache dirty.
    #[verifier::loop_isolation(false)]
    fn remember_local_player(&mut self, character_id: u64, name: &String)
        ensures
            final(self).state == old(self).state,
            final(self).raid_end_cd == old(self).raid_end_cd,
            final(self).id_tracker == old(self).id_tracker,
            final(self).party_tracker == old(self).party_tracker,
            final(self).status_tracker == old(self).status_tracker,
            final(self).entity_tracker == old(self).entity_tracker,
            final(self).local_dirty,
    {
        let n = self.local_players.len();
        let mut i: usize = 0;
        while i < n
            invariant
                n == self.local_players@.len(),
                self.local_players@ == old(self).local_players@,
                *self == *old(self),
                0 <= i <= n,
            decreases n - i,
        {
            if self.local_players[i].0 == character_id {
                let count = self.local_players[i].1.count;
                let entry = LocalPlayer { name: name.clone(), count: count.saturating_add(1) };
                self.local_players.set(i, (character_id, entry));
                self.local_dirty = true;
                return;
            }
            i = i + 1;
        }
        self.local_players.push((character_id, LocalPlayer { name: name.clone(), count: 1 }));
        self.local_dirty = true;
    }

    /// Correlate a spawned projectile or trap with the cast that produced
    /// it; only player-owned skills are correlated for timing statistics.
    fn link_spawned_to_cast(&mut self, spawned_id: u64, owner_id: u64, skill_id: u32)
        requires
            old(self).wf(),
        ensures
            final(self).wf(),
            final(self).state.damage_is_valid == old(self).state.damage_is_valid,
            final(self).state.resetting == old(self).state.resetting,
            final(self).raid_end_cd == old(self).raid_end_cd,
            final(self).state.encounter.entities@ == old(self).state.encounter.entities@,
            final(self).entity_tracker.entities@ == old(self).entity_tracker.entities@,
    {
        if self.entity_tracker.id_is_player(owner_id) && skill_id > 0 {
            match self.state.skill_tracker.cast_timestamp(owner_id, skill_id) {
                Some(ts) => {
                    self.state.skill_tracker.link_spawned(spawned_id, ts);
                },
                None => {},
            }
        }
    }

    /// If the registered effect is a shield, resolve its source and holder
    /// and record the application.
    fn notify_shield_applied(&mut self, se: StatusEffect)
        requires
            old(self).wf(),
        ensures
            final(self).wf(),
            final(self).state.damage_is_valid == old(self).state.damage_is_valid,
            final(self).state.resetting == old(self).state.resetting,
            final(self).raid_end_cd == old(self).raid_end_cd,
            crate::encounter::entities_extend(
                old(self).state.encounter.entities@,
                final(self).state.encounter.entities@,
            ),
            final(self).status_tracker.effects@ == old(self).status_tracker.effects@,
            final(self).party_tracker.entries@ == old(self).party_tracker.entries@,
    {
        let is_shield = match se.effect_type {
            StatusEffectType::Shield => true,
            _ => false,
        };
        if is_shield {
            let source = self.entity_tracker.get_source_entity(se.source_id);
            let target_entity_id = match se.target_type {
                StatusEffectTargetType::Party => match self.id_tracker.get_entity_id(
                    se.target_id,
                ) {
                    Some(eid) => eid,
                    None => 0,
                },
                StatusEffectTargetType::Local => se.target_id,
            };
            let target = self.entity_tracker.get_source_entity(target_entity_id);
            let ghost s0 = self.state.encounter.entities@;
            self.state.on_boss_shield(&target, se.value);
            let ghost s1 = self.state.encounter.entities@;
            self.state.on_shield_applied(&source, &target, se.value);
            proof {
                crate::encounter::lemma_extend_trans(
                    s0,
                    s1,
                    self.state.encounter.entities@,
                );
            }
        }
    }

    /// Decrypt and aggregate the events of one damage notification; an
    /// event that fails decryption trips the validity latch and is
    /// excluded from every total, but the rest of the batch still counts.
    /// Returns how many events failed decryption: the latch is untouched
    /// exactly when none did.
    pub fn apply_damage_events<DH: DamageEncryptionHandler>(
        &mut self,
        source_id: u64,
        skill_id: u32,
        skill_effect_id: u32,
        events: &Vec<DamageEvent>,
        track_abnormal_move: bool,
        now: u64,
        dh: &mut DH,
    ) -> (failed: usize)
        requires
            old(self).wf(),
        ensures
            final(self).wf(),
            final(self).state.damage_is_valid ==> old(self).state.damage_is_valid,
            failed == 0 ==> final(self).state.damage_is_valid == old(
                self,
            ).state.damage_is_valid,
            failed > 0 ==> !final(self).state.damage_is_valid,
            failed <= events@.len(),
            final(self).raid_end_cd == old(self).raid_end_cd,
            crate::encounter::entities_extend(
                old(self).state.encounter.entities@,
                final(self).state.encounter.entities@,
            ),
    {
        let owner = self.entity_tracker.get_source_entity(source_id);
        let n = events.len();
        let mut failed: usize = 0;
        let mut i: usize = 0;
        while i < n
            invariant
                self.wf(),
                self.state.damage_is_valid ==> old(self).state.damage_is_valid,
                failed == 0 ==> self.state.damage_is_valid == old(self).state.damage_is_valid,
                failed > 0 ==> !self.state.damage_is_valid,
                failed <= i,
                self.raid_end_cd == old(self).raid_end_cd,
                crate::encounter::entities_extend(
                    old(self).state.encounter.entities@,
                    self.state.encounter.entities@,
                ),
                0 <= i <= n,
                n == events@.len(),
            decreases n - i,
        {
            let ghost epre = self.state.encounter.entities@;
            let mut ev = events[i];
            if !dh.decrypt_damage_event(&mut ev) {
                self.state.damage_is_valid = false;
                failed = failed + 1;
            } else {
                let target = self.entity_tracker.get_or_create_entity(ev.target_id);
                if track_abnormal_move {
                    self.state.on_abnormal_move(&target);
                }
                let (se_on_source, se_on_target) = self.status_tracker.get_status_effects(
                    owner.id,
                    owner.character_id,
                    target.id,
                    target.character_id,
                    now,
                );
                let dmg = DamageData {
                    skill_id,
                    skill_effect_id,
                    damage: ev.damage,
                    modifier: ev.modifier,
                    target_current_hp: ev.cur_hp,
                    target_max_hp: ev.max_hp,
                    shield_damage: ev.shield_damage,
                };
                self.state.on_damage(
                    &owner,
                    &target,
                    dmg,
                    &se_on_source,
                    &se_on_target,
                    &self.config,
                    now,
                );
            }
            proof {
                crate::encounter::lemma_extend_trans(
                    old(self).state.encounter.entities@,
                    epre,
                    self.state.encounter.entities@,
                );
            }
            i = i + 1;
        }
        failed
    }
}

/// The latch cannot silently recover: over any packet sequence in which
/// each step respects the latch and no event resets the encounter, a
/// tripped latch stays tripped until the next soft reset.
pub proof fn lemma_validity_latch(engines: Seq<Engine>, events: Seq<PacketEvent>)
    requires
        engines.len() == events.len() + 1,
        forall|i: int|
            0 <= i < events.len() ==> latch_step(
                #[trigger] engines[i],
                engines[i + 1],
                events[i],
            ),
        !engines[0].state.damage_is_valid,
        forall|i: int| 0 <= i < events.len() ==> !rearms_validity(#[trigger] events[i]),
    ensures
        !engines[engines.len() - 1].state.damage_is_valid,
    decreases events.len(),
{
    if events.len() > 0 {
        let epre = engines.drop_last();
        let evpre = events.drop_last();
        assert(forall|i: int|
            0 <= i < evpre.len() ==> latch_step(#[trigger] epre[i], epre[i + 1], evpre[i]));
        assert(forall|i: int| 0 <= i < evpre.len() ==> !rearms_validity(#[trigger] evpre[i]));
        lemma_validity_latch(epre, evpre);
        assert(latch_step(
            engines[engines.len() - 2],
            engines[engines.len() - 1],
            events[events.len() - 1],
        ));
    }
}

} // verus!
