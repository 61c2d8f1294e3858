//! End-to-end scenarios driven through the packet dispatch engine.

use sayafushi::handler::{
    DamageEncryptionHandler, DamageEvent, Engine, NpcData, PacketEvent, PcData, StatusEffectData,
};
use sayafushi::models::{FightPhase, MeterConfig, StatPair};
use sayafushi::sender::{build_snapshot, Snapshot};
use sayafushi::summary::build_save;

struct PassDecrypt;

impl DamageEncryptionHandler for PassDecrypt {
    fn decrypt_damage_event(&self, _event: &mut DamageEvent) -> bool {
        true
    }

    fn update_zone_instance_id(&mut self, _zone_instance_id: u32) {}
}

/// Fails decryption for events whose modifier carries the marker value.
struct FailMarked;

impl DamageEncryptionHandler for FailMarked {
    fn decrypt_damage_event(&self, event: &mut DamageEvent) -> bool {
        event.modifier != 999
    }

    fn update_zone_instance_id(&mut self, _zone_instance_id: u32) {}
}

fn boss_config() -> MeterConfig {
    let mut cfg = MeterConfig::empty();
    cfg.boss_npc_ids.push(9999);
    cfg
}

fn hp_pairs(hp: i64, max_hp: i64) -> Vec<StatPair> {
    vec![
        StatPair { stat_type: 1, value: hp },
        StatPair { stat_type: 27, value: max_hp },
    ]
}

fn init_events(engine: &mut Engine, dh: &mut PassDecrypt) {
    engine.handle(
        PacketEvent::InitEnv { player_id: 1, region: Some("EUC".to_owned()) },
        0,
        false,
        dh,
    );
    engine.handle(
        PacketEvent::InitPc {
            pc: PcData {
                player_id: 1,
                character_id: 100,
                name: "Local".to_owned(),
                class_id: 101,
                stat_pairs: hp_pairs(100, 100),
            },
        },
        0,
        false,
        dh,
    );
    engine.handle(
        PacketEvent::NewNpc {
            npc: NpcData {
                object_id: 2,
                npc_id: 9999,
                name: "Boss".to_owned(),
                owner_id: 0,
                stat_pairs: hp_pairs(1_000_000, 1_000_000),
            },
        },
        0,
        false,
        dh,
    );
}

fn damage_packet(damage: u64, remaining_hp: i64, modifier: u32) -> PacketEvent {
    PacketEvent::SkillDamageNotify {
        source_id: 1,
        skill_id: 10,
        skill_effect_id: 0,
        events: vec![DamageEvent {
            target_id: 2,
            damage,
            modifier,
            cur_hp: remaining_hp,
            max_hp: 1_000_000,
            shield_damage: 0,
        }],
    }
}

fn dealt_by(engine: &Engine, name: &str) -> u64 {
    for e in engine.state.encounter.entities.iter() {
        if e.name == name {
            return e.damage_stats.damage_dealt;
        }
    }
    0
}

#[test]
fn boss_kill_sequence() {
    let mut engine = Engine::new(boss_config(), false, None, 0);
    let mut dh = PassDecrypt;
    init_events(&mut engine, &mut dh);
    for k in 0..5u64 {
        let t = 20_000 + k;
        let remaining = 1_000_000 - ((k as i64) + 1) * 200_000;
        engine.handle(damage_packet(200_000, remaining, 0), t, false, &mut dh);
    }
    engine.handle(PacketEvent::RaidBossKillNotify, 20_005, false, &mut dh);

    assert!(engine.state.raid_clear);
    assert!(matches!(engine.state.phase, FightPhase::Cleared));
    assert_eq!(dealt_by(&engine, "Local"), 1_000_000);

    let snapshot = build_snapshot(&engine.state, engine.state.boss_dead_update, None);
    match snapshot {
        Some(Snapshot::Update { current_boss, .. }) => {
            let boss = current_boss.expect("boss row published");
            assert_eq!(boss.name, "Boss");
            assert!(boss.is_dead);
            assert_eq!(boss.current_hp, 0);
        }
        other => panic!("expected a full update, got {}", kind_of(&other)),
    }

    let save = build_save(&engine.state, false).expect("fight started");
    // the five hits span four milliseconds, so the elapsed seconds floor to one
    assert_eq!(save.duration_seconds, 1);
    assert_eq!(save.dps, 1_000_000);
    assert!(save.rdps_valid);
    assert!(save.raid_clear);
}

fn kind_of(s: &Option<Snapshot>) -> &'static str {
    match s {
        None => "nothing",
        Some(Snapshot::InvalidDamage) => "invalid-damage",
        Some(Snapshot::Update { .. }) => "update",
    }
}

#[test]
fn decryption_failure_flags_invalid() {
    let mut engine = Engine::new(boss_config(), false, None, 0);
    let mut pass = PassDecrypt;
    init_events(&mut engine, &mut pass);
    let mut dh = FailMarked;
    for k in 0..5u64 {
        let t = 20_000 + k;
        // the third event carries the marker and fails decryption
        let modifier = if k == 2 { 999 } else { 0 };
        engine.handle(damage_packet(200_000, 800_000, modifier), t, false, &mut dh);
    }
    // the failed event is excluded from every total
    assert_eq!(dealt_by(&engine, "Local"), 800_000);
    assert_eq!(engine.state.encounter.stats.total_damage_dealt, 800_000);
    // and the validity latch stays tripped for the remainder
    assert!(!engine.state.damage_is_valid);
    let snapshot = build_snapshot(&engine.state, false, None);
    assert!(matches!(snapshot, Some(Snapshot::InvalidDamage)));
}

#[test]
fn stray_post_wipe_packet_ignored() {
    let mut engine = Engine::new(boss_config(), false, None, 0);
    let mut dh = PassDecrypt;
    init_events(&mut engine, &mut dh);
    engine.handle(damage_packet(200_000, 800_000, 0), 20_000, false, &mut dh);
    let dealt_before = dealt_by(&engine, "Local");

    // wipe signal at t = 21000: the suppression window opens
    engine.handle(PacketEvent::TriggerStartNotify { signal: 58 }, 21_000, false, &mut dh);
    assert!(matches!(engine.state.phase, FightPhase::Wiped));

    // a stray damage packet four seconds later changes nothing
    engine.handle(damage_packet(200_000, 600_000, 0), 25_000, false, &mut dh);
    assert_eq!(dealt_by(&engine, "Local"), dealt_before);

    // past the window, damage counts again
    engine.handle(damage_packet(200_000, 600_000, 0), 31_001, false, &mut dh);
    assert_eq!(dealt_by(&engine, "Local"), dealt_before + 200_000);
}

#[test]
fn zone_reset_clears_party() {
    let mut engine = Engine::new(MeterConfig::empty(), false, None, 0);
    let mut dh = PassDecrypt;
    for c in 1..=4u64 {
        engine.handle(
            PacketEvent::PartyStatusEffectResultNotify {
                raid_instance_id: 7,
                party_instance_id: 42,
                character_id: c,
            },
            0,
            false,
            &mut dh,
        );
    }
    assert_eq!(engine.party_tracker.members_of(3).len(), 4);

    engine.handle(PacketEvent::InitEnv { player_id: 9, region: None }, 10, false, &mut dh);
    for c in 1..=4u64 {
        assert!(engine.party_tracker.members_of(c).is_empty());
    }
}

#[test]
fn should_save_data() {
    let mut engine = Engine::new(boss_config(), false, Some("EUC".to_owned()), 0);
    let mut dh = PassDecrypt;
    init_events(&mut engine, &mut dh);
    engine.handle(damage_packet(300_000, 700_000, 0), 20_000, false, &mut dh);
    engine.handle(damage_packet(300_000, 400_000, 0), 23_000, false, &mut dh);

    let save = build_save(&engine.state, true).expect("fight started");
    assert_eq!(save.fight_start, 20_000);
    assert_eq!(save.last_combat_packet, 23_000);
    assert_eq!(save.duration_ms, 3_000);
    assert_eq!(save.duration_seconds, 3);
    assert_eq!(save.dps, 200_000);
    assert!(save.manual);
    assert_eq!(save.local_player, "Local");
    assert_eq!(save.local_player_dps, 200_000);
    let row = save
        .entities
        .iter()
        .find(|e| e.name == "Local")
        .expect("local player row saved");
    assert_eq!(row.damage_stats.damage_dealt, 600_000);
    assert_eq!(row.dps, 200_000);
    // the boss dealt nothing, so exactly the local player's row is saved
    assert_eq!(save.entities.len(), 1);
    assert_eq!(save.preview_players.len(), 1);
    assert_eq!(save.preview_players[0].name, "Local");
    assert_eq!(save.boss_name, "Boss");

    // an encounter that never started produces no record
    let idle = Engine::new(MeterConfig::empty(), false, None, 0);
    assert!(build_save(&idle.state, false).is_none());
}

#[test]
fn validity_latch_holds_until_reset() {
    let mut engine = Engine::new(boss_config(), false, None, 0);
    let mut pass = PassDecrypt;
    init_events(&mut engine, &mut pass);
    let mut dh = FailMarked;
    engine.handle(damage_packet(100, 999_900, 999), 20_000, false, &mut dh);
    assert!(!engine.state.damage_is_valid);

    // ordinary packets cannot un-trip the latch
    engine.handle(damage_packet(100, 999_800, 0), 20_001, false, &mut dh);
    engine.handle(PacketEvent::RaidBossKillNotify, 20_002, false, &mut dh);
    engine.handle(
        PacketEvent::SkillStartNotify { source_id: 1, skill_id: 10, tripod_index: None },
        20_003,
        false,
        &mut dh,
    );
    assert!(!engine.state.damage_is_valid);

    // only a reset re-arms it
    engine.handle(PacketEvent::InitEnv { player_id: 1, region: None }, 20_004, false, &mut dh);
    assert!(engine.state.damage_is_valid);
}

#[test]
fn damage_events_create_placeholders() {
    let mut engine = Engine::new(MeterConfig::empty(), false, None, 0);
    let mut dh = PassDecrypt;
    // a damage packet referencing ids never spawned must not fail, and the
    // unknown dealer is not aggregated
    engine.handle(damage_packet(500, 100, 0), 20_000, false, &mut dh);
    assert!(engine.entity_tracker.get_entity(1).is_some());
    assert_eq!(engine.state.encounter.stats.total_damage_dealt, 0);
}

#[test]
fn cumulative_damage_monotonic() {
    let mut engine = Engine::new(boss_config(), false, None, 0);
    let mut dh = PassDecrypt;
    init_events(&mut engine, &mut dh);
    let mut last = 0u64;
    for k in 0..6u64 {
        engine.handle(damage_packet(1_000 * (k + 1), 900_000, 0), 20_000 + k, false, &mut dh);
        let dealt = dealt_by(&engine, "Local");
        assert!(dealt >= last, "cumulative damage decreased");
        last = dealt;
    }
    assert_eq!(last, 21_000);
}

#[test]
fn shield_bookkeeping() {
    let mut cfg = boss_config();
    cfg.shield_effect_ids.push(70);
    let mut engine = Engine::new(cfg, false, None, 0);
    let mut dh = PassDecrypt;
    init_events(&mut engine, &mut dh);

    // a 1000-point shield from the local player lands on the boss
    let mut value_bytes = vec![0u8; 8];
    value_bytes[0] = 0xE8;
    value_bytes[1] = 0x03;
    engine.handle(
        PacketEvent::StatusEffectAddNotify {
            object_id: 2,
            effect: StatusEffectData {
                instance_id: 5,
                status_effect_id: 70,
                source_id: 1,
                value_bytes,
                expire_at: None,
            },
        },
        20_000,
        false,
        &mut dh,
    );
    assert_eq!(engine.state.encounter.stats.total_shielding, 1_000);
    let boss = engine
        .state
        .encounter
        .entities
        .iter()
        .find(|e| e.name == "Boss")
        .expect("boss row exists");
    assert_eq!(boss.current_shield, 1_000);
    assert_eq!(boss.damage_stats.shields_received, 1_000);

    // partial consumption: the shield drops to 400 points
    engine.handle(
        PacketEvent::StatusEffectSyncDataNotify {
            object_id: 2,
            character_id: 0,
            instance_id: 5,
            value: 400,
        },
        20_001,
        false,
        &mut dh,
    );
    assert_eq!(engine.state.encounter.stats.total_effective_shielding, 600);

    // removal consumes the remainder
    engine.handle(
        PacketEvent::StatusEffectRemoveNotify {
            object_id: 2,
            instance_ids: vec![5],
            reason: 0,
        },
        20_002,
        false,
        &mut dh,
    );
    assert_eq!(engine.state.encounter.stats.total_effective_shielding, 1_000);
}

#[test]
fn projectile_correlated_to_cast() {
    let mut engine = Engine::new(boss_config(), false, None, 0);
    let mut dh = PassDecrypt;
    init_events(&mut engine, &mut dh);
    engine.handle(
        PacketEvent::SkillStartNotify { source_id: 1, skill_id: 10, tripod_index: None },
        20_000,
        false,
        &mut dh,
    );
    engine.handle(
        PacketEvent::NewProjectile { projectile_id: 50, owner_id: 1, skill_id: 10 },
        20_050,
        false,
        &mut dh,
    );
    // the projectile keeps the timestamp of the cast that produced it
    assert_eq!(engine.state.skill_tracker.linked_timestamp(50), Some(20_000));
    // a projectile of an unknown owner is not correlated
    engine.handle(
        PacketEvent::NewProjectile { projectile_id: 51, owner_id: 77, skill_id: 10 },
        20_060,
        false,
        &mut dh,
    );
    assert_eq!(engine.state.skill_tracker.linked_timestamp(51), None);
}
