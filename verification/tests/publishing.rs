//! Tests of the publication decisions, the flag listener and the shell
//! types.

use sayafushi::api::{FakeHeartbeatApi, HeartbeatApi, HeartbeatSendArgs};
use sayafushi::dps_of;
use sayafushi::handler::{DamageEncryptionHandler, DamageEvent, Engine, NpcData, PacketEvent, PcData};
use sayafushi::models::StatPair;
use sayafushi::listener::{process_flags, FlagAction};
use sayafushi::models::MeterConfig;
use sayafushi::sender::{build_snapshot, Snapshot, SnapshotGate};
use sayafushi::summary::{sort_preview_desc, PreviewPlayer};
use sayafushi::ui::TrayCommand;
use sayafushi::updater_status::UpdateStatus;

struct PassDecrypt;

impl DamageEncryptionHandler for PassDecrypt {
    fn decrypt_damage_event(&self, _event: &mut DamageEvent) -> bool {
        true
    }

    fn update_zone_instance_id(&mut self, _zone_instance_id: u32) {}
}

#[test]
fn dps_floors_elapsed_seconds() {
    assert_eq!(dps_of(1_000_000, 0), 1_000_000);
    assert_eq!(dps_of(1_000_000, 1), 1_000_000);
    assert_eq!(dps_of(1_000_000, 4), 250_000);
    assert_eq!(dps_of(0, 0), 0);
}

#[test]
fn flag_priority_order() {
    assert!(matches!(process_flags(true, true, true, true), FlagAction::Reset));
    assert!(matches!(process_flags(false, true, true, true), FlagAction::Paused));
    assert!(matches!(process_flags(false, false, true, true), FlagAction::Saved));
    assert!(matches!(
        process_flags(false, false, false, true),
        FlagAction::BossOnlyDamage
    ));
    assert!(matches!(process_flags(false, false, false, false), FlagAction::Idle));
}

#[test]
fn boss_only_toggle_and_reset() {
    let mut engine = Engine::new(MeterConfig::empty(), false, None, 0);
    assert!(!engine.state.boss_only_damage);
    engine.apply_flag_action(FlagAction::BossOnlyDamage);
    assert!(engine.state.boss_only_damage);
    engine.apply_flag_action(FlagAction::BossOnlyDamage);
    assert!(!engine.state.boss_only_damage);

    engine.state.damage_is_valid = false;
    engine.apply_flag_action(FlagAction::Reset);
    assert!(engine.state.damage_is_valid);
    assert!(engine.state.encounter.entities.is_empty());
}

#[test]
fn snapshot_gate_throttles() {
    let engine = Engine::new(MeterConfig::empty(), false, None, 1_000);
    let gate = SnapshotGate::new(false, 1_000);
    assert!(!gate.can_send(&engine.state, 1_100));
    assert!(gate.can_send(&engine.state, 1_200));
    let slow = SnapshotGate::new(true, 1_000);
    assert!(!slow.can_send(&engine.state, 1_200));
    assert!(slow.can_send(&engine.state, 2_500));

    // a reset in progress forces emission regardless of the interval
    let mut resetting = Engine::new(MeterConfig::empty(), false, None, 1_000);
    resetting.state.resetting = true;
    assert!(gate.can_send(&resetting.state, 1_001));

    assert!(!gate.party_due(2_000, false));
    assert!(gate.party_due(3_000, false));
    assert!(!gate.party_due(3_000, true));
}

#[test]
fn snapshot_filters_unreported_entities() {
    let mut engine = Engine::new(MeterConfig::empty(), false, None, 0);
    // an empty encounter publishes nothing
    assert!(build_snapshot(&engine.state, false, None).is_none());

    let mut dh = PassDecrypt;
    engine.handle(
        PacketEvent::InitPc {
            pc: PcData {
                player_id: 1,
                character_id: 100,
                name: "Local".to_owned(),
                class_id: 101,
                stat_pairs: vec![StatPair { stat_type: 1, value: 100 }],
            },
        },
        0,
        false,
        &mut dh,
    );
    // a player that dealt no damage is filtered out
    assert!(build_snapshot(&engine.state, false, None).is_none());
    engine.handle(
        PacketEvent::NewNpc {
            npc: NpcData {
                object_id: 2,
                npc_id: 555,
                name: "Trash".to_owned(),
                owner_id: 0,
                stat_pairs: Vec::new(),
            },
        },
        0,
        false,
        &mut dh,
    );
    engine.handle(
        PacketEvent::SkillDamageNotify {
            source_id: 1,
            skill_id: 10,
            skill_effect_id: 0,
            events: vec![DamageEvent {
                target_id: 2,
                damage: 77,
                modifier: 0,
                cur_hp: 23,
                max_hp: 100,
                shield_damage: 0,
            }],
        },
        20_000,
        false,
        &mut dh,
    );
    match build_snapshot(&engine.state, false, None) {
        Some(Snapshot::Update { encounter, .. }) => {
            assert_eq!(encounter.entities.len(), 1);
            assert_eq!(encounter.entities[0].name, "Local");
            assert_eq!(encounter.entities[0].damage_stats.damage_dealt, 77);
            // the plain npc target is not reported
            assert!(encounter.entities.iter().all(|e| e.name != "Trash"));
        }
        _ => panic!("expected a full update"),
    }
}

#[test]
fn preview_sorted_by_damage() {
    let v = vec![
        PreviewPlayer { class_id: 1, name: "a".to_owned(), damage_dealt: 10, dps: 1 },
        PreviewPlayer { class_id: 2, name: "b".to_owned(), damage_dealt: 30, dps: 3 },
        PreviewPlayer { class_id: 3, name: "c".to_owned(), damage_dealt: 20, dps: 2 },
    ];
    let sorted = sort_preview_desc(v);
    let damages: Vec<u64> = sorted.iter().map(|p| p.damage_dealt).collect();
    assert_eq!(damages, vec![30, 20, 10]);
    let names: Vec<&str> = sorted.iter().map(|p| p.name.as_str()).collect();
    assert_eq!(names, vec!["b", "c", "a"]);
}

#[test]
fn tray_labels() {
    assert_eq!(TrayCommand::ShowLogs.label(), "Show Logs");
    assert_eq!(TrayCommand::ShowMeter.label(), "Show Meter");
    assert_eq!(TrayCommand::Hide.label(), "Hide Meter");
    assert_eq!(TrayCommand::StartLoa.label(), "Start Lost Ark");
    assert_eq!(TrayCommand::Reset.label(), "Reset Window");
    assert_eq!(TrayCommand::Quit.label(), "Quit");
}

#[test]
fn update_status_terminality() {
    assert!(!UpdateStatus::Checking.is_terminal());
    assert!(!UpdateStatus::Downloading { chunk: 1, length: None }.is_terminal());
    assert!(UpdateStatus::Latest.is_terminal());
    assert!(UpdateStatus::Downloaded.is_terminal());
    assert!(UpdateStatus::Failed("boom".to_owned()).is_terminal());
}

#[test]
fn heartbeat_throttles() {
    // the window opens at construction: nothing is due for a full interval
    let mut api = FakeHeartbeatApi::new(sayafushi::clock::now_ms());
    assert!(!api.can_send());
    // an interval after the last beat, sending is due again
    let mut stale = FakeHeartbeatApi::new(0);
    stale.last_heartbeat_ms = sayafushi::clock::now_ms().saturating_sub(api.heartbeat_interval_ms);
    assert!(stale.can_send());
    stale.send(HeartbeatSendArgs {
        id: "client".to_owned(),
        version: "1.0.0".to_owned(),
        region: "EUC".to_owned(),
    });
    // just sent: not due again for a while
    assert!(!stale.can_send());
}
