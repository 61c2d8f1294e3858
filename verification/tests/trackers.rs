//! Unit tests of the individual trackers and parsers.

use sayafushi::entity_tracker::get_current_and_max_hp;
use sayafushi::id_tracker::IdTracker;
use sayafushi::models::{StatPair, StatusEffectTargetType, StatusEffectType};
use sayafushi::party_tracker::PartyTracker;
use sayafushi::skill_tracker::SkillTracker;
use sayafushi::status_tracker::{get_status_effect_value, StatusEffect, StatusTracker};

fn shield(instance_id: u32, target_id: u64, value: u64) -> StatusEffect {
    StatusEffect {
        instance_id,
        status_effect_id: 70,
        target_type: StatusEffectTargetType::Local,
        target_id,
        source_id: 5,
        effect_type: StatusEffectType::Shield,
        value,
        expire_at: None,
    }
}

#[test]
fn removal_of_absent_instance_is_noop() {
    let mut tracker = StatusTracker::new();
    tracker.register(shield(1, 10, 500));

    // removing ids that were never added changes nothing and reports no
    // broken shields, whatever the ids are
    let (was_shield, broken, removed, _) = tracker.remove_status_effects(
        10,
        &vec![2, 3, 99999],
        0,
        StatusEffectTargetType::Local,
    );
    assert!(!was_shield);
    assert!(broken.is_empty());
    assert!(removed.is_empty());
    assert_eq!(tracker.effects.len(), 1);

    // and a second removal of an already-removed id is equally silent
    let (was_shield, broken, removed, _) =
        tracker.remove_status_effects(10, &vec![1], 0, StatusEffectTargetType::Local);
    assert!(was_shield);
    assert_eq!(broken.len(), 1);
    assert_eq!(removed.len(), 1);
    let (was_shield, broken, removed, _) =
        tracker.remove_status_effects(10, &vec![1], 0, StatusEffectTargetType::Local);
    assert!(!was_shield);
    assert!(broken.is_empty());
    assert!(removed.is_empty());
}

#[test]
fn sync_updates_value_and_reports_delta() {
    let mut tracker = StatusTracker::new();
    tracker.register(shield(7, 10, 500));
    let (updated, old_value) = tracker.sync_status_effect(7, 0, 10, 350, 0);
    let se = updated.expect("instance is live");
    assert_eq!(old_value, 500);
    assert_eq!(se.value, 350);

    // syncing an unknown instance is a silent no-op
    let (missing, old_value) = tracker.sync_status_effect(8, 0, 10, 1, 0);
    assert!(missing.is_none());
    assert_eq!(old_value, 0);
}

#[test]
fn despawn_cascades_over_held_and_sourced_effects() {
    let mut tracker = StatusTracker::new();
    tracker.register(shield(1, 10, 500));
    tracker.register(shield(2, 11, 500));
    let mut sourced = shield(3, 12, 100);
    sourced.source_id = 10;
    tracker.register(sourced);
    tracker.remove_local_object(10);
    // the effect held by object 10 and the effect sourced from it are gone
    assert_eq!(tracker.effects.len(), 1);
    assert_eq!(tracker.effects[0].instance_id, 2);
}

#[test]
fn party_membership_exclusive() {
    let mut party = PartyTracker::new();
    party.add(1, 100, 11, 0, Some("Ari".to_owned()));
    party.add(1, 100, 12, 1, Some("Bea".to_owned()));
    // re-adding a member under another party instance moves it
    party.add(1, 200, 11, 0, Some("Ari".to_owned()));
    let mut seen = std::collections::HashSet::new();
    for e in party.entries.iter() {
        assert!(seen.insert(e.character_id), "character listed twice");
    }
    assert_eq!(party.members_of(11), vec![11]);
    assert_eq!(party.members_of(12), vec![12]);

    // an explicit leave removes by name within the party instance
    party.remove(100, &"Bea".to_owned());
    assert!(party.members_of(12).is_empty());
}

#[test]
fn identity_rebind_moves_binding() {
    let mut ids = IdTracker::new();
    ids.bind(100, 1);
    ids.bind(200, 2);
    assert_eq!(ids.get_entity_id(100), Some(1));
    // the character migrated to a new entity id: most recent bind wins
    ids.bind(100, 3);
    assert_eq!(ids.get_entity_id(100), Some(3));
    assert_eq!(ids.get_local_character_id(3), Some(100));
    assert_eq!(ids.get_local_character_id(1), None);
    // the unrelated binding survived
    assert_eq!(ids.get_entity_id(200), Some(2));
}

#[test]
fn projectile_link_survives_recast() {
    let mut skills = SkillTracker::new();
    skills.new_cast(1, 10, None, 5_000);
    let ts = skills.cast_timestamp(1, 10).expect("cast recorded");
    skills.link_spawned(77, ts);
    // a later cast of the same skill supersedes the cast record
    skills.new_cast(1, 10, None, 9_000);
    assert_eq!(skills.cast_timestamp(1, 10), Some(9_000));
    // but the spawned id keeps the timestamp of the cast that created it
    assert_eq!(skills.linked_timestamp(77), Some(5_000));
    assert_eq!(skills.linked_timestamp(78), None);
}

#[test]
fn status_effect_value_decodes_little_endian() {
    // a single eight-byte counter
    assert_eq!(get_status_effect_value(&vec![1, 2, 0, 0, 0, 0, 0, 0]), 513);
    // two counters: the smaller is current
    let mut bytes = vec![0u8; 16];
    bytes[0] = 200;
    bytes[8] = 100;
    assert_eq!(get_status_effect_value(&bytes), 100);
    bytes[8] = 255;
    assert_eq!(get_status_effect_value(&bytes), 200);
    // anything shorter than one counter means zero
    assert_eq!(get_status_effect_value(&vec![1, 2, 3]), 0);
    // the high byte carries the largest weight
    let mut high = vec![0u8; 8];
    high[7] = 1;
    assert_eq!(get_status_effect_value(&high), 1u64 << 56);
}

#[test]
fn hp_located_by_stat_codes() {
    let pairs = vec![
        StatPair { stat_type: 3, value: 42 },
        StatPair { stat_type: 1, value: 750 },
        StatPair { stat_type: 27, value: 1000 },
        StatPair { stat_type: 9, value: 5 },
    ];
    assert_eq!(get_current_and_max_hp(&pairs), (750, 1000));
    // a later pair of the same code wins
    let pairs = vec![
        StatPair { stat_type: 1, value: 10 },
        StatPair { stat_type: 1, value: 20 },
    ];
    assert_eq!(get_current_and_max_hp(&pairs), (20, 0));
    assert_eq!(get_current_and_max_hp(&Vec::new()), (0, 0));
}
