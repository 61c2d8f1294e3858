//! Live encounter tracking engine for a multiplayer combat log meter.
//!
//! The library consumes decoded combat packets and maintains a model of the
//! current encounter: who is fighting, who deals and takes damage, which
//! status effects and shields are active, party composition and fight phase.
//! All tracking logic is verified; packet capture, decryption, persistence
//! and presentation are external collaborators reached through narrow
//! interfaces.

pub mod api;
pub mod clock;
pub mod encounter;
pub mod encounter_state;
pub mod entity_tracker;
pub mod handler;
pub mod id_tracker;
pub mod listener;
pub mod sender;
pub mod seq_facts;
pub mod skill_tracker;
pub mod status_tracker;
pub mod summary;
pub mod models;
pub mod party_tracker;
pub mod ui;
pub mod updater_status;

use vstd::prelude::*;

verus! {

/// Lower bound applied to an encounter's elapsed seconds before any
/// damage-per-second division, so that near-instant fights cannot divide
/// by zero or produce explosive values.
pub open spec fn spec_duration_floor(seconds: u64) -> u64 {
    if seconds == 0 {
        1u64
    } else {
        seconds
    }
}

/// Damage per second of a cumulative total over an elapsed time,
/// with the elapsed seconds floored at one.
pub fn dps_of(total_damage: u64, elapsed_seconds: u64) -> (r: u64)
    ensures
        r == total_damage as int / spec_duration_floor(elapsed_seconds) as int,
{
    if elapsed_seconds == 0 {
        total_damage
    } else {
        total_damage / elapsed_seconds
    }
}

} // verus!
