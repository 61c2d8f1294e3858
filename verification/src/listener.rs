//! Command listener decisions: external reset, pause, save and
//! boss-only-damage signals arrive as flags set by the presentation layer
//! and are consumed once per packet-loop iteration, in a fixed priority
//! order.

use vstd::prelude::*;

use crate::handler::Engine;

verus! {

/// What one packet-loop iteration should do about the pending flags.
pub enum FlagAction {
    Reset,
    Saved,
    Paused,
    BossOnlyDamage,
    Idle,
}

/// Decide this iteration's action from the pending flags. Reset wins over
/// pause, pause over save, save over the boss-only-damage signal; with no
/// flag set, nothing is done.
pub fn process_flags(reset: bool, pause: bool, save: bool, boss_only_damage: bool) -> (r:
    FlagAction)
    ensures
        r is Reset <==> reset,
        r is Paused <==> (!reset && pause),
        r is Saved <==> (!reset && !pause && save),
        r is BossOnlyDamage <==> (!reset && !pause && !save && boss_only_damage),
        r is Idle <==> (!reset && !pause && !save && !boss_only_damage),
{
    if reset {
        FlagAction::Reset
    } else if pause {
        FlagAction::Paused
    } else if save {
        FlagAction::Saved
    } else if boss_only_damage {
        FlagAction::BossOnlyDamage
    } else {
        FlagAction::Idle
    }
}

impl Engine {
    /// Consume one flag action before dispatching the next packet: a reset
    /// clears everything at once; a save request snapshots the party,
    /// marks the encounter saved and schedules the reset; the
    /// boss-only-damage signal toggles the filter, clearing the
    /// encounter-level flag when switched off.
    pub fn apply_flag_action(&mut self, action: FlagAction)
        requires
            old(self).wf(),
        ensures
            final(self).wf(),
            action is Reset ==> final(self).state.damage_is_valid && final(self).state.encounter.entities@.len() == 0,
            action is Saved ==> final(self).state.saved && final(self).state.resetting
                && crate::handler::party_groups_exact(
                final(self).party_tracker,
                final(self).state.party_info@,
            ),
            action is BossOnlyDamage ==> final(self).state.boss_only_damage == !old(self).state.boss_only_damage,
            action is Idle ==> *final(self) == *old(self),
            action is Paused ==> *final(self) == *old(self),
    {
        match action {
            FlagAction::Reset => {
                self.soft_reset(true);
            },
            FlagAction::Saved => {
                let party = self.update_party();
                self.state.party_info = party;
                self.state.saved = true;
                self.state.resetting = true;
            },
            FlagAction::Paused => {},
            FlagAction::BossOnlyDamage => {
                if self.state.boss_only_damage {
                    self.state.boss_only_damage = false;
                    self.state.encounter.boss_only_damage = false;
                } else {
                    self.state.boss_only_damage = true;
                }
            },
            FlagAction::Idle => {},
        }
    }

    /// End-of-iteration reset: once a snapshot of a finished encounter was
    /// published, the state is cleared for the next pull.
    pub fn finish_iteration(&mut self)
        requires
            old(self).wf(),
        ensures
            final(self).wf(),
            old(self).state.resetting ==> final(self).state.encounter.entities@.len() == 0
                && final(self).state.damage_is_valid && !final(self).state.resetting && !final(self).state.saved && !final(self).party_freeze,
            !old(self).state.resetting ==> *final(self) == *old(self),
    {
        if self.state.resetting {
            self.soft_reset(true);
        }
    }
}

} // verus!
