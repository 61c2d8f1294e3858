//! Core data model of the tracking engine: entity kinds, status-effect
//! classification, fight phases and the plain packet payload types that the
//! dispatch handler consumes.

use vstd::prelude::*;

verus! {

/// Kind of a trackable in-world object.
#[derive(Clone, Copy, PartialEq, Eq, Structural, Debug)]
pub enum EntityType {
    Unknown,
    Player,
    Npc,
    Boss,
    Esther,
    Summon,
    Projectile,
    Trap,
}

/// Classification of a status effect instance.
#[derive(Clone, Copy, PartialEq, Eq, Structural, Debug)]
pub enum StatusEffectType {
    Shield,
    HardCrowdControl,
    Other,
}

/// Whether a status effect is keyed by a local object id or by a
/// party-relative character id.
#[derive(Clone, Copy, PartialEq, Eq, Structural, Debug)]
pub enum StatusEffectTargetType {
    Local,
    Party,
}

/// Coarse fight lifecycle state of the encounter state machine.
#[derive(Clone, Copy, PartialEq, Eq, Structural, Debug)]
pub enum FightPhase {
    Idle,
    InProgress,
    Cleared,
    Wiped,
}

/// Tripod (skill option) selection attached to a skill start notification.
#[derive(Clone, Copy, PartialEq, Eq, Structural, Debug)]
pub struct TripodIndex {
    pub first: u8,
    pub second: u8,
    pub third: u8,
}

/// One raw stat entry of a spawn payload; current and maximum HP are
/// located in such lists by known stat-type codes.
#[derive(Clone, Copy, PartialEq, Eq, Structural, Debug)]
pub struct StatPair {
    pub stat_type: u8,
    pub value: i64,
}

/// Identity gauge levels forwarded to the presentation layer.
#[derive(Clone, Copy, PartialEq, Eq, Structural, Debug)]
pub struct Identity {
    pub gauge1: u32,
    pub gauge2: u32,
    pub gauge3: u32,
}

/// Externally maintained datasets that drive classification heuristics:
/// which npc ids are boss-tier, which skill ids only players can cast, and
/// which effect ids belong to each attribution category. They are injected
/// at construction rather than hard-coded.
#[derive(PartialEq, Eq, Debug)]
pub struct MeterConfig {
    pub boss_npc_ids: Vec<u32>,
    pub player_skill_ids: Vec<u32>,
    pub shield_effect_ids: Vec<u32>,
    pub hard_cc_effect_ids: Vec<u32>,
    pub support_buff_ids: Vec<u32>,
    pub support_debuff_ids: Vec<u32>,
    pub identity_buff_ids: Vec<u32>,
    pub hat_buff_ids: Vec<u32>,
    pub hyper_awakening_skill_ids: Vec<u32>,
}

impl MeterConfig {
    /// A configuration with every dataset empty; every heuristic then
    /// classifies nothing.
    pub fn empty() -> (r: MeterConfig)
        ensures
            r.boss_npc_ids@ == Seq::<u32>::empty(),
            r.player_skill_ids@ == Seq::<u32>::empty(),
            r.shield_effect_ids@ == Seq::<u32>::empty(),
            r.hard_cc_effect_ids@ == Seq::<u32>::empty(),
            r.support_buff_ids@ == Seq::<u32>::empty(),
            r.support_debuff_ids@ == Seq::<u32>::empty(),
            r.identity_buff_ids@ == Seq::<u32>::empty(),
            r.hat_buff_ids@ == Seq::<u32>::empty(),
            r.hyper_awakening_skill_ids@ == Seq::<u32>::empty(),
    {
        MeterConfig {
            boss_npc_ids: Vec::new(),
            player_skill_ids: Vec::new(),
            shield_effect_ids: Vec::new(),
            hard_cc_effect_ids: Vec::new(),
            support_buff_ids: Vec::new(),
            support_debuff_ids: Vec::new(),
            identity_buff_ids: Vec::new(),
            hat_buff_ids: Vec::new(),
            hyper_awakening_skill_ids: Vec::new(),
        }
    }
}

/// Whether `x` occurs in `s`.
pub open spec fn seq_contains_u32(s: Seq<u32>, x: u32) -> bool {
    exists|i: int| 0 <= i < s.len() && s[i] == x
}

/// Whether `x` occurs in `s`.
pub open spec fn seq_contains_u64(s: Seq<u64>, x: u64) -> bool {
    exists|i: int| 0 <= i < s.len() && s[i] == x
}

/// Whether the two id lists share at least one element.
pub open spec fn spec_any_common(a: Seq<u32>, b: Seq<u32>) -> bool {
    exists|i: int, j: int| 0 <= i < a.len() && 0 <= j < b.len() && a[i] == b[j]
}

/// Membership test against an injected id table.
pub fn contains_u32(table: &Vec<u32>, x: u32) -> (r: bool)
    ensures
        r == seq_contains_u32(table@, x),
{
    let n = table.len();
    let mut i: usize = 0;
    while i < n
        invariant
            n == table@.len(),
            0 <= i <= n,
            forall|k: int| 0 <= k < i ==> table@[k] != x,
        decreases n - i,
    {
        if table[i] == x {
            return true;
        }
        i = i + 1;
    }
    false
}

/// Whether any id of `a` occurs in `b`.
pub fn any_common(a: &Vec<u32>, b: &Vec<u32>) -> (r: bool)
    ensures
        r == spec_any_common(a@, b@),
{
    let n = a.len();
    let mut i: usize = 0;
    while i < n
        invariant
            n == a@.len(),
            0 <= i <= n,
            forall|k: int, j: int| 0 <= k < i && 0 <= j < b@.len() ==> a@[k] != b@[j],
        decreases n - i,
    {
        if contains_u32(b, a[i]) {
            return true;
        }
        i = i + 1;
    }
    false
}

} // verus!
