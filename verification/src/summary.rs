//! End-of-encounter persistence computation: the summary row, the
//! qualifying entity rows and the sorted preview that the repository
//! writes. Building the record is pure computation over the final state;
//! the database write itself lives outside the library.

use vstd::prelude::*;

use crate::encounter::{DamageStats, EncounterDamageStats, EncounterEntity, SkillEntry, SkillStats};
use crate::encounter_state::EncounterState;
use crate::models::EntityType;
use crate::spec_duration_floor;
use vstd::multiset::Multiset;

verus! {

/// One qualifying entity's persisted row.
pub struct EntitySave {
    pub name: String,
    pub character_id: u64,
    pub npc_id: u32,
    pub entity_type: EntityType,
    pub class_id: u32,
    pub current_hp: i64,
    pub max_hp: i64,
    pub is_dead: bool,
    pub damage_stats: DamageStats,
    pub skill_stats: SkillStats,
    pub skills: Vec<(u32, SkillEntry)>,
    pub dps: u64,
}

/// One entry of the preview row's sorted player list.
pub struct PreviewPlayer {
    pub class_id: u32,
    pub name: String,
    pub damage_dealt: u64,
    pub dps: u64,
}

/// The persisted encounter record.
pub struct EncounterSave {
    pub fight_start: u64,
    pub last_combat_packet: u64,
    pub duration_ms: u64,
    pub duration_seconds: u64,
    pub dps: u64,
    pub stats: EncounterDamageStats,
    pub boss_name: String,
    pub difficulty: String,
    pub local_player: String,
    pub local_player_dps: u64,
    pub raid_clear: bool,
    /// The validity latch at save time; a tripped latch is persisted so
    /// the record is flagged, not silently under-reported.
    pub rdps_valid: bool,
    pub region: Option<String>,
    pub manual: bool,
    pub boss_only_damage: bool,
    pub entities: Vec<EntitySave>,
    pub preview_players: Vec<PreviewPlayer>,
}

/// Whether an entity's row is persisted: a classified player, the local
/// player, an esther or a live boss, provided it dealt damage.
pub open spec fn should_save(e: EncounterEntity, local_player: Seq<char>) -> bool {
    ((e.entity_type == EntityType::Player && e.class_id > 0) || e.name@ == local_player
        || e.entity_type == EntityType::Esther || (e.entity_type == EntityType::Boss && e.max_hp
        > 0)) && e.damage_stats.damage_dealt > 0
}

/// Whether an entity's row enters the preview player list: a classified
/// live player or the local player, having dealt damage.
pub open spec fn should_preview(e: EncounterEntity, local_player: Seq<char>) -> bool {
    ((e.entity_type == EntityType::Player && e.class_id > 0 && e.max_hp > 0) || e.name@
        == local_player) && e.damage_stats.damage_dealt > 0
}

/// Whether a persisted row carries a source row's name, statistics and
/// identity fields.
pub open spec fn saves_row(a: EntitySave, b: EncounterEntity) -> bool {
    a.name@ == b.name@ && a.damage_stats == b.damage_stats && a.entity_type == b.entity_type
        && a.class_id == b.class_id
}

/// Whether a preview entry carries a source row's name, class and damage.
pub open spec fn previews_row(p: PreviewPlayer, b: EncounterEntity) -> bool {
    p.name@ == b.name@ && p.damage_dealt == b.damage_stats.damage_dealt && p.class_id
        == b.class_id
}

/// Whether `a` was persisted from some qualifying row of `src`.
pub open spec fn save_from(a: EntitySave, src: Seq<EncounterEntity>, local: Seq<char>) -> bool {
    exists|j: int|
        0 <= j < src.len() && saves_row(a, #[trigger] src[j]) && should_save(src[j], local)
}

/// Whether `p` was collected from some preview-eligible row of `src`.
pub open spec fn preview_from(p: PreviewPlayer, src: Seq<EncounterEntity>, local: Seq<char>) -> bool {
    exists|j: int|
        0 <= j < src.len() && previews_row(p, #[trigger] src[j]) && should_preview(src[j], local)
}

/// Whether the preview list is ordered by damage dealt, highest first.
pub open spec fn sorted_desc(s: Seq<PreviewPlayer>) -> bool {
    forall|i: int, j: int|
        0 <= i < j < s.len() ==> (#[trigger] s[i]).damage_dealt >= (
        #[trigger] s[j]).damage_dealt
}

/// Index of a maximal-damage entry of a nonempty list.
fn max_damage_index(v: &Vec<PreviewPlayer>) -> (r: usize)
    requires
        v@.len() > 0,
    ensures
        r < v@.len(),
        forall|k: int|
            0 <= k < v@.len() ==> (#[trigger] v@[k]).damage_dealt <= v@[r as int].damage_dealt,
{
    let n = v.len();
    let mut best: usize = 0;
    let mut i: usize = 1;
    while i < n
        invariant
            n == v@.len(),
            1 <= i <= n,
            best < i,
            forall|k: int|
                0 <= k < i ==> (#[trigger] v@[k]).damage_dealt <= v@[best as int].damage_dealt,
        decreases n - i,
    {
        if v[i].damage_dealt > v[best].damage_dealt {
            best = i;
        }
        i = i + 1;
    }
    best
}

/// Sort a preview list by damage dealt, highest first, preserving exactly
/// its entries.
#[verifier::loop_isolation(false)]
pub fn sort_preview_desc(v: Vec<PreviewPlayer>) -> (r: Vec<PreviewPlayer>)
    ensures
        sorted_desc(r@),
        r@.to_multiset() == v@.to_multiset(),
        r@.len() == v@.len(),
    decreases v@.len(),
{
    broadcast use vstd::seq_lib::group_seq_properties;

    let ghost orig = v@;
    let mut rest = v;
    let mut out: Vec<PreviewPlayer> = Vec::new();
    proof {
        orig.to_multiset_ensures();
        assert(out@.to_multiset().add(rest@.to_multiset()) =~= orig.to_multiset());
    }
    while rest.len() > 0
        invariant
            sorted_desc(out@),
            out@.to_multiset().add(rest@.to_multiset()) == orig.to_multiset(),
            out@.len() + rest@.len() == orig.len(),
            forall|a: int, b: int|
                0 <= a < out@.len() && 0 <= b < rest@.len() ==> (
                #[trigger] out@[a]).damage_dealt >= (#[trigger] rest@[b]).damage_dealt,
        decreases rest@.len(),
    {
        let mi = max_damage_index(&rest);
        let ghost rest_pre = rest@;
        let ghost out_pre = out@;
        let e = rest.remove(mi);
        proof {
            rest_pre.to_multiset_ensures();
            assert(rest@.to_multiset() =~= rest_pre.to_multiset().remove(e));
            rest_pre.remove_ensures(mi as int);
        }
        out.push(e);
        proof {
            out_pre.to_multiset_ensures();
            assert(out@.to_multiset() =~= out_pre.to_multiset().insert(e));
            assert(out@.to_multiset().add(rest@.to_multiset()) =~= orig.to_multiset());
            assert forall|a: int, b: int|
                0 <= a < out@.len() && 0 <= b < rest@.len() implies (
            #[trigger] out@[a]).damage_dealt >= (#[trigger] rest@[b]).damage_dealt by {
                assert(rest@[b] == if b < mi {
                    rest_pre[b]
                } else {
                    rest_pre[b + 1]
                });
                if a < out@.len() - 1 {
                    assert(out@[a] == out_pre[a]);
                } else {
                    assert(out@[a] == rest_pre[mi as int]);
                }
            }
            assert forall|a: int, b: int| 0 <= a < b < out@.len() implies (
            #[trigger] out@[a]).damage_dealt >= (#[trigger] out@[b]).damage_dealt by {
                if b == out@.len() - 1 {
                    assert(out@[a] == out_pre[a]);
                    assert(out@[b] == rest_pre[mi as int]);
                }
            }
        }
    }
    proof {
        assert(rest@.to_multiset() =~= Multiset::<PreviewPlayer>::empty());
        assert(out@.to_multiset() =~= orig.to_multiset());
    }
    out
}

/// Two lists with equal multisets hold the same elements: every entry of
/// one occurs somewhere in the other.
proof fn lemma_same_elements(a: Seq<PreviewPlayer>, b: Seq<PreviewPlayer>)
    requires
        a.to_multiset() == b.to_multiset(),
    ensures
        forall|k: int| 0 <= k < b.len() ==> a.contains(#[trigger] b[k]),
{
    a.to_multiset_ensures();
    b.to_multiset_ensures();
    assert forall|k: int| 0 <= k < b.len() implies a.contains(#[trigger] b[k]) by {
        assert(b.contains(b[k]));
        assert(b.to_multiset().count(b[k]) > 0);
        assert(a.to_multiset().count(b[k]) > 0);
    }
}

/// The rows persisted for the encounter: exactly one per source row that
/// qualifies, each carrying its source's statistics and its own rate.
#[verifier::loop_isolation(false)]
#[verifier::rlimit(100)]
#[verifier::spinoff_prover]
fn collect_entity_rows(
    src: &Vec<EncounterEntity>,
    local_player: &String,
    duration_seconds: u64,
) -> (rows: Vec<EntitySave>)
    requires
        duration_seconds >= 1,
        crate::encounter::distinct_names(src@),
    ensures
        forall|k: int|
            0 <= k < rows@.len() ==> (#[trigger] rows@[k]).damage_stats.damage_dealt > 0
                && rows@[k].dps == rows@[k].damage_stats.damage_dealt as int
                / duration_seconds as int,
        forall|k: int|
            0 <= k < rows@.len() ==> save_from(#[trigger] rows@[k], src@, local_player@),
        forall|j: int|
            0 <= j < src@.len() && should_save(#[trigger] src@[j], local_player@)
                ==> exists|k: int|
                0 <= k < rows@.len() && (#[trigger] rows@[k]).name@ == src@[j].name@,
        forall|k1: int, k2: int|
            0 <= k1 < k2 < rows@.len() ==> (#[trigger] rows@[k1]).name@ != (
            #[trigger] rows@[k2]).name@,
{
    let n = src.len();
    let mut rows: Vec<EntitySave> = Vec::new();
    let mut i: usize = 0;
    while i < n
        invariant
            n == src@.len(),
            0 <= i <= n,
            forall|k: int|
                0 <= k < rows@.len() ==> (#[trigger] rows@[k]).damage_stats.damage_dealt > 0
                    && rows@[k].dps == rows@[k].damage_stats.damage_dealt as int
                    / duration_seconds as int,
            forall|k: int|
                0 <= k < rows@.len() ==> save_from(
                    #[trigger] rows@[k],
                    src@.subrange(0, i as int),
                    local_player@,
                ),
            forall|j: int|
                0 <= j < i && should_save(#[trigger] src@[j], local_player@) ==> exists|k: int|
                    0 <= k < rows@.len() && (#[trigger] rows@[k]).name@ == src@[j].name@,
            forall|k1: int, k2: int|
                0 <= k1 < k2 < rows@.len() ==> (#[trigger] rows@[k1]).name@ != (
                #[trigger] rows@[k2]).name@,
        decreases n - i,
    {
        let ghost rprev = rows@;
        let e = &src[i];
        let is_local = *(&e.name) == *local_player;
        let qualifies = ((match e.entity_type {
            EntityType::Player => e.class_id > 0,
            EntityType::Esther => true,
            EntityType::Boss => e.max_hp > 0,
            _ => false,
        }) || is_local) && e.damage_stats.damage_dealt > 0;
        proof {
            assert(qualifies == should_save(src@[i as int], local_player@));
        }
        if qualifies {
            let row_dps = e.damage_stats.damage_dealt / duration_seconds;
            let row = e.duplicate();
            rows.push(
                EntitySave {
                    name: row.name,
                    character_id: row.character_id,
                    npc_id: row.npc_id,
                    entity_type: row.entity_type,
                    class_id: row.class_id,
                    current_hp: row.current_hp,
                    max_hp: row.max_hp,
                    is_dead: row.is_dead,
                    damage_stats: row.damage_stats,
                    skill_stats: row.skill_stats,
                    skills: row.skills,
                    dps: row_dps,
                },
            );
            proof {
                let ghost pre = src@.subrange(0, i as int);
                let ghost cur = src@.subrange(0, i as int + 1);
                assert(cur[i as int] == src@[i as int]);
                assert(saves_row(rows@[rows@.len() - 1], cur[i as int]));
                assert(save_from(rows@[rows@.len() - 1], cur, local_player@));
                assert forall|k: int| 0 <= k < rows@.len() implies save_from(
                    #[trigger] rows@[k],
                    cur,
                    local_player@,
                ) by {
                    if k < rows@.len() - 1 {
                        assert(rows@[k] == rprev[k]);
                        assert(save_from(rprev[k], pre, local_player@));
                        let j = choose|j: int|
                            0 <= j < pre.len() && saves_row(rprev[k], #[trigger] pre[j])
                                && should_save(pre[j], local_player@);
                        assert(cur[j] == pre[j]);
                        assert(saves_row(rows@[k], cur[j]));
                    }
                }
                assert forall|j: int|
                    0 <= j < i + 1 && should_save(#[trigger] src@[j], local_player@)
                    implies exists|k: int|
                    0 <= k < rows@.len() && (#[trigger] rows@[k]).name@ == src@[j].name@ by {
                    if j == i {
                        assert(rows@[rows@.len() - 1].name@ == src@[j].name@);
                    } else {
                        let k = choose|k: int|
                            0 <= k < rprev.len() && (#[trigger] rprev[k]).name@ == src@[j].name@;
                        assert(rows@[k].name@ == src@[j].name@);
                    }
                }
                assert forall|k1: int, k2: int| 0 <= k1 < k2 < rows@.len() implies (
                #[trigger] rows@[k1]).name@ != (#[trigger] rows@[k2]).name@ by {
                    if k2 == rows@.len() - 1 {
                        assert(rows@[k1] == rprev[k1]);
                        assert(save_from(rprev[k1], pre, local_player@));
                        let j = choose|j: int|
                            0 <= j < pre.len() && saves_row(rprev[k1], #[trigger] pre[j])
                                && should_save(pre[j], local_player@);
                        assert(pre[j] == src@[j]);
                        assert(src@[j].name@ != src@[i as int].name@);
                    }
                }
            }
        }
        i = i + 1;
    }
    proof {
        assert(src@.subrange(0, n as int) =~= src@);
        assert forall|k: int| 0 <= k < rows@.len() implies save_from(
            #[trigger] rows@[k],
            src@,
            local_player@,
        ) by {
            assert(save_from(rows@[k], src@.subrange(0, n as int), local_player@));
        }
    }
    rows
}

/// The preview entries before sorting: exactly one per preview-eligible
/// source row, each carrying its source's class, name and damage.
#[verifier::loop_isolation(false)]
#[verifier::rlimit(100)]
#[verifier::spinoff_prover]
fn collect_preview_rows(
    src: &Vec<EncounterEntity>,
    local_player: &String,
    duration_seconds: u64,
) -> (rows: Vec<PreviewPlayer>)
    requires
        duration_seconds >= 1,
    ensures
        forall|k: int|
            0 <= k < rows@.len() ==> preview_from(#[trigger] rows@[k], src@, local_player@),
        forall|j: int|
            0 <= j < src@.len() && should_preview(#[trigger] src@[j], local_player@)
                ==> exists|k: int|
                0 <= k < rows@.len() && (#[trigger] rows@[k]).name@ == src@[j].name@,
{
    let n = src.len();
    let mut rows: Vec<PreviewPlayer> = Vec::new();
    let mut i: usize = 0;
    while i < n
        invariant
            n == src@.len(),
            0 <= i <= n,
            forall|k: int|
                0 <= k < rows@.len() ==> preview_from(#[trigger] rows@[k], src@, local_player@),
            forall|j: int|
                0 <= j < i && should_preview(#[trigger] src@[j], local_player@)
                    ==> exists|k: int|
                    0 <= k < rows@.len() && (#[trigger] rows@[k]).name@ == src@[j].name@,
        decreases n - i,
    {
        let ghost rprev = rows@;
        let e = &src[i];
        let is_local = *(&e.name) == *local_player;
        let is_previewed = ((match e.entity_type {
            EntityType::Player => e.class_id > 0 && e.max_hp > 0,
            _ => false,
        }) || is_local) && e.damage_stats.damage_dealt > 0;
        proof {
            assert(is_previewed == should_preview(src@[i as int], local_player@));
        }
        if is_previewed {
            let row_dps = e.damage_stats.damage_dealt / duration_seconds;
            rows.push(
                PreviewPlayer {
                    class_id: e.class_id,
                    name: e.name.clone(),
                    damage_dealt: e.damage_stats.damage_dealt,
                    dps: row_dps,
                },
            );
            proof {
                assert(previews_row(rows@[rows@.len() - 1], src@[i as int]));
                assert(preview_from(rows@[rows@.len() - 1], src@, local_player@));
                assert forall|k: int| 0 <= k < rows@.len() implies preview_from(
                    #[trigger] rows@[k],
                    src@,
                    local_player@,
                ) by {
                    if k < rows@.len() - 1 {
                        assert(rows@[k] == rprev[k]);
                        assert(preview_from(rprev[k], src@, local_player@));
                    }
                }
                assert forall|j: int|
                    0 <= j < i + 1 && should_preview(#[trigger] src@[j], local_player@)
                    implies exists|k: int|
                    0 <= k < rows@.len() && (#[trigger] rows@[k]).name@ == src@[j].name@ by {
                    if j == i {
                        assert(rows@[rows@.len() - 1].name@ == src@[j].name@);
                    } else {
                        let k = choose|k: int|
                            0 <= k < rprev.len() && (#[trigger] rprev[k]).name@ == src@[j].name@;
                        assert(rows@[k].name@ == src@[j].name@);
                    }
                }
            }
        }
        i = i + 1;
    }
    rows
}

/// The local player's damage rate over the window, or zero when the local
/// player dealt nothing or has no row.
#[verifier::loop_isolation(false)]
#[verifier::spinoff_prover]
fn local_player_rate(
    src: &Vec<EncounterEntity>,
    local_player: &String,
    duration_seconds: u64,
) -> (rate: u64)
    requires
        duration_seconds >= 1,
        crate::encounter::distinct_names(src@),
    ensures
        forall|j: int|
            0 <= j < src@.len() && (#[trigger] src@[j]).name@ == local_player@
                && src@[j].damage_stats.damage_dealt > 0 ==> rate
                == src@[j].damage_stats.damage_dealt as int / duration_seconds as int,
        (forall|j: int|
            0 <= j < src@.len() ==> !((#[trigger] src@[j]).name@ == local_player@
                && src@[j].damage_stats.damage_dealt > 0)) ==> rate == 0,
{
    let n = src.len();
    let mut rate: u64 = 0;
    let mut i: usize = 0;
    while i < n
        invariant
            n == src@.len(),
            0 <= i <= n,
            forall|j: int|
                0 <= j < i && (#[trigger] src@[j]).name@ == local_player@
                    && src@[j].damage_stats.damage_dealt > 0 ==> rate
                    == src@[j].damage_stats.damage_dealt as int / duration_seconds as int,
            (forall|j: int|
                0 <= j < i ==> !((#[trigger] src@[j]).name@ == local_player@
                    && src@[j].damage_stats.damage_dealt > 0)) ==> rate == 0,
        decreases n - i,
    {
        let e = &src[i];
        if *(&e.name) == *local_player && e.damage_stats.damage_dealt > 0 {
            rate = e.damage_stats.damage_dealt / duration_seconds;
        }
        i = i + 1;
    }
    rate
}

/// Sort preview entries by damage dealt, highest first, keeping their
/// correspondence with the source rows they were collected from.
#[verifier::loop_isolation(false)]
#[verifier::rlimit(100)]
#[verifier::spinoff_prover]
fn sort_preview_with_provenance(
    v: Vec<PreviewPlayer>,
    src: &Vec<EncounterEntity>,
    local_player: &String,
) -> (r: Vec<PreviewPlayer>)
    requires
        forall|k: int|
            0 <= k < v@.len() ==> preview_from(#[trigger] v@[k], src@, local_player@),
        forall|j: int|
            0 <= j < src@.len() && should_preview(#[trigger] src@[j], local_player@)
                ==> exists|k: int|
                0 <= k < v@.len() && (#[trigger] v@[k]).name@ == src@[j].name@,
    ensures
        sorted_desc(r@),
        forall|k: int|
            0 <= k < r@.len() ==> preview_from(#[trigger] r@[k], src@, local_player@),
        forall|j: int|
            0 <= j < src@.len() && should_preview(#[trigger] src@[j], local_player@)
                ==> exists|k: int|
                0 <= k < r@.len() && (#[trigger] r@[k]).name@ == src@[j].name@,
{
    let ghost collected = v@;
    let r = sort_preview_desc(v);
    proof {
        lemma_same_elements(collected, r@);
        lemma_same_elements(r@, collected);
        assert forall|k: int| 0 <= k < r@.len() implies preview_from(
            #[trigger] r@[k],
            src@,
            local_player@,
        ) by {
            assert(collected.contains(r@[k]));
            let m = choose|m: int| 0 <= m < collected.len() && collected[m] == r@[k];
            assert(preview_from(collected[m], src@, local_player@));
        }
        assert forall|j: int|
            0 <= j < src@.len() && should_preview(#[trigger] src@[j], local_player@)
            implies exists|k: int|
            0 <= k < r@.len() && (#[trigger] r@[k]).name@ == src@[j].name@ by {
            let m = choose|m: int|
                0 <= m < collected.len() && (#[trigger] collected[m]).name@ == src@[j].name@;
            assert(r@.contains(collected[m]));
            let k = choose|k: int| 0 <= k < r@.len() && r@[k] == collected[m];
            assert(r@[k].name@ == src@[j].name@);
        }
    }
    r
}

/// The record's row sets are exact: one persisted row per qualifying
/// source row and conversely, with correct per-row rates; the preview
/// lists exactly the preview-eligible rows, sorted by damage; and the
/// local player's rate is its row's rate, or zero without such a row.
pub open spec fn save_rows_exact(
    rows: Seq<EntitySave>,
    preview: Seq<PreviewPlayer>,
    local_dps: u64,
    src: Seq<EncounterEntity>,
    local: Seq<char>,
    duration_seconds: u64,
) -> bool {
    &&& forall|k: int|
        0 <= k < rows.len() ==> (#[trigger] rows[k]).damage_stats.damage_dealt > 0 && rows[k].dps
            == rows[k].damage_stats.damage_dealt as int / duration_seconds as int
    &&& forall|k: int|
        0 <= k < rows.len() ==> save_from(#[trigger] rows[k], src, local)
    &&& forall|j: int|
        0 <= j < src.len() && should_save(#[trigger] src[j], local) ==> exists|k: int|
            0 <= k < rows.len() && (#[trigger] rows[k]).name@ == src[j].name@
    &&& forall|k1: int, k2: int|
        0 <= k1 < k2 < rows.len() ==> (#[trigger] rows[k1]).name@ != (#[trigger] rows[k2]).name@
    &&& sorted_desc(preview)
    &&& forall|k: int|
        0 <= k < preview.len() ==> preview_from(#[trigger] preview[k], src, local)
    &&& forall|j: int|
        0 <= j < src.len() && should_preview(#[trigger] src[j], local) ==> exists|k: int|
            0 <= k < preview.len() && (#[trigger] preview[k]).name@ == src[j].name@
    &&& forall|j: int|
        0 <= j < src.len() && (#[trigger] src[j]).name@ == local
            && src[j].damage_stats.damage_dealt > 0 ==> local_dps
            == src[j].damage_stats.damage_dealt as int / duration_seconds as int
    &&& (forall|j: int|
        0 <= j < src.len() ==> !((#[trigger] src[j]).name@ == local
            && src[j].damage_stats.damage_dealt > 0)) ==> local_dps == 0
}

/// Build the record to persist for the current encounter, or nothing when
/// no fight ever started. The encounter-wide damage-per-second is the
/// total damage over the fight's elapsed seconds floored at one; exactly
/// one row is persisted per qualifying entity and exactly the
/// preview-eligible entities are listed, sorted by damage dealt.
#[verifier::loop_isolation(false)]
#[verifier::rlimit(100)]
#[verifier::spinoff_prover]
pub fn build_save(state: &EncounterState, manual: bool) -> (r: Option<EncounterSave>)
    requires
        state.wf(),
    ensures
        (r is Some) == (state.encounter.fight_start > 0),
        match r {
            Some(save) => {
                &&& save.fight_start == state.encounter.fight_start
                &&& save.last_combat_packet == state.encounter.last_combat_packet
                &&& save.duration_ms == state.encounter.last_combat_packet
                    - state.encounter.fight_start
                &&& save.duration_seconds == spec_duration_floor((save.duration_ms / 1000) as u64)
                &&& save.dps == state.encounter.stats.total_damage_dealt as int
                    / save.duration_seconds as int
                &&& save.rdps_valid == state.damage_is_valid
                &&& save.raid_clear == state.raid_clear
                &&& save.manual == manual
                &&& save.stats == state.encounter.stats
                &&& save.boss_name@ == state.encounter.current_boss_name@
                &&& save.difficulty@ == state.raid_difficulty@
                &&& save.local_player@ == state.encounter.local_player@
                &&& save.region == state.encounter.region
                &&& save.boss_only_damage == state.encounter.boss_only_damage
                &&& save_rows_exact(
                    save.entities@,
                    save.preview_players@,
                    save.local_player_dps,
                    state.encounter.entities@,
                    state.encounter.local_player@,
                    save.duration_seconds,
                )
            },
            None => true,
        },
{
    if state.encounter.fight_start == 0 {
        return None;
    }
    let duration_ms = state.encounter.last_combat_packet - state.encounter.fight_start;
    let duration_seconds = {
        let s = duration_ms / 1000;
        if s == 0 {
            1
        } else {
            s
        }
    };
    let dps = state.encounter.stats.total_damage_dealt / duration_seconds;
    let entities = collect_entity_rows(
        &state.encounter.entities,
        &state.encounter.local_player,
        duration_seconds,
    );
    let preview = collect_preview_rows(
        &state.encounter.entities,
        &state.encounter.local_player,
        duration_seconds,
    );
    let local_player_dps = local_player_rate(
        &state.encounter.entities,
        &state.encounter.local_player,
        duration_seconds,
    );
    let preview_players = sort_preview_with_provenance(
        preview,
        &state.encounter.entities,
        &state.encounter.local_player,
    );
    proof {
        assert(save_rows_exact(
            entities@,
            preview_players@,
            local_player_dps,
            state.encounter.entities@,
            state.encounter.local_player@,
            duration_seconds,
        ));
    }
    Some(
        EncounterSave {
            fight_start: state.encounter.fight_start,
            last_combat_packet: state.encounter.last_combat_packet,
            duration_ms,
            duration_seconds,
            dps,
            stats: state.encounter.stats,
            boss_name: state.encounter.current_boss_name.clone(),
            difficulty: state.raid_difficulty.clone(),
            local_player: state.encounter.local_player.clone(),
            local_player_dps,
            raid_clear: state.raid_clear,
            rdps_valid: state.damage_is_valid,
            region: match &state.encounter.region {
                Some(s) => Some(s.clone()),
                None => None,
            },
            manual,
            boss_only_damage: state.encounter.boss_only_damage,
            entities,
            preview_players,
        },
    )
}

} // verus!
