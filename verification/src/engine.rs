//! The event dispatcher and encounter state machine.
//!
//! Every protocol message becomes one `StateEvent`; `handle_event` decides
//! whether to drop it (five delta-style events are dropped unconditionally
//! while the encounter is paused), mutates the state, and returns the list of
//! `EngineAction`s owed to the outside world. The surrounding process applies
//! the actions — persistence handoffs and presentation pushes — with no lock
//! held, so nothing here ever blocks or re-enters.

use vstd::prelude::*;
use vstd::string::StringExecFns;

use crate::buffs::{buffs_unique, ActiveBuff, BuffEffectRecord};
use crate::cooldown::{cds_unique, SkillCdState};
use crate::encounter::{
    build_encounter_snapshot, Encounter, EncounterSnapshot, EntityKind,
};
use crate::kvlist::{
    first_key_index, first_key_index_from, keys_unique, kv_get, kv_remove, kv_upsert,
};
use crate::models::{AttrCollection, BossHealth, BuffUpdateState, FightResourceState, RawAttr};
use crate::scene::SceneTable;
use crate::varint::spec_varint;

verus! {

/// Which per-player metric a subscription refers to.
#[derive(Debug, Clone, Copy, PartialEq, Eq, Structural)]
pub enum MetricType {
    Dps,
    Heal,
    Tanked,
}

/// Header information pushed with each `encounter-update`.
#[derive(Debug, Clone)]
pub struct EncounterHeader {
    pub total_dmg: u128,
    pub elapsed_ms: u128,
    pub fight_start_timestamp_ms: u128,
    pub bosses: Vec<BossHealth>,
    pub scene_id: Option<i32>,
    pub scene_name: Option<String>,
    pub current_segment_type: Option<String>,
    pub current_segment_name: Option<String>,
}

/// One observed actor as decoded from an entity-sync message.
#[derive(Debug, Clone)]
pub struct EntityObservation {
    pub uid: i64,
    pub name: String,
    pub kind: EntityKind,
    pub class_id: i32,
    pub class_spec: i32,
    pub ability_score: i64,
    pub level: i32,
}

/// One server-reported cooldown entry of a delta message.
#[derive(Debug, Clone, Copy, PartialEq, Eq, Structural)]
pub struct SkillCdReport {
    pub skill_level_id: Option<i32>,
    pub begin_time: Option<i64>,
    pub duration: Option<i32>,
    pub skill_cd_type: Option<i32>,
    pub valid_cd_time: Option<i32>,
}

/// One temp-attribute entry of a delta message.
#[derive(Debug, Clone, Copy, PartialEq, Eq, Structural)]
pub struct TempAttrReport {
    pub id: Option<i32>,
    pub value: Option<i32>,
}

/// The decoded content of a to-me delta message that the engine reads.
#[derive(Debug, Clone)]
pub struct DeltaData {
    pub skill_cds: Vec<SkillCdReport>,
    pub attrs: Option<AttrCollection>,
    pub temp_attrs: Vec<TempAttrReport>,
    pub buff_effects: Option<Vec<BuffEffectRecord>>,
    pub fight_res_values: Option<Vec<i64>>,
}

/// The decoded content of an enter-scene message that the engine reads.
#[derive(Debug, Clone)]
pub struct EnterSceneData {
    pub scene_guid: Option<String>,
    pub subscene_attrs: Option<AttrCollection>,
    pub scene_attrs: Option<AttrCollection>,
    pub player_attrs: Option<AttrCollection>,
}

/// The decoded content of a container-sync message that the engine reads.
#[derive(Debug, Clone, Copy, PartialEq, Eq, Structural)]
pub struct ContainerData {
    pub player_uid: Option<i64>,
}

/// The closed set of events the state machine handles. Low-level field
/// application inside the container and near-delta payloads belongs to the
/// opcode-processing collaborators; the variants carry what the engine itself
/// reads.
#[derive(Debug, Clone)]
pub enum StateEvent {
    ServerChange,
    EnterScene(EnterSceneData),
    SyncNearEntities(Vec<EntityObservation>),
    SyncContainerData(ContainerData),
    SyncContainerDirtyData,
    SyncServerTime,
    SyncToMeDeltaInfo(DeltaData),
    SyncNearDeltaInfo,
    NotifyReviveUser(Option<i64>),
    SyncSceneAttrs(Option<AttrCollection>),
    PauseEncounter(bool),
    ResetEncounter { is_manual: bool },
}

/// What the engine owes the outside world after handling one event:
/// persistence handoffs are fire-and-forget records, emissions are
/// best-effort pushes the presentation plumbing may drop.
#[derive(Debug, Clone)]
pub enum EngineAction {
    PersistSegments,
    EndEncounter {
        ended_at_ms: i64,
        defeated_bosses: Option<Vec<(i64, String)>>,
        is_manually_reset: bool,
        encounter_data: Option<EncounterSnapshot>,
    },
    EndAllActiveEncounters { ended_at_ms: i64 },
    EmitEncounterReset,
    EmitEncounterPause(bool),
    EmitSceneChange(String),
    EmitEncounterUpdate(EncounterHeader),
    EmitBuffUpdate(Vec<BuffUpdateState>),
    EmitSkillCdUpdate(Vec<SkillCdState>),
    EmitFightResUpdate(FightResourceState),
    ResetSegmentLog { scene_id: Option<i32>, scene_name: Option<String> },
    RecordRevive(i64),
}

/// The events that are dropped unconditionally while the encounter is paused.
pub open spec fn event_droppable(e: StateEvent) -> bool {
    match e {
        StateEvent::SyncNearEntities(_) => true,
        StateEvent::SyncContainerData(_) => true,
        StateEvent::SyncContainerDirtyData => true,
        StateEvent::SyncToMeDeltaInfo(_) => true,
        StateEvent::SyncNearDeltaInfo => true,
        _ => false,
    }
}

/// The whole engine state: the live encounter plus the subscription sets,
/// cooldown cache, buff tracker, modifier state and bookkeeping.
#[derive(Debug, Clone)]
pub struct AppState {
    /// The current encounter.
    pub encounter: Encounter,
    /// The set of (player, metric) pairs with an open skills window.
    pub skill_subscriptions: Vec<(i64, MetricType)>,
    /// Cached cooldown entries, keyed by skill-level id.
    pub skill_cd_map: Vec<SkillCdState>,
    /// Monitored coarse skill ids.
    pub monitored_skill_ids: Vec<i32>,
    /// Monitored buff base ids.
    pub monitored_buff_ids: Vec<i32>,
    /// Whether every buff is monitored.
    pub monitor_all_buff: bool,
    /// Active buffs, keyed by instance UUID.
    pub active_buffs: Vec<ActiveBuff>,
    /// Whether only boss damage counts for the main meter.
    pub boss_only_dps: bool,
    /// First-seen-below-threshold timestamps of low-HP bosses.
    pub low_hp_bosses: Vec<(i64, i64)>,
    /// Whether the first scene change after startup was handled.
    pub initial_scene_change_handled: bool,
    /// Feature flag for dungeon segment tracking.
    pub dungeon_segments_enabled: bool,
    /// Emission interval in milliseconds.
    pub event_update_rate_ms: u64,
    /// Current fight-resource state.
    pub fight_res_state: Option<FightResourceState>,
    /// Temp-attribute values keyed by temp-attribute id.
    pub temp_attr_values: Vec<(i32, i32)>,
    /// Fixed cooldown reduction.
    pub attr_skill_cd: i32,
    /// Percentage cooldown reduction in per-10k units.
    pub attr_skill_cd_pct: i32,
    /// Skill acceleration in per-10k units.
    pub attr_cd_accelerate_pct: i32,
    /// Snapshot built from the last emitted encounter frame.
    pub last_encounter_snapshot: Option<EncounterSnapshot>,
    /// One-shot boss deaths notified since the last handoff, keyed by uid.
    pub notified_boss_deaths: Vec<(i64, String)>,
}

impl AppState {
    /// Every keyed collection maps each key to exactly one value.
    pub open spec fn well_formed(&self) -> bool {
        &&& self.encounter.well_formed()
        &&& cds_unique(self.skill_cd_map@)
        &&& buffs_unique(self.active_buffs@)
        &&& keys_unique(self.low_hp_bosses@)
        &&& keys_unique(self.temp_attr_values@)
        &&& keys_unique(self.notified_boss_deaths@)
    }

    /// Creates the initial state: an empty encounter, nothing monitored,
    /// zeroed modifiers, and the default emission interval.
    pub fn new() -> (r: AppState)
        ensures
            r.well_formed(),
            !r.encounter.is_encounter_paused,
            r.encounter.entities@.len() == 0,
            r.skill_subscriptions@.len() == 0,
            r.skill_cd_map@.len() == 0,
            r.monitored_skill_ids@.len() == 0,
            r.monitored_buff_ids@.len() == 0,
            !r.monitor_all_buff,
            r.active_buffs@.len() == 0,
            !r.boss_only_dps,
            r.low_hp_bosses@.len() == 0,
            !r.initial_scene_change_handled,
            !r.dungeon_segments_enabled,
            r.event_update_rate_ms == 200,
            r.fight_res_state is None,
            r.temp_attr_values@.len() == 0,
            r.attr_skill_cd == 0 && r.attr_skill_cd_pct == 0 && r.attr_cd_accelerate_pct == 0,
            r.last_encounter_snapshot is None,
            r.notified_boss_deaths@.len() == 0,
    {
        AppState {
            encounter: Encounter::new(),
            skill_subscriptions: Vec::new(),
            skill_cd_map: Vec::new(),
            monitored_skill_ids: Vec::new(),
            monitored_buff_ids: Vec::new(),
            monitor_all_buff: false,
            active_buffs: Vec::new(),
            boss_only_dps: false,
            low_hp_bosses: Vec::new(),
            initial_scene_change_handled: false,
            dungeon_segments_enabled: false,
            event_update_rate_ms: 200,
            fight_res_state: None,
            temp_attr_values: Vec::new(),
            attr_skill_cd: 0,
            attr_skill_cd_pct: 0,
            attr_cd_accelerate_pct: 0,
            last_encounter_snapshot: None,
            notified_boss_deaths: Vec::new(),
        }
    }

    /// Returns whether the encounter is paused.
    pub fn is_encounter_paused(&self) -> (r: bool)
        ensures
            r == self.encounter.is_encounter_paused,
    {
        self.encounter.is_encounter_paused
    }

    /// Sets whether the encounter is paused; everything else is untouched.
    pub fn set_encounter_paused(&mut self, paused: bool)
        ensures
            *final(self) == (AppState {
                encounter: Encounter {
                    is_encounter_paused: paused,
                    ..old(self).encounter
                },
                ..*old(self)
            }),
    {
        self.encounter.is_encounter_paused = paused;
    }
}

/// Whether a boss's health view is below the death threshold: with both
/// values known and a positive maximum, current/max×100 < 5; in every other
/// case — either value unknown, or a non-positive maximum — the boss counts
/// as at full health, so no false death can fire on degenerate data.
pub open spec fn boss_low_hp(b: BossHealth) -> bool {
    match (b.current_hp, b.max_hp) {
        (Some(c), Some(m)) => m > 0 && 20 * c < m,
        _ => false,
    }
}

/// Whether a death for this uid is already on the list.
pub open spec fn death_listed(deaths: Seq<(i64, String)>, uid: i64) -> bool {
    first_key_index(deaths, uid) != -1
}

/// The death-detection fold over the boss view from index `i` on: a boss
/// below the threshold gets a first-seen timestamp once; after 5000 ms
/// continuously below, a one-shot death is appended; a boss that recovered is
/// unmarked; a dead boss's reported HP is forced to zero.
pub open spec fn spec_detect_from(
    bosses: Seq<BossHealth>,
    low: Seq<(i64, i64)>,
    deaths: Seq<(i64, String)>,
    now: i64,
    i: int,
) -> (Seq<BossHealth>, Seq<(i64, i64)>, Seq<(i64, String)>)
    decreases bosses.len() - i,
{
    if i < 0 || i >= bosses.len() {
        (bosses, low, deaths)
    } else {
        let b = bosses[i];
        let low1 = if boss_low_hp(b) {
            if kv_get(low, b.uid) is None {
                kv_upsert(low, b.uid, now)
            } else {
                low
            }
        } else {
            kv_remove(low, b.uid)
        };
        let deaths1 = if boss_low_hp(b) && now - kv_get(low1, b.uid)->Some_0 >= 5000 && !death_listed(
            deaths,
            b.uid,
        ) {
            deaths.push((b.uid, b.name))
        } else {
            deaths
        };
        let dead = death_listed(deaths1, b.uid);
        let bosses2 = if dead {
            bosses.update(i, BossHealth { current_hp: Some(0), ..b })
        } else {
            bosses
        };
        let low2 = if dead {
            kv_remove(low1, b.uid)
        } else {
            low1
        };
        spec_detect_from(bosses2, low2, deaths1, now, i + 1)
    }
}

/// Whether the uid occurs among the death pairs.
fn death_list_contains(deaths: &Vec<(i64, String)>, uid: i64) -> (r: bool)
    ensures
        r == death_listed(deaths@, uid),
{
    let mut i: usize = 0;
    while i < deaths.len()
        invariant
            0 <= i <= deaths@.len(),
            first_key_index(deaths@, uid) == first_key_index_from(deaths@, uid, i as int),
        decreases deaths@.len() - i,
    {
        if deaths[i].0 == uid {
            return true;
        }
        i = i + 1;
    }
    false
}

/// Runs dead-boss detection over the current boss view.
///
/// A boss whose HP percentage is below five percent is stamped with the time
/// it was first seen there; once the threshold has been breached continuously
/// for at least 5000 ms, exactly one death is appended for that uid (the list
/// deduplicates re-fires); a boss that recovers before that is unstamped and
/// no death fires. A boss on the death list has its reported HP forced to
/// zero.
pub fn detect_boss_deaths(
    bosses: &mut Vec<BossHealth>,
    low_hp: &mut Vec<(i64, i64)>,
    deaths: Vec<(i64, String)>,
    now: i64,
) -> (out: Vec<(i64, String)>)
    requires
        keys_unique(old(low_hp)@),
    ensures
        keys_unique(final(low_hp)@),
        (final(bosses)@, final(low_hp)@, out@) == spec_detect_from(
            old(bosses)@,
            old(low_hp)@,
            deaths@,
            now,
            0,
        ),
{
    let mut out = deaths;
    let mut i: usize = 0;
    while i < bosses.len()
        invariant
            0 <= i <= bosses@.len(),
            keys_unique(low_hp@),
            spec_detect_from(old(bosses)@, old(low_hp)@, deaths@, now, 0) == spec_detect_from(
                bosses@,
                low_hp@,
                out@,
                now,
                i as int,
            ),
        decreases bosses@.len() - i,
    {
        let uid = bosses[i].uid;
        let cur = bosses[i].current_hp;
        let max = bosses[i].max_hp;
        let low_now = match (cur, max) {
            (Some(c), Some(m)) => m > 0 && (20 as i128) * (c as i128) < (m as i128),
            _ => false,
        };
        if low_now {
            let entry = crate::kvlist::kv_get_i64(low_hp, uid);
            let first_seen: i64 = match entry {
                Some(t) => t,
                None => {
                    crate::kvlist::kv_set_i64(low_hp, uid, now);
                    now
                },
            };
            let elapsed: i128 = now as i128 - first_seen as i128;
            if elapsed >= 5000 && !death_list_contains(&out, uid) {
                let name = bosses[i].name.clone();
                out.push((uid, name));
                proof {
                    crate::kvlist::lemma_first_key_index_push(
                        out@.drop_last(),
                        uid,
                        (uid, bosses@[i as int].name),
                        0,
                    );
                    assert(out@.drop_last().push((uid, bosses@[i as int].name)) =~= out@);
                }
            }
        } else {
            crate::kvlist::kv_remove_i64(low_hp, uid);
        }
        if death_list_contains(&out, uid) {
            let b = &mut bosses[i];
            b.current_hp = Some(0);
            crate::kvlist::kv_remove_i64(low_hp, uid);
        }
        i = i + 1;
    }
    out
}

/// Records one boss death for the end-of-encounter handoff; returns whether
/// this uid is newly dead. A first death also flags that the encounter is
/// waiting for its next boss.
pub fn record_boss_death(state: &mut AppState, boss_uid: i64, boss_name: String) -> (first_time:
    bool)
    requires
        old(state).well_formed(),
    ensures
        final(state).well_formed(),
        first_time == !death_listed(old(state).notified_boss_deaths@, boss_uid),
        first_time ==> *final(state) == (AppState {
            encounter: Encounter { waiting_for_next_boss: true, ..old(state).encounter },
            notified_boss_deaths: final(state).notified_boss_deaths,
            ..*old(state)
        }) && final(state).notified_boss_deaths@ == old(state).notified_boss_deaths@.push(
            (boss_uid, boss_name),
        ),
        !first_time ==> *final(state) == *old(state),
{
    if death_list_contains(&state.notified_boss_deaths, boss_uid) {
        false
    } else {
        proof {
            crate::kvlist::lemma_first_key_index_from(state.notified_boss_deaths@, boss_uid, 0);
        }
        state.notified_boss_deaths.push((boss_uid, boss_name));
        state.encounter.waiting_for_next_boss = true;
        proof {
            let oldv = old(state).notified_boss_deaths@;
            let newv = state.notified_boss_deaths@;
            assert forall|a: int, b: int| 0 <= a < b < newv.len() implies newv[a].0
                != newv[b].0 by {
                if b == newv.len() - 1 {
                    assert(oldv[a].0 != boss_uid);
                }
            }
        }
        true
    }
}

/// Drains the accumulated boss-death list for persistence.
pub fn take_dead_bosses(state: &mut AppState) -> (r: Vec<(i64, String)>)
    ensures
        r@ == old(state).notified_boss_deaths@,
        *final(state) == (AppState {
            notified_boss_deaths: final(state).notified_boss_deaths,
            ..*old(state)
        }),
        final(state).notified_boss_deaths@.len() == 0,
{
    let mut drained: Vec<(i64, String)> = Vec::new();
    core::mem::swap(&mut drained, &mut state.notified_boss_deaths);
    drained
}

/// Forgets the accumulated boss-death list.
pub fn clear_dead_bosses(state: &mut AppState)
    ensures
        *final(state) == (AppState {
            notified_boss_deaths: final(state).notified_boss_deaths,
            ..*old(state)
        }),
        final(state).notified_boss_deaths@.len() == 0,
{
    state.notified_boss_deaths.clear();
}

/// Number of end-of-encounter handoffs among the actions at or after `i`.
pub open spec fn count_end_from(s: Seq<EngineAction>, i: int) -> int
    decreases s.len() - i,
{
    if i < 0 || i >= s.len() {
        0
    } else if s[i] is EndEncounter {
        1 + count_end_from(s, i + 1)
    } else {
        count_end_from(s, i + 1)
    }
}

/// Number of end-of-encounter handoffs among the actions.
pub open spec fn count_end(s: Seq<EngineAction>) -> int {
    count_end_from(s, 0)
}

/// Number of close-all-dangling-encounters records at or after `i`.
pub open spec fn count_end_all_from(s: Seq<EngineAction>, i: int) -> int
    decreases s.len() - i,
{
    if i < 0 || i >= s.len() {
        0
    } else if s[i] is EndAllActiveEncounters {
        1 + count_end_all_from(s, i + 1)
    } else {
        count_end_all_from(s, i + 1)
    }
}

/// Number of close-all-dangling-encounters records among the actions.
pub open spec fn count_end_all(s: Seq<EngineAction>) -> int {
    count_end_all_from(s, 0)
}

/// A list with exactly one end-of-encounter index counts one.
pub proof fn lemma_count_single(s: Seq<EngineAction>, idx: int, i: int)
    requires
        0 <= i <= s.len(),
        0 <= idx < s.len(),
        s[idx] is EndEncounter,
        forall|j: int| 0 <= j < s.len() && j != idx ==> !((#[trigger] s[j]) is EndEncounter),
    ensures
        count_end_from(s, i) == if i <= idx {
            1int
        } else {
            0int
        },
    decreases s.len() - i,
{
    if i < s.len() {
        lemma_count_single(s, idx, i + 1);
    }
}

/// A list with no end-of-encounter action counts zero.
pub proof fn lemma_count_zero(s: Seq<EngineAction>, i: int)
    requires
        0 <= i <= s.len(),
        forall|j: int| 0 <= j < s.len() ==> !((#[trigger] s[j]) is EndEncounter),
    ensures
        count_end_from(s, i) == 0,
    decreases s.len() - i,
{
    if i < s.len() {
        lemma_count_zero(s, i + 1);
    }
}

/// Concatenation adds the end-of-encounter counts.
pub proof fn lemma_count_concat(a: Seq<EngineAction>, b: Seq<EngineAction>, i: int)
    requires
        0 <= i <= a.len(),
    ensures
        count_end_from(a + b, i) == count_end_from(a, i) + count_end_from(b, 0),
    decreases a.len() - i,
{
    if i < a.len() {
        assert((a + b)[i] == a[i]);
        lemma_count_concat(a, b, i + 1);
    } else {
        lemma_count_suffix(a, b, 0);
    }
}

proof fn lemma_count_suffix(a: Seq<EngineAction>, b: Seq<EngineAction>, j: int)
    requires
        0 <= j <= b.len(),
    ensures
        count_end_from(a + b, a.len() + j) == count_end_from(b, j),
    decreases b.len() - j,
{
    if j < b.len() {
        assert((a + b)[a.len() + j] == b[j]);
        lemma_count_suffix(a, b, j + 1);
    }
}


/// A list with no close-all record counts zero.
pub proof fn lemma_count_all_zero(s: Seq<EngineAction>, i: int)
    requires
        0 <= i <= s.len(),
        forall|j: int| 0 <= j < s.len() ==> !((#[trigger] s[j]) is EndAllActiveEncounters),
    ensures
        count_end_all_from(s, i) == 0,
    decreases s.len() - i,
{
    if i < s.len() {
        lemma_count_all_zero(s, i + 1);
    }
}

/// Concatenation adds the close-all counts.
pub proof fn lemma_count_all_concat(a: Seq<EngineAction>, b: Seq<EngineAction>, i: int)
    requires
        0 <= i <= a.len(),
    ensures
        count_end_all_from(a + b, i) == count_end_all_from(a, i) + count_end_all_from(b, 0),
    decreases a.len() - i,
{
    if i < a.len() {
        assert((a + b)[i] == a[i]);
        lemma_count_all_concat(a, b, i + 1);
    } else {
        lemma_count_all_suffix(a, b, 0);
    }
}

proof fn lemma_count_all_suffix(a: Seq<EngineAction>, b: Seq<EngineAction>, j: int)
    requires
        0 <= j <= b.len(),
    ensures
        count_end_all_from(a + b, a.len() + j) == count_end_all_from(b, j),
    decreases b.len() - j,
{
    if j < b.len() {
        assert((a + b)[a.len() + j] == b[j]);
        lemma_count_all_suffix(a, b, j + 1);
    }
}

/// The state after the combat bookkeeping of one encounter is dropped:
/// counters, entities, snapshot, subscriptions, active buffs, low-HP marks
/// and the one-shot death log are cleared; scene, pause flag, monitor sets,
/// modifier state and feature flags stay.
pub open spec fn reset_state_shape(pre: AppState, post: AppState, buffs_cleared: bool) -> bool {
    &&& post.encounter.total_dmg == 0
    &&& post.encounter.total_heal == 0
    &&& post.encounter.time_fight_start_ms == 0
    &&& post.encounter.time_last_combat_packet_ms == 0
    &&& post.encounter.entities@.len() == 0
    &&& !post.encounter.waiting_for_next_boss
    &&& post.encounter.is_encounter_paused == pre.encounter.is_encounter_paused
    &&& post.encounter.current_scene_id == pre.encounter.current_scene_id
    &&& post.encounter.current_scene_name == pre.encounter.current_scene_name
    &&& post.encounter.local_player_uid == pre.encounter.local_player_uid
    &&& post.skill_subscriptions@.len() == 0
    &&& post.skill_cd_map == pre.skill_cd_map
    &&& post.monitored_skill_ids == pre.monitored_skill_ids
    &&& post.monitored_buff_ids == pre.monitored_buff_ids
    &&& post.monitor_all_buff == pre.monitor_all_buff
    &&& (if buffs_cleared {
        post.active_buffs@.len() == 0
    } else {
        post.active_buffs == pre.active_buffs
    })
    &&& post.boss_only_dps == pre.boss_only_dps
    &&& post.low_hp_bosses@.len() == 0
    &&& post.initial_scene_change_handled == pre.initial_scene_change_handled
    &&& post.dungeon_segments_enabled == pre.dungeon_segments_enabled
    &&& post.event_update_rate_ms == pre.event_update_rate_ms
    &&& post.fight_res_state == pre.fight_res_state
    &&& post.temp_attr_values == pre.temp_attr_values
    &&& post.attr_skill_cd == pre.attr_skill_cd
    &&& post.attr_skill_cd_pct == pre.attr_skill_cd_pct
    &&& post.attr_cd_accelerate_pct == pre.attr_cd_accelerate_pct
    &&& post.last_encounter_snapshot is None
    &&& post.notified_boss_deaths@.len() == 0
}

/// The end-of-encounter record owed after a reset: the drained death list
/// (`None` when empty) and the last emitted snapshot.
pub open spec fn end_encounter_action_ok(
    a: EngineAction,
    pre: AppState,
    now_ms: i64,
    is_manual: bool,
) -> bool {
    &&& a is EndEncounter
    &&& a->EndEncounter_ended_at_ms == now_ms
    &&& a->EndEncounter_is_manually_reset == is_manual
    &&& a->EndEncounter_encounter_data == pre.last_encounter_snapshot
    &&& (if pre.notified_boss_deaths@.len() == 0 {
        a->EndEncounter_defeated_bosses is None
    } else {
        a->EndEncounter_defeated_bosses matches Some(d) && d@ == pre.notified_boss_deaths@
    })
}

/// A cleared `encounter-update` header: zero totals, no bosses, no segment,
/// the current scene carried over.
pub open spec fn cleared_header_ok(a: EngineAction, scene_id: Option<i32>, scene_name: Option<
    String,
>) -> bool {
    &&& a is EmitEncounterUpdate
    &&& ({
        let h = a->EmitEncounterUpdate_0;
        &&& h.total_dmg == 0
        &&& h.elapsed_ms == 0
        &&& h.fight_start_timestamp_ms == 0
        &&& h.bosses@.len() == 0
        &&& h.scene_id == scene_id
        &&& h.scene_name == scene_name
        &&& h.current_segment_type is None
        &&& h.current_segment_name is None
    })
}

/// Ends the current encounter: persists any open segment data, hands the
/// encounter (with the accumulated boss deaths) to the storage collaborator,
/// clears the combat state, active buffs and subscriptions, and notifies the
/// presentation layer — including an empty buff list when buff ids are
/// monitored, so stale rows clear immediately.
pub fn reset_encounter(state: &mut AppState, is_manual: bool, now_ms: i64) -> (actions: Vec<
    EngineAction,
>)
    requires
        old(state).well_formed(),
    ensures
        final(state).well_formed(),
        reset_state_shape(*old(state), *final(state), true),
        count_end(actions@) == 1,
        ({
            let k0: int = if old(state).dungeon_segments_enabled {
                1
            } else {
                0
            };
            let kb: int = if old(state).monitored_buff_ids@.len() > 0 {
                1
            } else {
                0
            };
            &&& actions@.len() == k0 + 3 + kb
            &&& (old(state).dungeon_segments_enabled ==> actions@[0]
                == EngineAction::PersistSegments)
            &&& end_encounter_action_ok(actions@[k0], *old(state), now_ms, is_manual)
            &&& actions@[k0 + 1] == EngineAction::EmitEncounterReset
            &&& (old(state).monitored_buff_ids@.len() > 0 ==> actions@[k0 + 2]
                is EmitBuffUpdate && actions@[k0 + 2]->EmitBuffUpdate_0@.len() == 0)
            &&& cleared_header_ok(
                actions@[k0 + 2 + kb],
                old(state).encounter.current_scene_id,
                old(state).encounter.current_scene_name,
            )
        }),
{
    let mut actions: Vec<EngineAction> = Vec::new();
    if state.dungeon_segments_enabled {
        actions.push(EngineAction::PersistSegments);
    }
    let ghost k0: int = actions@.len() as int;

    let defeated = take_dead_bosses(state);
    let defeated_opt: Option<Vec<(i64, String)>> = if defeated.len() == 0 {
        None
    } else {
        Some(defeated)
    };
    let mut encounter_data: Option<EncounterSnapshot> = None;
    core::mem::swap(&mut encounter_data, &mut state.last_encounter_snapshot);
    actions.push(
        EngineAction::EndEncounter {
            ended_at_ms: now_ms,
            defeated_bosses: defeated_opt,
            is_manually_reset: is_manual,
            encounter_data,
        },
    );

    state.encounter.reset_combat_state();
    state.skill_subscriptions.clear();
    state.active_buffs.clear();

    actions.push(EngineAction::EmitEncounterReset);

    if state.monitored_buff_ids.len() > 0 {
        actions.push(EngineAction::EmitBuffUpdate(Vec::new()));
    }

    let scene_name: Option<String> = match &state.encounter.current_scene_name {
        Some(n) => Some(n.clone()),
        None => None,
    };
    actions.push(
        EngineAction::EmitEncounterUpdate(
            EncounterHeader {
                total_dmg: 0,
                elapsed_ms: 0,
                fight_start_timestamp_ms: 0,
                bosses: Vec::new(),
                scene_id: state.encounter.current_scene_id,
                scene_name,
                current_segment_type: None,
                current_segment_name: None,
            },
        ),
    );

    state.low_hp_bosses.clear();
    proof {
        lemma_count_single(actions@, k0, 0);
    }
    actions
}

/// Handles a server change: persists any open segment data, hands off the
/// encounter as an automatic end-of-encounter record, resets the
/// scene-agnostic combat state, clears subscriptions and low-HP tracking,
/// and emits a reset notification. Active buffs are kept.
pub fn on_server_change(state: &mut AppState, now_ms: i64) -> (actions: Vec<EngineAction>)
    requires
        old(state).well_formed(),
    ensures
        final(state).well_formed(),
        reset_state_shape(*old(state), *final(state), false),
        count_end(actions@) == 1,
        ({
            let k0: int = if old(state).dungeon_segments_enabled {
                1
            } else {
                0
            };
            &&& actions@.len() == k0 + 2
            &&& (old(state).dungeon_segments_enabled ==> actions@[0]
                == EngineAction::PersistSegments)
            &&& end_encounter_action_ok(actions@[k0], *old(state), now_ms, false)
            &&& actions@[k0 + 1] == EngineAction::EmitEncounterReset
        }),
{
    let mut actions: Vec<EngineAction> = Vec::new();
    if state.dungeon_segments_enabled {
        actions.push(EngineAction::PersistSegments);
    }
    let ghost k0: int = actions@.len() as int;

    let defeated = take_dead_bosses(state);
    let defeated_opt: Option<Vec<(i64, String)>> = if defeated.len() == 0 {
        None
    } else {
        Some(defeated)
    };
    let mut encounter_data: Option<EncounterSnapshot> = None;
    core::mem::swap(&mut encounter_data, &mut state.last_encounter_snapshot);
    actions.push(
        EngineAction::EndEncounter {
            ended_at_ms: now_ms,
            defeated_bosses: defeated_opt,
            is_manually_reset: false,
            encounter_data,
        },
    );

    state.encounter.reset_combat_state();
    actions.push(EngineAction::EmitEncounterReset);

    state.skill_subscriptions.clear();
    state.low_hp_bosses.clear();
    proof {
        lemma_count_single(actions@, k0, 0);
    }
    actions
}

/// Snapshots the current segment and resets the live meter, preserving the
/// original fight start time so the total encounter duration is kept. No
/// end-of-encounter record is handed off.
pub fn snapshot_segment_and_reset_live_meter(state: &mut AppState) -> (actions: Vec<EngineAction>)
    requires
        old(state).well_formed(),
    ensures
        final(state).well_formed(),
        count_end(actions@) == 0,
        final(state).encounter.is_encounter_paused == old(state).encounter.is_encounter_paused,
        final(state).encounter.local_player_uid == old(state).encounter.local_player_uid,
        final(state).encounter.time_fight_start_ms == old(state).encounter.time_fight_start_ms,
        final(state).encounter.total_dmg == 0,
        final(state).encounter.entities@.len() == 0,
        final(state).encounter.current_scene_id == old(state).encounter.current_scene_id,
        final(state).encounter.current_scene_name == old(state).encounter.current_scene_name,
        final(state).last_encounter_snapshot is None,
        final(state).skill_subscriptions@.len() == 0,
        final(state).low_hp_bosses@.len() == 0,
        final(state).notified_boss_deaths@.len() == 0,
        final(state).active_buffs == old(state).active_buffs,
        final(state).monitored_buff_ids == old(state).monitored_buff_ids,
        final(state).monitored_skill_ids == old(state).monitored_skill_ids,
        final(state).skill_cd_map == old(state).skill_cd_map,
        final(state).dungeon_segments_enabled == old(state).dungeon_segments_enabled,
        final(state).initial_scene_change_handled == old(state).initial_scene_change_handled,
        actions@.len() == 2,
        actions@[0] == EngineAction::EmitEncounterReset,
        cleared_header_ok(
            actions@[1],
            old(state).encounter.current_scene_id,
            old(state).encounter.current_scene_name,
        ),
{
    let mut actions: Vec<EngineAction> = Vec::new();

    let original_fight_start_ms = state.encounter.time_fight_start_ms;
    state.encounter.reset_combat_state();
    state.last_encounter_snapshot = None;
    state.skill_subscriptions.clear();
    state.encounter.time_fight_start_ms = original_fight_start_ms;

    actions.push(EngineAction::EmitEncounterReset);
    clear_dead_bosses(state);

    let scene_name: Option<String> = match &state.encounter.current_scene_name {
        Some(n) => Some(n.clone()),
        None => None,
    };
    actions.push(
        EngineAction::EmitEncounterUpdate(
            EncounterHeader {
                total_dmg: 0,
                elapsed_ms: 0,
                fight_start_timestamp_ms: 0,
                bosses: Vec::new(),
                scene_id: state.encounter.current_scene_id,
                scene_name,
                current_segment_type: None,
                current_segment_name: None,
            },
        ),
    );

    state.low_hp_bosses.clear();
    proof {
        lemma_count_zero(actions@, 0);
    }
    actions
}

/// Appending one action adds one to the counts when it matches them.
pub proof fn lemma_count_push(s: Seq<EngineAction>, a: EngineAction)
    ensures
        count_end(s.push(a)) == count_end(s) + if a is EndEncounter {
            1int
        } else {
            0int
        },
        count_end_all(s.push(a)) == count_end_all(s) + if a is EndAllActiveEncounters {
            1int
        } else {
            0int
        },
{
    assert(s.push(a) =~= s + seq![a]);
    lemma_count_concat(s, seq![a], 0);
    lemma_count_all_concat(s, seq![a], 0);
    assert(seq![a].len() == 1);
    assert(count_end_from(seq![a], 1) == 0);
    assert(count_end_all_from(seq![a], 1) == 0);
    assert(seq![a][0] == a);
}

/// An ASCII decimal digit, as a character.
pub open spec fn guid_digit(c: char) -> bool {
    48 <= c as u32 && c as u32 <= 57
}

/// The digit count and decimal value of the digit characters at or after
/// index `i`, folded left to right onto the accumulators.
pub open spec fn guid_scan(s: Seq<char>, i: int, nd: int, val: int) -> (int, int)
    decreases s.len() - i,
{
    if i < 0 || i >= s.len() {
        (nd, val)
    } else if guid_digit(s[i]) {
        guid_scan(s, i + 1, nd + 1, val * 10 + ((s[i] as u32) - 48))
    } else {
        guid_scan(s, i + 1, nd, val)
    }
}

/// The scene id recovered from a GUID-like string: the digits, in order,
/// read as one decimal number, accepted when the string holds at least one
/// digit, the number fits a 32-bit signed integer, and it is a known id.
pub open spec fn spec_guid_scene(g: Seq<char>, known: Seq<i32>) -> Option<i32> {
    let r = guid_scan(g, 0, 0, 0);
    if r.0 > 0 && r.1 <= i32::MAX as int && known.contains(r.1 as i32) {
        Some(r.1 as i32)
    } else {
        None
    }
}

/// Scans a GUID-like string for a known scene id.
fn guid_scene_id(guid: &String, scenes: &SceneTable) -> (r: Option<i32>)
    ensures
        r == spec_guid_scene(guid@, scenes.ids()),
        r is Some ==> scenes.ids().contains(r->Some_0),
{
    let s = guid.as_str();
    let n = s.unicode_len();
    let mut i: usize = 0;
    let mut nd: usize = 0;
    let mut val: i64 = 0;
    let mut of: bool = false;
    let ghost mut gval: int = 0;
    while i < n
        invariant
            0 <= i <= n,
            n == guid@.len(),
            s@ == guid@,
            nd <= i,
            guid_scan(guid@, 0, 0, 0) == guid_scan(guid@, i as int, nd as int, gval),
            0 <= gval,
            !of ==> val as int == gval && gval <= i32::MAX as int,
            of ==> gval > i32::MAX as int,
        decreases n - i,
    {
        let c = s.get_char(i);
        let u = c as u32;
        if 48 <= u && u <= 57 {
            let d = u - 48;
            proof {
                gval = gval * 10 + d as int;
            }
            nd = nd + 1;
            if !of {
                let nv = val * 10 + (d as i64);
                if nv > i32::MAX as i64 {
                    of = true;
                } else {
                    val = nv;
                }
            }
        }
        i = i + 1;
    }
    if nd > 0 && !of {
        let cand = val as i32;
        if scenes.contains(cand) {
            return Some(cand);
        }
    }
    None
}

/// First byte-scan hit among a fallback entity's plain attributes.
pub open spec fn player_attrs_scan(attrs: Seq<RawAttr>, known: Seq<i32>, i: int) -> Option<i32>
    decreases attrs.len() - i,
{
    if i < 0 || i >= attrs.len() {
        None
    } else {
        let hit = match attrs[i].raw_data {
            Some(raw) => crate::scene::spec_resolve(raw@, known),
            None => None,
        };
        if hit is Some {
            hit
        } else {
            player_attrs_scan(attrs, known, i + 1)
        }
    }
}

/// What an enter-scene message resolves to, in order of confidence: the
/// digits of the GUID-like string, the structured attribute collections
/// (subscene first), then a raw byte scan of the fallback entity's
/// attributes.
pub open spec fn spec_enter_scene_resolution(d: EnterSceneData, known: Seq<i32>) -> Option<i32> {
    let g = match d.scene_guid {
        Some(s) => spec_guid_scene(s@, known),
        None => None,
    };
    if g is Some {
        g
    } else {
        let sub = match d.subscene_attrs {
            Some(a) => crate::scene::spec_extract_scene_id(a, known),
            None => None,
        };
        if sub is Some {
            sub
        } else {
            let sc = match d.scene_attrs {
                Some(a) => crate::scene::spec_extract_scene_id(a, known),
                None => None,
            };
            if sc is Some {
                sc
            } else {
                match d.player_attrs {
                    Some(a) => player_attrs_scan(a.attrs@, known, 0),
                    None => None,
                }
            }
        }
    }
}

/// Resolves the scene id of an enter-scene message.
pub fn resolve_enter_scene(data: &EnterSceneData, scenes: &SceneTable) -> (r: Option<i32>)
    ensures
        r == spec_enter_scene_resolution(*data, scenes.ids()),
        r is Some ==> scenes.ids().contains(r->Some_0),
{
    let ghost known = scenes.ids();
    match &data.scene_guid {
        Some(guid) => {
            let g = guid_scene_id(guid, scenes);
            match g {
                Some(v) => {
                    return Some(v);
                },
                None => {},
            }
        },
        None => {},
    }
    match &data.subscene_attrs {
        Some(attrs) => {
            let hit = crate::scene::extract_scene_id_from_attr_collection(attrs, scenes);
            match hit {
                Some(v) => {
                    return Some(v);
                },
                None => {},
            }
        },
        None => {},
    }
    match &data.scene_attrs {
        Some(attrs) => {
            let hit = crate::scene::extract_scene_id_from_attr_collection(attrs, scenes);
            match hit {
                Some(v) => {
                    return Some(v);
                },
                None => {},
            }
        },
        None => {},
    }
    match &data.player_attrs {
        Some(attrs) => {
            let mut i: usize = 0;
            while i < attrs.attrs.len()
                invariant
                    0 <= i <= attrs.attrs@.len(),
                    data.player_attrs is Some,
                    *attrs == data.player_attrs->Some_0,
                    spec_enter_scene_resolution(*data, known) == player_attrs_scan(
                        attrs.attrs@,
                        known,
                        0,
                    ),
                    player_attrs_scan(attrs.attrs@, known, 0) == player_attrs_scan(
                        attrs.attrs@,
                        known,
                        i as int,
                    ),
                    known == scenes.ids(),
                decreases attrs.attrs@.len() - i,
            {
                match &attrs.attrs[i].raw_data {
                    Some(raw) => {
                        let hit = crate::scene::find_scene_id_in_bytes(raw, scenes);
                        match hit {
                            Some(v) => {
                                return Some(v);
                            },
                            None => {},
                        }
                    },
                    None => {},
                }
                i = i + 1;
            }
            None
        },
        None => None,
    }
}

/// The display name adopted for a resolved scene id.
pub open spec fn scene_name_ok(scenes: SceneTable, id: i32, name: String) -> bool {
    match kv_get(scenes.entries@, id) {
        Some(n) => name == n,
        None => name@ == "Unknown Scene"@,
    }
}

/// Looks up the display name of a scene id, with an explicit fallback.
fn scene_display_name(scenes: &SceneTable, id: i32) -> (r: String)
    ensures
        scene_name_ok(*scenes, id, r),
{
    let found = scenes.lookup(id);
    match found {
        Some(n) => n,
        None => String::from_str("Unknown Scene"),
    }
}

/// The name adopted when no scene id can be resolved: the GUID-like string
/// prefixed, or a fixed unknown marker.
pub open spec fn spec_fallback_scene_name(d: EnterSceneData) -> Seq<char> {
    match d.scene_guid {
        Some(g) => "Scene GUID: "@ + g@,
        None => "Unknown Scene"@,
    }
}

/// Everything an enter-scene message guarantees, relating the state before
/// (`pre`) to the state after (`post`) and the owed actions.
///
/// The very first scene event after startup owes exactly one
/// close-any-dangling-encounters record (and none ever again once the flag is
/// set). A resolved id is adopted with its table name; an unresolved message
/// clears the id and adopts the fallback name. A resolved id that differs
/// from the active scene during a fight produces, in standard mode, exactly
/// one end-of-encounter handoff carrying the drained death list and the last
/// snapshot, marked automatic; in segment mode no handoff, with the fight
/// start time kept. A scene-change notification and a segment-log reset
/// close the action list in every case.
pub open spec fn enter_scene_effects_ok(
    pre: AppState,
    post: AppState,
    actions: Seq<EngineAction>,
    scenes: SceneTable,
    data: EnterSceneData,
    now_ms: i64,
) -> bool {
    let res = spec_enter_scene_resolution(data, scenes.ids());
    let prev = pre.encounter.current_scene_id;
    let fight = pre.encounter.time_fight_start_ms != 0;
    let changed = res is Some && prev is Some && prev->Some_0 != res->Some_0;
    &&& post.initial_scene_change_handled
    &&& post.encounter.is_encounter_paused == pre.encounter.is_encounter_paused
    &&& (!pre.initial_scene_change_handled ==> actions.len() > 0 && actions[0]
        == (EngineAction::EndAllActiveEncounters { ended_at_ms: now_ms }))
    &&& count_end_all(actions) == (if pre.initial_scene_change_handled {
        0int
    } else {
        1int
    })
    &&& (res matches Some(id) ==> post.encounter.current_scene_id == Some(id)
        && post.encounter.current_scene_name is Some && scene_name_ok(
        scenes,
        id,
        post.encounter.current_scene_name->Some_0,
    ))
    &&& (res is None ==> post.encounter.current_scene_id is None
        && post.encounter.current_scene_name is Some
        && post.encounter.current_scene_name->Some_0@ == spec_fallback_scene_name(data))
    &&& (changed && fight && !pre.dungeon_segments_enabled ==> count_end(actions) == 1 && (
    exists|k: int|
        0 <= k < actions.len() && end_encounter_action_ok(
            #[trigger] actions[k],
            pre,
            now_ms,
            false,
        )) && post.encounter.total_dmg == 0 && post.encounter.entities@.len() == 0)
    &&& (changed && fight && pre.dungeon_segments_enabled ==> count_end(actions) == 0
        && post.encounter.time_fight_start_ms == pre.encounter.time_fight_start_ms
        && post.encounter.total_dmg == 0)
    &&& (!(changed && fight) ==> count_end(actions) == 0)
    &&& actions.len() >= 2
    &&& actions[actions.len() - 2] is EmitSceneChange
    &&& actions[actions.len() - 2]->EmitSceneChange_0
        == post.encounter.current_scene_name->Some_0
    &&& actions[actions.len() - 1] is ResetSegmentLog
    &&& actions[actions.len() - 1]->ResetSegmentLog_scene_id == post.encounter.current_scene_id
    &&& actions[actions.len() - 1]->ResetSegmentLog_scene_name
        == post.encounter.current_scene_name
}

/// Handles an enter-scene message: the hardest handler.
///
/// The very first scene event after startup first owes the storage
/// collaborator a close-any-dangling-encounters record. A scene id is then
/// resolved (GUID digits, structured attributes, fallback entity bytes, in
/// that order). When the resolved id differs from the active scene during a
/// fight, the engine either snapshots the segment and resets the live meter
/// (segment mode) or ends the encounter with exactly one handoff (standard
/// mode) before adopting the new scene. When nothing resolves, the scene id
/// is explicitly cleared and a fallback name is adopted. A scene-change
/// notification and a segment-log reset are always emitted.
pub fn process_enter_scene(
    state: &mut AppState,
    scenes: &SceneTable,
    data: &EnterSceneData,
    now_ms: i64,
) -> (actions: Vec<EngineAction>)
    requires
        old(state).well_formed(),
        scenes.well_formed(),
    ensures
        final(state).well_formed(),
        enter_scene_effects_ok(*old(state), *final(state), actions@, *scenes, *data, now_ms),
{
    let mut actions: Vec<EngineAction> = Vec::new();
    if !state.initial_scene_change_handled {
        actions.push(EngineAction::EndAllActiveEncounters { ended_at_ms: now_ms });
        state.initial_scene_change_handled = true;
    }
    let ghost prefix = actions@;
    proof {
        if old(state).initial_scene_change_handled {
            assert(count_end_all_from(prefix, 0) == 0);
        } else {
            assert(prefix.len() == 1);
            assert(count_end_all_from(prefix, 1) == 0);
            assert(count_end_all_from(prefix, 0) == 1);
        }
    }

    let found = resolve_enter_scene(data, scenes);
    match found {
        Some(scene_id) => {
            let prev = state.encounter.current_scene_id;
            let fight_active = state.encounter.time_fight_start_ms != 0;
            let scene_changed = match prev {
                Some(p) => p != scene_id,
                None => false,
            };
            let ghost handoff_idx: int = prefix.len() as int;
            if scene_changed && fight_active {
                if state.dungeon_segments_enabled {
                    let mut sub = snapshot_segment_and_reset_live_meter(state);
                    let ghost subv = sub@;
                    proof {
                        lemma_count_zero(prefix, 0);
                        lemma_count_concat(prefix, subv, 0);
                        assert forall|j: int| 0 <= j < subv.len() implies !((#[trigger] subv[j])
                            is EndAllActiveEncounters) by {}
                        lemma_count_all_zero(subv, 0);
                        lemma_count_all_concat(prefix, subv, 0);
                    }
                    actions.append(&mut sub);
                } else {
                    let mut sub = reset_encounter(state, false, now_ms);
                    let ghost subv = sub@;
                    proof {
                        lemma_count_zero(prefix, 0);
                        lemma_count_concat(prefix, subv, 0);
                        assert forall|j: int| 0 <= j < subv.len() implies !((#[trigger] subv[j])
                            is EndAllActiveEncounters) by {}
                        lemma_count_all_zero(subv, 0);
                        lemma_count_all_concat(prefix, subv, 0);
                        // The handoff record reads only the snapshot and the
                        // death log, which setting the first-scene flag did
                        // not touch.
                        assert(end_encounter_action_ok(subv[0], *old(state), now_ms, false));
                    }
                    actions.append(&mut sub);
                    proof {
                        assert(actions@[handoff_idx] == subv[0]);
                    }
                }
            } else {
                proof {
                    lemma_count_zero(actions@, 0);
                }
            }
            let name = scene_display_name(scenes, scene_id);
            state.encounter.current_scene_id = Some(scene_id);
            state.encounter.current_scene_name = Some(name.clone());
            proof {
                lemma_count_push(actions@, EngineAction::EmitSceneChange(name));
            }
            actions.push(EngineAction::EmitSceneChange(name));
            let name2: Option<String> = match &state.encounter.current_scene_name {
                Some(n) => Some(n.clone()),
                None => None,
            };
            proof {
                lemma_count_push(
                    actions@,
                    EngineAction::ResetSegmentLog {
                        scene_id: Some(scene_id),
                        scene_name: name2,
                    },
                );
            }
            actions.push(
                EngineAction::ResetSegmentLog { scene_id: Some(scene_id), scene_name: name2 },
            );
            proof {
                if scene_changed && fight_active && !state.dungeon_segments_enabled {
                    assert(end_encounter_action_ok(
                        actions@[handoff_idx],
                        *old(state),
                        now_ms,
                        false,
                    ));
                }
            }
        },
        None => {
            let fallback_name: String = match &data.scene_guid {
                Some(g) => String::from_str("Scene GUID: ").concat(
                    g.as_str(),
                ),
                None => String::from_str("Unknown Scene"),
            };
            state.encounter.current_scene_id = None;
            state.encounter.current_scene_name = Some(fallback_name.clone());
            proof {
                lemma_count_zero(actions@, 0);
                lemma_count_push(actions@, EngineAction::EmitSceneChange(fallback_name));
            }
            actions.push(EngineAction::EmitSceneChange(fallback_name));
            let name2: Option<String> = match &state.encounter.current_scene_name {
                Some(n) => Some(n.clone()),
                None => None,
            };
            proof {
                lemma_count_push(
                    actions@,
                    EngineAction::ResetSegmentLog { scene_id: None, scene_name: name2 },
                );
            }
            actions.push(EngineAction::ResetSegmentLog { scene_id: None, scene_name: name2 });
        },
    }
    actions
}

/// Index of the first attribute declaring the given id, or `-1`.
pub open spec fn attr_id_index(attrs: Seq<RawAttr>, attr_id: i32, i: int) -> int
    decreases attrs.len() - i,
{
    if i < 0 || i >= attrs.len() {
        -1
    } else if attrs[i].id == Some(attr_id) {
        i
    } else {
        attr_id_index(attrs, attr_id, i + 1)
    }
}

/// The 32-bit value carried by the first attribute with the given id: an
/// absent or empty payload is an explicit clear signal (zero); otherwise a
/// varint at the start of the payload, rejected when it does not fit.
pub open spec fn spec_decode_attr_i32(attrs: Seq<RawAttr>, attr_id: i32) -> Option<i32> {
    let idx = attr_id_index(attrs, attr_id, 0);
    if idx == -1 {
        None
    } else {
        match attrs[idx].raw_data {
            None => Some(0),
            Some(raw) => if raw@.len() == 0 {
                Some(0)
            } else {
                match spec_varint(raw@, 0) {
                    Some(v) => if v <= i32::MAX as u64 {
                        Some(v as i32)
                    } else {
                        None
                    },
                    None => None,
                }
            },
        }
    }
}

/// Decodes the 32-bit value of the first attribute with the given id.
pub fn decode_attr_i32(attrs: &AttrCollection, attr_id: i32) -> (r: Option<i32>)
    ensures
        r == spec_decode_attr_i32(attrs.attrs@, attr_id),
{
    let mut i: usize = 0;
    while i < attrs.attrs.len()
        invariant
            0 <= i <= attrs.attrs@.len(),
            attr_id_index(attrs.attrs@, attr_id, 0) == attr_id_index(
                attrs.attrs@,
                attr_id,
                i as int,
            ),
        decreases attrs.attrs@.len() - i,
    {
        let found = match attrs.attrs[i].id {
            Some(x) => x == attr_id,
            None => false,
        };
        if found {
            match &attrs.attrs[i].raw_data {
                None => {
                    return Some(0);
                },
                Some(raw) => {
                    if raw.len() == 0 {
                        return Some(0);
                    }
                    let dec = crate::varint::varint_decode_at(raw, 0);
                    match dec {
                        Some(v) => {
                            if v <= i32::MAX as u64 {
                                return Some(v as i32);
                            } else {
                                return None;
                            }
                        },
                        None => {
                            return None;
                        },
                    }
                },
            }
        }
        i = i + 1;
    }
    None
}

/// A global modifier's value after one attribute collection is applied.
pub open spec fn new_attr_value(old_v: i32, attrs: Seq<RawAttr>, attr_id: i32) -> i32 {
    match spec_decode_attr_i32(attrs, attr_id) {
        Some(v) => v,
        None => old_v,
    }
}

/// Applies the three global cooldown modifiers carried by an attribute
/// collection; reports whether any value actually changed.
pub fn update_global_modifiers(state: &mut AppState, col: &AttrCollection) -> (changed: bool)
    ensures
        *final(state) == (AppState {
            attr_skill_cd: new_attr_value(
                old(state).attr_skill_cd,
                col.attrs@,
                crate::models::ATTR_SKILL_CD,
            ),
            attr_skill_cd_pct: new_attr_value(
                old(state).attr_skill_cd_pct,
                col.attrs@,
                crate::models::ATTR_SKILL_CD_PCT,
            ),
            attr_cd_accelerate_pct: new_attr_value(
                old(state).attr_cd_accelerate_pct,
                col.attrs@,
                crate::models::ATTR_CD_ACCELERATE_PCT,
            ),
            ..*old(state)
        }),
        changed == (final(state).attr_skill_cd != old(state).attr_skill_cd
            || final(state).attr_skill_cd_pct != old(state).attr_skill_cd_pct
            || final(state).attr_cd_accelerate_pct != old(state).attr_cd_accelerate_pct),
{
    let mut changed = false;
    let d1 = decode_attr_i32(col, crate::models::ATTR_SKILL_CD);
    match d1 {
        Some(value) => {
            if value != state.attr_skill_cd {
                state.attr_skill_cd = value;
                changed = true;
            }
        },
        None => {},
    }
    let d2 = decode_attr_i32(col, crate::models::ATTR_SKILL_CD_PCT);
    match d2 {
        Some(value) => {
            if value != state.attr_skill_cd_pct {
                state.attr_skill_cd_pct = value;
                changed = true;
            }
        },
        None => {},
    }
    let d3 = decode_attr_i32(col, crate::models::ATTR_CD_ACCELERATE_PCT);
    match d3 {
        Some(value) => {
            if value != state.attr_cd_accelerate_pct {
                state.attr_cd_accelerate_pct = value;
                changed = true;
            }
        },
        None => {},
    }
    changed
}

/// The temp-attribute map and change flag after the reports at or after
/// index `i` are merged: an entry without an id is skipped, an absent value
/// reads as zero, and only a new id or a changed value counts as a change.
pub open spec fn spec_temp_merge(
    m: Seq<(i32, i32)>,
    reports: Seq<TempAttrReport>,
    i: int,
    changed: bool,
) -> (Seq<(i32, i32)>, bool)
    decreases reports.len() - i,
{
    if i < 0 || i >= reports.len() {
        (m, changed)
    } else {
        match reports[i].id {
            None => spec_temp_merge(m, reports, i + 1, changed),
            Some(id) => {
                let value = crate::buffs::opt_or_i32(reports[i].value, 0);
                let prev = kv_get(m, id);
                spec_temp_merge(
                    kv_upsert(m, id, value),
                    reports,
                    i + 1,
                    changed || prev != Some(value),
                )
            },
        }
    }
}

/// Merges a batch of temp-attribute reports into the value map; reports
/// whether any entry was inserted or changed (re-insertion with an unchanged
/// value is not a change).
pub fn update_temp_attrs(values: &mut Vec<(i32, i32)>, reports: &Vec<TempAttrReport>) -> (changed:
    bool)
    requires
        keys_unique(old(values)@),
    ensures
        keys_unique(final(values)@),
        (final(values)@, changed) == spec_temp_merge(old(values)@, reports@, 0, false),
{
    let mut changed = false;
    let mut i: usize = 0;
    while i < reports.len()
        invariant
            0 <= i <= reports@.len(),
            keys_unique(values@),
            spec_temp_merge(old(values)@, reports@, 0, false) == spec_temp_merge(
                values@,
                reports@,
                i as int,
                changed,
            ),
        decreases reports@.len() - i,
    {
        match reports[i].id {
            Some(id) => {
                let value = match reports[i].value {
                    Some(v) => v,
                    None => 0,
                };
                let prev = crate::kvlist::kv_set_i32(values, id, value);
                let was_same = match prev {
                    Some(p) => p == value,
                    None => false,
                };
                if !was_same {
                    changed = true;
                }
            },
            None => {},
        }
        i = i + 1;
    }
    changed
}

/// The cooldown cache after a batch of server reports at or after index `k`
/// is applied: a report without a skill-level id, or whose coarse id is not
/// monitored, is skipped; otherwise a fresh entry is computed and keyed in.
pub open spec fn spec_insert_reports(
    cds: Seq<SkillCdState>,
    reports: Seq<SkillCdReport>,
    k: int,
    temps: Seq<(i32, i32)>,
    attr_skill_cd: i32,
    attr_skill_cd_pct: i32,
    attr_cd_accelerate_pct: i32,
    monitored: Seq<i32>,
    now: i64,
) -> Seq<SkillCdState>
    decreases reports.len() - k,
{
    if k < 0 || k >= reports.len() {
        cds
    } else {
        let cds2 = match reports[k].skill_level_id {
            None => cds,
            Some(id) => if !monitored.contains(
                crate::cooldown::spec_coarse_skill_id(id) as i32,
            ) {
                cds
            } else {
                let duration = crate::buffs::opt_or_i32(reports[k].duration, 0);
                let calc = if duration > 0 {
                    crate::cooldown::spec_calculate_skill_cd(
                        duration,
                        temps,
                        attr_skill_cd,
                        attr_skill_cd_pct,
                        attr_cd_accelerate_pct,
                    )
                } else {
                    (duration as int, 0int)
                };
                let entry = SkillCdState {
                    skill_level_id: id,
                    begin_time: crate::buffs::opt_or_i64(reports[k].begin_time, 0),
                    duration,
                    skill_cd_type: crate::buffs::opt_or_i32(reports[k].skill_cd_type, 0),
                    valid_cd_time: crate::buffs::opt_or_i32(reports[k].valid_cd_time, 0),
                    received_at: now,
                    calculated_duration: calc.0 as i32,
                    cd_accelerate_rate: calc.1 as i32,
                };
                let idx = crate::cooldown::cd_index_from(cds, id, 0);
                if idx == -1 {
                    cds.push(entry)
                } else {
                    cds.update(idx, entry)
                }
            },
        };
        spec_insert_reports(
            cds2,
            reports,
            k + 1,
            temps,
            attr_skill_cd,
            attr_skill_cd_pct,
            attr_cd_accelerate_pct,
            monitored,
            now,
        )
    }
}

/// Everything a to-me delta message guarantees, relating the state before
/// (`pre`) to the state after (`post`) and the owed actions: the fresh
/// fight-resource state, the three global modifiers and the merged temp
/// attributes, the buff tracker run on present records, the keyed-in
/// monitored cooldown reports, a full recalculation exactly when a modifier
/// changed, and the emissions in order — fight resources, buff payload,
/// filtered cooldown list — each exactly when owed. Every other field of the
/// state is untouched.
pub open spec fn delta_effects_ok(
    pre: AppState,
    post: AppState,
    actions: Seq<EngineAction>,
    catalog: crate::buff_names::BuffCatalog,
    d: DeltaData,
    now_ms: i64,
) -> bool {
    let attrs_new_cd = match d.attrs {
        Some(col) => new_attr_value(pre.attr_skill_cd, col.attrs@, crate::models::ATTR_SKILL_CD),
        None => pre.attr_skill_cd,
    };
    let attrs_new_pct = match d.attrs {
        Some(col) => new_attr_value(
            pre.attr_skill_cd_pct,
            col.attrs@,
            crate::models::ATTR_SKILL_CD_PCT,
        ),
        None => pre.attr_skill_cd_pct,
    };
    let attrs_new_acc = match d.attrs {
        Some(col) => new_attr_value(
            pre.attr_cd_accelerate_pct,
            col.attrs@,
            crate::models::ATTR_CD_ACCELERATE_PCT,
        ),
        None => pre.attr_cd_accelerate_pct,
    };
    let merged = spec_temp_merge(pre.temp_attr_values@, d.temp_attrs@, 0, false);
    let modifiers_changed = attrs_new_cd != pre.attr_skill_cd || attrs_new_pct
        != pre.attr_skill_cd_pct || attrs_new_acc != pre.attr_cd_accelerate_pct || merged.1;
    let buffs_applied = d.buff_effects is Some && (pre.monitored_buff_ids@.len() > 0
        || pre.monitor_all_buff);
    let inserted = spec_insert_reports(
        pre.skill_cd_map@,
        d.skill_cds@,
        0,
        merged.0,
        attrs_new_cd,
        attrs_new_pct,
        attrs_new_acc,
        pre.monitored_skill_ids@,
        now_ms,
    );
    &&& post == (AppState {
        fight_res_state: post.fight_res_state,
        temp_attr_values: post.temp_attr_values,
        attr_skill_cd: post.attr_skill_cd,
        attr_skill_cd_pct: post.attr_skill_cd_pct,
        attr_cd_accelerate_pct: post.attr_cd_accelerate_pct,
        active_buffs: post.active_buffs,
        skill_cd_map: post.skill_cd_map,
        ..pre
    })
    &&& post.attr_skill_cd == attrs_new_cd
    &&& post.attr_skill_cd_pct == attrs_new_pct
    &&& post.attr_cd_accelerate_pct == attrs_new_acc
    &&& post.temp_attr_values@ == merged.0
    &&& (d.fight_res_values matches Some(vals) ==> post.fight_res_state matches Some(f)
        && f.values@ == vals@ && f.received_at == now_ms)
    &&& (d.fight_res_values is None ==> post.fight_res_state == pre.fight_res_state)
    &&& (buffs_applied ==> post.active_buffs@ == crate::buffs::spec_apply_records(
        pre.active_buffs@,
        d.buff_effects->Some_0@,
        0,
        now_ms,
    ))
    &&& (!buffs_applied ==> post.active_buffs@ == pre.active_buffs@)
    &&& (modifiers_changed ==> post.skill_cd_map@.len() == inserted.len() && forall|j: int|
        0 <= j < inserted.len() ==> post.skill_cd_map@[j] == crate::cooldown::spec_recalced(
            inserted[j],
            merged.0,
            attrs_new_cd,
            attrs_new_pct,
            attrs_new_acc,
        ))
    &&& (!modifiers_changed ==> post.skill_cd_map@ == inserted)
    &&& ({
        let kf: int = if d.fight_res_values is Some {
            1
        } else {
            0
        };
        let kb: int = if buffs_applied {
            1
        } else {
            0
        };
        let filtered = crate::cooldown::spec_filtered_skill_cds(
            post.skill_cd_map@,
            pre.monitored_skill_ids@,
            0,
        );
        let kc: int = if (d.skill_cds@.len() > 0 || modifiers_changed) && filtered.len() > 0 {
            1
        } else {
            0
        };
        &&& actions.len() == kf + kb + kc
        &&& (kf == 1 ==> actions[0] is EmitFightResUpdate
            && actions[0]->EmitFightResUpdate_0.values@ == d.fight_res_values->Some_0@
            && actions[0]->EmitFightResUpdate_0.received_at == now_ms)
        &&& (kb == 1 ==> actions[kf] is EmitBuffUpdate && crate::buffs::buffs_sorted(
            actions[kf]->EmitBuffUpdate_0@,
        ) && actions[kf]->EmitBuffUpdate_0@.to_multiset() == crate::buffs::spec_buff_payload(
            post.active_buffs@,
            pre.monitored_buff_ids@,
            pre.monitor_all_buff,
            catalog.talent_map@,
            0,
        ).to_multiset())
        &&& (kc == 1 ==> actions[kf + kb] is EmitSkillCdUpdate
            && actions[kf + kb]->EmitSkillCdUpdate_0@ == filtered)
    })
}

/// Handles a to-me delta: updates the fight-resource state, applies global
/// and temp modifier changes, runs the buff tracker on present buff-effect
/// records, keys in monitored cooldown reports, recalculates every cached
/// cooldown when any modifier changed, and emits the filtered cooldown list
/// when there is anything new to say — each step independently, once per
/// event.
pub fn process_sync_to_me_delta_info(
    state: &mut AppState,
    catalog: &crate::buff_names::BuffCatalog,
    data: &DeltaData,
    now_ms: i64,
) -> (actions: Vec<EngineAction>)
    requires
        old(state).well_formed(),
        catalog.well_formed(),
    ensures
        final(state).well_formed(),
        delta_effects_ok(*old(state), *final(state), actions@, *catalog, *data, now_ms),
{
    let mut actions: Vec<EngineAction> = Vec::new();

    // Fight resources: store and emit the fresh state.
    match &data.fight_res_values {
        Some(vals) => {
            let mut copied: Vec<i64> = Vec::new();
            let mut ci: usize = 0;
            while ci < vals.len()
                invariant
                    0 <= ci <= vals@.len(),
                    copied@ == vals@.take(ci as int),
                decreases vals@.len() - ci,
            {
                copied.push(vals[ci]);
                ci = ci + 1;
            }
            proof {
                assert(copied@ =~= vals@);
            }
            let new_state = FightResourceState { values: copied, received_at: now_ms };
            let mut copied2: Vec<i64> = Vec::new();
            let mut ci2: usize = 0;
            while ci2 < vals.len()
                invariant
                    0 <= ci2 <= vals@.len(),
                    copied2@ == vals@.take(ci2 as int),
                decreases vals@.len() - ci2,
            {
                copied2.push(vals[ci2]);
                ci2 = ci2 + 1;
            }
            proof {
                assert(copied2@ =~= vals@);
            }
            state.fight_res_state = Some(
                FightResourceState { values: copied2, received_at: now_ms },
            );
            actions.push(EngineAction::EmitFightResUpdate(new_state));
        },
        None => {},
    }

    // Global and temp modifier changes decide recalculation.
    let mut should_recalculate = false;
    match &data.attrs {
        Some(col) => {
            let c = update_global_modifiers(state, col);
            if c {
                should_recalculate = true;
            }
        },
        None => {},
    }
    let c2 = update_temp_attrs(&mut state.temp_attr_values, &data.temp_attrs);
    if c2 {
        should_recalculate = true;
    }

    // Buff tracker, when buff-effect records are present.
    match &data.buff_effects {
        Some(records) => {
            let payload = crate::buffs::process_buff_effects(
                &mut state.active_buffs,
                records,
                &state.monitored_buff_ids,
                state.monitor_all_buff,
                &catalog.talent_map,
                now_ms,
            );
            match payload {
                Some(p) => {
                    actions.push(EngineAction::EmitBuffUpdate(p));
                },
                None => {},
            }
        },
        None => {},
    }

    // Key in the monitored cooldown reports.
    let ghost pre_loop = *state;
    let mut k: usize = 0;
    while k < data.skill_cds.len()
        invariant
            0 <= k <= data.skill_cds@.len(),
            cds_unique(state.skill_cd_map@),
            *state == (AppState { skill_cd_map: state.skill_cd_map, ..pre_loop }),
            spec_insert_reports(
                pre_loop.skill_cd_map@,
                data.skill_cds@,
                0,
                state.temp_attr_values@,
                state.attr_skill_cd,
                state.attr_skill_cd_pct,
                state.attr_cd_accelerate_pct,
                state.monitored_skill_ids@,
                now_ms,
            ) == spec_insert_reports(
                state.skill_cd_map@,
                data.skill_cds@,
                k as int,
                state.temp_attr_values@,
                state.attr_skill_cd,
                state.attr_skill_cd_pct,
                state.attr_cd_accelerate_pct,
                state.monitored_skill_ids@,
                now_ms,
            ),
        decreases data.skill_cds@.len() - k,
    {
        let report = data.skill_cds[k];
        match report.skill_level_id {
            Some(id) => {
                let coarse = crate::cooldown::coarse_skill_id(id);
                if crate::buffs::ids_contain(&state.monitored_skill_ids, coarse) {
                    let duration = match report.duration {
                        Some(d) => d,
                        None => 0,
                    };
                    let computed: (i32, i32) = if duration > 0 {
                        crate::cooldown::calculate_skill_cd(
                            duration,
                            id,
                            &state.temp_attr_values,
                            state.attr_skill_cd,
                            state.attr_skill_cd_pct,
                            state.attr_cd_accelerate_pct,
                        )
                    } else {
                        (duration, 0)
                    };
                    let entry = SkillCdState {
                        skill_level_id: id,
                        begin_time: match report.begin_time {
                            Some(v) => v,
                            None => 0,
                        },
                        duration,
                        skill_cd_type: match report.skill_cd_type {
                            Some(v) => v,
                            None => 0,
                        },
                        valid_cd_time: match report.valid_cd_time {
                            Some(v) => v,
                            None => 0,
                        },
                        received_at: now_ms,
                        calculated_duration: computed.0,
                        cd_accelerate_rate: computed.1,
                    };
                    crate::cooldown::upsert_skill_cd(&mut state.skill_cd_map, entry);
                }
            },
            None => {},
        }
        k = k + 1;
    }

    // Recalculate every cached entry when a modifier changed.
    if should_recalculate {
        let temps = &state.temp_attr_values;
        crate::cooldown::recalculate_cached_skill_cds(
            &mut state.skill_cd_map,
            temps,
            state.attr_skill_cd,
            state.attr_skill_cd_pct,
            state.attr_cd_accelerate_pct,
        );
    }

    // Emit the filtered cooldown list when something is new.
    if data.skill_cds.len() > 0 || should_recalculate {
        let filtered = crate::cooldown::build_filtered_skill_cds(
            &state.skill_cd_map,
            &state.monitored_skill_ids,
        );
        if filtered.len() > 0 {
            actions.push(EngineAction::EmitSkillCdUpdate(filtered));
        }
    }

    actions
}

/// `s` begins with `p`.
pub open spec fn spec_starts_with(s: Seq<char>, p: Seq<char>) -> bool {
    s.len() >= p.len() && s.subrange(0, p.len() as int) == p
}

/// Whether one string starts with another.
fn str_starts_with(s: &str, p: &str) -> (r: bool)
    ensures
        r == spec_starts_with(s@, p@),
{
    let sl = s.unicode_len();
    let pl = p.unicode_len();
    if pl > sl {
        return false;
    }
    let mut j: usize = 0;
    while j < pl
        invariant
            0 <= j <= pl,
            pl <= sl,
            sl == s@.len(),
            pl == p@.len(),
            forall|k: int| 0 <= k < j ==> s@[k] == p@[k],
        decreases pl - j,
    {
        let sc = s.get_char(j);
        let pc = p.get_char(j);
        if sc != pc {
            proof {
                assert(s@.subrange(0, p@.len() as int)[j as int] == s@[j as int]);
            }
            return false;
        }
        j = j + 1;
    }
    proof {
        assert(s@.subrange(0, p@.len() as int) =~= p@);
    }
    true
}

/// The disabled fallback path for standalone scene-attribute messages: it
/// would adopt a newly extracted scene id only while the current scene is
/// unknown or carries a fallback name, never resetting the encounter.
pub fn process_sync_scene_attrs(
    state: &mut AppState,
    scenes: &SceneTable,
    attrs: &Option<AttrCollection>,
    now_ms: i64,
) -> (actions: Vec<EngineAction>)
    requires
        old(state).well_formed(),
        scenes.well_formed(),
    ensures
        final(state).well_formed(),
        ({
            let name = old(state).encounter.current_scene_name;
            let fallbackish = old(state).encounter.current_scene_id is None || (name is Some && (
            spec_starts_with(name->Some_0@, "Unknown"@) || spec_starts_with(
                name->Some_0@,
                "Scene GUID:"@,
            )));
            let extracted = match *attrs {
                Some(a) => crate::scene::spec_extract_scene_id(a, scenes.ids()),
                None => None,
            };
            let adopted = fallbackish && extracted is Some && old(
                state,
            ).encounter.current_scene_id != extracted;
            &&& (!adopted ==> *final(state) == *old(state) && actions@.len() == 0)
            &&& (adopted ==> ({
                let post = *final(state);
                &&& post.encounter.current_scene_id == extracted
                &&& post.encounter.current_scene_name is Some
                &&& scene_name_ok(
                    *scenes,
                    extracted->Some_0,
                    post.encounter.current_scene_name->Some_0,
                )
                &&& post.encounter.total_dmg == old(state).encounter.total_dmg
                &&& post.encounter.entities@ == old(state).encounter.entities@
                &&& actions@.len() == 2
                &&& actions@[0] is EmitSceneChange
                &&& actions@[0]->EmitSceneChange_0 == post.encounter.current_scene_name->Some_0
                &&& actions@[1] is ResetSegmentLog
            }))
        }),
{
    let _ = now_ms;
    let should_process = match (&state.encounter.current_scene_id, &state.encounter.current_scene_name) {
        (Option::None, _) => true,
        (Option::Some(_), Option::Some(name)) => str_starts_with(name.as_str(), "Unknown")
            || str_starts_with(name.as_str(), "Scene GUID:"),
        (Option::Some(_), Option::None) => false,
    };
    if !should_process {
        return Vec::new();
    }
    let col = match attrs {
        Some(a) => a,
        None => {
            return Vec::new();
        },
    };
    let extracted = crate::scene::extract_scene_id_from_attr_collection(col, scenes);
    let scene_id = match extracted {
        Some(v) => v,
        None => {
            return Vec::new();
        },
    };
    let same = match state.encounter.current_scene_id {
        Some(cur) => cur == scene_id,
        None => false,
    };
    if same {
        return Vec::new();
    }
    let mut actions: Vec<EngineAction> = Vec::new();
    let name = scene_display_name(scenes, scene_id);
    state.encounter.current_scene_id = Some(scene_id);
    state.encounter.current_scene_name = Some(name.clone());
    actions.push(EngineAction::EmitSceneChange(name));
    let name2: Option<String> = match &state.encounter.current_scene_name {
        Some(n) => Some(n.clone()),
        None => None,
    };
    actions.push(EngineAction::ResetSegmentLog { scene_id: Some(scene_id), scene_name: name2 });
    actions
}

/// The observation at index `k` is the batch's last word on its uid before
/// index `upto`.
pub open spec fn last_observation_of(obs: Seq<EntityObservation>, k: int, upto: int) -> bool {
    forall|m: int| k < m < upto ==> (#[trigger] obs[m]).uid != obs[k].uid
}

/// Some tracked entity carries exactly this observation's identity fields.
pub open spec fn observation_applied(entities: Seq<crate::encounter::Entity>, o: EntityObservation) -> bool {
    let idx = crate::encounter::entity_index_from(entities, o.uid, 0);
    &&& idx != -1
    &&& ({
        let e = entities[idx];
        &&& e.uid == o.uid
        &&& e.name == o.name
        &&& e.kind == o.kind
        &&& e.class_id == o.class_id
        &&& e.class_spec == o.class_spec
        &&& e.ability_score == o.ability_score
        &&& e.level == o.level
    })
}

/// Dispatches one event.
///
/// While the encounter is paused, the five delta-style events are dropped
/// unconditionally — no state change, nothing emitted; every other event,
/// scene changes and resets included, is processed regardless of the pause
/// flag. The caller serializes calls: handlers never run concurrently, and
/// all the returned actions are performed only after the state borrow ends.
pub fn handle_event(
    state: &mut AppState,
    scenes: &SceneTable,
    catalog: &crate::buff_names::BuffCatalog,
    event: StateEvent,
    now_ms: i64,
) -> (actions: Vec<EngineAction>)
    requires
        old(state).well_formed(),
        scenes.well_formed(),
        catalog.well_formed(),
    ensures
        final(state).well_formed(),
        old(state).encounter.is_encounter_paused && event_droppable(event) ==> *final(state)
            == *old(state) && actions@.len() == 0,
        event is SyncServerTime ==> *final(state) == *old(state) && actions@.len() == 0,
        event is SyncSceneAttrs ==> *final(state) == *old(state) && actions@.len() == 0,
        event is SyncNearDeltaInfo ==> *final(state) == *old(state) && actions@.len() == 0,
        event is SyncContainerDirtyData ==> *final(state) == *old(state) && actions@.len() == 0,
        event matches StateEvent::PauseEncounter(p) ==> *final(state) == (AppState {
            encounter: Encounter { is_encounter_paused: p, ..old(state).encounter },
            ..*old(state)
        }) && actions@ =~= seq![EngineAction::EmitEncounterPause(p)],
        event matches StateEvent::ResetEncounter { is_manual } ==> count_end(actions@) == 1
            && reset_state_shape(*old(state), *final(state), true),
        event is ServerChange ==> count_end(actions@) == 1 && reset_state_shape(
            *old(state),
            *final(state),
            false,
        ),
        old(state).initial_scene_change_handled ==> final(state).initial_scene_change_handled,
        event matches StateEvent::EnterScene(d) ==> enter_scene_effects_ok(
            *old(state),
            *final(state),
            actions@,
            *scenes,
            d,
            now_ms,
        ),
        !old(state).encounter.is_encounter_paused ==> (event
            matches StateEvent::SyncToMeDeltaInfo(d) ==> delta_effects_ok(
            *old(state),
            *final(state),
            actions@,
            *catalog,
            d,
            now_ms,
        )),
        !old(state).encounter.is_encounter_paused ==> (event
            matches StateEvent::SyncNearEntities(obs) ==> actions@.len() == 0 && forall|k: int|
            0 <= k < obs@.len() && last_observation_of(obs@, k, obs@.len() as int)
                ==> observation_applied(
                final(state).encounter.entities@,
                #[trigger] obs@[k],
            )),
        !old(state).encounter.is_encounter_paused ==> (event
            matches StateEvent::SyncContainerData(c) ==> *final(state) == (AppState {
            encounter: Encounter {
                local_player_uid: match c.player_uid {
                    Some(u) => u,
                    None => old(state).encounter.local_player_uid,
                },
                ..old(state).encounter
            },
            ..*old(state)
        }) && actions@.len() == 0),
        event matches StateEvent::NotifyReviveUser(u) ==> *final(state) == *old(state) && (
        u matches Some(uid) ==> actions@ =~= seq![EngineAction::RecordRevive(uid)]) && (u is None
            ==> actions@.len() == 0),
{
    let paused = state.encounter.is_encounter_paused;
    let droppable = match &event {
        StateEvent::SyncNearEntities(_) => true,
        StateEvent::SyncContainerData(_) => true,
        StateEvent::SyncContainerDirtyData => true,
        StateEvent::SyncToMeDeltaInfo(_) => true,
        StateEvent::SyncNearDeltaInfo => true,
        _ => false,
    };
    if paused && droppable {
        // Packet dropped: the encounter is paused.
        return Vec::new();
    }

    match event {
        StateEvent::ServerChange => on_server_change(state, now_ms),
        StateEvent::EnterScene(data) => process_enter_scene(state, scenes, &data, now_ms),
        StateEvent::SyncNearEntities(observations) => {
            let mut i: usize = 0;
            while i < observations.len()
                invariant
                    0 <= i <= observations@.len(),
                    state.well_formed(),
                    state.initial_scene_change_handled == old(
                        state,
                    ).initial_scene_change_handled,
                    forall|k: int|
                        0 <= k < i && last_observation_of(observations@, k, i as int)
                            ==> observation_applied(
                            state.encounter.entities@,
                            #[trigger] observations@[k],
                        ),
                decreases observations@.len() - i,
            {
                let o = &observations[i];
                let ghost pre = state.encounter.entities@;
                state.encounter.observe_entity(
                    o.uid,
                    o.name.clone(),
                    o.kind,
                    o.class_id,
                    o.class_spec,
                    o.ability_score,
                    o.level,
                );
                proof {
                    let post = state.encounter.entities@;
                    let ghost tgt = observations@[i as int].uid;
                    crate::encounter::lemma_entity_index_char(pre, tgt, 0);
                    let idx = crate::encounter::entity_index_from(pre, tgt, 0);
                    let idx_post = crate::encounter::entity_index_from(post, tgt, 0);
                    assert forall|k: int|
                        0 <= k < i + 1 && last_observation_of(observations@, k, i as int + 1)
                            implies observation_applied(post, #[trigger] observations@[k]) by {
                        if k == i {
                            assert(observation_applied(post, observations@[k]));
                        } else {
                            // A later word on this uid would have ended its
                            // last-observation status, so it differs from the
                            // one just applied and its entity is untouched.
                            assert(observations@[i as int].uid != observations@[k].uid);
                            assert(last_observation_of(observations@, k, i as int));
                            assert(observation_applied(pre, observations@[k]));
                            let u = observations@[k].uid;
                            crate::encounter::lemma_entity_index_char(pre, u, 0);
                            let w = crate::encounter::entity_index_from(pre, u, 0);
                            assert(post[w] == pre[w]);
                            crate::encounter::lemma_entity_index_char(post, u, 0);
                            let w2 = crate::encounter::entity_index_from(post, u, 0);
                            assert(w2 != -1) by {
                                if w2 == -1 {
                                    assert(post[w].uid != u);
                                }
                            }
                            assert forall|j: int| 0 <= j < w implies post[j].uid != u by {
                                if idx != -1 && j == idx {
                                    assert(idx_post == idx);
                                    assert(post[j].uid == tgt);
                                } else {
                                    assert(post[j] == pre[j]);
                                    assert(pre[j].uid != u);
                                }
                            }
                            assert(w2 == w);
                            assert(observation_applied(post, observations@[k]));
                        }
                    }
                }
                i = i + 1;
            }
            Vec::new()
        },
        StateEvent::SyncContainerData(c) => {
            match c.player_uid {
                Some(uid) => {
                    state.encounter.local_player_uid = uid;
                },
                None => {},
            }
            Vec::new()
        },
        StateEvent::SyncContainerDirtyData => Vec::new(),
        StateEvent::SyncServerTime => Vec::new(),
        StateEvent::SyncToMeDeltaInfo(data) => process_sync_to_me_delta_info(
            state,
            catalog,
            &data,
            now_ms,
        ),
        StateEvent::SyncNearDeltaInfo => Vec::new(),
        StateEvent::NotifyReviveUser(uid) => {
            match uid {
                Some(u) => {
                    let mut actions: Vec<EngineAction> = Vec::new();
                    actions.push(EngineAction::RecordRevive(u));
                    actions
                },
                None => Vec::new(),
            }
        },
        StateEvent::SyncSceneAttrs(_) => {
            // Standalone scene-attribute handling is disabled; the fallback
            // path stays available to callers as its own function.
            Vec::new()
        },
        StateEvent::PauseEncounter(p) => {
            state.set_encounter_paused(p);
            let mut actions: Vec<EngineAction> = Vec::new();
            actions.push(EngineAction::EmitEncounterPause(p));
            actions
        },
        StateEvent::ResetEncounter { is_manual } => reset_encounter(state, is_manual, now_ms),
    }
}

/// The write phase of one emission cycle: records the snapshot of the
/// current encounter for the end-of-encounter handoff and runs dead-boss
/// detection over the derived boss view. The caller computes its derived
/// windows from a read-locked clone beforehand and performs every emission
/// afterwards, with no lock held.
pub fn prepare_emission_cycle(
    state: &mut AppState,
    bosses: &mut Vec<BossHealth>,
    prior_deaths: Vec<(i64, String)>,
    now_ms: i64,
) -> (deaths: Vec<(i64, String)>)
    requires
        old(state).well_formed(),
    ensures
        final(state).well_formed(),
        *final(state) == (AppState {
            last_encounter_snapshot: final(state).last_encounter_snapshot,
            low_hp_bosses: final(state).low_hp_bosses,
            ..*old(state)
        }),
        ({
            let enc = old(state).encounter;
            let snap = final(state).last_encounter_snapshot;
            &&& snap is Some
            &&& snap->Some_0.total_dmg as int == crate::encounter::clamp_to_i64(enc.total_dmg)
            &&& snap->Some_0.total_heal as int == crate::encounter::clamp_to_i64(enc.total_heal)
            &&& snap->Some_0.actors@ == crate::encounter::spec_actors_from(
                enc.entities@,
                enc.local_player_uid,
                0,
            )
            &&& snap->Some_0.damage_skills@ == crate::encounter::spec_dmg_rows(enc.entities@, 0)
            &&& snap->Some_0.heal_skills@ == crate::encounter::spec_heal_rows(enc.entities@, 0)
            &&& snap->Some_0.bosses@ == crate::encounter::spec_bosses_from(
                Seq::empty(),
                enc.entities@,
                0,
            )
        }),
        (final(bosses)@, final(state).low_hp_bosses@, deaths@) == spec_detect_from(
            old(bosses)@,
            old(state).low_hp_bosses@,
            prior_deaths@,
            now_ms,
            0,
        ),
{
    let snapshot = build_encounter_snapshot(&state.encounter, state.encounter.local_player_uid);
    state.last_encounter_snapshot = Some(snapshot);
    detect_boss_deaths(bosses, &mut state.low_hp_bosses, prior_deaths, now_ms)
}

/// Death detection never re-fires: it appends a death only for a uid that is
/// not yet listed, so a list of one-shot deaths stays free of duplicates,
/// and everything already listed stays listed.
pub proof fn lemma_detect_no_refire(
    bosses: Seq<BossHealth>,
    low: Seq<(i64, i64)>,
    deaths: Seq<(i64, String)>,
    now: i64,
    i: int,
)
    requires
        keys_unique(deaths),
    ensures
        keys_unique(spec_detect_from(bosses, low, deaths, now, i).2),
        forall|u: i64| death_listed(deaths, u) ==> death_listed(
            #[trigger] spec_detect_from(bosses, low, deaths, now, i).2,
            u,
        ),
    decreases bosses.len() - i,
{
    if i < 0 || i >= bosses.len() {
    } else {
        let b = bosses[i];
        let low1 = if boss_low_hp(b) {
            if kv_get(low, b.uid) is None {
                kv_upsert(low, b.uid, now)
            } else {
                low
            }
        } else {
            kv_remove(low, b.uid)
        };
        let fires = boss_low_hp(b) && now - kv_get(low1, b.uid)->Some_0 >= 5000 && !death_listed(
            deaths,
            b.uid,
        );
        let deaths1 = if fires {
            deaths.push((b.uid, b.name))
        } else {
            deaths
        };
        assert(keys_unique(deaths1)) by {
            if fires {
                crate::kvlist::lemma_first_key_index_from(deaths, b.uid, 0);
                assert forall|a: int, c: int| 0 <= a < c < deaths1.len() implies deaths1[a].0
                    != deaths1[c].0 by {
                    if c == deaths1.len() - 1 {
                        assert(deaths[a].0 != b.uid);
                    }
                }
            }
        }
        assert(forall|u: i64| death_listed(deaths, u) ==> death_listed(deaths1, u)) by {
            if fires {
                assert forall|u: i64| death_listed(deaths, u) implies death_listed(
                    deaths1,
                    u,
                ) by {
                    crate::kvlist::lemma_first_key_index_push(deaths, u, (b.uid, b.name), 0);
                }
            }
        }
        let dead = death_listed(deaths1, b.uid);
        let bosses2 = if dead {
            bosses.update(i, BossHealth { current_hp: Some(0), ..b })
        } else {
            bosses
        };
        let low2 = if dead {
            kv_remove(low1, b.uid)
        } else {
            low1
        };
        lemma_detect_no_refire(bosses2, low2, deaths1, now, i + 1);
    }
}

} // verus!
