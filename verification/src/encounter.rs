//! The encounter aggregate and its persistence snapshot.
//!
//! An `Encounter` is the aggregate root for one combat session: totals, fight
//! timestamps, the pause flag, the current scene, and one `Entity` per tracked
//! actor. Opcode-processing collaborators fill the per-entity counters; this
//! crate owns the lifecycle (creation on first observation, reset, snapshot).
//! The snapshot narrows the wide unsigned counters into the signed domain of
//! the storage collaborator by clamping, never wrapping.

use vstd::prelude::*;

verus! {

/// What kind of actor an entity is.
#[derive(Debug, Clone, Copy, PartialEq, Eq, Structural)]
pub enum EntityKind {
    Player,
    Monster,
}

/// Per-skill, per-target aggregate statistics.
#[derive(Debug, Clone)]
pub struct SkillStat {
    pub monster_name: Option<String>,
    pub hits: u128,
    pub total_value: u128,
    pub crit_hits: u128,
    pub lucky_hits: u128,
    pub crit_total: u128,
    pub lucky_total: u128,
    pub hp_loss_total: u128,
    pub shield_loss_total: u128,
}

/// One tracked actor: identity metadata plus damage/heal/taken counters,
/// split by plain/critical/lucky categories with boss-only subtotals, and
/// nested (skill, target) aggregates.
#[derive(Debug, Clone)]
pub struct Entity {
    pub uid: i64,
    pub name: String,
    pub kind: EntityKind,
    pub class_id: i32,
    pub class_spec: i32,
    pub ability_score: i64,
    pub level: i32,
    pub total_dmg: u128,
    pub hits_dmg: u128,
    pub crit_hits_dmg: u128,
    pub lucky_hits_dmg: u128,
    pub crit_total_dmg: u128,
    pub lucky_total_dmg: u128,
    pub total_dmg_boss_only: u128,
    pub hits_dmg_boss_only: u128,
    pub crit_hits_dmg_boss_only: u128,
    pub lucky_hits_dmg_boss_only: u128,
    pub crit_total_dmg_boss_only: u128,
    pub lucky_total_dmg_boss_only: u128,
    pub total_heal: u128,
    pub hits_heal: u128,
    pub crit_hits_heal: u128,
    pub lucky_hits_heal: u128,
    pub crit_total_heal: u128,
    pub lucky_total_heal: u128,
    pub total_taken: u128,
    pub hits_taken: u128,
    pub crit_hits_taken: u128,
    pub lucky_hits_taken: u128,
    pub crit_total_taken: u128,
    pub lucky_total_taken: u128,
    pub active_dmg_time_ms: u128,
    pub skill_dmg_to_target: Vec<((i64, i64), SkillStat)>,
    pub skill_heal_to_target: Vec<((i64, i64), SkillStat)>,
}

impl Entity {
    /// A fresh entity with the given identity and zeroed counters.
    pub fn new_with_identity(
        uid: i64,
        name: String,
        kind: EntityKind,
        class_id: i32,
        class_spec: i32,
        ability_score: i64,
        level: i32,
    ) -> (r: Entity)
        ensures
            r.uid == uid,
            r.name == name,
            r.kind == kind,
            r.class_id == class_id,
            r.class_spec == class_spec,
            r.ability_score == ability_score,
            r.level == level,
            r.total_dmg == 0 && r.total_heal == 0 && r.total_taken == 0,
            r.skill_dmg_to_target@.len() == 0,
            r.skill_heal_to_target@.len() == 0,
    {
        Entity {
            uid,
            name,
            kind,
            class_id,
            class_spec,
            ability_score,
            level,
            total_dmg: 0,
            hits_dmg: 0,
            crit_hits_dmg: 0,
            lucky_hits_dmg: 0,
            crit_total_dmg: 0,
            lucky_total_dmg: 0,
            total_dmg_boss_only: 0,
            hits_dmg_boss_only: 0,
            crit_hits_dmg_boss_only: 0,
            lucky_hits_dmg_boss_only: 0,
            crit_total_dmg_boss_only: 0,
            lucky_total_dmg_boss_only: 0,
            total_heal: 0,
            hits_heal: 0,
            crit_hits_heal: 0,
            lucky_hits_heal: 0,
            crit_total_heal: 0,
            lucky_total_heal: 0,
            total_taken: 0,
            hits_taken: 0,
            crit_hits_taken: 0,
            lucky_hits_taken: 0,
            crit_total_taken: 0,
            lucky_total_taken: 0,
            active_dmg_time_ms: 0,
            skill_dmg_to_target: Vec::new(),
            skill_heal_to_target: Vec::new(),
        }
    }
}

/// Pairwise-distinct entity uids.
pub open spec fn entities_unique(s: Seq<Entity>) -> bool {
    forall|i: int, j: int| 0 <= i < j < s.len() ==> s[i].uid != s[j].uid
}

/// Index of the first entity with the given uid, or `-1`.
pub open spec fn entity_index_from(s: Seq<Entity>, uid: i64, i: int) -> int
    decreases s.len() - i,
{
    if i < 0 || i >= s.len() {
        -1
    } else if s[i].uid == uid {
        i
    } else {
        entity_index_from(s, uid, i + 1)
    }
}

/// The aggregate state of one combat session.
#[derive(Debug, Clone)]
pub struct Encounter {
    pub total_dmg: u128,
    pub total_heal: u128,
    pub time_fight_start_ms: u128,
    pub time_last_combat_packet_ms: u128,
    pub is_encounter_paused: bool,
    pub current_scene_id: Option<i32>,
    pub current_scene_name: Option<String>,
    pub entities: Vec<Entity>,
    pub local_player_uid: i64,
    pub waiting_for_next_boss: bool,
}

impl Encounter {
    /// The entity list maps each uid to exactly one entity.
    pub open spec fn well_formed(&self) -> bool {
        entities_unique(self.entities@)
    }

    /// Creates an empty, unpaused encounter with no scene.
    pub fn new() -> (r: Encounter)
        ensures
            r.well_formed(),
            r.total_dmg == 0 && r.total_heal == 0,
            r.time_fight_start_ms == 0 && r.time_last_combat_packet_ms == 0,
            !r.is_encounter_paused,
            r.current_scene_id is None && r.current_scene_name is None,
            r.entities@.len() == 0,
            r.local_player_uid == 0,
            !r.waiting_for_next_boss,
    {
        Encounter {
            total_dmg: 0,
            total_heal: 0,
            time_fight_start_ms: 0,
            time_last_combat_packet_ms: 0,
            is_encounter_paused: false,
            current_scene_id: None,
            current_scene_name: None,
            entities: Vec::new(),
            local_player_uid: 0,
            waiting_for_next_boss: false,
        }
    }

    /// Clears every combat counter, timestamp and tracked entity while
    /// keeping the scene, the pause flag and the local-player identity.
    pub fn reset_combat_state(&mut self)
        ensures
            final(self).well_formed(),
            final(self).total_dmg == 0 && final(self).total_heal == 0,
            final(self).time_fight_start_ms == 0 && final(self).time_last_combat_packet_ms == 0,
            final(self).entities@.len() == 0,
            !final(self).waiting_for_next_boss,
            final(self).is_encounter_paused == old(self).is_encounter_paused,
            final(self).current_scene_id == old(self).current_scene_id,
            final(self).current_scene_name == old(self).current_scene_name,
            final(self).local_player_uid == old(self).local_player_uid,
    {
        self.total_dmg = 0;
        self.total_heal = 0;
        self.time_fight_start_ms = 0;
        self.time_last_combat_packet_ms = 0;
        self.entities = Vec::new();
        self.waiting_for_next_boss = false;
    }

    /// Records an observed actor: creates it on first observation, or
    /// refreshes its identity metadata in place, keeping all counters.
    pub fn observe_entity(
        &mut self,
        uid: i64,
        name: String,
        kind: EntityKind,
        class_id: i32,
        class_spec: i32,
        ability_score: i64,
        level: i32,
    )
        requires
            old(self).well_formed(),
        ensures
            final(self).well_formed(),
            final(self).entities@.len() as int == if entity_index_from(old(self).entities@, uid, 0)
                == -1 {
                old(self).entities@.len() as int + 1
            } else {
                old(self).entities@.len() as int
            },
            entity_index_from(final(self).entities@, uid, 0) != -1,
            entity_index_from(final(self).entities@, uid, 0) == (if entity_index_from(
                old(self).entities@,
                uid,
                0,
            ) == -1 {
                old(self).entities@.len() as int
            } else {
                entity_index_from(old(self).entities@, uid, 0)
            }),
            final(self).total_dmg == old(self).total_dmg,
            final(self).total_heal == old(self).total_heal,
            final(self).is_encounter_paused == old(self).is_encounter_paused,
            final(self).current_scene_id == old(self).current_scene_id,
            final(self).current_scene_name == old(self).current_scene_name,
            ({
                let idx = entity_index_from(final(self).entities@, uid, 0);
                let e = final(self).entities@[idx];
                e.uid == uid && e.name == name && e.kind == kind && e.class_id == class_id
                    && e.class_spec == class_spec && e.ability_score == ability_score && e.level
                    == level
            }),
            forall|j: int|
                0 <= j < old(self).entities@.len() && j != entity_index_from(
                    old(self).entities@,
                    uid,
                    0,
                ) ==> final(self).entities@[j] == old(self).entities@[j],
    {
        let mut i: usize = 0;
        while i < self.entities.len()
            invariant
                0 <= i <= self.entities@.len(),
                self == old(self),
                entities_unique(self.entities@),
                entity_index_from(self.entities@, uid, 0) == entity_index_from(
                    self.entities@,
                    uid,
                    i as int,
                ),
            decreases self.entities@.len() - i,
        {
            if self.entities[i].uid == uid {
                let e = &mut self.entities[i];
                e.name = name;
                e.kind = kind;
                e.class_id = class_id;
                e.class_spec = class_spec;
                e.ability_score = ability_score;
                e.level = level;
                proof {
                    assert(entity_index_from(old(self).entities@, uid, i as int) == i);
                    assert forall|a: int, b: int| 0 <= a < b < self.entities@.len() implies
                        self.entities@[a].uid != self.entities@[b].uid by {
                        assert(self.entities@[a].uid == old(self).entities@[a].uid);
                        assert(self.entities@[b].uid == old(self).entities@[b].uid);
                        assert(old(self).entities@[a].uid != old(self).entities@[b].uid);
                    }
                    lemma_entity_index_same_uids(old(self).entities@, self.entities@, uid, 0);
                    assert(entity_index_from(self.entities@, uid, 0) == i);
                }
                return ;
            }
            i = i + 1;
        }
        let fresh = Entity::new_with_identity(
            uid,
            name,
            kind,
            class_id,
            class_spec,
            ability_score,
            level,
        );
        self.entities.push(fresh);
        proof {
            lemma_entity_index_none(old(self).entities@, uid, 0);
            assert forall|a: int, b: int| 0 <= a < b < self.entities@.len() implies
                self.entities@[a].uid != self.entities@[b].uid by {
                if b == self.entities@.len() - 1 {
                    assert(old(self).entities@[a].uid != uid);
                }
            }
            lemma_entity_index_extends(self.entities@, uid, 0);
        }
    }
}

/// What `entity_index_from` finds: a first occurrence, or nothing at all.
pub proof fn lemma_entity_index_char(s: Seq<Entity>, uid: i64, i: int)
    requires
        0 <= i <= s.len(),
    ensures
        ({
            let r = entity_index_from(s, uid, i);
            &&& r == -1 ==> forall|j: int| i <= j < s.len() ==> s[j].uid != uid
            &&& r != -1 ==> i <= r < s.len() && s[r].uid == uid
        }),
    decreases s.len() - i,
{
    if i < s.len() && s[i].uid != uid {
        lemma_entity_index_char(s, uid, i + 1);
    }
}

/// A scan that found no entity saw the uid nowhere.
pub proof fn lemma_entity_index_none(s: Seq<Entity>, uid: i64, i: int)
    requires
        0 <= i,
        entity_index_from(s, uid, i) == -1,
    ensures
        forall|j: int| i <= j < s.len() ==> s[j].uid != uid,
    decreases s.len() - i,
{
    if i < s.len() {
        lemma_entity_index_none(s, uid, i + 1);
    }
}

/// Two entity lists with pointwise-equal uids have equal first-occurrence
/// indices.
pub proof fn lemma_entity_index_same_uids(s1: Seq<Entity>, s2: Seq<Entity>, uid: i64, i: int)
    requires
        s1.len() == s2.len(),
        forall|j: int| 0 <= j < s1.len() ==> s1[j].uid == s2[j].uid,
        0 <= i <= s1.len(),
    ensures
        entity_index_from(s1, uid, i) == entity_index_from(s2, uid, i),
    decreases s1.len() - i,
{
    if i < s1.len() && s1[i].uid != uid {
        lemma_entity_index_same_uids(s1, s2, uid, i + 1);
    }
}

/// In a list whose last element carries the uid and whose prefix does not,
/// the first occurrence is that last element.
pub proof fn lemma_entity_index_extends(s: Seq<Entity>, uid: i64, i: int)
    requires
        0 <= i < s.len(),
        s[s.len() - 1].uid == uid,
        forall|j: int| 0 <= j < s.len() - 1 ==> s[j].uid != uid,
    ensures
        entity_index_from(s, uid, i) == s.len() - 1,
    decreases s.len() - i,
{
    if i < s.len() - 1 {
        lemma_entity_index_extends(s, uid, i + 1);
    }
}

/// A wide counter narrowed to the signed 64-bit domain by clamping.
pub open spec fn clamp_to_i64(x: u128) -> int {
    if x > i64::MAX as u128 {
        i64::MAX as int
    } else {
        x as int
    }
}

/// A wide counter narrowed to the signed 32-bit domain by clamping.
pub open spec fn clamp_to_i32(x: u128) -> int {
    if x > i32::MAX as u128 {
        i32::MAX as int
    } else {
        x as int
    }
}

/// Clamps a wide counter into `i64`.
pub fn clamp_u128_i64(x: u128) -> (r: i64)
    ensures
        r as int == clamp_to_i64(x),
{
    if x > i64::MAX as u128 {
        i64::MAX
    } else {
        x as i64
    }
}

/// Clamps a wide counter into `i32`.
pub fn clamp_u128_i32(x: u128) -> (r: i32)
    ensures
        r as int == clamp_to_i32(x),
{
    if x > i32::MAX as u128 {
        i32::MAX
    } else {
        x as i32
    }
}

/// Saturating addition on non-negative 32-bit values.
pub open spec fn spec_sat_add_i32(a: int, b: int) -> int {
    if a + b > i32::MAX as int {
        i32::MAX as int
    } else {
        a + b
    }
}

/// Saturating addition on non-negative 64-bit values.
pub open spec fn spec_sat_add_i64(a: int, b: int) -> int {
    if a + b > i64::MAX as int {
        i64::MAX as int
    } else {
        a + b
    }
}

pub fn sat_add_i32(a: i32, b: i32) -> (r: i32)
    requires
        a >= 0,
        b >= 0,
    ensures
        r as int == spec_sat_add_i32(a as int, b as int),
{
    if a > i32::MAX - b {
        i32::MAX
    } else {
        a + b
    }
}

pub fn sat_add_i64(a: i64, b: i64) -> (r: i64)
    requires
        a >= 0,
        b >= 0,
    ensures
        r as int == spec_sat_add_i64(a as int, b as int),
{
    if a > i64::MAX - b {
        i64::MAX
    } else {
        a + b
    }
}

/// One actor row of the end-of-encounter record.
#[derive(Debug, Clone)]
pub struct ActorSnapshot {
    pub actor_id: i64,
    pub name: Option<String>,
    pub class_id: Option<i32>,
    pub class_spec: Option<i32>,
    pub ability_score: Option<i64>,
    pub level: Option<i32>,
    pub is_player: bool,
    pub is_local_player: bool,
    pub damage_dealt: i64,
    pub hits_dealt: i64,
    pub crit_hits_dealt: i64,
    pub lucky_hits_dealt: i64,
    pub crit_total_dealt: i64,
    pub lucky_total_dealt: i64,
    pub boss_damage_dealt: i64,
    pub boss_hits_dealt: i64,
    pub boss_crit_hits_dealt: i64,
    pub boss_lucky_hits_dealt: i64,
    pub boss_crit_total_dealt: i64,
    pub boss_lucky_total_dealt: i64,
    pub heal_dealt: i64,
    pub hits_heal: i64,
    pub crit_hits_heal: i64,
    pub lucky_hits_heal: i64,
    pub crit_total_heal: i64,
    pub lucky_total_heal: i64,
    pub damage_taken: i64,
    pub hits_taken: i64,
    pub crit_hits_taken: i64,
    pub lucky_hits_taken: i64,
    pub crit_total_taken: i64,
    pub lucky_total_taken: i64,
    pub active_dmg_time_ms: i64,
    pub revives: i64,
}

/// One per-skill row of the end-of-encounter record.
#[derive(Debug, Clone)]
pub struct SkillSnapshot {
    pub actor_id: i64,
    pub target_id: Option<i64>,
    pub skill_id: i64,
    pub monster_name: Option<String>,
    pub hits: i32,
    pub total_value: i64,
    pub crit_hits: i32,
    pub lucky_hits: i32,
    pub crit_total: i64,
    pub lucky_total: i64,
    pub hp_loss_total: i64,
    pub shield_loss_total: i64,
}

/// One aggregated boss row of the end-of-encounter record.
#[derive(Debug, Clone)]
pub struct BossSnapshot {
    pub monster_name: String,
    pub hits: i32,
    pub total_damage: i64,
    pub max_hp: Option<i64>,
    pub is_defeated: bool,
}

/// The end-of-encounter record handed to the storage collaborator.
#[derive(Debug, Clone)]
pub struct EncounterSnapshot {
    pub total_dmg: i64,
    pub total_heal: i64,
    pub combat_duration_ms: i64,
    pub actors: Vec<ActorSnapshot>,
    pub damage_skills: Vec<SkillSnapshot>,
    pub heal_skills: Vec<SkillSnapshot>,
    pub bosses: Vec<BossSnapshot>,
}

/// The actor row of one player entity, every counter clamped.
pub open spec fn spec_actor_of(e: Entity, local: i64) -> ActorSnapshot {
    ActorSnapshot {
        actor_id: e.uid,
        name: if e.name@.len() == 0 {
            None
        } else {
            Some(e.name)
        },
        class_id: Some(e.class_id),
        class_spec: Some(e.class_spec),
        ability_score: Some(e.ability_score),
        level: Some(e.level),
        is_player: true,
        is_local_player: e.uid == local,
        damage_dealt: clamp_to_i64(e.total_dmg) as i64,
        hits_dealt: clamp_to_i64(e.hits_dmg) as i64,
        crit_hits_dealt: clamp_to_i64(e.crit_hits_dmg) as i64,
        lucky_hits_dealt: clamp_to_i64(e.lucky_hits_dmg) as i64,
        crit_total_dealt: clamp_to_i64(e.crit_total_dmg) as i64,
        lucky_total_dealt: clamp_to_i64(e.lucky_total_dmg) as i64,
        boss_damage_dealt: clamp_to_i64(e.total_dmg_boss_only) as i64,
        boss_hits_dealt: clamp_to_i64(e.hits_dmg_boss_only) as i64,
        boss_crit_hits_dealt: clamp_to_i64(e.crit_hits_dmg_boss_only) as i64,
        boss_lucky_hits_dealt: clamp_to_i64(e.lucky_hits_dmg_boss_only) as i64,
        boss_crit_total_dealt: clamp_to_i64(e.crit_total_dmg_boss_only) as i64,
        boss_lucky_total_dealt: clamp_to_i64(e.lucky_total_dmg_boss_only) as i64,
        heal_dealt: clamp_to_i64(e.total_heal) as i64,
        hits_heal: clamp_to_i64(e.hits_heal) as i64,
        crit_hits_heal: clamp_to_i64(e.crit_hits_heal) as i64,
        lucky_hits_heal: clamp_to_i64(e.lucky_hits_heal) as i64,
        crit_total_heal: clamp_to_i64(e.crit_total_heal) as i64,
        lucky_total_heal: clamp_to_i64(e.lucky_total_heal) as i64,
        damage_taken: clamp_to_i64(e.total_taken) as i64,
        hits_taken: clamp_to_i64(e.hits_taken) as i64,
        crit_hits_taken: clamp_to_i64(e.crit_hits_taken) as i64,
        lucky_hits_taken: clamp_to_i64(e.lucky_hits_taken) as i64,
        crit_total_taken: clamp_to_i64(e.crit_total_taken) as i64,
        lucky_total_taken: clamp_to_i64(e.lucky_total_taken) as i64,
        active_dmg_time_ms: clamp_to_i64(e.active_dmg_time_ms) as i64,
        revives: 0,
    }
}

/// The actor rows of the player entities at or after index `i`, in order.
pub open spec fn spec_actors_from(entities: Seq<Entity>, local: i64, i: int) -> Seq<ActorSnapshot>
    decreases entities.len() - i,
{
    if i < 0 || i >= entities.len() {
        Seq::empty()
    } else {
        let rest = spec_actors_from(entities, local, i + 1);
        if entities[i].kind == EntityKind::Player {
            seq![spec_actor_of(entities[i], local)] + rest
        } else {
            rest
        }
    }
}

/// The damage row of one (skill, target) aggregate.
pub open spec fn spec_dmg_row(uid: i64, key: (i64, i64), st: SkillStat) -> SkillSnapshot {
    SkillSnapshot {
        actor_id: uid,
        target_id: Some(key.1),
        skill_id: key.0,
        monster_name: st.monster_name,
        hits: clamp_to_i32(st.hits) as i32,
        total_value: clamp_to_i64(st.total_value) as i64,
        crit_hits: clamp_to_i32(st.crit_hits) as i32,
        lucky_hits: clamp_to_i32(st.lucky_hits) as i32,
        crit_total: clamp_to_i64(st.crit_total) as i64,
        lucky_total: clamp_to_i64(st.lucky_total) as i64,
        hp_loss_total: clamp_to_i64(st.hp_loss_total) as i64,
        shield_loss_total: clamp_to_i64(st.shield_loss_total) as i64,
    }
}

/// The heal row of one (skill, target) aggregate.
pub open spec fn spec_heal_row(uid: i64, key: (i64, i64), st: SkillStat) -> SkillSnapshot {
    SkillSnapshot {
        actor_id: uid,
        target_id: Some(key.1),
        skill_id: key.0,
        monster_name: None,
        hits: clamp_to_i32(st.hits) as i32,
        total_value: clamp_to_i64(st.total_value) as i64,
        crit_hits: clamp_to_i32(st.crit_hits) as i32,
        lucky_hits: clamp_to_i32(st.lucky_hits) as i32,
        crit_total: clamp_to_i64(st.crit_total) as i64,
        lucky_total: clamp_to_i64(st.lucky_total) as i64,
        hp_loss_total: 0,
        shield_loss_total: 0,
    }
}

/// The damage rows of one entity's aggregates at or after index `j`.
pub open spec fn spec_dmg_rows_of(e: Entity, j: int) -> Seq<SkillSnapshot>
    decreases e.skill_dmg_to_target@.len() - j,
{
    if j < 0 || j >= e.skill_dmg_to_target@.len() {
        Seq::empty()
    } else {
        seq![spec_dmg_row(e.uid, e.skill_dmg_to_target@[j].0, e.skill_dmg_to_target@[j].1)]
            + spec_dmg_rows_of(e, j + 1)
    }
}

/// The heal rows of one entity's aggregates at or after index `j`.
pub open spec fn spec_heal_rows_of(e: Entity, j: int) -> Seq<SkillSnapshot>
    decreases e.skill_heal_to_target@.len() - j,
{
    if j < 0 || j >= e.skill_heal_to_target@.len() {
        Seq::empty()
    } else {
        seq![spec_heal_row(e.uid, e.skill_heal_to_target@[j].0, e.skill_heal_to_target@[j].1)]
            + spec_heal_rows_of(e, j + 1)
    }
}

/// The damage rows of all player entities at or after index `i`.
pub open spec fn spec_dmg_rows(entities: Seq<Entity>, i: int) -> Seq<SkillSnapshot>
    decreases entities.len() - i,
{
    if i < 0 || i >= entities.len() {
        Seq::empty()
    } else {
        let rest = spec_dmg_rows(entities, i + 1);
        if entities[i].kind == EntityKind::Player {
            spec_dmg_rows_of(entities[i], 0) + rest
        } else {
            rest
        }
    }
}

/// The heal rows of all player entities at or after index `i`.
pub open spec fn spec_heal_rows(entities: Seq<Entity>, i: int) -> Seq<SkillSnapshot>
    decreases entities.len() - i,
{
    if i < 0 || i >= entities.len() {
        Seq::empty()
    } else {
        let rest = spec_heal_rows(entities, i + 1);
        if entities[i].kind == EntityKind::Player {
            spec_heal_rows_of(entities[i], 0) + rest
        } else {
            rest
        }
    }
}

/// Index of the first boss row with the given name, or `-1`.
pub open spec fn boss_index_from(s: Seq<BossSnapshot>, name: Seq<char>, i: int) -> int
    decreases s.len() - i,
{
    if i < 0 || i >= s.len() {
        -1
    } else if s[i].monster_name@ == name {
        i
    } else {
        boss_index_from(s, name, i + 1)
    }
}

/// The boss rows after absorbing one named damage aggregate: the row is
/// created on first sight, then its hit and damage totals grow saturating.
pub open spec fn spec_boss_absorb(
    bs: Seq<BossSnapshot>,
    name: String,
    hits: int,
    dmg: int,
) -> Seq<BossSnapshot> {
    let idx = boss_index_from(bs, name@, 0);
    let bs1 = if idx == -1 {
        bs.push(
            BossSnapshot {
                monster_name: name,
                hits: 0,
                total_damage: 0,
                max_hp: None,
                is_defeated: false,
            },
        )
    } else {
        bs
    };
    let k = if idx == -1 {
        bs1.len() - 1
    } else {
        idx
    };
    let b = bs1[k];
    bs1.update(
        k,
        BossSnapshot {
            hits: spec_sat_add_i32(b.hits as int, hits) as i32,
            total_damage: spec_sat_add_i64(b.total_damage as int, dmg) as i64,
            ..b
        },
    )
}

/// The boss rows after one entity's damage aggregates at or after index `j`.
pub open spec fn spec_bosses_of(bs: Seq<BossSnapshot>, e: Entity, j: int) -> Seq<BossSnapshot>
    decreases e.skill_dmg_to_target@.len() - j,
{
    if j < 0 || j >= e.skill_dmg_to_target@.len() {
        bs
    } else {
        let st = e.skill_dmg_to_target@[j].1;
        let bs2 = match st.monster_name {
            Some(name) => spec_boss_absorb(
                bs,
                name,
                clamp_to_i32(st.hits),
                clamp_to_i64(st.total_value),
            ),
            None => bs,
        };
        spec_bosses_of(bs2, e, j + 1)
    }
}

/// The boss rows after the player entities at or after index `i`.
pub open spec fn spec_bosses_from(
    bs: Seq<BossSnapshot>,
    entities: Seq<Entity>,
    i: int,
) -> Seq<BossSnapshot>
    decreases entities.len() - i,
{
    if i < 0 || i >= entities.len() {
        bs
    } else {
        let bs2 = if entities[i].kind == EntityKind::Player {
            spec_bosses_of(bs, entities[i], 0)
        } else {
            bs
        };
        spec_bosses_from(bs2, entities, i + 1)
    }
}

/// Boss counters never go negative.
pub open spec fn bosses_nonneg(bs: Seq<BossSnapshot>) -> bool {
    forall|k: int| 0 <= k < bs.len() ==> (#[trigger] bs[k]).hits >= 0 && bs[k].total_damage >= 0
}

/// What `boss_index_from` finds: a first occurrence, or nothing at all.
pub proof fn lemma_boss_index_from(s: Seq<BossSnapshot>, name: Seq<char>, i: int)
    requires
        0 <= i <= s.len(),
    ensures
        ({
            let r = boss_index_from(s, name, i);
            &&& r == -1 ==> forall|j: int| i <= j < s.len() ==> s[j].monster_name@ != name
            &&& r != -1 ==> i <= r < s.len() && s[r].monster_name@ == name
        }),
    decreases s.len() - i,
{
    if i < s.len() && s[i].monster_name@ != name {
        lemma_boss_index_from(s, name, i + 1);
    }
}

/// Absorbing keeps the counters non-negative.
proof fn lemma_boss_absorb_nonneg(bs: Seq<BossSnapshot>, name: String, hits: int, dmg: int)
    requires
        bosses_nonneg(bs),
        hits >= 0,
        dmg >= 0,
    ensures
        bosses_nonneg(spec_boss_absorb(bs, name, hits, dmg)),
{
    lemma_boss_index_from(bs, name@, 0);
    let idx = boss_index_from(bs, name@, 0);
    let out = spec_boss_absorb(bs, name, hits, dmg);
    let bs1 = if idx == -1 {
        bs.push(
            BossSnapshot {
                monster_name: name,
                hits: 0,
                total_damage: 0,
                max_hp: None,
                is_defeated: false,
            },
        )
    } else {
        bs
    };
    let k = if idx == -1 {
        bs1.len() - 1
    } else {
        idx
    };
    assert forall|j: int| 0 <= j < out.len() implies (#[trigger] out[j]).hits >= 0
        && out[j].total_damage >= 0 by {
        if j != k {
            if idx == -1 && j < bs.len() {
                assert(bs1[j] == bs[j]);
            }
        } else {
            assert(bs1[k].hits >= 0 && bs1[k].total_damage >= 0);
        }
    }
}

/// Builds the end-of-encounter record: one row per player actor with every
/// counter clamped into the signed domain, the per-skill damage and heal
/// rows grouped by target, and the per-boss damage aggregates.
pub fn build_encounter_snapshot(encounter: &Encounter, local_player_id: i64) -> (r:
    EncounterSnapshot)
    ensures
        r.total_dmg as int == clamp_to_i64(encounter.total_dmg),
        r.total_heal as int == clamp_to_i64(encounter.total_heal),
        r.combat_duration_ms as int == clamp_to_i64(
            if encounter.time_last_combat_packet_ms >= encounter.time_fight_start_ms {
                (encounter.time_last_combat_packet_ms - encounter.time_fight_start_ms) as u128
            } else {
                0u128
            },
        ),
        r.actors@ == spec_actors_from(encounter.entities@, local_player_id, 0),
        r.damage_skills@ == spec_dmg_rows(encounter.entities@, 0),
        r.heal_skills@ == spec_heal_rows(encounter.entities@, 0),
        r.bosses@ == spec_bosses_from(Seq::empty(), encounter.entities@, 0),
{
    let mut actors: Vec<ActorSnapshot> = Vec::new();
    let mut damage_skills: Vec<SkillSnapshot> = Vec::new();
    let mut heal_skills: Vec<SkillSnapshot> = Vec::new();
    let mut bosses: Vec<BossSnapshot> = Vec::new();

    let ghost ents = encounter.entities@;
    let mut i: usize = 0;
    while i < encounter.entities.len()
        invariant
            0 <= i <= ents.len(),
            ents == encounter.entities@,
            spec_actors_from(ents, local_player_id, 0) == actors@ + spec_actors_from(
                ents,
                local_player_id,
                i as int,
            ),
            spec_dmg_rows(ents, 0) == damage_skills@ + spec_dmg_rows(ents, i as int),
            spec_heal_rows(ents, 0) == heal_skills@ + spec_heal_rows(ents, i as int),
            spec_bosses_from(Seq::empty(), ents, 0) == spec_bosses_from(bosses@, ents, i as int),
            bosses_nonneg(bosses@),
        decreases ents.len() - i,
    {
        let is_player = match encounter.entities[i].kind {
            EntityKind::Player => true,
            EntityKind::Monster => false,
        };
        if is_player {
            let e = &encounter.entities[i];
            actors.push(
                ActorSnapshot {
                    actor_id: e.uid,
                    name: if e.name.as_str().is_empty() {
                        None
                    } else {
                        Some(e.name.clone())
                    },
                    class_id: Some(e.class_id),
                    class_spec: Some(e.class_spec),
                    ability_score: Some(e.ability_score),
                    level: Some(e.level),
                    is_player: true,
                    is_local_player: e.uid == local_player_id,
                    damage_dealt: clamp_u128_i64(e.total_dmg),
                    hits_dealt: clamp_u128_i64(e.hits_dmg),
                    crit_hits_dealt: clamp_u128_i64(e.crit_hits_dmg),
                    lucky_hits_dealt: clamp_u128_i64(e.lucky_hits_dmg),
                    crit_total_dealt: clamp_u128_i64(e.crit_total_dmg),
                    lucky_total_dealt: clamp_u128_i64(e.lucky_total_dmg),
                    boss_damage_dealt: clamp_u128_i64(e.total_dmg_boss_only),
                    boss_hits_dealt: clamp_u128_i64(e.hits_dmg_boss_only),
                    boss_crit_hits_dealt: clamp_u128_i64(e.crit_hits_dmg_boss_only),
                    boss_lucky_hits_dealt: clamp_u128_i64(e.lucky_hits_dmg_boss_only),
                    boss_crit_total_dealt: clamp_u128_i64(e.crit_total_dmg_boss_only),
                    boss_lucky_total_dealt: clamp_u128_i64(e.lucky_total_dmg_boss_only),
                    heal_dealt: clamp_u128_i64(e.total_heal),
                    hits_heal: clamp_u128_i64(e.hits_heal),
                    crit_hits_heal: clamp_u128_i64(e.crit_hits_heal),
                    lucky_hits_heal: clamp_u128_i64(e.lucky_hits_heal),
                    crit_total_heal: clamp_u128_i64(e.crit_total_heal),
                    lucky_total_heal: clamp_u128_i64(e.lucky_total_heal),
                    damage_taken: clamp_u128_i64(e.total_taken),
                    hits_taken: clamp_u128_i64(e.hits_taken),
                    crit_hits_taken: clamp_u128_i64(e.crit_hits_taken),
                    lucky_hits_taken: clamp_u128_i64(e.lucky_hits_taken),
                    crit_total_taken: clamp_u128_i64(e.crit_total_taken),
                    lucky_total_taken: clamp_u128_i64(e.lucky_total_taken),
                    active_dmg_time_ms: clamp_u128_i64(e.active_dmg_time_ms),
                    revives: 0,
                },
            );
            proof {
                assert(actors@.last() == spec_actor_of(ents[i as int], local_player_id));
                assert(actors@ =~= actors@.drop_last().push(
                    spec_actor_of(ents[i as int], local_player_id),
                ));
                assert(actors@.drop_last() + spec_actors_from(ents, local_player_id, i as int)
                    =~= actors@ + spec_actors_from(ents, local_player_id, i as int + 1));
            }

            // Damage rows, with boss aggregation on named targets.
            let mut j: usize = 0;
            while j < e.skill_dmg_to_target.len()
                invariant
                    0 <= j <= e.skill_dmg_to_target@.len(),
                    i < ents.len(),
                    *e == ents[i as int],
                    spec_dmg_rows(ents, 0) == damage_skills@ + spec_dmg_rows_of(*e, j as int)
                        + spec_dmg_rows(ents, i as int + 1),
                    spec_bosses_from(Seq::empty(), ents, 0) == spec_bosses_from(
                        spec_bosses_of(bosses@, *e, j as int),
                        ents,
                        i as int + 1,
                    ),
                    bosses_nonneg(bosses@),
                decreases e.skill_dmg_to_target@.len() - j,
            {
                let key = e.skill_dmg_to_target[j].0;
                let st = &e.skill_dmg_to_target[j].1;
                damage_skills.push(
                    SkillSnapshot {
                        actor_id: e.uid,
                        target_id: Some(key.1),
                        skill_id: key.0,
                        monster_name: match &st.monster_name {
                            Some(n) => Some(n.clone()),
                            None => None,
                        },
                        hits: clamp_u128_i32(st.hits),
                        total_value: clamp_u128_i64(st.total_value),
                        crit_hits: clamp_u128_i32(st.crit_hits),
                        lucky_hits: clamp_u128_i32(st.lucky_hits),
                        crit_total: clamp_u128_i64(st.crit_total),
                        lucky_total: clamp_u128_i64(st.lucky_total),
                        hp_loss_total: clamp_u128_i64(st.hp_loss_total),
                        shield_loss_total: clamp_u128_i64(st.shield_loss_total),
                    },
                );
                proof {
                    assert(damage_skills@.last() == spec_dmg_row(
                        e.uid,
                        e.skill_dmg_to_target@[j as int].0,
                        e.skill_dmg_to_target@[j as int].1,
                    ));
                    assert(damage_skills@.drop_last() + spec_dmg_rows_of(*e, j as int)
                        + spec_dmg_rows(ents, i as int + 1) =~= damage_skills@ + spec_dmg_rows_of(
                        *e,
                        j as int + 1,
                    ) + spec_dmg_rows(ents, i as int + 1));
                }
                match &st.monster_name {
                    Some(name) => {
                        let hits_c = clamp_u128_i32(st.hits);
                        let dmg_c = clamp_u128_i64(st.total_value);
                        let ghost bs_before = bosses@;
                        // Find the boss row by name.
                        let mut bidx: usize = 0;
                        let mut bfound = false;
                        while bidx < bosses.len() && !bfound
                            invariant
                                0 <= bidx <= bosses@.len(),
                                bosses@ == bs_before,
                                bfound ==> bidx < bosses@.len()
                                    && bosses@[bidx as int].monster_name@ == name@
                                    && boss_index_from(bosses@, name@, 0) == bidx,
                                !bfound ==> boss_index_from(bosses@, name@, 0) == boss_index_from(
                                    bosses@,
                                    name@,
                                    bidx as int,
                                ),
                            decreases bosses@.len() - bidx + (if bfound {
                                0int
                            } else {
                                1int
                            }),
                        {
                            if bosses[bidx].monster_name.eq(name) {
                                bfound = true;
                            } else {
                                bidx = bidx + 1;
                            }
                        }
                        if !bfound {
                            bosses.push(
                                BossSnapshot {
                                    monster_name: name.clone(),
                                    hits: 0,
                                    total_damage: 0,
                                    max_hp: None,
                                    is_defeated: false,
                                },
                            );
                            bidx = bosses.len() - 1;
                        }
                        let b = &mut bosses[bidx];
                        let old_hits = b.hits;
                        let old_dmg = b.total_damage;
                        b.hits = sat_add_i32(old_hits, hits_c);
                        b.total_damage = sat_add_i64(old_dmg, dmg_c);
                        proof {
                            assert(bosses@ =~= spec_boss_absorb(
                                bs_before,
                                st.monster_name->Some_0,
                                hits_c as int,
                                dmg_c as int,
                            ));
                            lemma_boss_absorb_nonneg(
                                bs_before,
                                st.monster_name->Some_0,
                                hits_c as int,
                                dmg_c as int,
                            );
                        }
                    },
                    None => {},
                }
                j = j + 1;
            }
            proof {
                assert(spec_dmg_rows_of(*e, e.skill_dmg_to_target@.len() as int) =~= Seq::<
                    SkillSnapshot,
                >::empty());
                assert(damage_skills@ + Seq::<SkillSnapshot>::empty() =~= damage_skills@);
            }

            // Heal rows.
            let mut j2: usize = 0;
            while j2 < e.skill_heal_to_target.len()
                invariant
                    0 <= j2 <= e.skill_heal_to_target@.len(),
                    i < ents.len(),
                    *e == ents[i as int],
                    spec_heal_rows(ents, 0) == heal_skills@ + spec_heal_rows_of(*e, j2 as int)
                        + spec_heal_rows(ents, i as int + 1),
                decreases e.skill_heal_to_target@.len() - j2,
            {
                let key = e.skill_heal_to_target[j2].0;
                let st = &e.skill_heal_to_target[j2].1;
                heal_skills.push(
                    SkillSnapshot {
                        actor_id: e.uid,
                        target_id: Some(key.1),
                        skill_id: key.0,
                        monster_name: None,
                        hits: clamp_u128_i32(st.hits),
                        total_value: clamp_u128_i64(st.total_value),
                        crit_hits: clamp_u128_i32(st.crit_hits),
                        lucky_hits: clamp_u128_i32(st.lucky_hits),
                        crit_total: clamp_u128_i64(st.crit_total),
                        lucky_total: clamp_u128_i64(st.lucky_total),
                        hp_loss_total: 0,
                        shield_loss_total: 0,
                    },
                );
                proof {
                    assert(heal_skills@.last() == spec_heal_row(
                        e.uid,
                        e.skill_heal_to_target@[j2 as int].0,
                        e.skill_heal_to_target@[j2 as int].1,
                    ));
                    assert(heal_skills@.drop_last() + spec_heal_rows_of(*e, j2 as int)
                        + spec_heal_rows(ents, i as int + 1) =~= heal_skills@ + spec_heal_rows_of(
                        *e,
                        j2 as int + 1,
                    ) + spec_heal_rows(ents, i as int + 1));
                }
                j2 = j2 + 1;
            }
            proof {
                assert(spec_heal_rows_of(*e, e.skill_heal_to_target@.len() as int) =~= Seq::<
                    SkillSnapshot,
                >::empty());
                assert(heal_skills@ + Seq::<SkillSnapshot>::empty() =~= heal_skills@);
            }
        }
        i = i + 1;
    }
    proof {
        assert(actors@ + spec_actors_from(ents, local_player_id, ents.len() as int) =~= actors@);
        assert(damage_skills@ + spec_dmg_rows(ents, ents.len() as int) =~= damage_skills@);
        assert(heal_skills@ + spec_heal_rows(ents, ents.len() as int) =~= heal_skills@);
    }

    let duration: u128 = if encounter.time_last_combat_packet_ms
        >= encounter.time_fight_start_ms {
        encounter.time_last_combat_packet_ms - encounter.time_fight_start_ms
    } else {
        0
    };
    EncounterSnapshot {
        total_dmg: clamp_u128_i64(encounter.total_dmg),
        total_heal: clamp_u128_i64(encounter.total_heal),
        combat_duration_ms: clamp_u128_i64(duration),
        actors,
        damage_skills,
        heal_skills,
        bosses,
    }
}

} // verus!
