use encounter_engine::buff_names::BuffCatalog;
use encounter_engine::buffs::{BuffAddInfo, BuffEffectRecord, BuffLogicEffect};
use encounter_engine::encounter::{build_encounter_snapshot, Encounter, Entity, EntityKind, SkillStat};
use encounter_engine::engine::{
    detect_boss_deaths, handle_event, prepare_emission_cycle, process_sync_scene_attrs,
    record_boss_death, AppState, ContainerData, DeltaData, EngineAction, EnterSceneData,
    EntityObservation, StateEvent,
};
use encounter_engine::models::{AttrCollection, BossHealth, RawAttr, RawMapAttr, ATTR_SKILL_CD};
use encounter_engine::scene::SceneTable;

fn scenes() -> SceneTable {
    let mut t = SceneTable::new();
    t.add(100, String::from("Old Town"));
    t.add(200, String::from("New Town"));
    t.add(300, String::from("Harbor"));
    t
}

fn enter_scene_via_guid(guid: &str) -> StateEvent {
    StateEvent::EnterScene(EnterSceneData {
        scene_guid: Some(String::from(guid)),
        subscene_attrs: None,
        scene_attrs: None,
        player_attrs: None,
    })
}

fn observation(uid: i64, name: &str) -> EntityObservation {
    EntityObservation {
        uid,
        name: String::from(name),
        kind: EntityKind::Player,
        class_id: 1,
        class_spec: 2,
        ability_score: 3,
        level: 4,
    }
}

fn count_end_encounters(actions: &[EngineAction]) -> usize {
    actions
        .iter()
        .filter(|a| matches!(a, EngineAction::EndEncounter { .. }))
        .count()
}

#[test]
fn paused_encounter_drops_delta_style_events() {
    let scenes = scenes();
    let catalog = BuffCatalog::new();
    let mut state = AppState::new();
    state.set_encounter_paused(true);

    let actions = handle_event(
        &mut state,
        &scenes,
        &catalog,
        StateEvent::SyncNearEntities(vec![observation(1, "Ayla")]),
        1000,
    );
    assert_eq!(actions.len(), 0);
    assert_eq!(state.encounter.entities.len(), 0);

    let actions2 = handle_event(
        &mut state,
        &scenes,
        &catalog,
        StateEvent::SyncToMeDeltaInfo(DeltaData {
            skill_cds: vec![],
            attrs: None,
            temp_attrs: vec![],
            buff_effects: None,
            fight_res_values: Some(vec![5, 6]),
        }),
        1001,
    );
    assert_eq!(actions2.len(), 0);
    assert!(state.fight_res_state.is_none());
}

#[test]
fn paused_encounter_still_processes_scene_changes() {
    let scenes = scenes();
    let catalog = BuffCatalog::new();
    let mut state = AppState::new();
    state.set_encounter_paused(true);

    let actions = handle_event(&mut state, &scenes, &catalog, enter_scene_via_guid("g-0300"), 5);
    assert_eq!(state.encounter.current_scene_id, Some(300));
    assert_eq!(state.encounter.current_scene_name, Some(String::from("Harbor")));
    assert!(state.encounter.is_encounter_paused);
    assert!(actions
        .iter()
        .any(|a| matches!(a, EngineAction::EmitSceneChange(n) if n == "Harbor")));
}

#[test]
fn scene_change_during_a_fight_hands_off_exactly_one_encounter() {
    let scenes = scenes();
    let catalog = BuffCatalog::new();
    let mut state = AppState::new();

    // Adopt the first scene; the very first scene event also closes any
    // dangling encounters from a prior run.
    let first = handle_event(&mut state, &scenes, &catalog, enter_scene_via_guid("g-0100"), 10);
    assert!(matches!(first[0], EngineAction::EndAllActiveEncounters { ended_at_ms: 10 }));
    assert_eq!(count_end_encounters(&first), 0);
    assert_eq!(state.encounter.current_scene_id, Some(100));

    // A fight is in progress; segment mode is off.
    state.encounter.time_fight_start_ms = 500;
    state.encounter.total_dmg = 900;

    let actions = handle_event(&mut state, &scenes, &catalog, enter_scene_via_guid("g-0200"), 20);
    assert_eq!(count_end_encounters(&actions), 1);
    assert_eq!(state.encounter.current_scene_id, Some(200));
    assert_eq!(state.encounter.total_dmg, 0);
    assert!(actions
        .iter()
        .any(|a| matches!(a, EngineAction::EmitSceneChange(n) if n == "New Town")));
}

#[test]
fn same_scene_or_no_fight_hands_nothing_off() {
    let scenes = scenes();
    let catalog = BuffCatalog::new();
    let mut state = AppState::new();
    handle_event(&mut state, &scenes, &catalog, enter_scene_via_guid("g-0100"), 10);

    // No fight in progress: a different scene is adopted without a handoff.
    let a1 = handle_event(&mut state, &scenes, &catalog, enter_scene_via_guid("g-0200"), 20);
    assert_eq!(count_end_encounters(&a1), 0);

    // Same scene again during a fight: no handoff either.
    state.encounter.time_fight_start_ms = 500;
    let a2 = handle_event(&mut state, &scenes, &catalog, enter_scene_via_guid("g-0200"), 30);
    assert_eq!(count_end_encounters(&a2), 0);
}

#[test]
fn unresolvable_scene_clears_the_id_and_adopts_a_fallback_name() {
    let scenes = scenes();
    let catalog = BuffCatalog::new();
    let mut state = AppState::new();
    handle_event(&mut state, &scenes, &catalog, enter_scene_via_guid("g-0100"), 10);

    let actions = handle_event(
        &mut state,
        &scenes,
        &catalog,
        enter_scene_via_guid("no-digits-here-match-nothing"),
        20,
    );
    assert_eq!(state.encounter.current_scene_id, None);
    assert_eq!(
        state.encounter.current_scene_name,
        Some(String::from("Scene GUID: no-digits-here-match-nothing"))
    );
    assert!(actions
        .iter()
        .any(|a| matches!(a, EngineAction::EmitSceneChange(n) if n.starts_with("Scene GUID: "))));
}

#[test]
fn boss_below_threshold_for_4999_ms_does_not_die() {
    let mut bosses = vec![BossHealth {
        uid: 7,
        name: String::from("Colossus"),
        current_hp: Some(3),
        max_hp: Some(100),
    }];
    let mut low_hp: Vec<(i64, i64)> = Vec::new();
    let d1 = detect_boss_deaths(&mut bosses, &mut low_hp, Vec::new(), 0);
    assert_eq!(d1.len(), 0);
    let d2 = detect_boss_deaths(&mut bosses, &mut low_hp, d1, 4999);
    assert_eq!(d2.len(), 0);
    assert_eq!(bosses[0].current_hp, Some(3));
}

#[test]
fn boss_below_threshold_for_5001_ms_dies_exactly_once() {
    let mut bosses = vec![BossHealth {
        uid: 7,
        name: String::from("Colossus"),
        current_hp: Some(3),
        max_hp: Some(100),
    }];
    let mut low_hp: Vec<(i64, i64)> = Vec::new();
    let d1 = detect_boss_deaths(&mut bosses, &mut low_hp, Vec::new(), 0);
    let d2 = detect_boss_deaths(&mut bosses, &mut low_hp, d1, 5001);
    assert_eq!(d2, vec![(7, String::from("Colossus"))]);
    assert_eq!(bosses[0].current_hp, Some(0));

    // A later cycle at zero HP does not re-fire.
    bosses[0].current_hp = Some(0);
    let d3 = detect_boss_deaths(&mut bosses, &mut low_hp, d2, 6000);
    assert_eq!(d3, vec![(7, String::from("Colossus"))]);
}

#[test]
fn boss_recovery_clears_the_sustain_mark() {
    let mut bosses = vec![BossHealth {
        uid: 7,
        name: String::from("Colossus"),
        current_hp: Some(3),
        max_hp: Some(100),
    }];
    let mut low_hp: Vec<(i64, i64)> = Vec::new();
    let d1 = detect_boss_deaths(&mut bosses, &mut low_hp, Vec::new(), 0);
    // The boss recovers above five percent before 5000 ms elapse.
    bosses[0].current_hp = Some(50);
    let d2 = detect_boss_deaths(&mut bosses, &mut low_hp, d1, 3000);
    assert_eq!(d2.len(), 0);
    assert_eq!(low_hp.len(), 0);
    // Dropping low again restarts the clock.
    bosses[0].current_hp = Some(3);
    let d3 = detect_boss_deaths(&mut bosses, &mut low_hp, d2, 4000);
    assert_eq!(d3.len(), 0);
    let d4 = detect_boss_deaths(&mut bosses, &mut low_hp, d3, 8999);
    assert_eq!(d4.len(), 0);
    let d5 = detect_boss_deaths(&mut bosses, &mut low_hp, d4, 9001);
    assert_eq!(d5.len(), 1);
}

#[test]
fn unknown_hp_counts_as_full_health() {
    let mut bosses = vec![BossHealth {
        uid: 7,
        name: String::from("Mystery"),
        current_hp: None,
        max_hp: Some(100),
    }];
    let mut low_hp: Vec<(i64, i64)> = Vec::new();
    let d1 = detect_boss_deaths(&mut bosses, &mut low_hp, Vec::new(), 0);
    let d2 = detect_boss_deaths(&mut bosses, &mut low_hp, d1, 9000);
    assert_eq!(d2.len(), 0);
    assert_eq!(low_hp.len(), 0);
}

#[test]
fn boss_death_records_are_one_shot() {
    let mut state = AppState::new();
    let first = record_boss_death(&mut state, 7, String::from("Colossus"));
    assert!(first);
    assert!(state.encounter.waiting_for_next_boss);
    let second = record_boss_death(&mut state, 7, String::from("Colossus"));
    assert!(!second);
    assert_eq!(state.notified_boss_deaths.len(), 1);
}

#[test]
fn manual_reset_hands_off_and_clears_buffs() {
    let scenes = scenes();
    let catalog = BuffCatalog::new();
    let mut state = AppState::new();
    state.monitored_buff_ids = vec![100];
    state.encounter.total_dmg = 5000;
    record_boss_death(&mut state, 7, String::from("Colossus"));

    let actions = handle_event(
        &mut state,
        &scenes,
        &catalog,
        StateEvent::ResetEncounter { is_manual: true },
        999,
    );
    assert_eq!(count_end_encounters(&actions), 1);
    let end = actions
        .iter()
        .find(|a| matches!(a, EngineAction::EndEncounter { .. }))
        .unwrap();
    match end {
        EngineAction::EndEncounter { ended_at_ms, defeated_bosses, is_manually_reset, .. } => {
            assert_eq!(*ended_at_ms, 999);
            assert_eq!(*is_manually_reset, true);
            assert_eq!(defeated_bosses.as_ref().unwrap().len(), 1);
        },
        _ => unreachable!(),
    }
    assert_eq!(state.encounter.total_dmg, 0);
    assert_eq!(state.active_buffs.len(), 0);
    assert_eq!(state.notified_boss_deaths.len(), 0);
    // Monitored buff ids force an explicit empty buff update.
    assert!(actions
        .iter()
        .any(|a| matches!(a, EngineAction::EmitBuffUpdate(b) if b.is_empty())));
}

#[test]
fn pause_events_flip_the_flag_and_notify() {
    let scenes = scenes();
    let catalog = BuffCatalog::new();
    let mut state = AppState::new();
    let actions = handle_event(&mut state, &scenes, &catalog, StateEvent::PauseEncounter(true), 1);
    assert!(state.encounter.is_encounter_paused);
    assert_eq!(actions.len(), 1);
    assert!(matches!(actions[0], EngineAction::EmitEncounterPause(true)));
}

#[test]
fn entity_observations_create_and_refresh_entities() {
    let scenes = scenes();
    let catalog = BuffCatalog::new();
    let mut state = AppState::new();
    handle_event(
        &mut state,
        &scenes,
        &catalog,
        StateEvent::SyncNearEntities(vec![observation(1, "Ayla"), observation(2, "Brix")]),
        1,
    );
    assert_eq!(state.encounter.entities.len(), 2);
    handle_event(
        &mut state,
        &scenes,
        &catalog,
        StateEvent::SyncNearEntities(vec![observation(1, "Ayla the Bold")]),
        2,
    );
    assert_eq!(state.encounter.entities.len(), 2);
    let ayla = state.encounter.entities.iter().find(|e| e.uid == 1).unwrap();
    assert_eq!(ayla.name, "Ayla the Bold");
}

#[test]
fn container_data_sets_the_local_player() {
    let scenes = scenes();
    let catalog = BuffCatalog::new();
    let mut state = AppState::new();
    handle_event(
        &mut state,
        &scenes,
        &catalog,
        StateEvent::SyncContainerData(ContainerData { player_uid: Some(42) }),
        1,
    );
    assert_eq!(state.encounter.local_player_uid, 42);
}

#[test]
fn delta_updates_modifiers_and_reemits_only_on_change() {
    let scenes = scenes();
    let catalog = BuffCatalog::new();
    let mut state = AppState::new();
    state.monitored_skill_ids = vec![123];

    // 500 as a varint is [0xF4, 0x03].
    let attrs = AttrCollection {
        attrs: vec![RawAttr { id: Some(ATTR_SKILL_CD), raw_data: Some(vec![0xf4, 0x03]) }],
        map_attrs: vec![],
    };
    let delta = DeltaData {
        skill_cds: vec![],
        attrs: Some(attrs.clone()),
        temp_attrs: vec![],
        buff_effects: None,
        fight_res_values: None,
    };
    let a1 = handle_event(
        &mut state,
        &scenes,
        &catalog,
        StateEvent::SyncToMeDeltaInfo(delta.clone()),
        1,
    );
    assert_eq!(state.attr_skill_cd, 500);
    // The cache is empty, so nothing is emitted even though a change fired.
    assert_eq!(a1.len(), 0);

    // The same value again is not a change and the cache stays untouched.
    let a2 = handle_event(
        &mut state,
        &scenes,
        &catalog,
        StateEvent::SyncToMeDeltaInfo(delta),
        2,
    );
    assert_eq!(a2.len(), 0);
    assert_eq!(state.attr_skill_cd, 500);
}

#[test]
fn delta_keys_in_monitored_cooldowns_and_emits_the_filtered_list() {
    let scenes = scenes();
    let catalog = BuffCatalog::new();
    let mut state = AppState::new();
    state.monitored_skill_ids = vec![123];

    let delta = DeltaData {
        skill_cds: vec![
            encounter_engine::engine::SkillCdReport {
                skill_level_id: Some(12345),
                begin_time: Some(11),
                duration: Some(10000),
                skill_cd_type: Some(1),
                valid_cd_time: Some(9),
            },
            encounter_engine::engine::SkillCdReport {
                skill_level_id: Some(99901),
                begin_time: None,
                duration: Some(7000),
                skill_cd_type: None,
                valid_cd_time: None,
            },
        ],
        attrs: None,
        temp_attrs: vec![],
        buff_effects: None,
        fight_res_values: None,
    };
    let actions = handle_event(
        &mut state,
        &scenes,
        &catalog,
        StateEvent::SyncToMeDeltaInfo(delta),
        50,
    );
    // Only the monitored coarse id 123 was keyed in.
    assert_eq!(state.skill_cd_map.len(), 1);
    assert_eq!(state.skill_cd_map[0].skill_level_id, 12345);
    assert_eq!(state.skill_cd_map[0].received_at, 50);
    let emitted = actions
        .iter()
        .find(|a| matches!(a, EngineAction::EmitSkillCdUpdate(_)))
        .unwrap();
    match emitted {
        EngineAction::EmitSkillCdUpdate(cds) => {
            assert_eq!(cds.len(), 1);
            assert_eq!(cds[0].skill_level_id, 12345);
            assert_eq!(cds[0].calculated_duration, 10000);
        },
        _ => unreachable!(),
    }
}

#[test]
fn delta_runs_the_buff_tracker_and_the_fight_resources() {
    let scenes = scenes();
    let catalog = BuffCatalog::new();
    let mut state = AppState::new();
    state.monitored_buff_ids = vec![100];

    let delta = DeltaData {
        skill_cds: vec![],
        attrs: None,
        temp_attrs: vec![],
        buff_effects: Some(vec![BuffEffectRecord {
            buff_uuid: Some(1),
            effects: vec![BuffLogicEffect::Add(BuffAddInfo {
                base_id: Some(100),
                layer: Some(2),
                duration: Some(5000),
                create_time: Some(7),
                source_config_id: None,
            })],
            is_remove: false,
        }]),
        fight_res_values: Some(vec![10, 20, 30]),
    };
    let actions = handle_event(
        &mut state,
        &scenes,
        &catalog,
        StateEvent::SyncToMeDeltaInfo(delta),
        77,
    );
    assert_eq!(state.active_buffs.len(), 1);
    assert_eq!(state.fight_res_state.as_ref().unwrap().values, vec![10, 20, 30]);
    assert_eq!(state.fight_res_state.as_ref().unwrap().received_at, 77);
    assert!(matches!(&actions[0],
        EngineAction::EmitFightResUpdate(f) if f.values == vec![10, 20, 30] && f.received_at == 77));
    assert!(actions.iter().any(|a| matches!(a,
        EngineAction::EmitBuffUpdate(b) if b.len() == 1 && b[0].base_id == 100 && b[0].layer == 2)));
}

#[test]
fn emission_cycle_snapshots_and_detects_deaths() {
    let mut state = AppState::new();
    state.encounter.total_dmg = 12345;
    let mut bosses = vec![BossHealth {
        uid: 9,
        name: String::from("Warden"),
        current_hp: Some(2),
        max_hp: Some(100),
    }];
    let d1 = prepare_emission_cycle(&mut state, &mut bosses, Vec::new(), 0);
    assert_eq!(d1.len(), 0);
    assert_eq!(state.last_encounter_snapshot.as_ref().unwrap().total_dmg, 12345);
    let d2 = prepare_emission_cycle(&mut state, &mut bosses, d1, 5001);
    assert_eq!(d2.len(), 1);
    assert_eq!(bosses[0].current_hp, Some(0));
}

#[test]
fn snapshot_clamps_wide_counters() {
    let mut state = AppState::new();
    state.encounter.total_dmg = u128::MAX;
    state.encounter.time_fight_start_ms = 1000;
    state.encounter.time_last_combat_packet_ms = 4500;
    let snapshot =
        encounter_engine::encounter::build_encounter_snapshot(&state.encounter, 0);
    assert_eq!(snapshot.total_dmg, i64::MAX);
    assert_eq!(snapshot.combat_duration_ms, 3500);
}

#[test]
fn scene_attr_fallback_only_acts_while_the_scene_is_unknown() {
    let scenes = scenes();
    let mut state = AppState::new();
    let attrs = Some(AttrCollection {
        attrs: vec![RawAttr { id: Some(10), raw_data: Some(vec![0xac, 0x02]) }],
        map_attrs: Vec::<RawMapAttr>::new(),
    });

    // With no scene known, the extracted id is adopted without a reset.
    let mut t = SceneTable::new();
    t.add(300, String::from("Harbor"));
    state.encounter.total_dmg = 77;
    let actions = process_sync_scene_attrs(&mut state, &t, &attrs, 1);
    assert_eq!(state.encounter.current_scene_id, Some(300));
    assert_eq!(state.encounter.total_dmg, 77);
    assert!(matches!(&actions[0], EngineAction::EmitSceneChange(n) if n == "Harbor"));

    // With a confidently-sourced scene already present, nothing happens.
    state.encounter.current_scene_id = Some(100);
    state.encounter.current_scene_name = Some(String::from("Old Town"));
    let none = process_sync_scene_attrs(&mut state, &scenes, &attrs, 2);
    assert_eq!(none.len(), 0);
    assert_eq!(state.encounter.current_scene_id, Some(100));
}

#[test]
fn snapshot_groups_boss_damage_by_monster_name() {
    fn stat(name: Option<&str>, hits: u128, total: u128) -> SkillStat {
        SkillStat {
            monster_name: name.map(String::from),
            hits,
            total_value: total,
            crit_hits: 0,
            lucky_hits: 0,
            crit_total: 0,
            lucky_total: 0,
            hp_loss_total: 0,
            shield_loss_total: 0,
        }
    }

    let mut encounter = Encounter::new();
    let mut player = Entity::new_with_identity(1, String::from("Ayla"), EntityKind::Player, 0, 0, 0, 1);
    player.skill_dmg_to_target = vec![
        ((10, 100), stat(Some("Warden"), 2, 50)),
        ((11, 100), stat(Some("Warden"), 3, 70)),
        ((12, 101), stat(None, 1, 5)),
    ];
    let monster = Entity::new_with_identity(100, String::from("Warden"), EntityKind::Monster, 0, 0, 0, 1);
    encounter.entities = vec![player, monster];

    let snapshot = build_encounter_snapshot(&encounter, 1);
    // Only the player produced rows; the two named aggregates merged into
    // one boss row.
    assert_eq!(snapshot.actors.len(), 1);
    assert!(snapshot.actors[0].is_local_player);
    assert_eq!(snapshot.damage_skills.len(), 3);
    assert_eq!(snapshot.bosses.len(), 1);
    assert_eq!(snapshot.bosses[0].monster_name, "Warden");
    assert_eq!(snapshot.bosses[0].hits, 5);
    assert_eq!(snapshot.bosses[0].total_damage, 120);
}

#[test]
fn segment_mode_snapshots_instead_of_ending_the_encounter() {
    let scenes = scenes();
    let catalog = BuffCatalog::new();
    let mut state = AppState::new();
    state.dungeon_segments_enabled = true;
    handle_event(&mut state, &scenes, &catalog, enter_scene_via_guid("g-0100"), 10);
    state.encounter.time_fight_start_ms = 500;
    state.encounter.total_dmg = 900;

    let actions = handle_event(&mut state, &scenes, &catalog, enter_scene_via_guid("g-0200"), 20);
    // The live meter resets, the total encounter duration is preserved, and
    // no end-of-encounter record is handed off.
    assert_eq!(count_end_encounters(&actions), 0);
    assert_eq!(state.encounter.time_fight_start_ms, 500);
    assert_eq!(state.encounter.total_dmg, 0);
    assert_eq!(state.encounter.current_scene_id, Some(200));
}

#[test]
fn non_positive_max_hp_counts_as_full_health() {
    // A known current HP with a zero or negative maximum must never trip the
    // death detector, however long it persists.
    let mut bosses = vec![
        BossHealth { uid: 7, name: String::from("Hollow"), current_hp: Some(3), max_hp: Some(0) },
        BossHealth { uid: 8, name: String::from("Void"), current_hp: Some(3), max_hp: Some(-5) },
    ];
    let mut low_hp: Vec<(i64, i64)> = Vec::new();
    let d1 = detect_boss_deaths(&mut bosses, &mut low_hp, Vec::new(), 0);
    assert_eq!(d1.len(), 0);
    assert_eq!(low_hp.len(), 0);
    let d2 = detect_boss_deaths(&mut bosses, &mut low_hp, d1, 10_000);
    assert_eq!(d2.len(), 0);
    assert_eq!(bosses[0].current_hp, Some(3));
    assert_eq!(bosses[1].current_hp, Some(3));
}
