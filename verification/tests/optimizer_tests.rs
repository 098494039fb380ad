use encounter_engine::optimizer::{
    calculate_combat_power, default_max_solutions, default_max_workers, default_use_gpu,
    filter_modules_by_targets, finalize_solutions, from_ffi_solutions,
    meets_module_minimum, parse_modules_from_vdata, prefilter_modules_by_total_scores,
    to_ffi_modules,
    AttrBreakdownEntry, CharData, CharItem, ModuleInfo, ModulePart, ModuleSolution,
    ModuleSolutionFfi, OptimizeOptions,
};

fn module(uuid: i32, parts: Vec<(i32, i32)>) -> ModuleInfo {
    ModuleInfo {
        name: format!("module-{uuid}"),
        config_id: 5500101,
        uuid,
        quality: 1,
        parts: parts
            .into_iter()
            .map(|(id, value)| ModulePart { id, name: format!("attr-{id}"), value })
            .collect(),
    }
}

#[test]
fn combat_power_counts_thresholds_and_the_total_bonus() {
    // One basic attribute at total 4: the second activation grants 14, and
    // the combined total of 4 grants 23 from the bonus table.
    let modules = vec![module(1, vec![(1110, 4)])];
    assert_eq!(calculate_combat_power(&modules), 37);
}

#[test]
fn combat_power_uses_the_special_scale_for_special_attrs() {
    // Special attribute 2104 at total 1: first activation grants 14; the
    // total of 1 grants 5.
    let modules = vec![module(1, vec![(2104, 1)])];
    assert_eq!(calculate_combat_power(&modules), 19);
}

#[test]
fn combat_power_aggregates_across_modules() {
    // 1110 totals 4 across two modules (activation 14), 1111 totals 1
    // (activation 7); combined total 5 grants 29.
    let modules = vec![module(1, vec![(1110, 3)]), module(2, vec![(1110, 1), (1111, 1)])];
    assert_eq!(calculate_combat_power(&modules), 14 + 7 + 29);
}

#[test]
fn combat_power_clamps_the_total_bonus_index() {
    // A total far above 120 reads the top table entry (699); 200 is past
    // every activation threshold (254 on the basic scale).
    let modules = vec![module(1, vec![(1110, 200)])];
    assert_eq!(calculate_combat_power(&modules), 254 + 699);
}

#[test]
fn prefilter_keeps_the_highest_scores_in_order() {
    let modules = vec![
        module(1, vec![(1110, 1)]),
        module(2, vec![(1110, 9)]),
        module(3, vec![(1110, 5)]),
    ];
    let targets: Vec<i32> = Vec::new();
    let kept = prefilter_modules_by_total_scores(&modules, &targets, 2);
    let uuids: Vec<i32> = kept.iter().map(|m| m.uuid).collect();
    assert_eq!(uuids, vec![2, 3]);
}

#[test]
fn prefilter_scores_only_targeted_attributes() {
    let modules = vec![
        module(1, vec![(1110, 9)]),
        module(2, vec![(1111, 5)]),
    ];
    let targets: Vec<i32> = vec![1111];
    let kept = prefilter_modules_by_total_scores(&modules, &targets, 1);
    assert_eq!(kept.len(), 1);
    assert_eq!(kept[0].uuid, 2);
}

#[test]
fn target_filter_keeps_modules_carrying_a_targeted_attribute() {
    let modules = vec![
        module(1, vec![(1110, 1)]),
        module(2, vec![(1111, 1)]),
        module(3, vec![(1110, 2), (1111, 3)]),
    ];
    let targets: Vec<i32> = vec![1111];
    let kept = filter_modules_by_targets(modules, &targets);
    let uuids: Vec<i32> = kept.iter().map(|m| m.uuid).collect();
    assert_eq!(uuids, vec![2, 3]);

    // An empty target list keeps everything.
    let all = filter_modules_by_targets(
        vec![module(1, vec![(1110, 1)]), module(2, vec![(1111, 1)])],
        &Vec::new(),
    );
    assert_eq!(all.len(), 2);
}

#[test]
fn ffi_conversions_carry_every_field() {
    let modules = vec![module(4, vec![(1110, 3), (2104, 2)])];
    let ffi = to_ffi_modules(&modules);
    assert_eq!(ffi.len(), 1);
    assert_eq!(ffi[0].name, "module-4");
    assert_eq!(ffi[0].config_id, 5500101);
    assert_eq!(ffi[0].parts.len(), 2);
    assert_eq!(ffi[0].parts[1].id, 2104);
    assert_eq!(ffi[0].parts[1].value, 2);

    let solutions = vec![ModuleSolutionFfi {
        modules: ffi,
        score: 11,
        attr_breakdown: vec![AttrBreakdownEntry { name: String::from("attr-1110"), value: 3 }],
    }];
    let back = from_ffi_solutions(solutions);
    assert_eq!(back.len(), 1);
    assert_eq!(back[0].score, 11);
    assert_eq!(back[0].modules[0].parts[0].id, 1110);
    assert_eq!(back[0].attr_breakdown[0].value, 3);
}

#[test]
fn finalize_caps_at_ten_and_rescores() {
    let mut solutions: Vec<ModuleSolution> = Vec::new();
    for k in 0..12 {
        solutions.push(ModuleSolution {
            modules: vec![module(k, vec![(1110, 4)])],
            score: -1,
            attr_breakdown: vec![],
        });
    }
    let done = finalize_solutions(solutions);
    assert_eq!(done.len(), 10);
    for s in &done {
        assert_eq!(s.score, 37);
    }
}

#[test]
fn option_defaults_match_the_documented_values() {
    assert_eq!(default_max_solutions(), 60);
    assert_eq!(default_max_workers(), 8);
    assert!(default_use_gpu());
    let options = OptimizeOptions::default();
    assert_eq!(options.max_solutions, 60);
    assert_eq!(options.max_workers, 8);
    assert!(options.use_gpu);
    assert!(options.target_attributes.is_empty());
}

#[test]
fn parsing_keeps_known_modules_with_their_attribute_values() {
    let data = CharData {
        has_mod_infos: true,
        mod_infos: vec![(900, vec![3, 5, 7]), (901, vec![2])],
        items: vec![
            // A known module: parts pair with the per-item values, stopping
            // at the shorter list.
            CharItem {
                key: 900,
                config_id: Some(5500101),
                uuid: Some(11),
                quality: Some(2),
                mod_parts: vec![1110, 1111],
            },
            // An unknown configuration id is skipped.
            CharItem {
                key: 901,
                config_id: Some(42),
                uuid: Some(12),
                quality: Some(1),
                mod_parts: vec![1110],
            },
            // An item without per-item values is skipped.
            CharItem {
                key: 999,
                config_id: Some(5500102),
                uuid: Some(13),
                quality: Some(1),
                mod_parts: vec![1110],
            },
            // An item without parts is skipped.
            CharItem {
                key: 900,
                config_id: Some(5500101),
                uuid: Some(14),
                quality: Some(1),
                mod_parts: vec![],
            },
        ],
    };
    let modules = parse_modules_from_vdata(&data);
    assert_eq!(modules.len(), 1);
    assert_eq!(modules[0].uuid, 11);
    assert_eq!(modules[0].quality, 2);
    assert_eq!(modules[0].config_id, 5500101);
    assert_eq!(modules[0].parts.len(), 2);
    assert_eq!(modules[0].parts[0].id, 1110);
    assert_eq!(modules[0].parts[0].value, 3);
    assert_eq!(modules[0].parts[1].id, 1111);
    assert_eq!(modules[0].parts[1].value, 5);

    let no_table = CharData { has_mod_infos: false, mod_infos: vec![], items: vec![] };
    assert_eq!(parse_modules_from_vdata(&no_table).len(), 0);
}

#[test]
fn the_search_commands_demand_four_modules() {
    let three: Vec<ModuleInfo> = (0..3).map(|k| module(k, vec![(1110, 1)])).collect();
    assert!(!meets_module_minimum(&three));
    let four: Vec<ModuleInfo> = (0..4).map(|k| module(k, vec![(1110, 1)])).collect();
    assert!(meets_module_minimum(&four));
}
