use encounter_engine::cooldown::{
    build_filtered_skill_cds, calculate_skill_cd, coarse_skill_id, recalculate_cached_skill_cds,
    upsert_skill_cd, SkillCdState,
};

fn cd(skill_level_id: i32, duration: i32, received_at: i64) -> SkillCdState {
    SkillCdState {
        skill_level_id,
        begin_time: 0,
        duration,
        skill_cd_type: 0,
        valid_cd_time: 0,
        received_at,
        calculated_duration: duration,
        cd_accelerate_rate: 0,
    }
}

#[test]
fn non_positive_base_duration_passes_through_unchanged() {
    let temps: Vec<(i32, i32)> = vec![(9001, 2500)];
    // A charge-style entry (-1) and a zero entry stay as they are with a
    // zero rate, whatever the modifiers hold.
    assert_eq!(calculate_skill_cd(-1, 12345, &temps, 500, 3000, 7000), (-1, 0));
    assert_eq!(calculate_skill_cd(0, 12345, &temps, 500, 3000, 7000), (0, 0));
}

#[test]
fn positive_base_duration_applies_the_reduction_rule() {
    let temps: Vec<(i32, i32)> = Vec::new();
    // 10% percentage reduction, then 500 ms fixed reduction, no acceleration.
    assert_eq!(calculate_skill_cd(10000, 1, &temps, 500, 1000, 0), (8500, 0));
    // Acceleration of 10000 per-10k halves the remainder.
    assert_eq!(calculate_skill_cd(10000, 1, &temps, 500, 1000, 10000), (4250, 10000));
    // Temp attributes add to the acceleration rate.
    let temps2: Vec<(i32, i32)> = vec![(1, 4000), (2, 6000)];
    assert_eq!(calculate_skill_cd(10000, 1, &temps2, 500, 1000, 0), (4250, 10000));
}

#[test]
fn effective_duration_never_goes_negative() {
    let temps: Vec<(i32, i32)> = Vec::new();
    let (effective, rate) = calculate_skill_cd(100, 1, &temps, 100000, 0, 0);
    assert_eq!(effective, 0);
    assert_eq!(rate, 0);
}

#[test]
fn coarse_id_is_the_level_id_over_one_hundred() {
    assert_eq!(coarse_skill_id(12345), 123);
    assert_eq!(coarse_skill_id(12301), 123);
    assert_eq!(coarse_skill_id(99), 0);
    assert_eq!(coarse_skill_id(-250), -2);
}

#[test]
fn filtering_keeps_the_freshest_entry_per_monitored_coarse_id() {
    let mut cds: Vec<SkillCdState> = Vec::new();
    upsert_skill_cd(&mut cds, cd(12345, 7000, 100));
    upsert_skill_cd(&mut cds, cd(12301, 7000, 200));
    let monitored: Vec<i32> = vec![123];
    let filtered = build_filtered_skill_cds(&cds, &monitored);
    assert_eq!(filtered.len(), 1);
    assert_eq!(filtered[0].skill_level_id, 12301);
    assert_eq!(filtered[0].received_at, 200);
}

#[test]
fn filtering_omits_unmonitored_and_unmatched_ids() {
    let mut cds: Vec<SkillCdState> = Vec::new();
    upsert_skill_cd(&mut cds, cd(12345, 7000, 100));
    let empty: Vec<i32> = Vec::new();
    assert_eq!(build_filtered_skill_cds(&cds, &empty).len(), 0);
    let other: Vec<i32> = vec![999];
    assert_eq!(build_filtered_skill_cds(&cds, &other).len(), 0);
}

#[test]
fn upsert_overwrites_by_skill_level_id() {
    let mut cds: Vec<SkillCdState> = Vec::new();
    upsert_skill_cd(&mut cds, cd(12345, 7000, 100));
    upsert_skill_cd(&mut cds, cd(12345, 9000, 150));
    assert_eq!(cds.len(), 1);
    assert_eq!(cds[0].duration, 9000);
}

#[test]
fn recalculation_rewrites_derived_fields_only() {
    let mut cds: Vec<SkillCdState> = vec![cd(12345, 10000, 100), cd(500, -1, 101)];
    let temps: Vec<(i32, i32)> = Vec::new();
    recalculate_cached_skill_cds(&mut cds, &temps, 500, 1000, 0);
    assert_eq!(cds[0].calculated_duration, 8500);
    assert_eq!(cds[0].duration, 10000);
    assert_eq!(cds[0].received_at, 100);
    // A charge-style entry keeps its raw duration and a zero rate.
    assert_eq!(cds[1].calculated_duration, -1);
    assert_eq!(cds[1].cd_accelerate_rate, 0);
}
