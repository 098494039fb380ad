use encounter_engine::buffs::{
    apply_buff_records, process_buff_effects, ActiveBuff, BuffAddInfo, BuffChangeInfo,
    BuffEffectRecord, BuffLogicEffect,
};

fn add_record(uuid: i32, base_id: i32, layer: i32, duration: i32, create_time: i64) -> BuffEffectRecord {
    BuffEffectRecord {
        buff_uuid: Some(uuid),
        effects: vec![BuffLogicEffect::Add(BuffAddInfo {
            base_id: Some(base_id),
            layer: Some(layer),
            duration: Some(duration),
            create_time: Some(create_time),
            source_config_id: None,
        })],
        is_remove: false,
    }
}

fn remove_record(uuid: i32) -> BuffEffectRecord {
    BuffEffectRecord { buff_uuid: Some(uuid), effects: vec![], is_remove: true }
}

#[test]
fn add_then_remove_yields_empty_set_and_an_empty_payload() {
    let mut active: Vec<ActiveBuff> = Vec::new();
    let records = vec![add_record(1, 100, 1, 5000, 10), remove_record(1)];
    let monitored: Vec<i32> = vec![100];
    let talent: Vec<(i32, Vec<i32>)> = Vec::new();
    let payload = process_buff_effects(&mut active, &records, &monitored, false, &talent, 99);
    assert_eq!(active.len(), 0);
    // The payload is an empty list, not a missing emission.
    assert_eq!(payload, Some(Vec::new()));
}

#[test]
fn nothing_monitored_means_no_work_and_no_emission() {
    let mut active: Vec<ActiveBuff> = Vec::new();
    let records = vec![add_record(1, 100, 1, 5000, 10)];
    let monitored: Vec<i32> = Vec::new();
    let talent: Vec<(i32, Vec<i32>)> = Vec::new();
    let payload = process_buff_effects(&mut active, &records, &monitored, false, &talent, 99);
    assert_eq!(payload, None);
    assert_eq!(active.len(), 0);
}

#[test]
fn monitor_all_emits_every_active_buff() {
    let mut active: Vec<ActiveBuff> = Vec::new();
    let records = vec![add_record(1, 100, 1, 5000, 10), add_record(2, 200, 1, 5000, 11)];
    let monitored: Vec<i32> = Vec::new();
    let talent: Vec<(i32, Vec<i32>)> = Vec::new();
    let payload = process_buff_effects(&mut active, &records, &monitored, true, &talent, 99)
        .unwrap();
    assert_eq!(payload.len(), 2);
}

#[test]
fn emitted_list_is_sorted_by_base_id_creation_time_and_uuid() {
    let mut active: Vec<ActiveBuff> = Vec::new();
    let records = vec![
        add_record(7, 200, 1, 5000, 50),
        add_record(5, 100, 1, 5000, 40),
        add_record(3, 100, 1, 5000, 20),
    ];
    let monitored: Vec<i32> = vec![100, 200];
    let talent: Vec<(i32, Vec<i32>)> = Vec::new();
    let payload = process_buff_effects(&mut active, &records, &monitored, false, &talent, 99)
        .unwrap();
    let keys: Vec<(i32, i64, i32)> = payload
        .iter()
        .map(|b| (b.base_id, b.create_time_ms, b.buff_uuid))
        .collect();
    assert_eq!(keys, vec![(100, 20, 3), (100, 40, 5), (200, 50, 7)]);
}

#[test]
fn change_patches_only_present_fields_of_known_instances() {
    let mut active: Vec<ActiveBuff> = Vec::new();
    let records = vec![add_record(1, 100, 1, 5000, 10)];
    apply_buff_records(&mut active, &records, 99);

    let change = BuffEffectRecord {
        buff_uuid: Some(1),
        effects: vec![BuffLogicEffect::Change(BuffChangeInfo {
            layer: Some(3),
            duration: None,
            create_time: None,
        })],
        is_remove: false,
    };
    apply_buff_records(&mut active, &vec![change], 100);
    assert_eq!(active.len(), 1);
    assert_eq!(active[0].layer, 3);
    assert_eq!(active[0].duration, 5000);
    assert_eq!(active[0].create_time, 10);

    // A change for an unknown instance is a no-op.
    let unknown = BuffEffectRecord {
        buff_uuid: Some(77),
        effects: vec![BuffLogicEffect::Change(BuffChangeInfo {
            layer: Some(9),
            duration: None,
            create_time: None,
        })],
        is_remove: false,
    };
    apply_buff_records(&mut active, &vec![unknown], 101);
    assert_eq!(active.len(), 1);
    assert_eq!(active[0].layer, 3);
}

#[test]
fn add_defaults_layer_one_and_receipt_time() {
    let mut active: Vec<ActiveBuff> = Vec::new();
    let record = BuffEffectRecord {
        buff_uuid: Some(4),
        effects: vec![BuffLogicEffect::Add(BuffAddInfo {
            base_id: Some(321),
            layer: None,
            duration: None,
            create_time: None,
            source_config_id: None,
        })],
        is_remove: false,
    };
    apply_buff_records(&mut active, &vec![record], 777);
    assert_eq!(active.len(), 1);
    assert_eq!(active[0].layer, 1);
    assert_eq!(active[0].duration, 0);
    assert_eq!(active[0].create_time, 777);
    assert_eq!(active[0].source_config_id, 0);
}

#[test]
fn talent_index_extends_the_monitored_projection() {
    let mut active: Vec<ActiveBuff> = Vec::new();
    let record = BuffEffectRecord {
        buff_uuid: Some(9),
        effects: vec![BuffLogicEffect::Add(BuffAddInfo {
            base_id: Some(555),
            layer: Some(1),
            duration: Some(1000),
            create_time: Some(5),
            source_config_id: Some(42),
        })],
        is_remove: false,
    };
    // Base 555 is not monitored directly, but source 42 maps to base 100,
    // which is.
    let monitored: Vec<i32> = vec![100];
    let talent: Vec<(i32, Vec<i32>)> = vec![(42, vec![100])];
    let payload = process_buff_effects(&mut active, &vec![record], &monitored, false, &talent, 5)
        .unwrap();
    assert_eq!(payload.len(), 1);
    assert_eq!(payload[0].base_id, 555);
    assert_eq!(payload[0].source_config_id, 42);
}
