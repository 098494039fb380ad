use encounter_engine::models::{AttrCollection, RawAttr, RawMapAttr, RawMapEntry, ATTR_ID};
use encounter_engine::scene::{extract_scene_id_from_attr_collection, find_scene_id_in_bytes, SceneTable};
use encounter_engine::varint::varint_decode_at;

fn table_with(ids: &[(i32, &str)]) -> SceneTable {
    let mut t = SceneTable::new();
    for (id, name) in ids {
        t.add(*id, String::from(*name));
    }
    t
}

#[test]
fn varint_decoding_reads_single_and_multi_byte_values() {
    let data: Vec<u8> = vec![0x2a];
    assert_eq!(varint_decode_at(&data, 0), Some(42));
    let data2: Vec<u8> = vec![0xac, 0x02];
    assert_eq!(varint_decode_at(&data2, 0), Some(300));
    // A truncated continuation byte decodes to nothing.
    let data3: Vec<u8> = vec![0x80];
    assert_eq!(varint_decode_at(&data3, 0), None);
}

#[test]
fn resolver_finds_known_id_as_varint() {
    let scenes = table_with(&[(300, "Harbor")]);
    // 300 encoded as a varint, buried at offset 2.
    let data: Vec<u8> = vec![0xff, 0xff, 0xac, 0x02];
    assert_eq!(find_scene_id_in_bytes(&data, &scenes), Some(300));
}

#[test]
fn resolver_finds_known_id_as_little_endian() {
    let scenes = table_with(&[(81203, "Summit")]);
    // 81203 = 0x00013D33 little-endian; no varint in this buffer decodes to
    // a known id first.
    let data: Vec<u8> = vec![0x33, 0x3d, 0x01, 0x00];
    assert_eq!(find_scene_id_in_bytes(&data, &scenes), Some(81203));
}

#[test]
fn resolver_finds_known_id_as_big_endian() {
    let scenes = table_with(&[(81203, "Summit")]);
    let data: Vec<u8> = vec![0x00, 0x01, 0x3d, 0x33];
    assert_eq!(find_scene_id_in_bytes(&data, &scenes), Some(81203));
}

#[test]
fn resolver_finds_known_id_as_ascii_digits() {
    let scenes = table_with(&[(12345, "Grove")]);
    let data: Vec<u8> = b"xx12345yy".to_vec();
    assert_eq!(find_scene_id_in_bytes(&data, &scenes), Some(12345));
}

#[test]
fn resolver_rejects_digit_runs_outside_two_to_six() {
    let scenes = table_with(&[(1, "One"), (1234567, "Seven")]);
    // A single digit and a seven-digit run both fall outside the accepted
    // run lengths, and no other strategy hits.
    let data: Vec<u8> = b"~1~".to_vec();
    assert_eq!(find_scene_id_in_bytes(&data, &scenes), None);
    let data7: Vec<u8> = b"~1234567~".to_vec();
    assert_eq!(find_scene_id_in_bytes(&data7, &scenes), None);
}

#[test]
fn resolver_returns_nothing_for_unknown_buffers() {
    let scenes = table_with(&[(300, "Harbor")]);
    let data: Vec<u8> = vec![0x01, 0x02, 0x03, 0x04, 0x05];
    assert_eq!(find_scene_id_in_bytes(&data, &scenes), None);
    let empty: Vec<u8> = Vec::new();
    assert_eq!(find_scene_id_in_bytes(&empty, &scenes), None);
}

#[test]
fn resolver_prefers_varints_over_digit_runs() {
    let scenes = table_with(&[(42, "Varint"), (77, "Digits")]);
    // 0x2a decodes to 42 as a varint; "77" is a valid digit run later on.
    let data: Vec<u8> = vec![0x2a, b'7', b'7'];
    assert_eq!(find_scene_id_in_bytes(&data, &scenes), Some(42));
}

#[test]
fn attr_collection_fast_path_prefers_identifier_attrs() {
    let scenes = table_with(&[(300, "Harbor")]);
    let attrs = AttrCollection {
        attrs: vec![RawAttr { id: Some(ATTR_ID), raw_data: Some(vec![0xac, 0x02]) }],
        map_attrs: vec![],
    };
    assert_eq!(extract_scene_id_from_attr_collection(&attrs, &scenes), Some(300));
}

#[test]
fn attr_collection_scans_map_values_and_keys() {
    let scenes = table_with(&[(12345, "Grove")]);
    let attrs = AttrCollection {
        attrs: vec![],
        map_attrs: vec![RawMapAttr {
            id: Some(7),
            attrs: vec![RawMapEntry { key: None, value: Some(b"=12345=".to_vec()) }],
        }],
    };
    assert_eq!(extract_scene_id_from_attr_collection(&attrs, &scenes), Some(12345));
}

#[test]
fn scene_table_lookup_and_membership() {
    let mut t = SceneTable::new();
    t.add(300, String::from("Harbor"));
    t.add(300, String::from("Harbor East"));
    assert!(t.contains(300));
    assert!(!t.contains(301));
    assert_eq!(t.lookup(300), Some(String::from("Harbor East")));
    assert_eq!(t.lookup(999), None);
}
