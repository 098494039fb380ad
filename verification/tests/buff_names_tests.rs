use encounter_engine::buff_names::{
    build_buff_entries, build_talent_associations, get_buffs_with_sprites, get_related_base_ids,
    is_valid, lookup_name, lookup_sprite, reload_cache, search_buffs_by_name, BuffCatalog,
    BuffRow, TalentRow,
};

fn row(id: i32, name: &str, sprite: Option<&str>) -> BuffRow {
    BuffRow {
        id,
        icon: Some(String::from("icon")),
        name: Some(String::from(name)),
        sprite_file: sprite.map(String::from),
    }
}

fn catalog_from(rows: Vec<BuffRow>, talents: Vec<TalentRow>) -> BuffCatalog {
    let mut catalog = BuffCatalog::new();
    reload_cache(&mut catalog, &rows, &talents);
    catalog
}

#[test]
fn lookups_read_the_built_table() {
    let catalog = catalog_from(
        vec![row(100, "Fire Shield", Some("fire.png")), row(200, "Stone Skin", None)],
        vec![],
    );
    assert_eq!(lookup_name(&catalog, 100), Some(String::from("Fire Shield")));
    assert_eq!(lookup_name(&catalog, 999), None);
    assert!(is_valid(&catalog, 200));
    assert!(!is_valid(&catalog, 999));
    assert_eq!(lookup_sprite(&catalog, 100), Some(String::from("fire.png")));
    assert_eq!(lookup_sprite(&catalog, 200), None);
}

#[test]
fn building_skips_nameless_rows_and_empty_sprites() {
    let rows = vec![
        BuffRow {
            id: 1,
            icon: None,
            name: Some(String::from("Kept")),
            sprite_file: Some(String::new()),
        },
        BuffRow { id: 2, icon: None, name: None, sprite_file: None },
        BuffRow { id: 3, icon: None, name: Some(String::new()), sprite_file: None },
    ];
    let entries = build_buff_entries(&rows);
    assert_eq!(entries.len(), 1);
    assert_eq!(entries[0].0, 1);
    // An empty sprite file reads as none at all.
    assert_eq!(entries[0].1.sprite_file, None);
    // An absent icon reads as empty.
    assert_eq!(entries[0].1.icon, "");
}

#[test]
fn repeated_ids_overwrite_their_entry() {
    let rows = vec![row(5, "First", None), row(5, "Second", None)];
    let entries = build_buff_entries(&rows);
    assert_eq!(entries.len(), 1);
    assert_eq!(entries[0].1.name, "Second");
}

#[test]
fn talent_associations_mark_entries_and_build_the_reverse_index() {
    let mut entries = build_buff_entries(&vec![
        row(100, "Ember", Some("ember.png")),
        row(103, "Cinder", Some("cinder.png")),
        row(110, "Far Away", Some("far.png")),
        row(101, "No Sprite", None),
    ]);
    let talents = vec![TalentRow {
        id: 1,
        buff_ids: vec![100],
        des: String::from("Pyromancy"),
        talent_icon: String::from("t"),
        sprite_file: String::from("talent.png"),
    }];
    let map = build_talent_associations(&mut entries, &talents);
    // Only ids within five of 100 that carry a sprite are related.
    assert_eq!(map.len(), 1);
    assert_eq!(map[0].0, 100);
    assert_eq!(map[0].1, vec![100, 103]);
    // The related entries received the talent marks; the others did not.
    let ember = entries.iter().find(|p| p.0 == 100).unwrap();
    assert_eq!(ember.1.talent_name, Some(String::from("Pyromancy")));
    assert_eq!(ember.1.talent_sprite_file, Some(String::from("talent.png")));
    let far = entries.iter().find(|p| p.0 == 110).unwrap();
    assert_eq!(far.1.talent_name, None);
}

#[test]
fn first_talent_mark_wins() {
    let mut entries = build_buff_entries(&vec![row(100, "Ember", Some("ember.png"))]);
    let talents = vec![
        TalentRow {
            id: 1,
            buff_ids: vec![100],
            des: String::from("First"),
            talent_icon: String::new(),
            sprite_file: String::new(),
        },
        TalentRow {
            id: 2,
            buff_ids: vec![100],
            des: String::from("Second"),
            talent_icon: String::new(),
            sprite_file: String::new(),
        },
    ];
    build_talent_associations(&mut entries, &talents);
    assert_eq!(entries[0].1.talent_name, Some(String::from("First")));
    // An empty talent sprite file leaves the mark's sprite unset.
    assert_eq!(entries[0].1.talent_sprite_file, None);
}

#[test]
fn related_ids_flow_into_the_catalog_queries() {
    let catalog = catalog_from(
        vec![row(100, "Ember", Some("ember.png"))],
        vec![TalentRow {
            id: 7,
            buff_ids: vec![100],
            des: String::from("Pyromancy"),
            talent_icon: String::new(),
            sprite_file: String::new(),
        }],
    );
    assert_eq!(get_related_base_ids(&catalog, 100), vec![100]);
    assert_eq!(get_related_base_ids(&catalog, 12345), Vec::<i32>::new());
}

#[test]
fn sprite_listing_is_sorted_by_base_id() {
    let catalog = catalog_from(
        vec![
            row(300, "Citrine", Some("c.png")),
            row(100, "Amber", Some("a.png")),
            row(200, "Basalt", None),
            row(150, "Beryl", Some("b.png")),
        ],
        vec![],
    );
    let listed = get_buffs_with_sprites(&catalog);
    let ids: Vec<i32> = listed.iter().map(|e| e.base_id).collect();
    assert_eq!(ids, vec![100, 150, 300]);
    assert_eq!(listed[0].name, "Amber");
}

#[test]
fn search_is_case_insensitive_and_sorted() {
    let catalog = catalog_from(
        vec![
            row(300, "FireStorm", None),
            row(100, "Fireball", None),
            row(200, "Ice Lance", None),
        ],
        vec![],
    );
    let found = search_buffs_by_name(&catalog, "FIRE", 10);
    let ids: Vec<i32> = found.iter().map(|p| p.0).collect();
    assert_eq!(ids, vec![100, 300]);
}

#[test]
fn search_trims_the_keyword_and_honors_the_limit() {
    let catalog = catalog_from(
        vec![
            row(300, "fire storm", None),
            row(100, "fireball", None),
            row(250, "fire shield", None),
        ],
        vec![],
    );
    let found = search_buffs_by_name(&catalog, "  fire  ", 2);
    let ids: Vec<i32> = found.iter().map(|p| p.0).collect();
    // The two smallest matching ids survive the cut.
    assert_eq!(ids, vec![100, 250]);

    let nothing = search_buffs_by_name(&catalog, "   ", 10);
    assert_eq!(nothing.len(), 0);
}

#[test]
fn search_also_matches_talent_names() {
    let catalog = catalog_from(
        vec![row(100, "Ember", Some("ember.png"))],
        vec![TalentRow {
            id: 1,
            buff_ids: vec![100],
            des: String::from("Pyromancy"),
            talent_icon: String::new(),
            sprite_file: String::new(),
        }],
    );
    let found = search_buffs_by_name(&catalog, "pyro", 10);
    assert_eq!(found.len(), 1);
    assert_eq!(found[0].0, 100);
}
