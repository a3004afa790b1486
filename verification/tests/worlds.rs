use mcml_game::file_item::PathObj;
use mcml_game::game_mods::MetaValue;
use mcml_game::game_saves::{
    backup_name, read_pack, record_backup, save_from_level, LevelData, SaveBackupObj,
};
use mcml_game::game_schematics::{
    add_block_counts, base_name, bits_per_entry, count_indices, count_packed_blocks, free_name,
    schem_palette, SchematicObj, SchematicType,
};
use mcml_game::game_screenshots::screenshot_of;
use mcml_game::game_server::{add_server, remove_server, server_fields, server_from, ServerFields};
use mcml_game::launcher_path::keyed_cache::KeyedCache;

#[test]
fn schematic_kinds_and_bits() {
    assert_eq!(SchematicType::from_ext("LITEMATIC"), SchematicType::Litematic);
    assert_eq!(SchematicType::from_ext("schem"), SchematicType::WorldEdit);
    assert_eq!(SchematicType::from_ext("nbt"), SchematicType::Create);
    assert_eq!(SchematicType::from_ext("schematic"), SchematicType::Minecraft);
    assert_eq!(SchematicType::from_ext("txt"), SchematicType::Minecraft);
    assert_eq!(bits_per_entry(0), 1);
    assert_eq!(bits_per_entry(1), 1);
    assert_eq!(bits_per_entry(2), 1);
    assert_eq!(bits_per_entry(3), 2);
    assert_eq!(bits_per_entry(4), 2);
    assert_eq!(bits_per_entry(5), 3);
    assert_eq!(bits_per_entry(17), 5);
    assert_eq!(base_name("minecraft:stone[axis=y]"), "minecraft:stone");
    assert_eq!(base_name("minecraft:air"), "minecraft:air");
}

#[test]
fn packed_blocks_counted() {
    // Three palette entries take 2 bits each, 32 to a long.
    let states = vec![0b10_01_00_01_i64];
    let counts = count_packed_blocks(3, &states, 4);
    assert_eq!(counts, vec![1, 2, 1]);
    // Reading stops after `total` entries.
    assert_eq!(count_packed_blocks(3, &states, 2), vec![1, 1, 0]);
    // Entries past the longs are not read.
    let all = count_packed_blocks(3, &states, 100);
    assert_eq!(all.iter().sum::<u64>(), 32);
    assert!(count_packed_blocks(0, &states, 4).is_empty());
    assert!(count_packed_blocks(3, &vec![], 4).is_empty());
}

#[test]
fn block_counts_added() {
    let mut blocks: KeyedCache<String, u64> = KeyedCache::new();
    let names = vec![Some("minecraft:stone".to_string()), None, Some("minecraft:dirt".to_string())];
    let total = add_block_counts(&mut blocks, &names, &vec![3, 5, 0]);
    assert_eq!(total, 3);
    assert_eq!(blocks.get(&"minecraft:stone".to_string()), Some(&3));
    assert_eq!(blocks.get(&"minecraft:dirt".to_string()), None);
    let again = add_block_counts(&mut blocks, &vec![Some("minecraft:stone".to_string())], &vec![2]);
    assert_eq!(again, 2);
    assert_eq!(blocks.get(&"minecraft:stone".to_string()), Some(&5));

    let mut obj = SchematicObj::default();
    obj.blocks = blocks;
    obj.set_block_totals(5);
    assert_eq!(obj.block_count, 5);
    assert_eq!(obj.block_types, 1);

    assert_eq!(count_indices(&vec![0, 1, 1, 2], 3), vec![1, 2, 1]);
    let (size, pal) = schem_palette(&vec![
        ("minecraft:stone[x=1]".to_string(), Some(0)),
        ("minecraft:air".to_string(), Some(1)),
        ("minecraft:dirt".to_string(), Some(1)),
        ("[empty]".to_string(), Some(2)),
    ]);
    assert_eq!(size, 3);
    assert_eq!(pal, vec![Some("minecraft:stone".to_string()), Some("minecraft:dirt".to_string()), None]);
}

#[test]
fn import_names_kept_free() {
    let names = vec!["a.nbt".to_string(), "a(1).nbt".to_string()];
    assert_eq!(free_name(&names, "b.nbt", "b", ".nbt"), "b.nbt");
    assert_eq!(free_name(&names, "a.nbt", "a", ".nbt"), "a(2).nbt");
    assert_eq!(free_name(&vec!["x".to_string()], "x", "x", ""), "x(1)");
}

#[test]
fn level_data_read() {
    let data = LevelData {
        last_played: Some(10),
        random_seed: Some(1),
        game_type: None,
        hardcore: Some(1),
        difficulty: None,
        level_name: Some("World".to_string()),
        world_gen_seed: Some(42),
        gen_settings: Some("minecraft:overworld".to_string()),
        generator_name: Some("flat".to_string()),
    };
    let s = save_from_level(&Some(data));
    assert_eq!(s.random_seed, 42);
    assert_eq!(s.generator_name, "minecraft:flat");
    assert_eq!(s.level_name, "World");
    assert_eq!(s.hard_core, 1);
    assert!(!s.broken);
    assert!(save_from_level(&None).broken);
}

#[test]
fn datapacks_read() {
    let meta = MetaValue::Table(vec![(
        "pack".to_string(),
        MetaValue::Table(vec![
            ("pack_format".to_string(), MetaValue::Int(15)),
            ("description".to_string(), MetaValue::Str("d".to_string())),
        ]),
    )]);
    let path = PathObj::from_str("/w/datapacks/x.zip");
    let enabled = Some(vec![Some("FILE/x.zip".to_string())]);
    let p = read_pack(&path, "x.zip", &enabled, &None, &meta).unwrap();
    assert_eq!(p.name, "file/x.zip");
    assert_eq!(p.pack_format, 15);
    assert_eq!(p.description, "d");
    assert_eq!(p.enable, Some(true));
    let both = read_pack(&path, "x.zip", &enabled, &Some(vec![None, Some("file/x.zip".to_string())]), &meta)
        .unwrap();
    assert_eq!(both.enable, Some(false));
    let bare = MetaValue::Table(vec![("pack".to_string(), MetaValue::Other)]);
    let q = read_pack(&path, "y", &None, &None, &bare).unwrap();
    assert_eq!(q.pack_format, -1);
    assert_eq!(q.enable, None);
    assert!(read_pack(&path, "y", &None, &None, &MetaValue::Other).is_none());
}

#[test]
fn backups_recorded() {
    assert_eq!(backup_name("World", 2024, 5, 6, 7, 8, 9), "World_2024_5_6_7_8_9.zip");
    assert_eq!(backup_name("W", -1, 1, 1, 0, 0, 0), "W_-1_1_1_0_0_0.zip");
    let mut info: KeyedCache<String, SaveBackupObj> = KeyedCache::new();
    record_backup(&mut info, "World", "a.zip", "World");
    record_backup(&mut info, "World", "b.zip", "ignored");
    let b = info.get(&"World".to_string()).unwrap();
    assert_eq!(b.dir, "World");
    assert_eq!(b.back, vec!["a.zip", "b.zip"]);
}

#[test]
fn servers_listed() {
    let f = ServerFields { name: Some("Hub".to_string()), ip: None, icon: None, accept_textures: Some(1) };
    let s = server_from(&f);
    assert_eq!(s.name, "Hub");
    assert_eq!(s.ip, "");
    assert!(s.accept_textures);
    let back = server_fields(&s);
    assert_eq!(back.accept_textures, Some(1));
    assert_eq!(back.ip, Some(String::new()));

    let mut list = Vec::new();
    add_server(&mut list, "A", "a.example");
    add_server(&mut list, "B", "b.example");
    add_server(&mut list, "A", "a.example");
    // Removing deletes every server with that name and address; the others stay.
    let kept = remove_server(list, "A", "a.example");
    assert_eq!(kept.len(), 1);
    assert_eq!(kept[0].name, "B");
}

#[test]
fn screenshots_by_extension() {
    let file = PathObj::from_str("/s/a.PNG");
    let shot = screenshot_of(Some("PNG"), Some("a.PNG"), &file).unwrap();
    assert_eq!(shot.name, "a.PNG");
    assert!(screenshot_of(Some("jpg"), Some("a.jpg"), &file).is_none());
    assert!(screenshot_of(None, Some("a"), &file).is_none());
}
