use mcml_game::game_mods::{json_meta_file, toml_meta_file};
use mcml_game::file_item::{FileHash, PathObj};
use mcml_game::game_mods::{
    fast_mod_entry, mod_entry, mod_file_kind, mod_hash, read_fabric_json, read_forge_json,
    read_forge_toml, read_mod_info, read_quilt_json, DependantType, LoadSideType, MetaFile,
    MetaValue, ModItemObj, ModObj,
};
use mcml_game::loader::LoaderType;

fn s(x: &str) -> MetaValue {
    MetaValue::Str(x.to_string())
}

fn table(entries: Vec<(&str, MetaValue)>) -> MetaValue {
    MetaValue::Table(entries.into_iter().map(|(k, v)| (k.to_string(), v)).collect())
}

fn deps(item: &ModItemObj) -> Vec<(bool, String)> {
    item.dependants
        .iter()
        .map(|d| match d {
            DependantType::Required(x) => (true, x.clone()),
            DependantType::Recommend(x) => (false, x.clone()),
        })
        .collect()
}

#[test]
fn mcmod_info_list() {
    let v = MetaValue::Array(vec![
        table(vec![
            ("modid", s("jei")),
            ("description", MetaValue::Other),
            ("authorList", MetaValue::Array(vec![s("a"), MetaValue::Other, s("b")])),
            ("dependencies", MetaValue::Array(vec![s("x")])),
            ("requiredMods", MetaValue::Array(vec![s("forge")])),
        ]),
        s("not a table"),
    ]);
    let mut out = Vec::new();
    read_forge_json(&v, &mut out);
    assert_eq!(out.len(), 2);
    assert_eq!(out[0].mod_id, "jei");
    assert_eq!(out[0].name, "jei");
    assert_eq!(out[0].description, Some(String::new()));
    assert_eq!(out[0].version, None);
    assert_eq!(out[0].author, vec!["a", "b"]);
    assert_eq!(deps(&out[0]), vec![(false, "x".to_string()), (true, "forge".to_string())]);
    assert_eq!(out[0].loaders, LoaderType::Forge);
    assert_eq!(out[1].mod_id, "");
    assert_eq!(out[1].loaders, LoaderType::Normal);

    let wrapped = table(vec![("modList", MetaValue::Array(vec![table(vec![("modid", s("a")), ("name", s("A"))])]))]);
    let mut out2 = Vec::new();
    read_forge_json(&wrapped, &mut out2);
    assert_eq!(out2.len(), 1);
    assert_eq!(out2[0].name, "A");
}

#[test]
fn mods_toml_tables() {
    let root = vec![
        (
            "mods".to_string(),
            MetaValue::Array(vec![table(vec![
                ("modId", s("examplemod")),
                ("displayName", s("Example")),
                ("authors", s("A, B")),
                ("displayURL", s("https://example.org")),
            ])]),
        ),
        (
            "dependencies".to_string(),
            table(vec![
                ("examplemod", table(vec![("modid", s("minecraft")), ("side", s("CLIENT"))])),
                ("EXAMPLEMOD", table(vec![("modid", s("jei")), ("mandatory", MetaValue::Bool(false))])),
                (
                    "examplemod",
                    table(vec![("modid", s("opt")), ("mandatory", s("TRUE")), ("type", s("optional"))]),
                ),
                ("other", table(vec![("modid", s("z"))])),
                ("examplemod", MetaValue::Array(vec![])),
            ]),
        ),
    ];
    let mut infos = Vec::new();
    read_forge_toml(&root, LoaderType::NeoForge, &mut infos);
    assert_eq!(infos.len(), 1);
    let m = &infos[0];
    assert_eq!(m.name, "Example");
    assert_eq!(m.author, vec!["A", " B"]);
    assert_eq!(m.url, Some("https://example.org".to_string()));
    assert_eq!(m.loaders, LoaderType::NeoForge);
    assert_eq!(m.side, LoadSideType::Client);
    assert_eq!(deps(m), vec![(true, "jei".to_string()), (false, "opt".to_string())]);
}

#[test]
fn fabric_and_quilt_objects() {
    let fabric = table(vec![
        ("id", s("modmenu")),
        ("name", s("Mod Menu")),
        ("environment", s("*")),
        ("authors", MetaValue::Array(vec![s("x"), table(vec![("name", s("y"))]), MetaValue::Other])),
        ("depends", table(vec![("fabricloader", s(">=0.14")), ("minecraft", s("1.20"))])),
        ("suggests", table(vec![("cloth", s("*"))])),
        ("contact", table(vec![("homepage", s("https://h"))])),
    ]);
    let f = read_fabric_json(&fabric);
    assert_eq!(f.mod_id, "modmenu");
    assert_eq!(f.side, LoadSideType::Both);
    assert_eq!(f.author, vec!["x", "y"]);
    assert_eq!(
        deps(&f),
        vec![(true, "fabricloader".to_string()), (true, "minecraft".to_string()), (false, "cloth".to_string())]
    );
    assert_eq!(f.url, Some("https://h".to_string()));
    assert_eq!(read_fabric_json(&table(vec![("environment", s("CLIENT"))])).side, LoadSideType::Client);
    assert_eq!(read_fabric_json(&s("x")).mod_id, "");

    let quilt = table(vec![(
        "quilt_loader",
        table(vec![
            ("id", s("q")),
            ("version", s("1.0")),
            (
                "metadata",
                table(vec![
                    ("name", s("Q")),
                    ("contributors", table(vec![("alice", s("Owner")), ("bob", s("Dev"))])),
                ]),
            ),
            ("depends", MetaValue::Array(vec![table(vec![("id", s("qsl"))]), s("plain")])),
        ]),
    )]);
    let q = read_quilt_json(&quilt);
    assert_eq!(q.mod_id, "q");
    assert_eq!(q.name, "Q");
    assert_eq!(q.version, Some("1.0".to_string()));
    assert_eq!(q.author, vec!["alice", "bob"]);
    assert_eq!(deps(&q), vec![(true, "qsl".to_string())]);
    assert_eq!(q.url, None);
}

#[test]
fn mod_archive_read() {
    let file = PathObj::from_str("/mods").join("a.jar");
    let mcmod = MetaFile::Read(MetaValue::Array(vec![table(vec![("modid", s("jei"))])]));
    let scan = Some(vec![("jei".to_string(), LoadSideType::Client), ("none".to_string(), LoadSideType::Server)]);
    let fabric = MetaFile::Read(table(vec![("id", s("f"))]));
    let m = read_mod_info(
        &file,
        &mcmod,
        &scan,
        &MetaFile::Broken,
        &MetaFile::Absent,
        &MetaFile::Absent,
        &fabric,
        &MetaFile::Absent,
    )
    .unwrap();
    assert_eq!(m.info.len(), 2);
    assert_eq!(m.info[0].side, LoadSideType::Client);
    assert_eq!(m.info[1].mod_id, "f");
    assert_eq!(m.file.display('/'), "/mods/a.jar");
    assert!(!m.fail);

    assert!(read_mod_info(
        &file,
        &MetaFile::Absent,
        &None,
        &MetaFile::Absent,
        &MetaFile::Absent,
        &MetaFile::Absent,
        &MetaFile::Broken,
        &MetaFile::Absent,
    )
    .is_none());
    assert!(read_mod_info(
        &file,
        &MetaFile::Absent,
        &None,
        &MetaFile::Absent,
        &MetaFile::Absent,
        &MetaFile::Absent,
        &MetaFile::Absent,
        &MetaFile::Broken,
    )
    .is_none());
}

#[test]
fn mod_files_by_extension() {
    assert_eq!(mod_file_kind(Some("JAR")), Some(false));
    assert_eq!(mod_file_kind(Some("disabled")), Some(true));
    assert_eq!(mod_file_kind(Some("Disable")), Some(true));
    assert_eq!(mod_file_kind(Some("zip")), None);
    assert_eq!(mod_file_kind(None), None);

    let file = PathObj::from_str("/mods/x.jar");
    let failed = mod_entry(None, true, &file);
    assert!(failed.fail);
    assert!(!failed.disable);
    let ok = mod_entry(Some(ModObj::default()), true, &file);
    assert!(ok.disable);
    assert!(!ok.fail);
    assert!(matches!(mod_hash("a".to_string(), Some("b".to_string())), FileHash::Sha1Sha256(x, y) if x == "a" && y == "b"));
    let fast = fast_mod_entry(&file, "s".to_string());
    assert!(matches!(fast.hash, FileHash::Sha1(ref h) if h == "s"));
}

#[test]
fn description_files_parsed() {
    match json_meta_file(Some(r#"{"b": [1, 2.5, "x"], "a": true}"#)) {
        MetaFile::Read(MetaValue::Table(t)) => {
            assert_eq!(t.len(), 2);
            assert_eq!(t[0].0, "a");
            assert!(matches!(t[0].1, MetaValue::Bool(true)));
            match &t[1].1 {
                MetaValue::Array(a) => {
                    assert!(matches!(a[0], MetaValue::Int(1)));
                    assert!(matches!(a[1], MetaValue::Other));
                    assert!(matches!(&a[2], MetaValue::Str(s) if s == "x"));
                }
                _ => panic!("not an array"),
            }
        }
        _ => panic!("not read"),
    }
    assert!(matches!(json_meta_file(Some("{oops")), MetaFile::Broken));
    assert!(matches!(json_meta_file(None), MetaFile::Absent));
    match toml_meta_file(Some("modLoader = \"javafml\"\n[[mods]]\nmodId = \"m\"\n")) {
        MetaFile::Read(MetaValue::Table(t)) => {
            assert_eq!(t[0].0, "modLoader");
            assert!(matches!(&t[0].1, MetaValue::Str(s) if s == "javafml"));
            assert_eq!(t[1].0, "mods");
            assert!(matches!(&t[1].1, MetaValue::Array(a) if a.len() == 1));
        }
        _ => panic!("not read"),
    }
    assert!(matches!(toml_meta_file(Some("= broken")), MetaFile::Broken));
}
