use mcml_game::file_item::{FileHash, PathObj};
use mcml_game::game_resourcepacks::{
    is_zip_ext, pack_entry, pack_from_meta, pack_number, PackInfo, PackNumber,
};

#[test]
fn pack_numbers() {
    assert_eq!(pack_number(&PackNumber::Signed(15), true), 15);
    assert_eq!(pack_number(&PackNumber::Unsigned(u64::MAX), true), -1);
    let list = PackNumber::List(vec![Some(18), None, Some(12), Some(34)]);
    assert_eq!(pack_number(&list, true), 12);
    assert_eq!(pack_number(&list, false), 34);
    assert_eq!(pack_number(&PackNumber::List(vec![]), true), 0);
    assert_eq!(pack_number(&PackNumber::List(vec![None]), false), 0);
}

#[test]
fn packs_from_meta() {
    let meta = PackInfo {
        pack_format: Some(PackNumber::List(vec![Some(22), Some(9)])),
        min_format: None,
        max_format: Some(PackNumber::List(vec![Some(22), Some(30)])),
        description: Some("Faithful".to_string()),
    };
    let p = pack_from_meta(&Some(meta));
    assert_eq!(p.pack_format, 9);
    assert_eq!(p.min_format, 0);
    assert_eq!(p.max_format, 30);
    assert_eq!(p.description, "Faithful");
    assert!(!p.fail);
    assert!(pack_from_meta(&None).fail);

    assert!(is_zip_ext(Some("ZIP")));
    assert!(!is_zip_ext(Some("jar")));
    assert!(!is_zip_ext(None));

    let path = PathObj::from_str("/packs").join("x.zip");
    let e = pack_entry(Some(p), FileHash::Sha1("s".to_string()), &path);
    assert_eq!(e.pack_format, 9);
    assert_eq!(e.path.display('/'), "/packs/x.zip");
    let failed = pack_entry(None, FileHash::NoHash, &path);
    assert!(failed.fail);
}
