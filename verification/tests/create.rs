use mcml_game::file_item::PathObj;
use mcml_game::launcher::game_setting_obj::InstanceSettingObj;
use mcml_game::launcher::LogEncoding;
use mcml_game::system_info::Os;
use mcml_game::{
    add_to_group, creation_encoding, disabled_marker, free_instance_name, online_record_kept,
    plan_create, CreatePlan, IInstanceGui, InstanceRegistry,
};

fn named(uuid: u128, name: &str) -> InstanceSettingObj {
    let mut i = InstanceSettingObj::default();
    i.uuid = uuid;
    i.name = name.to_string();
    i
}

struct Answers {
    overwrite: bool,
    rename: bool,
}

impl IInstanceGui for Answers {
    fn name_replace(&self, _name: &str) -> bool {
        self.rename
    }
    fn overwrite(&self, _obj: &InstanceSettingObj) -> bool {
        self.overwrite
    }
}

#[test]
fn free_names_numbered() {
    let mut reg = InstanceRegistry::new();
    add_to_group(&mut reg, named(1, "Pack"));
    add_to_group(&mut reg, named(2, "pack1"));
    assert_eq!(free_instance_name(&reg, "Pack"), "Pack2");
    assert_eq!(free_instance_name(&reg, "Other"), "Other1");
}

#[test]
fn creation_planned() {
    let mut reg = InstanceRegistry::new();
    add_to_group(&mut reg, named(7, "Pack"));
    let none: Option<&Answers> = None;
    match plan_create(&reg, "New", none) {
        CreatePlan::Create { name, remove } => {
            assert_eq!(name, "New");
            assert_eq!(remove, None);
        }
        other => panic!("unexpected {:?}", other),
    }
    assert!(matches!(plan_create(&reg, "", none), CreatePlan::EmptyName));
    match plan_create(&reg, "PACK", none) {
        CreatePlan::Create { name, remove } => {
            assert_eq!(name, "PACK1");
            assert_eq!(remove, Some(7));
        }
        other => panic!("unexpected {:?}", other),
    }
    let decline = Answers { overwrite: false, rename: false };
    assert!(matches!(plan_create(&reg, "Pack", Some(&decline)), CreatePlan::Cancel));
    let overwrite = Answers { overwrite: true, rename: false };
    assert!(matches!(plan_create(&reg, "Pack", Some(&overwrite)), CreatePlan::Create { .. }));
}

#[test]
fn creation_details() {
    assert_eq!(creation_encoding(Os::Windows, LogEncoding::UTF8), LogEncoding::GBK);
    assert_eq!(creation_encoding(Os::Linux, LogEncoding::UTF8), LogEncoding::UTF8);
    assert!(online_record_kept(false, true, false));
    assert!(!online_record_kept(true, false, false));
    assert!(!online_record_kept(false, true, true));
    assert!(online_record_kept(false, false, true));
    let m = disabled_marker(&PathObj::from_str("/g").join("a.jar"));
    assert_eq!(m.display('/'), "/g/a.jar/.disable");
}
