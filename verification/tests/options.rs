use mcml_game::file_item::PathObj;
use mcml_game::game_options::{options_text, read_options};
use mcml_game::game_shaderpacks::{is_lang_entry, name_or_file_name, read_data, ShaderpackObj};
use mcml_game::text::{base64, uuid_text};

#[test]
fn options_read_into_one_buffer() {
    // Lines are read into a buffer that keeps growing, so every key after the first
    // line is the first line's key, holding the rest of the text.
    let options = read_options("a:1\nb:2\n", None);
    assert_eq!(options.len(), 1);
    assert_eq!(options.get(&"a".to_string()), Some(&"1\nb:2\n".to_string()));

    let single = read_options("key=value", Some('='));
    assert_eq!(single.get(&"key".to_string()), Some(&"value".to_string()));

    let first_plain = read_options("title\nx:y", None);
    assert_eq!(first_plain.get(&"title\n".to_string()), Some(&String::new()));
    assert_eq!(first_plain.get(&"title\nx".to_string()), Some(&"y".to_string()));
    assert_eq!(read_options("", None).len(), 0);
}

#[test]
fn options_written_in_order() {
    let list = vec![("a".to_string(), "1".to_string()), ("b".to_string(), "2".to_string())];
    assert_eq!(options_text(&list, None, "\n"), "a:1\nb:2\n");
    assert_eq!(options_text(&list, Some('='), "\r\n"), "a=1\r\nb=2\r\n");
}

#[test]
fn shaderpack_names() {
    let mut obj = ShaderpackObj::default();
    obj.file = PathObj::from_str("BSL.zip");
    read_data("option.ABOUT=BSL Shaders", &mut obj);
    assert_eq!(obj.name, "BSL Shaders");
    let mut other = ShaderpackObj::default();
    read_data("nothing here", &mut other);
    assert_eq!(other.name, "");
    name_or_file_name(&mut other, "Complementary.zip");
    assert_eq!(other.name, "Complementary.zip");
    name_or_file_name(&mut obj, "BSL.zip");
    assert_eq!(obj.name, "BSL Shaders");
    assert!(is_lang_entry("shaders/lang/zh_CN.lang", "zh_CN"));
    assert!(is_lang_entry("shaders/lang/en_US.lang", "zh_CN"));
    assert!(!is_lang_entry("shaders/lang/de_DE.lang", "zh_CN"));
}

#[test]
fn base64_and_uuid_text() {
    assert_eq!(base64(b""), "");
    assert_eq!(base64(b"f"), "Zg==");
    assert_eq!(base64(b"fo"), "Zm8=");
    assert_eq!(base64(b"foo"), "Zm9v");
    assert_eq!(base64(b"foobar"), "Zm9vYmFy");
    assert_eq!(base64(&[0xff, 0xfe]), "//4=");
    assert_eq!(uuid_text(0), "00000000-0000-0000-0000-000000000000");
    assert_eq!(
        uuid_text(0x550e8400e29b41d4a716446655440000),
        "550e8400-e29b-41d4-a716-446655440000"
    );
}
