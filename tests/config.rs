use baroboard::config::{
    config_file_path, config_version, distinct, exe_icon_cache_file, exe_icon_file_for_digest,
    get_member, is_too_old, salvage_config, salvage_link, string_at, strings_at, JsonValue,
    LinkConfigSchema, CONFIG_FILE_VERSION,
};

fn s(x: &str) -> String {
    x.to_string()
}

fn obj(members: Vec<(&str, JsonValue)>) -> JsonValue {
    JsonValue::Object(members.into_iter().map(|(k, v)| (s(k), v)).collect())
}

fn text(x: &str) -> JsonValue {
    JsonValue::Str(s(x))
}

#[test]
fn default_schema_is_current_and_empty() {
    let d = LinkConfigSchema::default();
    assert_eq!(d.version, 6);
    assert_eq!(CONFIG_FILE_VERSION, 6);
    assert!(d.tags.is_empty() && d.program_links.is_empty());
}

#[test]
fn version_check() {
    assert_eq!(config_version(&obj(vec![("version", JsonValue::Number(Some(6)))])), 6);
    assert_eq!(config_version(&obj(vec![("version", text("6"))])), 0);
    assert_eq!(config_version(&obj(vec![])), 0);
    assert_eq!(config_version(&JsonValue::Array(vec![])), 0);
    assert_eq!(config_version(&obj(vec![("version", JsonValue::Number(Some((1u64 << 32) + 7)))])), 7);
    assert!(is_too_old(5));
    assert!(!is_too_old(6));
    assert!(!is_too_old(7));
}

#[test]
fn members_are_found_by_first_name() {
    let v = obj(vec![("a", text("1")), ("b", text("2")), ("a", text("3"))]);
    assert!(matches!(get_member(&v, "a"), Some(JsonValue::Str(x)) if x == "1"));
    assert!(get_member(&v, "c").is_none());
    assert!(get_member(&JsonValue::Null, "a").is_none());
    assert_eq!(string_at(&v, "b"), Some(s("2")));
    assert_eq!(string_at(&obj(vec![("b", JsonValue::Bool(true))]), "b"), None);
}

#[test]
fn strings_are_salvaged_from_arrays_or_single_strings() {
    let v = obj(vec![
        ("list", JsonValue::Array(vec![text("x"), JsonValue::Number(Some(1)), text("y")])),
        ("one", text("z")),
        ("none", JsonValue::Null),
    ]);
    assert_eq!(strings_at(&v, "list"), vec![s("x"), s("y")]);
    assert_eq!(strings_at(&v, "one"), vec![s("z")]);
    assert!(strings_at(&v, "none").is_empty());
    assert!(strings_at(&v, "missing").is_empty());
    assert_eq!(distinct(vec![s("a"), s("b"), s("a")]), vec![s("a"), s("b")]);
}

#[test]
fn a_damaged_link_keeps_what_is_readable() {
    let v = obj(vec![
        ("name", text("Notepad")),
        ("icon_path", JsonValue::Number(None)),
        ("run_command", text("notepad.exe")),
        ("arguments", JsonValue::Array(vec![text("a"), JsonValue::Null])),
        ("tags", JsonValue::Array(vec![text("t"), text("t")])),
        ("uuid", text("0000")),
    ]);
    let l = salvage_link(&v);
    assert_eq!(l.name, vec![s("Notepad")]);
    assert_eq!(l.icon_path, "");
    assert_eq!(l.run_command, "notepad.exe");
    assert_eq!(l.arguments, vec![s("a")]);
    assert_eq!(l.tags, vec![s("t")]);
    assert_eq!(l.uuid, "0000");
    assert!(!l.is_admin && l.is_new_window);
    assert_eq!(salvage_link(&JsonValue::Null).uuid.len(), 36);
}

#[test]
fn a_damaged_config_is_rebuilt() {
    let v = obj(vec![
        ("version", JsonValue::Number(Some(4))),
        ("tags", text("solo")),
        ("program_links", JsonValue::Array(vec![obj(vec![("name", JsonValue::Array(vec![text("A"), text("B")]))]), JsonValue::Null])),
    ]);
    let c = salvage_config(&v);
    assert_eq!(c.version, 4);
    assert_eq!(c.tags, vec![s("solo")]);
    assert_eq!(c.program_links.len(), 2);
    assert_eq!(c.program_links[0].name, vec![s("A"), s("B")]);
    assert!(c.program_links[1].name.is_empty());

    let c = salvage_config(&obj(vec![("program_links", text("nope"))]));
    assert_eq!(c.version, 6);
    assert!(c.program_links.is_empty() && c.tags.is_empty());
}

#[test]
fn file_locations() {
    assert_eq!(config_file_path(), ".baro/links.json");
    assert_eq!(exe_icon_file_for_digest("abc"), ".baro/cache/exe_icon/abc.png");
    let path = "C:\\Windows\\System32\\notepad.exe";
    let expected = format!(".baro/cache/exe_icon/{:x}.png", md5::compute(path.as_bytes()));
    assert_eq!(exe_icon_cache_file(path), expected);
    // md5 of the empty string
    assert_eq!(exe_icon_cache_file(""), ".baro/cache/exe_icon/d41d8cd98f00b204e9800998ecf8427e.png");
}
