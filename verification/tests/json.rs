use owmods_core::db::load::{get_mod_enabled, is_enabled_in};
use owmods_core::json::{parse_json, Json};
use owmods_core::mods::local::ModManifest;
use owmods_core::repair::fix_json;
use owmods_core::table::Table;

fn object(members: Vec<(&str, Json)>) -> Json {
    let mut table = Table::new();
    for (key, value) in members {
        table.insert(key.to_string(), value);
    }
    Json::Object(table)
}

fn text(s: &str) -> Json {
    Json::Text(s.to_string())
}

#[test]
fn parse_json_reads_every_kind_of_value() {
    assert_eq!(parse_json("null"), Ok(Json::Null));
    assert_eq!(parse_json("true"), Ok(Json::Bool(true)));
    assert_eq!(parse_json("12"), Ok(Json::Number("12".to_string())));
    assert_eq!(parse_json("-1.5"), Ok(Json::Number("-1.5".to_string())));
    assert_eq!(parse_json("\"a\\nb\""), Ok(text("a\nb")));
    assert_eq!(
        parse_json("[1, \"x\", [], {}]"),
        Ok(Json::Array(vec![
            Json::Number("1".to_string()),
            text("x"),
            Json::Array(vec![]),
            object(vec![]),
        ]))
    );
    assert_eq!(
        parse_json("{\"b\": {\"c\": null}, \"a\": false}"),
        Ok(object(vec![
            ("a", Json::Bool(false)),
            ("b", object(vec![("c", Json::Null)])),
        ]))
    );
}

#[test]
fn parse_json_keeps_the_last_of_two_equal_keys() {
    assert_eq!(
        parse_json("{\"a\": 1, \"a\": 2}"),
        Ok(object(vec![("a", Json::Number("2".to_string()))]))
    );
}

#[test]
fn parse_json_hands_on_the_message_of_the_parser() {
    assert_eq!(
        parse_json(""),
        Err("EOF while parsing a value at line 1 column 0".to_string())
    );
    assert_eq!(
        parse_json("[1, ]"),
        Err("trailing comma at line 1 column 5".to_string())
    );
    assert_eq!(
        parse_json("{} x"),
        Err("trailing characters at line 1 column 4".to_string())
    );
}

#[test]
fn fix_json_takes_away_trailing_commas() {
    assert_eq!(fix_json("[1, 2, ]"), "[1, 2 ]");
    assert_eq!(fix_json("{\"a\": 1,}"), "{\"a\": 1}");
    assert_eq!(fix_json("{\"a\": [1,\n\t],\r\n}"), "{\"a\": [1\n\t]\r\n}");
    assert_eq!(fix_json("[[1,],]"), "[[1]]");
    assert_eq!(fix_json(",}"), "}");
}

#[test]
fn fix_json_takes_away_a_byte_order_mark_at_the_start() {
    assert_eq!(fix_json("\u{feff}{}"), "{}");
    assert_eq!(fix_json("{\u{feff}}"), "{\u{feff}}");
    assert_eq!(fix_json("\u{feff}"), "");
}

#[test]
fn fix_json_leaves_strings_and_sound_text_alone() {
    assert_eq!(fix_json(""), "");
    assert_eq!(fix_json("{\"a\": [1, 2], \"b\": 3}"), "{\"a\": [1, 2], \"b\": 3}");
    assert_eq!(fix_json("[\",]\", 1]"), "[\",]\", 1]");
    assert_eq!(fix_json("[\"\\\",]\"]"), "[\"\\\",]\"]");
    assert_eq!(fix_json("[\"a\\\\\",]"), "[\"a\\\\\"]");
    assert_eq!(fix_json("[1, , 2]"), "[1, , 2]");
    assert_eq!(fix_json("[1,"), "[1,");
    assert_eq!(fix_json("[1, x]"), "[1, x]");
    assert_eq!(fix_json("ünï, ]"), "ünï ]");
}

#[test]
fn manifest_from_json_reads_all_fields() {
    let json = object(vec![
        ("uniqueName", text("Author.A")),
        ("name", text("Alpha")),
        ("version", text("v1")),
        ("author", text("Author")),
        ("dependencies", Json::Array(vec![text("Author.B"), text("Author.C")])),
        ("conflicts", Json::Array(vec![])),
        ("priorityLoad", Json::Bool(true)),
    ]);
    assert_eq!(
        ModManifest::from_json(&json),
        Ok(ModManifest {
            unique_name: "Author.A".to_string(),
            name: "Alpha".to_string(),
            version: "v1".to_string(),
            dependencies: Some(vec!["Author.B".to_string(), "Author.C".to_string()]),
            conflicts: Some(vec![]),
        })
    );
}

#[test]
fn manifest_from_json_takes_null_lists_as_missing() {
    let json = object(vec![
        ("uniqueName", text("Author.A")),
        ("name", text("Alpha")),
        ("version", text("1.0.0")),
        ("dependencies", Json::Null),
    ]);
    let manifest = ModManifest::from_json(&json).unwrap();
    assert_eq!(manifest.dependencies, None);
    assert_eq!(manifest.conflicts, None);
}

#[test]
fn manifest_from_json_names_missing_fields() {
    assert_eq!(
        ModManifest::from_json(&object(vec![])),
        Err("missing field `uniqueName`".to_string())
    );
    assert_eq!(
        ModManifest::from_json(&object(vec![("uniqueName", text("Author.A"))])),
        Err("missing field `name`".to_string())
    );
    assert_eq!(
        ModManifest::from_json(&object(vec![
            ("uniqueName", text("Author.A")),
            ("name", text("Alpha")),
        ])),
        Err("missing field `version`".to_string())
    );
}

#[test]
fn manifest_from_json_names_wrong_kinds() {
    assert_eq!(
        ModManifest::from_json(&Json::Array(vec![])),
        Err("invalid type: array, expected an object".to_string())
    );
    assert_eq!(
        ModManifest::from_json(&Json::Null),
        Err("invalid type: null, expected an object".to_string())
    );
    assert_eq!(
        ModManifest::from_json(&object(vec![("uniqueName", Json::Bool(true))])),
        Err("invalid type: boolean in field `uniqueName`, expected a string".to_string())
    );
    assert_eq!(
        ModManifest::from_json(&object(vec![("name", object(vec![]))])),
        Err("invalid type: object in field `name`, expected a string".to_string())
    );
    assert_eq!(
        ModManifest::from_json(&object(vec![("version", Json::Null)])),
        Err("invalid type: null in field `version`, expected a string".to_string())
    );
    assert_eq!(
        ModManifest::from_json(&object(vec![("dependencies", text("Author.B"))])),
        Err("invalid type: string in field `dependencies`, expected a list of strings".to_string())
    );
    assert_eq!(
        ModManifest::from_json(&object(vec![(
            "conflicts",
            Json::Array(vec![text("Author.B"), Json::Number("1".to_string()), Json::Null])
        )])),
        Err("invalid type: number in field `conflicts`, expected a list of strings".to_string())
    );
}

#[test]
fn manifest_from_json_names_a_wrong_kind_before_a_missing_field() {
    let json = object(vec![("version", Json::Number("1".to_string()))]);
    let message = ModManifest::from_json(&json).unwrap_err();
    assert_eq!(
        message,
        "invalid type: number in field `version`, expected a string"
    );
    assert!(message.contains("string"));
}

#[test]
fn manifest_from_text_fixes_the_version() {
    let manifest = ModManifest::from_text(
        "{\"uniqueName\": \"Author.A\", \"name\": \"Alpha\", \"version\": \" v2.1 \",}",
    )
    .unwrap();
    assert_eq!(manifest.version, "2.1.0");
    assert_eq!(manifest.unique_name, "Author.A");
}

#[test]
fn manifest_from_parsed_hands_on_the_message_of_the_parser() {
    assert_eq!(
        ModManifest::from_parsed(Err("no json".to_string())),
        Err("no json".to_string())
    );
    assert_eq!(
        ModManifest::from_parsed(Ok(Json::Bool(false))),
        Err("invalid type: boolean, expected an object".to_string())
    );
}

#[test]
fn mod_without_settings_is_enabled() {
    assert_eq!(get_mod_enabled(None), Ok(true));
    assert_eq!(is_enabled_in(None), Ok(true));
}

#[test]
fn settings_say_whether_a_mod_is_enabled() {
    assert_eq!(get_mod_enabled(Some("{\"enabled\": false}")), Ok(false));
    assert_eq!(
        get_mod_enabled(Some("{\"enabled\": true, \"settings\": {\"a\": 1}}")),
        Ok(true)
    );
    assert_eq!(
        get_mod_enabled(Some("{}")),
        Err("missing field `enabled`".to_string())
    );
    assert_eq!(
        get_mod_enabled(Some("{\"enabled\": \"yes\"}")),
        Err("invalid type: string in field `enabled`, expected a boolean".to_string())
    );
    assert_eq!(
        get_mod_enabled(Some("[true]")),
        Err("invalid type: array, expected an object".to_string())
    );
    assert_eq!(
        get_mod_enabled(Some("{")),
        Err("EOF while parsing an object at line 1 column 1".to_string())
    );
    assert_eq!(
        is_enabled_in(Some(Err("unreadable".to_string()))),
        Err("unreadable".to_string())
    );
    assert_eq!(
        is_enabled_in(Some(Ok(object(vec![("enabled", Json::Bool(false))])))),
        Ok(false)
    );
}
