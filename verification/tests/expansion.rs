use config_format::case::RenameRule;
use config_format::format::{insert_all_case_key, normalize, ErrorKind, FileFormat};
use config_format::value::{ConfigValue, Table};

fn text(s: &str) -> ConfigValue {
    ConfigValue::String(s.to_string())
}

#[test]
fn my_setting_is_reachable_under_every_convention() {
    let mut target = Table::new();
    insert_all_case_key(&mut target, "my-setting", &ConfigValue::Integer(7));
    for spelling in [
        "mySetting",
        "my-setting",
        "mysetting",
        "MySetting",
        "MY-SETTING",
        "MY_SETTING",
        "my_setting",
        "MYSETTING",
    ] {
        assert_eq!(target.get(spelling), Some(&ConfigValue::Integer(7)), "{}", spelling);
    }
    assert_eq!(target.len(), 8);
}

#[test]
fn entries_arrive_in_the_order_of_the_conventions_and_the_key_last() {
    let mut target = Table::new();
    insert_all_case_key(&mut target, "My Setting", &ConfigValue::Nil);
    let keys: Vec<&str> = (0..target.len()).map(|i| target.key_at(i).as_str()).collect();
    assert_eq!(
        keys,
        vec![
            "mySetting",
            "my-setting",
            "mysetting",
            "MySetting",
            "MY-SETTING",
            "MY_SETTING",
            "my_setting",
            "MYSETTING",
            "My Setting",
        ]
    );
}

#[test]
fn spellings_that_coincide_give_one_entry() {
    let mut target = Table::new();
    insert_all_case_key(&mut target, "port", &ConfigValue::Integer(80));
    let keys: Vec<&str> = (0..target.len()).map(|i| target.key_at(i).as_str()).collect();
    assert_eq!(keys, vec!["port", "Port", "PORT"]);
}

#[test]
fn empty_key_gives_the_empty_key_alone() {
    let mut target = Table::new();
    insert_all_case_key(&mut target, "", &ConfigValue::Boolean(true));
    assert_eq!(target.len(), 1);
    assert_eq!(target.get(""), Some(&ConfigValue::Boolean(true)));
}

#[test]
fn expanding_twice_is_expanding_once() {
    for key in ["my-setting", "dbHost", "", "a", "X_y-z"] {
        let value = ConfigValue::Array(vec![text("v"), ConfigValue::Integer(1)]);
        let mut once = Table::new();
        insert_all_case_key(&mut once, key, &value);
        let mut twice = Table::new();
        insert_all_case_key(&mut twice, key, &value);
        insert_all_case_key(&mut twice, key, &value);
        assert_eq!(once, twice);
    }
}

#[test]
fn expanding_twice_into_a_filled_table_is_expanding_once() {
    let mut once = Table::new();
    once.insert("other".to_string(), ConfigValue::Integer(1));
    once.insert("my_setting".to_string(), ConfigValue::Integer(2));
    let mut twice = once.clone();
    insert_all_case_key(&mut once, "mySetting", &text("v"));
    insert_all_case_key(&mut twice, "mySetting", &text("v"));
    insert_all_case_key(&mut twice, "mySetting", &text("v"));
    assert_eq!(once, twice);
}

#[test]
fn expansion_overwrites_present_spellings_and_keeps_the_rest() {
    let mut target = Table::new();
    target.insert("other".to_string(), ConfigValue::Integer(1));
    target.insert("MY_SETTING".to_string(), ConfigValue::Integer(2));
    insert_all_case_key(&mut target, "my-setting", &text("new"));
    assert_eq!(target.get("other"), Some(&ConfigValue::Integer(1)));
    assert_eq!(target.get("MY_SETTING"), Some(&text("new")));
    assert_eq!(target.key_at(1), "MY_SETTING");
    assert_eq!(target.len(), 9);
}

#[test]
fn later_key_with_the_same_spellings_wins() {
    let mut target = Table::new();
    insert_all_case_key(&mut target, "db-host", &text("first"));
    insert_all_case_key(&mut target, "db_host", &text("second"));
    assert_eq!(target.get("dbHost"), Some(&text("second")));
    assert_eq!(target.get("db-host"), Some(&text("second")));
    assert_eq!(target.len(), 8);
}

#[test]
fn snake_case_key_is_a_fixed_point_of_snake_case() {
    assert_eq!(RenameRule::SnakeCase.apply_to_field("my_setting"), "my_setting");
}

#[test]
fn json_document_is_parsed_and_expanded() {
    let document = FileFormat::Json.parse(None, "{\"db-host\": \"localhost\"}").unwrap();
    assert_eq!(document.len(), 1);
    assert_eq!(document.get("db-host"), Some(&text("localhost")));
    let mut target = Table::new();
    insert_all_case_key(&mut target, document.key_at(0), document.value_at(0));
    assert_eq!(target.get("dbHost"), Some(&text("localhost")));
    assert_eq!(target.get("db_host"), Some(&text("localhost")));
    assert_eq!(target.get("DB-HOST"), Some(&text("localhost")));
}

#[test]
fn malformed_json_is_a_parse_failure() {
    let uri = "settings.json".to_string();
    let error = FileFormat::Json.parse(Some(&uri), "{db-host: }").unwrap_err();
    assert_eq!(error.kind, ErrorKind::Parse);
    assert_eq!(error.format, FileFormat::Json);
    assert_eq!(error.uri, Some(uri));
    assert!(!error.message.is_empty());
}

#[test]
fn normalize_expands_every_entry_in_order() {
    let mut document = Table::new();
    document.insert("db-host".to_string(), text("first"));
    document.insert("port".to_string(), ConfigValue::Integer(80));
    document.insert("db_host".to_string(), text("second"));
    let normalized = normalize(&document);
    let mut expected = Table::new();
    insert_all_case_key(&mut expected, "db-host", &text("first"));
    insert_all_case_key(&mut expected, "port", &ConfigValue::Integer(80));
    insert_all_case_key(&mut expected, "db_host", &text("second"));
    assert_eq!(normalized, expected);
    assert_eq!(normalized.get("dbHost"), Some(&text("second")));
    assert_eq!(normalized.get("PORT"), Some(&ConfigValue::Integer(80)));
    assert_eq!(normalized.len(), 11);
    assert_eq!(normalize(&Table::new()), Table::new());
}

#[test]
fn normalized_json_document() {
    let document = FileFormat::Json.parse(None, "{\"db-host\": \"localhost\"}").unwrap();
    let target = normalize(&document);
    assert_eq!(target.get("dbHost"), Some(&text("localhost")));
    assert_eq!(target.get("db_host"), Some(&text("localhost")));
    assert_eq!(target.get("DB-HOST"), Some(&text("localhost")));
    assert_eq!(target.get("db-host"), Some(&text("localhost")));
}
