use config_format::case::RenameRule;

const RULES: [RenameRule; 8] = [
    RenameRule::CamelCase,
    RenameRule::KebabCase,
    RenameRule::LowerCase,
    RenameRule::PascalCase,
    RenameRule::ScreamingKebabCase,
    RenameRule::ScreamingSnakeCase,
    RenameRule::SnakeCase,
    RenameRule::UpperCase,
];

fn all_forms(key: &str) -> Vec<String> {
    RULES.iter().map(|rule| rule.apply_to_field(key)).collect()
}

#[test]
fn kebab_key_in_every_convention() {
    assert_eq!(
        all_forms("my-setting"),
        vec![
            "mySetting",
            "my-setting",
            "mysetting",
            "MySetting",
            "MY-SETTING",
            "MY_SETTING",
            "my_setting",
            "MYSETTING",
        ]
    );
}

#[test]
fn camel_key_is_cut_where_upper_follows_lower() {
    assert_eq!(
        all_forms("dbHostName"),
        vec![
            "dbHostName",
            "db-host-name",
            "dbhostname",
            "DbHostName",
            "DB-HOST-NAME",
            "DB_HOST_NAME",
            "db_host_name",
            "DBHOSTNAME",
        ]
    );
}

#[test]
fn run_of_capitals_stays_one_word() {
    assert_eq!(RenameRule::SnakeCase.apply_to_field("HTTPServer"), "httpserver");
    assert_eq!(RenameRule::PascalCase.apply_to_field("HTTPServer"), "Httpserver");
    assert_eq!(RenameRule::SnakeCase.apply_to_field("myHTTPServer"), "my_httpserver");
    assert_eq!(RenameRule::CamelCase.apply_to_field("myHTTPServer"), "myHttpserver");
}

#[test]
fn digits_belong_to_their_word() {
    assert_eq!(RenameRule::SnakeCase.apply_to_field("v2Beta"), "v2beta");
    assert_eq!(RenameRule::KebabCase.apply_to_field("port8080open"), "port8080open");
    assert_eq!(RenameRule::SnakeCase.apply_to_field("ipV4"), "ip_v4");
    assert_eq!(RenameRule::ScreamingSnakeCase.apply_to_field("retry-3-times"), "RETRY_3_TIMES");
}

#[test]
fn separators_at_the_ends_and_in_runs_vanish() {
    assert_eq!(RenameRule::SnakeCase.apply_to_field("__my__setting__"), "my_setting");
    assert_eq!(RenameRule::KebabCase.apply_to_field("  my   setting "), "my-setting");
    assert_eq!(RenameRule::CamelCase.apply_to_field("db.host/name"), "dbHostName");
    assert_eq!(RenameRule::UpperCase.apply_to_field("-a-"), "A");
}

#[test]
fn empty_key_and_key_of_separators_give_the_empty_key() {
    for rule in RULES {
        assert_eq!(rule.apply_to_field(""), "");
        assert_eq!(rule.apply_to_field("-_. "), "");
    }
}

#[test]
fn characters_outside_ascii_are_kept_and_do_not_cut() {
    assert_eq!(RenameRule::SnakeCase.apply_to_field("größeMax"), "größe_max");
    assert_eq!(RenameRule::ScreamingSnakeCase.apply_to_field("größe max"), "GRößE_MAX");
    assert_eq!(RenameRule::PascalCase.apply_to_field("éclair-au-café"), "éclairAuCafé");
    assert_eq!(RenameRule::KebabCase.apply_to_field("言_語"), "言-語");
}

#[test]
fn single_letters_change_case_as_ascii_letters_do() {
    assert_eq!(RenameRule::UpperCase.apply_to_field("az"), "AZ");
    assert_eq!(RenameRule::LowerCase.apply_to_field("AZ"), "az");
    assert_eq!(RenameRule::UpperCase.apply_to_field("a`z{"), "AZ");
    assert_eq!(RenameRule::LowerCase.apply_to_field("A@Z["), "az");
    assert_eq!(RenameRule::PascalCase.apply_to_field("x"), "X");
}

#[test]
fn separated_form_written_again_is_unchanged() {
    let keys = ["my-setting", "dbHostName", "HTTPServer", "größeMax", "a__b", "", "X9y"];
    let separated = [
        RenameRule::KebabCase,
        RenameRule::ScreamingKebabCase,
        RenameRule::ScreamingSnakeCase,
        RenameRule::SnakeCase,
    ];
    for key in keys {
        for rule in separated {
            let once = rule.apply_to_field(key);
            assert_eq!(rule.apply_to_field(&once), once, "{:?} of {:?}", rule, key);
        }
    }
}

#[test]
fn separated_form_has_the_forms_of_its_key() {
    let keys = ["my-setting", "dbHostName", "myHTTPServer", "größeMax", "v2Beta", "a.b.c"];
    let separated = [
        RenameRule::KebabCase,
        RenameRule::ScreamingKebabCase,
        RenameRule::ScreamingSnakeCase,
        RenameRule::SnakeCase,
    ];
    for key in keys {
        for written in separated {
            assert_eq!(all_forms(&written.apply_to_field(key)), all_forms(key));
        }
    }
}
