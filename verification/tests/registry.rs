use config_format::case::to_lower_case;
use config_format::format::FileFormat;
use config_format::registry::{recognises, FormatSet};

#[test]
fn extensions_of_every_syntax() {
    assert_eq!(FileFormat::Toml.extensions(), vec!["toml"]);
    assert_eq!(FileFormat::Json.extensions(), vec!["json"]);
    assert_eq!(FileFormat::Yaml.extensions(), vec!["yaml", "yml"]);
    assert_eq!(FileFormat::Hjson.extensions(), vec!["hjson"]);
    assert_eq!(FileFormat::Ini.extensions(), vec!["ini"]);
}

#[test]
fn every_syntax_has_lower_case_extensions_without_a_dot() {
    for format in FileFormat::all() {
        let extensions = format.extensions();
        assert!(!extensions.is_empty());
        for extension in extensions {
            assert!(!extension.is_empty());
            assert!(!extension.starts_with('.'));
            assert_eq!(extension.to_lowercase(), extension);
        }
    }
}

#[test]
fn no_extension_belongs_to_two_syntaxes() {
    let mut seen: Vec<&str> = Vec::new();
    for format in FileFormat::all() {
        for extension in format.extensions() {
            assert!(!seen.contains(&extension));
            seen.push(extension);
        }
    }
    assert_eq!(seen.len(), 6);
}

#[test]
fn all_syntaxes_in_order_of_declaration() {
    assert_eq!(
        FileFormat::all(),
        vec![
            FileFormat::Toml,
            FileFormat::Json,
            FileFormat::Yaml,
            FileFormat::Hjson,
            FileFormat::Ini,
        ]
    );
}

#[test]
fn format_set_lists_what_is_switched_on() {
    assert_eq!(FormatSet::all().formats(), FileFormat::all());
    assert_eq!(FormatSet::none().formats(), vec![]);
    let some = FormatSet { toml: false, json: true, yaml: false, hjson: false, ini: true };
    assert_eq!(some.formats(), vec![FileFormat::Json, FileFormat::Ini]);
    assert!(some.contains(FileFormat::Json));
    assert!(some.contains(FileFormat::Ini));
    assert!(!some.contains(FileFormat::Toml));
    assert!(!some.contains(FileFormat::Yaml));
    assert!(!some.contains(FileFormat::Hjson));
    for format in FileFormat::all() {
        assert!(FormatSet::all().contains(format));
        assert!(!FormatSet::none().contains(format));
    }
}

#[test]
fn lower_case_changes_ascii_capitals_only() {
    assert_eq!(to_lower_case("YaML"), "yaml");
    assert_eq!(to_lower_case("A-Z_09 @[`{"), "a-z_09 @[`{");
    assert_eq!(to_lower_case("ÄÖ.Ini"), "ÄÖ.ini");
    assert_eq!(to_lower_case(""), "");
}

#[test]
fn extension_is_recognised_whatever_its_case() {
    assert!(recognises(FileFormat::Yaml, "yml"));
    assert!(recognises(FileFormat::Yaml, "YAML"));
    assert!(recognises(FileFormat::Json, "Json"));
    assert!(!recognises(FileFormat::Json, "hjson"));
    assert!(!recognises(FileFormat::Json, ".json"));
    assert!(!recognises(FileFormat::Json, "json "));
    assert!(!recognises(FileFormat::Toml, ""));
}

#[test]
fn format_for_extension() {
    let all = FormatSet::all();
    assert_eq!(all.format_for("toml"), Some(FileFormat::Toml));
    assert_eq!(all.format_for("JSON"), Some(FileFormat::Json));
    assert_eq!(all.format_for("yaml"), Some(FileFormat::Yaml));
    assert_eq!(all.format_for("Yml"), Some(FileFormat::Yaml));
    assert_eq!(all.format_for("hjson"), Some(FileFormat::Hjson));
    assert_eq!(all.format_for("INI"), Some(FileFormat::Ini));
    assert_eq!(all.format_for("txt"), None);
    assert_eq!(all.format_for(""), None);
    assert_eq!(all.format_for(".toml"), None);
    let no_yaml = FormatSet { toml: true, json: true, yaml: false, hjson: true, ini: true };
    assert_eq!(no_yaml.format_for("yml"), None);
    assert_eq!(no_yaml.format_for("ini"), Some(FileFormat::Ini));
    assert_eq!(FormatSet::none().format_for("json"), None);
}
