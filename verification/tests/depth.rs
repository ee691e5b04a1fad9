use config_format::format::{ErrorKind, FileFormat, FormatError};
use config_format::nesting::{Step, Walk};
use config_format::value::ConfigValue;

fn too_deep(format: FileFormat) -> FormatError {
    FormatError {
        kind: ErrorKind::TooDeep,
        format,
        uri: None,
        message: "the text nests deeper than is read".to_string(),
    }
}

fn nested(depth: usize, inner: ConfigValue) -> ConfigValue {
    let mut value = inner;
    for _ in 0..depth {
        value = ConfigValue::Array(vec![value]);
    }
    value
}

fn brackets(depth: usize) -> String {
    format!("{}1{}", "[".repeat(depth), "]".repeat(depth))
}

const TRICKY_HJSON: &str = "  tricky: [
    \"quoted ] } [ { \\\" \\\\\"
    without quotes ] } [ { , # no comment
    [1, 2.5, -3e2, 0, -0, 1E+5, true, false, null]
    # a comment ] [ {
    // another [ [
    /* a block [ [
       ] over lines */
    { \"k\": \"v\", \"n\": 1 }
    { k: [1], l: [ true ], m: [null] }
    [ 18446744073709551615 ]
    [ -9223372036854775808 ]
    [ 1x ]
    ]
    [ 18446744073709551616 ]
    ]
    [ -9223372036854775809 ]
    ]
    [ 01 ]
    ]
    [ truex ]
    ]
    [ 1. ]
    ]
    '''
    several [ [ lines ' '' {
    '''
    [ /path, 1 / 2 ]
    ]
    [
      a // b ]
    ]
  ]
";

#[test]
fn deeply_nested_hjson_fails_cleanly() {
    for text in ["[".repeat(300_000), "{a:".repeat(300_000), "{\n\"a\":\n[\n".repeat(100_000)] {
        assert_eq!(FileFormat::Hjson.parse(None, &text), Err(too_deep(FileFormat::Hjson)));
        assert!(!FileFormat::Hjson.within_depth(&text));
    }
    let uri = "deep.hjson".to_string();
    let error = FileFormat::Hjson.parse(Some(&uri), &"[".repeat(1_000)).unwrap_err();
    assert_eq!(error.kind, ErrorKind::TooDeep);
    assert_eq!(error.uri, Some(uri));
}

#[test]
fn hjson_is_read_up_to_the_limit() {
    let at_limit = format!("{{\n  a: {}\n}}\n", brackets(255));
    assert!(FileFormat::Hjson.within_depth(&at_limit));
    let document = FileFormat::Hjson.parse(None, &at_limit).unwrap();
    assert_eq!(document.get("a"), Some(&nested(255, ConfigValue::Integer(1))));
    let beyond = format!("{{\n  a: {}\n}}\n", brackets(256));
    assert_eq!(FileFormat::Hjson.parse(None, &beyond), Err(too_deep(FileFormat::Hjson)));
    let objects = format!("{}1\n{}", "{\"a\":".repeat(256), "}".repeat(256));
    assert!(FileFormat::Hjson.parse(None, &objects).is_ok());
    let objects = format!("{}1\n{}", "{\"a\":".repeat(257), "}".repeat(257));
    assert_eq!(FileFormat::Hjson.parse(None, &objects), Err(too_deep(FileFormat::Hjson)));
    let objects = format!("{}b: 1\n{}", "a:{\n".repeat(255), "}\n".repeat(255));
    assert!(FileFormat::Hjson.parse(None, &objects).is_ok());
    let objects = format!("{}b: 1\n{}", "a:{\n".repeat(256), "}\n".repeat(256));
    assert_eq!(FileFormat::Hjson.parse(None, &objects), Err(too_deep(FileFormat::Hjson)));
    let without_braces = format!("a: {}\n", brackets(255));
    let document = FileFormat::Hjson.parse(None, &without_braces).unwrap();
    assert_eq!(document.get("a"), Some(&nested(255, ConfigValue::Integer(1))));
    let beyond = format!("a: {}\n", brackets(256));
    assert_eq!(FileFormat::Hjson.parse(None, &beyond), Err(too_deep(FileFormat::Hjson)));
}

#[test]
fn hjson_nesting_is_counted_as_the_parser_reads_it() {
    for (open, close) in [("{\n", "}\n"), ("", "")] {
        let at_limit = format!("{}{}  deep: {}\n{}", open, TRICKY_HJSON, brackets(255), close);
        let document = FileFormat::Hjson.parse(None, &at_limit).unwrap();
        assert_eq!(document.get("deep"), Some(&nested(255, ConfigValue::Integer(1))));
        match document.get("tricky") {
            Some(ConfigValue::Array(items)) => {
                assert_eq!(items.len(), 16);
                assert_eq!(
                    items[0],
                    ConfigValue::String("quoted ] } [ { \" \\".to_string())
                );
                assert_eq!(
                    items[1],
                    ConfigValue::String("without quotes ] } [ { , # no comment".to_string())
                );
                assert_eq!(
                    items[7],
                    ConfigValue::Array(vec![ConfigValue::String("1x ]".to_string())])
                );
                assert_eq!(
                    items[15],
                    ConfigValue::Array(vec![ConfigValue::String("a // b ]".to_string())])
                );
            }
            other => panic!("{:?}", other),
        }
        let beyond = format!("{}{}  deep: {}\n{}", open, TRICKY_HJSON, brackets(256), close);
        assert_eq!(FileFormat::Hjson.parse(None, &beyond), Err(too_deep(FileFormat::Hjson)));
    }
}

#[test]
fn closed_collections_and_strings_do_not_add_to_hjson_depth() {
    let mut list = String::from("{\n  items: [\n");
    for i in 0..600 {
        list.push_str(&format!("    {{ \"id\": {}, \"tags\": [\"a\", \"b\"] }}\n", i));
    }
    list.push_str("  ]\n}\n");
    let document = FileFormat::Hjson.parse(None, &list).unwrap();
    match document.get("items") {
        Some(ConfigValue::Array(items)) => assert_eq!(items.len(), 600),
        other => panic!("{:?}", other),
    }
    let quoted = format!("{{\n  a: \"{}\"\n  b: x{}\n}}\n", "[".repeat(600), "{".repeat(600));
    let document = FileFormat::Hjson.parse(None, &quoted).unwrap();
    assert_eq!(document.get("a"), Some(&ConfigValue::String("[".repeat(600))));
    assert_eq!(document.get("b"), Some(&ConfigValue::String(format!("x{}", "{".repeat(600)))));
    let comment = format!("{{\n  # {}\n  a: 1\n}}\n", "[".repeat(600));
    assert_eq!(FileFormat::Hjson.parse(None, &comment).unwrap().len(), 1);
}

#[test]
fn malformed_hjson_keeps_the_message_of_its_parser() {
    let text = format!("{{\n  a: {}", "[".repeat(10));
    let error = FileFormat::Hjson.parse(None, &text).unwrap_err();
    assert_eq!(error.kind, ErrorKind::Parse);
    assert_ne!(error.message, "the text nests deeper than is read");
}

#[test]
fn deeply_nested_yaml_fails_cleanly() {
    let mut mappings = String::new();
    for i in 0..2_000 {
        mappings.push_str(&" ".repeat(i));
        mappings.push_str("a:\n");
    }
    for text in ["- ".repeat(300_000), "? ".repeat(100_000), mappings] {
        assert_eq!(FileFormat::Yaml.parse(None, &text), Err(too_deep(FileFormat::Yaml)));
        assert!(!FileFormat::Yaml.within_depth(&text));
    }
    let flow = FileFormat::Yaml.parse(None, &"[".repeat(100_000)).unwrap_err();
    assert!(flow.kind == ErrorKind::TooDeep || flow.kind == ErrorKind::Parse);
}

#[test]
fn yaml_is_read_up_to_the_limit() {
    let at_limit = format!("a:\n  {}x\n", "- ".repeat(127));
    let document = FileFormat::Yaml.parse(None, &at_limit).unwrap();
    assert_eq!(document.get("a"), Some(&nested(127, ConfigValue::String("x".to_string()))));
    let beyond = format!("a:\n  {}x\n", "- ".repeat(128));
    assert_eq!(FileFormat::Yaml.parse(None, &beyond), Err(too_deep(FileFormat::Yaml)));
    let at_limit = format!("a: {}\n", brackets(127));
    let document = FileFormat::Yaml.parse(None, &at_limit).unwrap();
    assert_eq!(document.get("a"), Some(&nested(127, ConfigValue::Integer(1))));
    let beyond = format!("a: {}\n", brackets(128));
    assert_eq!(FileFormat::Yaml.parse(None, &beyond), Err(too_deep(FileFormat::Yaml)));
}

#[test]
fn closed_collections_strings_and_comments_do_not_add_to_yaml_depth() {
    let mut lists = String::new();
    for i in 0..2_000 {
        lists.push_str(&format!("k{}: [1, {{a: [2]}}]\n", i));
    }
    assert_eq!(FileFormat::Yaml.parse(None, &lists).unwrap().len(), 2_000);
    let mut banner = format!("# {}\n", "*".repeat(600));
    for i in 0..24 {
        banner.push_str(&format!("long key {:02}x: value - {}\n", i, i));
    }
    banner.push_str(&format!("# {} {}\n", "[".repeat(600), "- ".repeat(600)));
    assert_eq!(FileFormat::Yaml.parse(None, &banner).unwrap().len(), 24);
    let mut placeholders = String::new();
    for i in 0..200 {
        placeholders.push_str(&format!("k{}: \"{{{{ var{} }}}} [x] *y\"\n", i, i));
        placeholders.push_str(&format!("p{}: plain {{{{ var }}}} text\n", i));
    }
    let document = FileFormat::Yaml.parse(None, &placeholders).unwrap();
    assert_eq!(document.len(), 400);
    assert_eq!(
        document.get("k7"),
        Some(&ConfigValue::String("{{ var7 }} [x] *y".to_string()))
    );
    let block = format!("text: |\n  {}\n  {}\nafter: 1\n", "- ".repeat(600), "[".repeat(600));
    assert_eq!(FileFormat::Yaml.parse(None, &block).unwrap().len(), 2);
}

#[test]
fn yaml_aliases_count_by_the_depth_of_their_nodes() {
    let text = "base: &base\n  host: localhost\n  ports: [1, 2]\n";
    let mut many = String::from(text);
    for i in 0..1_000 {
        many.push_str(&format!("copy{}: *base\n", i));
    }
    let document = FileFormat::Yaml.parse(None, &many).unwrap();
    assert_eq!(document.len(), 1_001);
    assert_eq!(document.get("copy999"), document.get("base"));
    let chain = |links: usize| {
        let mut chain = String::from("n0: &n0 [x]\n");
        for i in 1..=links {
            chain.push_str(&format!("n{}: &n{} [*n{}]\n", i, i, i - 1));
        }
        chain
    };
    let document = FileFormat::Yaml.parse(None, &chain(510)).unwrap();
    assert_eq!(
        document.get("n510"),
        Some(&nested(511, ConfigValue::String("x".to_string())))
    );
    assert_eq!(FileFormat::Yaml.parse(None, &chain(511)), Err(too_deep(FileFormat::Yaml)));
}

#[test]
fn malformed_yaml_keeps_the_message_of_its_parser() {
    let error = FileFormat::Yaml.parse(None, "a: [1, [2, [3\nb: }").unwrap_err();
    assert_eq!(error.kind, ErrorKind::Parse);
    assert_ne!(error.message, "the text nests deeper than is read");
    let unknown = FileFormat::Yaml.parse(None, "a: *nowhere\n").unwrap_err();
    assert_eq!(unknown.kind, ErrorKind::Parse);
}

#[test]
fn walk_of_given_events() {
    let mut walk = Walk::new();
    for step in [
        Step::StreamStart,
        Step::DocumentStart,
        Step::MappingStart(0),
        Step::Scalar(0),
        Step::SequenceStart(7),
        Step::Scalar(0),
        Step::SequenceStart(0),
        Step::SequenceEnd,
    ] {
        walk.step(step);
    }
    assert_eq!(walk.open, vec![(0, 0), (7, 1)]);
    assert_eq!(walk.anchors, vec![]);
    walk.step(Step::SequenceEnd);
    assert_eq!(walk.open, vec![(0, 2)]);
    assert_eq!(walk.anchors, vec![(7, 2)]);
    walk.step(Step::Scalar(0));
    walk.step(Step::Alias(7));
    walk.step(Step::Alias(9));
    assert_eq!(walk.open, vec![(0, 2)]);
    walk.step(Step::SequenceStart(0));
    walk.step(Step::Alias(7));
    walk.step(Step::SequenceEnd);
    assert_eq!(walk.open, vec![(0, 3)]);
    walk.step(Step::MappingEnd);
    walk.step(Step::MappingEnd);
    walk.step(Step::DocumentEnd);
    walk.step(Step::StreamEnd);
    assert_eq!(walk.open, vec![]);
    assert!(!walk.too_deep);
    for _ in 0..128 {
        walk.step(Step::SequenceStart(0));
    }
    assert!(!walk.too_deep);
    walk.step(Step::MappingStart(0));
    assert!(walk.too_deep);
    walk.step(Step::MappingEnd);
    assert!(walk.too_deep);
    assert_eq!(walk.open.len(), 128);
}

#[test]
fn deep_json_and_toml_fail_by_their_parsers() {
    let json = FileFormat::Json.parse(None, &"[".repeat(300_000)).unwrap_err();
    assert_eq!(json.kind, ErrorKind::Parse);
    assert_eq!(json.format, FileFormat::Json);
    let toml = FileFormat::Toml
        .parse(None, &format!("a = {}1{}", "[".repeat(300_000), "]".repeat(300_000)))
        .unwrap_err();
    assert_eq!(toml.kind, ErrorKind::Parse);
    assert_eq!(toml.format, FileFormat::Toml);
    assert!(FileFormat::Json.within_depth(&"[".repeat(300_000)));
}
