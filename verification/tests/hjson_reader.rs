use config_format::format::FileFormat;
use config_format::tree::to_value;
use config_format::value::ConfigValue;

fn depth(value: &ConfigValue) -> usize {
    match value {
        ConfigValue::Array(items) => 1 + items.iter().map(depth).max().unwrap_or(0),
        ConfigValue::Table(table) => {
            1 + (0..table.len()).map(|i| depth(table.value_at(i))).max().unwrap_or(0)
        }
        _ => 0,
    }
}

const ALPHABET: [char; 36] = [
    '[', ']', '{', '}', ',', ':', '"', '\'', '#', '/', '*', '\n', ' ', 'a', '1', '-', '.', 'e',
    't', 'r', 'u', '0', '\\', '\r', '\t', 'n', 'l', 'f', 's', '9', '\u{a0}', '\u{b}', '\0',
    '\u{e9}', '\u{2003}', 'E',
];

fn snippets(seed: u64, count: usize) -> Vec<String> {
    let mut state = seed;
    let mut next = move || {
        state = state.wrapping_mul(6364136223846793005).wrapping_add(1442695040888963407);
        (state >> 33) as usize
    };
    (0..count)
        .map(|_| {
            let length = 1 + next() % 12;
            (0..length).map(|_| ALPHABET[next() % ALPHABET.len()]).collect()
        })
        .collect()
}

fn agrees_with_the_parser(text: &str, snippet: &str) -> bool {
    match serde_hjson::from_str::<serde_hjson::Value>(text) {
        Ok(value) => {
            let fits = depth(&to_value(&value)) <= 256;
            assert_eq!(FileFormat::Hjson.within_depth(text), fits, "{:?}", snippet);
            true
        }
        Err(_) => false,
    }
}

#[test]
fn reader_agrees_with_the_parser_on_values_at_the_limit() {
    let mut read = 0;
    let mut deep = 0;
    for snippet in snippets(1, 30_000) {
        let text = format!("{{\na:\n{}{}\n{}}}\n", "[\n".repeat(255), snippet, "]\n".repeat(255));
        if agrees_with_the_parser(&text, &snippet) {
            read += 1;
            if !FileFormat::Hjson.within_depth(&text) {
                deep += 1;
            }
        }
    }
    assert!(read > 1_000, "{}", read);
    assert!(deep > 10, "{}", deep);
}

#[test]
fn reader_agrees_with_the_parser_on_keys_at_the_limit() {
    let mut read = 0;
    let mut deep = 0;
    let given = ["b:[1]", "b:{}", "\"b\":[]", "b:1,c:[\n]", "b:[],c:x]", "b:\n{\n}"];
    for snippet in snippets(2, 30_000).into_iter().chain(given.map(String::from)) {
        let text = format!("{}{}\n{}", "a:{\n".repeat(255), snippet, "}\n".repeat(255));
        if agrees_with_the_parser(&text, &snippet) {
            read += 1;
            if !FileFormat::Hjson.within_depth(&text) {
                deep += 1;
            }
        }
    }
    assert!(read > 50, "{}", read);
    assert!(deep > 3, "{}", deep);
}

#[test]
fn reader_agrees_with_the_parser_on_whole_texts() {
    let mut read = 0;
    for snippet in snippets(3, 30_000) {
        if agrees_with_the_parser(&snippet, &snippet) {
            read += 1;
        }
        let text = format!("{}{}", "[".repeat(256), snippet);
        agrees_with_the_parser(&text, &snippet);
        let text = format!("{}{}{}", "[".repeat(256), snippet, "]".repeat(256));
        agrees_with_the_parser(&text, &snippet);
    }
    assert!(read > 1_000, "{}", read);
}
