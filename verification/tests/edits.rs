use jsonc_parser::cst::CstRootNode;
use jsonc_parser::ParseOptions;
use opencode_config::listing::{
    jsonc_parse_options, register_in_text, text_lists_plugin, unregister_in_text, validate_text,
    Removal,
};
use serde_json::Value;

/// Every text of up to `length` of these parts, between a head and a tail.
fn texts(parts: &[&str], length: usize, head: &str, tail: &str) -> Vec<String> {
    let mut bodies = vec![String::new()];
    let mut last = bodies.clone();
    for _ in 0..length {
        let mut longer = Vec::new();
        for body in &last {
            for part in parts {
                longer.push(format!("{}{}", body, part));
            }
        }
        bodies.extend(longer.iter().cloned());
        last = longer;
    }
    bodies.iter().map(|body| format!("{}{}{}", head, body, tail)).collect()
}

/// The parser's options as the library uses them.
fn options() -> ParseOptions {
    let options = jsonc_parse_options();
    ParseOptions {
        allow_comments: options.allow_comments,
        allow_loose_object_property_names: options.allow_loose_object_property_names,
        allow_trailing_commas: options.allow_trailing_commas,
        allow_missing_commas: options.allow_missing_commas,
        allow_single_quoted_strings: options.allow_single_quoted_strings,
        allow_hexadecimal_numbers: options.allow_hexadecimal_numbers,
        allow_unary_plus_numbers: options.allow_unary_plus_numbers,
    }
}

fn value(text: &str) -> Value {
    CstRootNode::parse(text, &options()).unwrap().to_serde_value().unwrap()
}

fn plugins(text: &str) -> Vec<Value> {
    match value(text).get("plugin") {
        Some(list) => list.as_array().unwrap().clone(),
        None => vec![],
    }
}

fn check(text: &str) -> bool {
    if validate_text(text, "p").is_err() {
        assert!(register_in_text(text, "p", "n").is_err());
        assert!(unregister_in_text(text, "p", "s").is_err());
        assert!(!text_lists_plugin(text, "s"));
        return false;
    }
    let before = plugins(text);
    let listed = before.iter().any(|entry| entry == "s" || entry[0] == "s");
    assert_eq!(text_lists_plugin(text, "s"), listed, "{}", text);

    let added = register_in_text(text, "p", "n").unwrap();
    let mut expected = before.clone();
    expected.push(Value::String("n".to_string()));
    assert_eq!(plugins(&added), expected, "{}", text);
    assert!(validate_text(&added, "p").is_ok());
    assert!(text_lists_plugin(&added, "n"));
    assert_eq!(value(&added).get("other"), value(text).get("other"));
    for comment in ["//c", "/*d*/"] {
        assert_eq!(added.matches(comment).count(), text.matches(comment).count(), "{}", text);
    }

    let others: Vec<Value> =
        before.into_iter().filter(|entry| entry != "s" && entry[0] != "s").collect();
    match unregister_in_text(text, "p", "s").unwrap() {
        Removal::Unchanged => assert!(!listed),
        Removal::Deleted => {
            assert!(listed && others.is_empty());
            assert!(value(text).get("other").is_none());
        }
        Removal::Rewritten(left) => {
            assert!(listed);
            assert_eq!(plugins(&left), others, "{}", text);
            assert!(validate_text(&left, "p").is_ok());
            assert!(!text_lists_plugin(&left, "s"));
            assert_eq!(value(&left).get("other"), value(text).get("other"));
        }
    }
    true
}

#[test]
fn edits_of_a_list_read_back() {
    let parts = ["\"s\"", "\"b\",", "[\"s\", 1],", ",", " ", "\n", "//c\n", "/*d*/"];
    let mut sound = 0;
    for text in texts(&parts, 4, "{\"plugin\": [", "], \"other\": [1,]}") {
        sound += usize::from(check(&text));
    }
    assert!(sound > 1000);
}

#[test]
fn edits_of_an_object_read_back() {
    let parts = ["\"plugin\": [\"s\"]", "\"other\": 1,", ",", " ", "\n", "//c\n", "/*d*/"];
    let mut sound = 0;
    for text in texts(&parts, 5, "{", "}") {
        if text.matches("plugin").count() < 2 {
            sound += usize::from(check(&text));
        }
    }
    assert!(sound > 1000);
}

#[test]
fn removal_leaves_no_fault_unless_one_was_covered() {
    match unregister_in_text(r#"{"plugin": ["s", "t"], "plugin": 1}"#, "p", "s").unwrap() {
        Removal::Rewritten(left) => assert!(validate_text(&left, "p").is_ok()),
        _ => panic!(),
    }
    match unregister_in_text(r#"{"plugin": ["s"], "plugin": 1}"#, "p", "s").unwrap() {
        Removal::Rewritten(left) => assert!(validate_text(&left, "p").is_err()),
        _ => panic!(),
    }
}
