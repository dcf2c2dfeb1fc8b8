use request::render::{indent, pretty, pretty_colored, render_plain, role_color};
use request::scan::{format_json, Frame, Role, Token};

fn scalar(role: Role, indent: usize, text: &str) -> Token {
    Token::Scalar { role, indent, text: text.to_string() }
}

#[test]
fn key_and_bare_value_are_classified() {
    let tokens = format_json("{\"a\":1}");
    assert_eq!(
        tokens,
        vec![
            Token::Open { indent: 0, frame: Frame::Object },
            scalar(Role::Key, 1, "a"),
            scalar(Role::Word, 0, "1"),
            Token::Close { indent: 0, frame: Frame::Object },
        ]
    );
    assert_eq!(pretty("{\"a\":1}"), "{\n  \"a\": 1\n}");
}

#[test]
fn array_elements_are_indented_one_level() {
    let tokens = format_json("[1,2,3]");
    assert_eq!(
        tokens,
        vec![
            Token::Open { indent: 0, frame: Frame::Array },
            scalar(Role::Word, 1, "1"),
            Token::Comma,
            scalar(Role::Word, 1, "2"),
            Token::Comma,
            scalar(Role::Word, 1, "3"),
            Token::Close { indent: 0, frame: Frame::Array },
        ]
    );
    assert_eq!(pretty("[1,2,3]"), "[\n  1,\n  2,\n  3\n]");
}

#[test]
fn nested_object_formats_as_expected() {
    let out = pretty("{\"name\":\"zs\",\"age\":18,\"tags\":[\"a\",\"b\"]}");
    assert_eq!(
        out,
        "{\n  \"name\": \"zs\",\n  \"age\": 18,\n  \"tags\": [\n    \"a\",\n    \"b\"\n  ]\n}"
    );
}

#[test]
fn empty_array_has_no_value_line() {
    let tokens = format_json("{\"a\":[]}");
    assert_eq!(
        tokens,
        vec![
            Token::Open { indent: 0, frame: Frame::Object },
            scalar(Role::Key, 1, "a"),
            Token::Open { indent: 0, frame: Frame::Array },
            Token::Close { indent: 1, frame: Frame::Array },
            Token::Close { indent: 0, frame: Frame::Object },
        ]
    );
    assert_eq!(pretty("{\"a\":[]}"), "{\n  \"a\": [\n\n  ]\n}");
}

#[test]
fn escaped_quote_stays_inside_string() {
    let tokens = format_json("{\"k\":\"a\\\"b,c\"}");
    assert_eq!(
        tokens,
        vec![
            Token::Open { indent: 0, frame: Frame::Object },
            scalar(Role::Key, 1, "k"),
            scalar(Role::Str, 0, "a\\\"b,c"),
            Token::Close { indent: 0, frame: Frame::Object },
        ]
    );
}

#[test]
fn flat_object_keys_are_indented_twice_depth() {
    let out = pretty("{\"a\":true,\"b\":null}");
    assert_eq!(out, "{\n  \"a\": true,\n  \"b\": null\n}");
}

#[test]
fn nested_array_elements_follow_depth() {
    let out = pretty("[[1],{\"x\":\"y\"}]");
    assert_eq!(out, "[\n  [\n    1\n  ],\n  {\n    \"x\": \"y\"\n  }\n]");
}

#[test]
fn delimiters_are_kept() {
    let input = "{\"a\":[{\"b\":[1,2]},{}],\"c\":\"{[]}\"}";
    let out = pretty(input);
    let count = |s: &str, c: char| s.chars().filter(|x| *x == c).count();
    for c in ['{', '}', '[', ']'] {
        assert_eq!(count(&out, c), count(input, c));
    }
    let tokens = format_json(input);
    let opens = tokens.iter().filter(|t| matches!(t, Token::Open { .. })).count();
    let closes = tokens.iter().filter(|t| matches!(t, Token::Close { .. })).count();
    assert_eq!(opens, 5);
    assert_eq!(closes, 5);
}

#[test]
fn whitespace_outside_strings_is_dropped() {
    let out = pretty("{ \"a\" : \"b c\" ,\r\n \"d\" : 2 }");
    assert_eq!(out, "{\n  \"a\": \"b c\",\n  \"d\": 2\n}");
}

#[test]
fn empty_string_value_is_kept() {
    assert_eq!(pretty("{\"a\":\"\"}"), "{\n  \"a\": \"\"\n}");
    assert_eq!(pretty("[\"\"]"), "[\n  \"\"\n]");
}

#[test]
fn empty_input_yields_nothing() {
    assert!(format_json("").is_empty());
    assert_eq!(pretty(""), "");
}

#[test]
fn unmatched_close_does_not_panic() {
    assert_eq!(pretty("]}"), "\n]\n}");
}

#[test]
fn multibyte_characters_are_kept_whole() {
    assert_eq!(pretty("{\"名\":\"值é\"}"), "{\n  \"名\": \"值é\"\n}");
}

#[test]
fn indent_is_two_spaces_per_level() {
    assert_eq!(indent(0), "");
    assert_eq!(indent(3), "      ");
}

#[test]
fn render_plain_joins_token_texts() {
    let tokens = vec![
        Token::Open { indent: 1, frame: Frame::Array },
        scalar(Role::Str, 2, "x"),
        Token::Comma,
        Token::Close { indent: 1, frame: Frame::Array },
    ];
    assert_eq!(render_plain(&tokens), "  [\n    \"x\",\n\n  ]");
}

#[test]
fn role_colors() {
    assert_eq!(role_color(Role::Key), (224, 108, 117));
    assert_eq!(role_color(Role::Str), (152, 195, 121));
    assert_eq!(role_color(Role::Word), (209, 154, 102));
}

#[test]
fn colored_output_wraps_scalars() {
    colored::control::set_override(true);
    let out = pretty_colored("{\"a\":1}");
    assert_ne!(out, pretty("{\"a\":1}"));
    assert!(out.starts_with("{\n  \u{1b}["));
    assert!(out.contains("m\"a\": \u{1b}[0m\u{1b}["));
    assert!(out.ends_with("m1\u{1b}[0m\n}"));
}

#[test]
fn delimiters_keep_their_order() {
    let input = "{\"a\":[{\"b\":\"]\"},[]],\"c\":{}}";
    let shown: String = format_json(input)
        .iter()
        .filter_map(|t| match t {
            Token::Open { frame: Frame::Object, .. } => Some('{'),
            Token::Open { frame: Frame::Array, .. } => Some('['),
            Token::Close { frame: Frame::Object, .. } => Some('}'),
            Token::Close { frame: Frame::Array, .. } => Some(']'),
            _ => None,
        })
        .collect();
    assert_eq!(shown, "{[{}[]]{}}");
}
