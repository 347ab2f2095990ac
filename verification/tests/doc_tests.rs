// Tests of the documentation lines and of the decoding of escapes.

use napi_parser::doc::{extract_doc_comments, try_unescape, unescape_unicode};
use napi_parser::span::Span;
use napi_parser::syntax::{Attribute, Ident};
use napi_parser::token::{Lit, Token};

const NOWHERE: Span = Span { lo: 0, hi: 0 };

fn unescaped(s: &str) -> Option<String> {
    try_unescape(s)
}

fn text(s: &str) -> Option<String> {
    Some(s.to_string())
}

fn attribute(path: &[&str], tokens: Vec<Token>) -> Attribute {
    Attribute {
        path: path.iter().map(|p| Ident { text: p.to_string(), span: NOWHERE }).collect(),
        tokens,
        span: NOWHERE,
    }
}

fn literal(s: &str) -> Token {
    Token::Literal { text: s.to_string(), lit: Lit::Other, span: NOWHERE }
}

fn equals() -> Token {
    Token::Punct { ch: '=', joint: false, span: NOWHERE }
}

#[test]
fn unescape_of_nothing() {
    assert_eq!(unescaped(""), text(""));
    assert_eq!(unescaped("\""), text(""));
    assert_eq!(unescaped("\"\""), text(""));
}

#[test]
fn unescape_takes_the_quotes_off() {
    assert_eq!(unescaped("\" hello\""), text(" hello"));
    assert_eq!(unescaped("\"hello"), text("hello"));
    assert_eq!(unescaped("hello\""), text("hello"));
    assert_eq!(unescaped("hello"), text("hello"));
    assert_eq!(unescaped("\"say \"hi\"\""), text("say \"hi\""));
    assert_eq!(unescaped("\"\"\""), text("\""));
    assert_eq!(unescaped("\"\"\"\""), text("\"\""));
    assert_eq!(unescaped("a\"b"), text("a\"b"));
}

#[test]
fn unescape_of_the_one_letter_escapes() {
    assert_eq!(unescaped("\"a\\tb\\rc\\nd\""), text("a\tb\rc\nd"));
    assert_eq!(unescaped("\"\\\\ \\' \\\"x\""), text("\\ ' \"x"));
    assert_eq!(unescaped("\\n"), text("\n"));
    assert_eq!(unescaped("\"x\\\"\""), text("x\""));
    assert_eq!(unescaped("\"x\\\""), text("x"));
}

#[test]
fn unescape_of_unicode_escapes() {
    assert_eq!(unescaped("\"\\u{41}\""), text("A"));
    assert_eq!(unescaped("\"\\u{1f600}!\""), text("\u{1f600}!"));
    assert_eq!(unescaped("\"\\u{1F600}\""), text("\u{1f600}"));
    assert_eq!(unescaped("\"\\u{e9}t\\u{E9}\""), text("\u{e9}t\u{e9}"));
    assert_eq!(unescaped("\"\\u{10ffff}\""), text("\u{10ffff}"));
    assert_eq!(unescaped("\"\\u{000041}\""), text("A"));
    assert_eq!(unescaped("\"\\u{0}\""), text("\0"));
}

#[test]
fn unescape_of_malformed_escapes() {
    for s in [
        "\"\\",
        "\"\\x41\"",
        "\"\\0\"",
        "\"\\u\"",
        "\"\\u41\"",
        "\"\\u{}\"",
        "\"\\u{41\"",
        "\"\\u{41",
        "\"\\u{0000041}\"",
        "\"\\u{110000}\"",
        "\"\\u{d800}\"",
        "\"\\u{dfff}\"",
        "\"\\u{4g}\"",
        "\"\\u{41 }\"",
        "\"\\u{",
    ] {
        assert_eq!(unescaped(s), None, "{}", s);
    }
}

#[test]
fn unicode_escape_is_read_up_to_the_character_after_the_digits() {
    let mut chars = "1F600}rest".chars();
    assert_eq!(unescape_unicode(&mut chars), Some(('\u{1F600}', '}')));
    assert_eq!(chars.as_str(), "rest");
    let mut chars = "aB!".chars();
    assert_eq!(unescape_unicode(&mut chars), Some(('\u{ab}', '!')));
    assert_eq!(chars.as_str(), "");
    let mut chars = "10FFFFx".chars();
    assert_eq!(unescape_unicode(&mut chars), Some(('\u{10FFFF}', 'x')));
    let mut chars = "d7ff}".chars();
    assert_eq!(unescape_unicode(&mut chars), Some(('\u{d7ff}', '}')));
    let mut chars = "e000}".chars();
    assert_eq!(unescape_unicode(&mut chars), Some(('\u{e000}', '}')));
}

#[test]
fn unicode_escape_that_is_none() {
    let mut chars = "}abc".chars();
    assert_eq!(unescape_unicode(&mut chars), None);
    assert_eq!(chars.as_str(), "abc");
    let mut chars = "".chars();
    assert_eq!(unescape_unicode(&mut chars), None);
    let mut chars = "12".chars();
    assert_eq!(unescape_unicode(&mut chars), None);
    assert_eq!(chars.as_str(), "");
    let mut chars = "1234567}".chars();
    assert_eq!(unescape_unicode(&mut chars), None);
    assert_eq!(chars.as_str(), "}");
    let mut chars = "D800}x".chars();
    assert_eq!(unescape_unicode(&mut chars), None);
    assert_eq!(chars.as_str(), "x");
    let mut chars = "110000}".chars();
    assert_eq!(unescape_unicode(&mut chars), None);
}

#[test]
fn documentation_lines_of_attributes() {
    let attrs = vec![
        attribute(&["doc"], vec![equals(), literal("\" First.\"")]),
        attribute(&["derive"], vec![literal("\"no\"")]),
        attribute(&["doc"], vec![equals(), literal("\" a\\tb\""), literal("\"c\"")]),
        attribute(&["cfg_attr", "doc"], vec![literal("\"inner\"")]),
        attribute(&["doc"], vec![]),
        attribute(&[], vec![literal("\"pathless\"")]),
    ];
    assert_eq!(
        extract_doc_comments(&attrs),
        vec![" First.".to_string(), " a\tb".to_string(), "c".to_string(), "inner".to_string()]
    );
    assert!(extract_doc_comments(&Vec::new()).is_empty());
}

#[test]
fn documentation_line_with_a_malformed_escape_is_left_out() {
    let attrs = vec![attribute(
        &["doc"],
        vec![literal("\"good\""), literal("\"bad \\q\""), literal("\"\\u{zz}\""), literal("\"more\"")],
    )];
    assert_eq!(extract_doc_comments(&attrs), vec!["good".to_string(), "more".to_string()]);
}

#[test]
fn documentation_lines_are_literals_only() {
    let attrs = vec![attribute(
        &["doc"],
        vec![
            Token::Ident { text: "hidden".to_string(), span: NOWHERE },
            Token::Group {
                delimiter: napi_parser::token::Delimiter::Parenthesis,
                tokens: vec![literal("\"nested\"")],
                span: NOWHERE,
            },
            literal("42"),
        ],
    )];
    assert_eq!(extract_doc_comments(&attrs), vec!["42".to_string()]);
}
