//! Tests of repository identifiers: parsing, splitting, and rendering.

use wdl_ast::repository::Error;
use wdl_ast::repository::Identifier;
use wdl_ast::repository::ParseError;

#[test]
fn from_str_splits_organization_and_name() {
    let id = Identifier::from_str("acme/tools").expect("one separator must parse");
    assert_eq!(id.organization(), "acme");
    assert_eq!(id.name(), "tools");
}

#[test]
fn from_str_refuses_text_without_a_separator() {
    match Identifier::from_str("acme") {
        Err(Error::Parse(ParseError::InvalidFormat(v))) => assert_eq!(v, "acme"),
        other => panic!("expected an invalid-format error, got {other:?}"),
    }
}

#[test]
fn from_str_refuses_text_with_two_separators() {
    match Identifier::from_str("a/b/c") {
        Err(Error::Parse(ParseError::InvalidFormat(v))) => assert_eq!(v, "a/b/c"),
        other => panic!("expected an invalid-format error, got {other:?}"),
    }
}

#[test]
fn from_str_accepts_empty_halves() {
    let id = Identifier::from_str("/").expect("one separator must parse");
    assert_eq!(id.organization(), "");
    assert_eq!(id.name(), "");
}

#[test]
fn from_split_takes_the_first_separator() {
    let id = Identifier::from_split("a/b/c").expect("a separator stands in the text");
    assert_eq!(id.organization(), "a");
    assert_eq!(id.name(), "b/c");
    assert_eq!(Identifier::from_split("abc"), None);
}

#[test]
fn display_joins_with_the_separator() {
    let id = Identifier::from_str("acme/tools").unwrap();
    assert_eq!(id.display_string(), "acme/tools");
}

#[test]
fn errors_render_their_messages() {
    let err = Identifier::from_str("nope").unwrap_err();
    assert_eq!(err.message(), "parse error: invalid format: nope");
    let parse = ParseError::InvalidFormat("nope".to_string());
    assert_eq!(parse.message(), "invalid format: nope");
}

#[test]
fn identifiers_order_and_compare_by_fields() {
    let a = Identifier::from_str("acme/a").unwrap();
    let b = Identifier::from_str("acme/b").unwrap();
    assert!(a < b);
    assert_eq!(a.clone(), a);
}
