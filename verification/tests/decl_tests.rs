//! Tests of declarations: identifier validation, the builder, and
//! assembling a declaration from its node.

use wdl_ast::decl::Builder;
use wdl_ast::decl::BuilderError;
use wdl_ast::decl::Declaration;
use wdl_ast::decl::Identifier;
use wdl_ast::decl::IdentifierError;
use wdl_ast::decl::Kind;
use wdl_ast::decl::Type;
use wdl_ast::decl::TypeError;
use wdl_ast::kind::SyntaxKind;
use wdl_ast::tree::SyntaxElement;
use wdl_ast::tree::SyntaxNode;
use wdl_ast::tree::SyntaxToken;

fn token(kind: SyntaxKind, start: usize, end: usize, text: &str) -> SyntaxElement {
    SyntaxElement::Token(SyntaxToken {
        kind,
        start,
        end,
        text: text.to_string(),
    })
}

fn node(kind: SyntaxKind, start: usize, end: usize, children: Vec<SyntaxElement>) -> SyntaxNode {
    SyntaxNode {
        kind,
        start,
        end,
        children,
    }
}

/// The tree the grammar engine delivers for `"String? hello"`, as an
/// unbound declaration.
fn unbound_declaration_node() -> SyntaxNode {
    let ty = node(
        SyntaxKind::WdlTypeNode,
        0,
        7,
        vec![
            token(SyntaxKind::StringTypeKeyword, 0, 6, "String"),
            token(SyntaxKind::QuestionMark, 6, 7, "?"),
        ],
    );
    node(
        SyntaxKind::UnboundDeclNode,
        0,
        13,
        vec![
            SyntaxElement::Node(ty),
            token(SyntaxKind::Whitespace, 7, 8, " "),
            token(SyntaxKind::Ident, 8, 13, "hello"),
        ],
    )
}

#[test]
fn it_parses_from_a_supported_node_type() {
    let declaration =
        Declaration::try_from_node(&unbound_declaration_node()).expect("the node must parse");
    assert_eq!(declaration.wdl_type().kind(), &Kind::StringType);
    assert!(declaration.wdl_type().optional());
    assert_eq!(declaration.name().as_str(), "hello");
}

#[test]
fn identifiers_accept_words_and_refuse_the_rest() {
    assert!(Identifier::try_from("hello_world".to_string()).is_ok());
    assert!(Identifier::try_from("a1_b2".to_string()).is_ok());
    assert_eq!(
        Identifier::try_from(String::new()),
        Err(IdentifierError::Invalid),
    );
    assert_eq!(
        Identifier::try_from("9lives".to_string()),
        Err(IdentifierError::Invalid),
    );
    assert_eq!(
        Identifier::try_from("has space".to_string()),
        Err(IdentifierError::Invalid),
    );
    assert_eq!(
        Identifier::try_from("_under".to_string()),
        Err(IdentifierError::Invalid),
    );
}

#[test]
fn the_builder_requires_both_fields_once() {
    let name = Identifier::try_from("hello".to_string()).unwrap();
    let ty = Type::new(Kind::Boolean, false);
    let declaration = Builder::default()
        .name(name.clone())
        .unwrap()
        .wdl_type(ty)
        .unwrap()
        .try_build()
        .unwrap();
    assert_eq!(declaration.name().as_str(), "hello");
    assert_eq!(declaration.wdl_type(), &Type::new(Kind::Boolean, false));

    assert_eq!(
        Builder::default().try_build(),
        Err(BuilderError::MissingName),
    );
    assert_eq!(
        Builder::default().name(name.clone()).unwrap().try_build(),
        Err(BuilderError::MissingType),
    );
    assert_eq!(
        Builder::default()
            .name(name.clone())
            .unwrap()
            .name(name.clone()),
        Err(BuilderError::DuplicateName),
    );
    assert_eq!(
        Builder::default()
            .wdl_type(ty)
            .unwrap()
            .wdl_type(Type::new(Kind::Int, true)),
        Err(BuilderError::DuplicateType),
    );
}

#[test]
fn a_type_node_reads_its_kind_and_optionality() {
    let plain = node(
        SyntaxKind::WdlTypeNode,
        0,
        3,
        vec![token(SyntaxKind::IntTypeKeyword, 0, 3, "Int")],
    );
    assert_eq!(Type::try_from_node(&plain), Ok(Type::new(Kind::Int, false)));

    let optional = node(
        SyntaxKind::WdlTypeNode,
        0,
        6,
        vec![
            token(SyntaxKind::FileTypeKeyword, 0, 4, "File"),
            token(SyntaxKind::QuestionMark, 4, 5, "?"),
        ],
    );
    assert_eq!(Type::try_from_node(&optional), Ok(Type::new(Kind::File, true)));

    let empty = node(SyntaxKind::WdlTypeNode, 0, 0, vec![]);
    assert_eq!(Type::try_from_node(&empty), Err(TypeError::Missing));

    let doubled = node(
        SyntaxKind::WdlTypeNode,
        0,
        9,
        vec![
            token(SyntaxKind::IntTypeKeyword, 0, 3, "Int"),
            token(SyntaxKind::FloatTypeKeyword, 3, 8, "Float"),
        ],
    );
    assert_eq!(Type::try_from_node(&doubled), Err(TypeError::Duplicate));

    let alien = node(
        SyntaxKind::WdlTypeNode,
        0,
        1,
        vec![token(SyntaxKind::OpenBrace, 0, 1, "{")],
    );
    assert_eq!(Type::try_from_node(&alien), Err(TypeError::Unexpected));
}

#[test]
fn declaration_errors_render_their_messages() {
    assert_eq!(
        wdl_ast::decl::Error::Builder(BuilderError::MissingName).message(),
        "builder error: a name was never provided",
    );
    assert_eq!(
        wdl_ast::decl::Error::Identifier(IdentifierError::Invalid).message(),
        "identifier error: the text is not a valid identifier",
    );
    assert_eq!(
        wdl_ast::decl::Error::Type(TypeError::Duplicate).message(),
        "wdl type error: more than one primitive type keyword stands in the type",
    );
}

#[test]
fn a_declaration_node_with_an_invalid_name_is_refused() {
    let ty = node(
        SyntaxKind::WdlTypeNode,
        0,
        6,
        vec![token(SyntaxKind::StringTypeKeyword, 0, 6, "String")],
    );
    let bad = node(
        SyntaxKind::UnboundDeclNode,
        0,
        10,
        vec![
            SyntaxElement::Node(ty),
            token(SyntaxKind::Ident, 7, 10, "9ab"),
        ],
    );
    assert_eq!(
        Declaration::try_from_node(&bad),
        Err(wdl_ast::decl::Error::Identifier(IdentifierError::Invalid)),
    );
}
