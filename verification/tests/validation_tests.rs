//! Tests of the validation engine: the end-to-end scenarios, duplicate
//! name detection, structural completeness, and determinism.

use wdl_ast::kind::SyntaxKind;
use wdl_ast::node::AstNode;
use wdl_ast::tree::SyntaxElement;
use wdl_ast::tree::SyntaxNode;
use wdl_ast::tree::SyntaxToken;
use wdl_ast::v1::Ast;
use wdl_ast::v1::DocumentItem;
use wdl_ast::validation::merge_diagnostics;
use wdl_ast::validation::validate;
use wdl_ast::validation::validate_with_concerns;
use wdl_ast::validation::Diagnostic;
use wdl_ast::validation::Severity;

fn token(kind: SyntaxKind, start: usize, end: usize, text: &str) -> SyntaxElement {
    SyntaxElement::Token(SyntaxToken {
        kind,
        start,
        end,
        text: text.to_string(),
    })
}

fn node(kind: SyntaxKind, start: usize, end: usize, children: Vec<SyntaxElement>) -> SyntaxNode {
    SyntaxNode {
        kind,
        start,
        end,
        children,
    }
}

/// The tree the grammar engine delivers for
/// `"version 1.1\n\ntask t { command <<<>>> }"`.
fn version_and_single_task() -> SyntaxNode {
    let version = node(
        SyntaxKind::VersionStatementNode,
        0,
        11,
        vec![
            token(SyntaxKind::VersionKeyword, 0, 7, "version"),
            token(SyntaxKind::Whitespace, 7, 8, " "),
            token(SyntaxKind::Version, 8, 11, "1.1"),
        ],
    );
    let command = node(
        SyntaxKind::CommandSectionNode,
        22,
        36,
        vec![
            token(SyntaxKind::CommandKeyword, 22, 29, "command"),
            token(SyntaxKind::Whitespace, 29, 30, " "),
            token(SyntaxKind::CommandText, 33, 33, ""),
        ],
    );
    let task = node(
        SyntaxKind::TaskDefinitionNode,
        13,
        38,
        vec![
            token(SyntaxKind::TaskKeyword, 13, 17, "task"),
            token(SyntaxKind::Whitespace, 17, 18, " "),
            token(SyntaxKind::Ident, 18, 19, "t"),
            token(SyntaxKind::Whitespace, 19, 20, " "),
            token(SyntaxKind::OpenBrace, 20, 21, "{"),
            token(SyntaxKind::Whitespace, 21, 22, " "),
            SyntaxElement::Node(command),
            token(SyntaxKind::Whitespace, 36, 37, " "),
            token(SyntaxKind::CloseBrace, 37, 38, "}"),
        ],
    );
    node(
        SyntaxKind::RootNode,
        0,
        38,
        vec![
            SyntaxElement::Node(version),
            token(SyntaxKind::Whitespace, 11, 13, "\n\n"),
            SyntaxElement::Node(task),
        ],
    )
}

fn string_decl(name: &str, start: usize, end: usize) -> SyntaxNode {
    let ty = node(
        SyntaxKind::WdlTypeNode,
        start,
        start + 6,
        vec![token(SyntaxKind::StringTypeKeyword, start, start + 6, "String")],
    );
    node(
        SyntaxKind::UnboundDeclNode,
        start,
        end,
        vec![
            SyntaxElement::Node(ty),
            token(SyntaxKind::Whitespace, start + 6, start + 7, " "),
            token(
                SyntaxKind::Ident,
                start + 7,
                start + 7 + name.len(),
                name,
            ),
        ],
    )
}

/// A task holding the given declarations and one command section.
fn task_with_decls(decls: Vec<SyntaxNode>) -> SyntaxNode {
    let mut children = vec![
        token(SyntaxKind::TaskKeyword, 0, 4, "task"),
        token(SyntaxKind::Whitespace, 4, 5, " "),
        token(SyntaxKind::Ident, 5, 6, "t"),
    ];
    for d in decls {
        children.push(SyntaxElement::Node(d));
    }
    children.push(SyntaxElement::Node(node(
        SyntaxKind::CommandSectionNode,
        80,
        90,
        vec![token(SyntaxKind::CommandText, 84, 86, "")],
    )));
    node(SyntaxKind::TaskDefinitionNode, 0, 99, children)
}

fn root_of(item: SyntaxNode) -> SyntaxNode {
    node(SyntaxKind::RootNode, 0, 99, vec![SyntaxElement::Node(item)])
}

#[test]
fn end_to_end_single_task_is_clean() {
    let ast = Ast::cast(version_and_single_task()).expect("the root must cast to the AST root");
    let items = ast.items();
    assert_eq!(items.len(), 1);
    match &items[0] {
        DocumentItem::Task(task) => {
            assert_eq!(task.name().as_deref(), Some("t"));
        }
        other => panic!("the only item must be a task, not {other:?}"),
    }
    let diagnostics = validate(&ast);
    assert_eq!(diagnostics.len(), 0);
}

#[test]
fn end_to_end_duplicate_names_yield_one_diagnostic_citing_both_spans() {
    let first = string_decl("x", 10, 18);
    let second = string_decl("x", 22, 30);
    let ast = Ast::cast(root_of(task_with_decls(vec![first, second])))
        .expect("the root must cast");
    let diagnostics = validate(&ast);
    let dups: Vec<&Diagnostic> = diagnostics
        .iter()
        .filter(|d| d.rule == "duplicate-name")
        .collect();
    assert_eq!(dups.len(), 1);
    assert_eq!(dups[0].severity, Severity::Error);
    assert_eq!((dups[0].start, dups[0].end), (22, 30));
    assert_eq!(dups[0].related, Some((10, 18)));
    assert_eq!(diagnostics.len(), 1);
}

#[test]
fn unique_names_yield_no_duplicate_name_diagnostic() {
    let first = string_decl("x", 10, 18);
    let second = string_decl("y", 22, 30);
    let ast = Ast::cast(root_of(task_with_decls(vec![first, second])))
        .expect("the root must cast");
    let diagnostics = validate(&ast);
    assert!(diagnostics.iter().all(|d| d.rule != "duplicate-name"));
    assert_eq!(diagnostics.len(), 0);
}

#[test]
fn a_task_without_a_command_section_is_reported() {
    let task = node(
        SyntaxKind::TaskDefinitionNode,
        0,
        20,
        vec![token(SyntaxKind::Ident, 5, 6, "t")],
    );
    let ast = Ast::cast(root_of(task)).expect("the root must cast");
    let diagnostics = validate(&ast);
    assert_eq!(diagnostics.len(), 1);
    assert_eq!(diagnostics[0].rule, "command-count");
}

#[test]
fn a_task_with_two_command_sections_is_reported() {
    let mk = |start: usize| {
        node(
            SyntaxKind::CommandSectionNode,
            start,
            start + 5,
            vec![token(SyntaxKind::CommandText, start + 1, start + 2, "")],
        )
    };
    let task = node(
        SyntaxKind::TaskDefinitionNode,
        0,
        20,
        vec![
            token(SyntaxKind::Ident, 5, 6, "t"),
            SyntaxElement::Node(mk(7)),
            SyntaxElement::Node(mk(13)),
        ],
    );
    let ast = Ast::cast(root_of(task)).expect("the root must cast");
    let diagnostics = validate(&ast);
    assert_eq!(diagnostics.len(), 1);
    assert_eq!(diagnostics[0].rule, "command-count");
}

#[test]
fn a_declaration_with_a_malformed_type_is_reported() {
    let bad_type = node(
        SyntaxKind::WdlTypeNode,
        10,
        22,
        vec![
            token(SyntaxKind::StringTypeKeyword, 10, 16, "String"),
            token(SyntaxKind::IntTypeKeyword, 16, 19, "Int"),
        ],
    );
    let decl = node(
        SyntaxKind::UnboundDeclNode,
        10,
        24,
        vec![
            SyntaxElement::Node(bad_type),
            token(SyntaxKind::Ident, 23, 24, "x"),
        ],
    );
    let ast = Ast::cast(root_of(task_with_decls(vec![]))).expect("the root must cast");
    assert_eq!(validate(&ast).len(), 0);
    let task = task_with_decls(vec![decl]);
    let ast = Ast::cast(root_of(task)).expect("the root must cast");
    let diagnostics = validate(&ast);
    assert_eq!(diagnostics.len(), 1);
    assert_eq!(diagnostics[0].rule, "type-form");
}

#[test]
fn a_declaration_without_a_type_is_reported() {
    let decl = node(
        SyntaxKind::UnboundDeclNode,
        10,
        24,
        vec![token(SyntaxKind::Ident, 23, 24, "x")],
    );
    let ast = Ast::cast(root_of(task_with_decls(vec![decl]))).expect("the root must cast");
    let diagnostics = validate(&ast);
    assert_eq!(diagnostics.len(), 1);
    assert_eq!(diagnostics[0].rule, "type-shape");
}

#[test]
fn validation_is_deterministic() {
    let first = string_decl("x", 10, 18);
    let second = string_decl("x", 22, 30);
    let ast = Ast::cast(root_of(task_with_decls(vec![first, second])))
        .expect("the root must cast");
    let once = validate(&ast);
    let twice = validate(&ast);
    assert_eq!(once, twice);
}

#[test]
fn concerns_merge_by_source_position() {
    let concern = |start: usize| Diagnostic {
        severity: Severity::Warning,
        rule: "lint".to_string(),
        message: "a grammar-level concern".to_string(),
        start,
        end: start + 1,
        related: None,
    };
    let first = string_decl("x", 10, 18);
    let second = string_decl("x", 22, 30);
    let ast = Ast::cast(root_of(task_with_decls(vec![first, second])))
        .expect("the root must cast");
    let concerns = vec![concern(2), concern(90)];
    let merged = validate_with_concerns(&ast, &concerns);
    assert_eq!(merged.len(), 3);
    assert_eq!(merged[0].rule, "lint");
    assert_eq!(merged[1].rule, "duplicate-name");
    assert_eq!(merged[2].rule, "lint");
    let starts: Vec<usize> = merged.iter().map(|d| d.start).collect();
    assert_eq!(starts, vec![2, 22, 90]);
}

#[test]
fn merging_with_nothing_changes_nothing() {
    let ast = Ast::cast(version_and_single_task()).expect("the root must cast");
    let mine = validate(&ast);
    let merged = merge_diagnostics(&mine, &Vec::new());
    assert_eq!(merged, mine);
}
