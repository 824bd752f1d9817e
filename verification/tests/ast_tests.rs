//! Tests of the typed AST facade: casting, typed child iteration, and
//! traversal order.

use wdl_ast::kind::SyntaxKind;
use wdl_ast::node::AstNode;
use wdl_ast::node::typed_children;
use wdl_ast::trace::TraceVisitor;
use wdl_ast::tree::SyntaxElement;
use wdl_ast::tree::SyntaxNode;
use wdl_ast::tree::SyntaxToken;
use wdl_ast::v1::Ast;
use wdl_ast::v1::DocumentItem;
use wdl_ast::v1::ImportStatement;
use wdl_ast::v1::StructDefinition;
use wdl_ast::v1::TaskDefinition;
use wdl_ast::v1::WorkflowDefinition;

fn token(kind: SyntaxKind, start: usize, end: usize, text: &str) -> SyntaxElement {
    SyntaxElement::Token(SyntaxToken {
        kind,
        start,
        end,
        text: text.to_string(),
    })
}

fn node(kind: SyntaxKind, start: usize, end: usize, children: Vec<SyntaxElement>) -> SyntaxNode {
    SyntaxNode {
        kind,
        start,
        end,
        children,
    }
}

fn named_task(name: &str, start: usize, end: usize) -> SyntaxNode {
    node(
        SyntaxKind::TaskDefinitionNode,
        start,
        end,
        vec![
            token(SyntaxKind::TaskKeyword, start, start + 4, "task"),
            token(SyntaxKind::Whitespace, start + 4, start + 5, " "),
            token(SyntaxKind::Ident, start + 5, start + 5 + name.len(), name),
        ],
    )
}

#[test]
fn cast_accepts_exactly_one_document_item_variant() {
    let all_kinds = [
        SyntaxKind::RootNode,
        SyntaxKind::VersionStatementNode,
        SyntaxKind::ImportStatementNode,
        SyntaxKind::StructDefinitionNode,
        SyntaxKind::TaskDefinitionNode,
        SyntaxKind::WorkflowDefinitionNode,
        SyntaxKind::CommandSectionNode,
        SyntaxKind::UnboundDeclNode,
        SyntaxKind::BoundDeclNode,
        SyntaxKind::WdlTypeNode,
        SyntaxKind::Ident,
        SyntaxKind::Whitespace,
    ];
    for kind in all_kinds {
        let accepting = [
            ImportStatement::can_cast(kind),
            StructDefinition::can_cast(kind),
            TaskDefinition::can_cast(kind),
            WorkflowDefinition::can_cast(kind),
        ]
        .iter()
        .filter(|a| **a)
        .count();
        if DocumentItem::can_cast(kind) {
            assert_eq!(accepting, 1, "kind {kind:?} must match exactly one variant");
        } else {
            assert_eq!(accepting, 0, "kind {kind:?} must match no variant");
        }
    }
}

#[test]
fn cast_round_trip_recovers_an_equal_value() {
    let task = named_task("t", 0, 11);
    let wrapped = TaskDefinition::cast(task).expect("a task node must cast");
    let again = TaskDefinition::cast(wrapped.syntax().duplicate());
    assert_eq!(again, Some(wrapped));
}

#[test]
fn cast_refuses_a_mismatched_kind() {
    let task = named_task("t", 0, 11);
    assert_eq!(ImportStatement::cast(task), None);
}

#[test]
fn typed_children_keep_document_order_and_skip_other_kinds() {
    let root = node(
        SyntaxKind::RootNode,
        0,
        100,
        vec![
            SyntaxElement::Node(named_task("first", 0, 10)),
            SyntaxElement::Node(node(SyntaxKind::ImportStatementNode, 10, 20, vec![])),
            SyntaxElement::Node(named_task("second", 20, 30)),
            token(SyntaxKind::Whitespace, 30, 31, " "),
            SyntaxElement::Node(node(SyntaxKind::WorkflowDefinitionNode, 31, 40, vec![])),
            SyntaxElement::Node(named_task("third", 40, 50)),
        ],
    );
    let tasks: Vec<TaskDefinition> = typed_children(&root);
    let names: Vec<String> = tasks.iter().map(|t| t.name().unwrap()).collect();
    assert_eq!(names, vec!["first", "second", "third"]);
}

#[test]
fn accessors_rescan_and_repeat() {
    let root = node(
        SyntaxKind::RootNode,
        0,
        30,
        vec![SyntaxElement::Node(named_task("only", 0, 9))],
    );
    let ast = Ast::cast(root).expect("the root must cast");
    assert_eq!(ast.tasks().len(), 1);
    assert_eq!(ast.tasks().len(), 1);
    assert_eq!(ast.items().len(), 1);
}

#[test]
fn rendering_writes_kinds_spans_and_nesting() {
    let decl = node(
        SyntaxKind::UnboundDeclNode,
        0,
        13,
        vec![token(SyntaxKind::Ident, 8, 13, "hello")],
    );
    let rendered = wdl_ast::render::write_document(&decl);
    assert_eq!(
        rendered,
        "UnboundDeclNode(0, 13, [\n  Ident(8, 13),\n])\n",
    );
    let wide = node(SyntaxKind::WdlTypeNode, 123, 4567, vec![]);
    assert_eq!(wdl_ast::render::write_document(&wide), "WdlTypeNode(123, 4567)\n");
}

#[test]
fn traversal_is_preorder_over_document_items() {
    let root = node(
        SyntaxKind::RootNode,
        0,
        30,
        vec![
            SyntaxElement::Node(node(SyntaxKind::ImportStatementNode, 0, 10, vec![])),
            SyntaxElement::Node(node(SyntaxKind::StructDefinitionNode, 10, 20, vec![])),
            SyntaxElement::Node(node(SyntaxKind::TaskDefinitionNode, 20, 30, vec![])),
        ],
    );
    let ast = Ast::cast(root).expect("the root must cast");
    let mut events = Vec::new();
    let mut visitor = TraceVisitor;
    ast.visit(&mut events, &mut visitor);
    let summary: Vec<(bool, SyntaxKind)> = events.iter().map(|e| (e.enter, e.kind)).collect();
    assert_eq!(
        summary,
        vec![
            (true, SyntaxKind::RootNode),
            (true, SyntaxKind::ImportStatementNode),
            (false, SyntaxKind::ImportStatementNode),
            (true, SyntaxKind::StructDefinitionNode),
            (false, SyntaxKind::StructDefinitionNode),
            (true, SyntaxKind::TaskDefinitionNode),
            (false, SyntaxKind::TaskDefinitionNode),
            (false, SyntaxKind::RootNode),
        ],
    );
}

#[test]
fn traversal_recurses_only_after_the_parent_callback() {
    let inner = node(SyntaxKind::CommandSectionNode, 5, 9, vec![]);
    let task = node(
        SyntaxKind::TaskDefinitionNode,
        0,
        10,
        vec![SyntaxElement::Node(inner)],
    );
    let root = node(SyntaxKind::RootNode, 0, 10, vec![SyntaxElement::Node(task)]);
    let ast = Ast::cast(root).expect("the root must cast");
    let mut events = Vec::new();
    let mut visitor = TraceVisitor;
    ast.visit(&mut events, &mut visitor);
    let summary: Vec<(bool, SyntaxKind)> = events.iter().map(|e| (e.enter, e.kind)).collect();
    assert_eq!(
        summary,
        vec![
            (true, SyntaxKind::RootNode),
            (true, SyntaxKind::TaskDefinitionNode),
            (true, SyntaxKind::CommandSectionNode),
            (false, SyntaxKind::CommandSectionNode),
            (false, SyntaxKind::TaskDefinitionNode),
            (false, SyntaxKind::RootNode),
        ],
    );
}
