//! The kind taxonomy: one closed enumeration identifying the syntactic
//! category of every element of the concrete syntax tree.
//!
//! Kinds partition into node kinds (composite elements with children) and
//! token kinds (terminal elements backed by source text).

use vstd::prelude::*;

verus! {

/// The syntactic category of a tree element.
///
/// Every node and every token carries exactly one kind.
#[derive(Clone, Copy, Debug, PartialEq, Eq, Structural, Hash)]
pub enum SyntaxKind {
    /// The root of a document.
    RootNode,
    /// A `version` statement.
    VersionStatementNode,
    /// An `import` statement.
    ImportStatementNode,
    /// A `struct` definition.
    StructDefinitionNode,
    /// A `task` definition.
    TaskDefinitionNode,
    /// A `workflow` definition.
    WorkflowDefinitionNode,
    /// A `command` section of a task.
    CommandSectionNode,
    /// An unbound declaration (a type and a name, no value).
    UnboundDeclNode,
    /// A bound declaration (a type, a name, and a value).
    BoundDeclNode,
    /// A WDL type descriptor.
    WdlTypeNode,
    /// A literal expression.
    LiteralExprNode,
    /// A name-reference expression.
    NameRefExprNode,
    /// A `call` statement of a workflow.
    CallStatementNode,
    /// An identifier token.
    Ident,
    /// A version token, such as `1.1`.
    Version,
    /// A literal string token.
    LiteralString,
    /// The `version` keyword.
    VersionKeyword,
    /// The `import` keyword.
    ImportKeyword,
    /// The `struct` keyword.
    StructKeyword,
    /// The `task` keyword.
    TaskKeyword,
    /// The `workflow` keyword.
    WorkflowKeyword,
    /// The `command` keyword.
    CommandKeyword,
    /// The `call` keyword.
    CallKeyword,
    /// The `Boolean` type keyword.
    BooleanTypeKeyword,
    /// The `Int` type keyword.
    IntTypeKeyword,
    /// The `Float` type keyword.
    FloatTypeKeyword,
    /// The `String` type keyword.
    StringTypeKeyword,
    /// The `File` type keyword.
    FileTypeKeyword,
    /// The `?` optionality marker.
    QuestionMark,
    /// The `=` assignment token.
    Assignment,
    /// An opening brace.
    OpenBrace,
    /// A closing brace.
    CloseBrace,
    /// The text of a command section.
    CommandText,
    /// A run of whitespace.
    Whitespace,
    /// A comment.
    Comment,
}

/// Holds of the kinds that tag composite elements: elements with children.
pub open spec fn is_node_kind(kind: SyntaxKind) -> bool {
    kind == SyntaxKind::RootNode || kind == SyntaxKind::VersionStatementNode
        || kind == SyntaxKind::ImportStatementNode || kind == SyntaxKind::StructDefinitionNode
        || kind == SyntaxKind::TaskDefinitionNode || kind == SyntaxKind::WorkflowDefinitionNode
        || kind == SyntaxKind::CommandSectionNode || kind == SyntaxKind::UnboundDeclNode
        || kind == SyntaxKind::BoundDeclNode || kind == SyntaxKind::WdlTypeNode
        || kind == SyntaxKind::LiteralExprNode || kind == SyntaxKind::NameRefExprNode
        || kind == SyntaxKind::CallStatementNode
}

/// Holds of the kinds that tag terminal elements: tokens backed by text.
pub open spec fn is_token_kind(kind: SyntaxKind) -> bool {
    !is_node_kind(kind)
}

} // verus!
