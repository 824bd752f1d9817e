//! The typed AST catalog for a 1.x WDL document.
//!
//! Every type here is a thin wrapper over one [`SyntaxNode`], constructed
//! only by casting, and every accessor is either typed child iteration or a
//! search for a singular child.

use vstd::prelude::*;

use crate::kind::SyntaxKind;
use crate::node::AstNode;
use crate::node::typed_child_views;
use crate::node::typed_children;
use crate::tree::ElementView;
use crate::tree::NodeView;
use crate::tree::SyntaxElement;
use crate::tree::SyntaxNode;
use crate::tree::element_view;
use crate::tree::elements_view;
use crate::tree::lemma_elements_view;

verus! {

/// The text of the first token of the given kind among the modeled
/// children, in document order; `None` where no such token stands.
pub open spec fn spec_first_token_text(children: Seq<ElementView>, kind: SyntaxKind) -> Option<
    Seq<char>,
>
    decreases children,
{
    if children.len() == 0 {
        None
    } else {
        match children.first() {
            ElementView::Token(t) => if t.kind == kind {
                Some(t.text)
            } else {
                spec_first_token_text(children.drop_first(), kind)
            },
            ElementView::Node(_) => spec_first_token_text(children.drop_first(), kind),
        }
    }
}

/// Returns the text of the first token of the given kind among the direct
/// children of `parent`, in document order.
pub fn first_token_text(parent: &SyntaxNode, kind: SyntaxKind) -> (r: Option<String>)
    ensures
        match r {
            Some(s) => spec_first_token_text(parent@.children, kind) == Some(s@),
            None => spec_first_token_text(parent@.children, kind) is None,
        },
{
    let kids = parent.children();
    let n = kids.len();
    proof {
        lemma_elements_view(kids@);
        assert(parent@.children.skip(0) =~= parent@.children);
    }
    for i in 0..n
        invariant
            n == kids@.len(),
            elements_view(kids@) == parent@.children,
            spec_first_token_text(parent@.children, kind) == spec_first_token_text(
                parent@.children.skip(i as int),
                kind,
            ),
    {
        proof {
            lemma_elements_view(kids@);
            let rest = parent@.children.skip(i as int);
            assert(rest.first() == element_view(kids@[i as int]));
            assert(rest.drop_first() =~= parent@.children.skip(i + 1));
        }
        match &kids[i] {
            SyntaxElement::Token(t) => {
                if t.kind() == kind {
                    return Some(t.text().to_owned());
                }
            },
            SyntaxElement::Node(_) => {},
        }
    }
    proof {
        assert(parent@.children.skip(n as int) =~= Seq::<ElementView>::empty());
    }
    None
}

/// Yields the first child of `parent` that casts to `T`, in document
/// order; `None` where the parent has no such child.
pub fn first_typed_child<T: AstNode>(parent: &SyntaxNode) -> (r: Option<T>)
    ensures
        match r {
            Some(w) => typed_child_views::<T>(parent@.children).len() > 0 && w.wf() && w.nv()
                == typed_child_views::<T>(parent@.children)[0],
            None => typed_child_views::<T>(parent@.children).len() == 0,
        },
{
    let mut all: Vec<T> = typed_children::<T>(parent);
    if all.len() > 0 {
        Some(all.remove(0))
    } else {
        None
    }
}

/// A WDL 1.x abstract syntax tree: the typed facade over the root node of
/// a document's concrete syntax tree.
#[derive(Debug, PartialEq, Eq)]
pub struct Ast(pub SyntaxNode);

impl AstNode for Ast {
    open spec fn accepts(kind: SyntaxKind) -> bool {
        kind == SyntaxKind::RootNode
    }

    open spec fn nv(self) -> NodeView {
        self.0@
    }

    open spec fn wf(self) -> bool {
        Self::accepts(self.0@.kind)
    }

    open spec fn spec_cast(node: SyntaxNode) -> Option<Ast> {
        if node@.kind == SyntaxKind::RootNode {
            Some(Ast(node))
        } else {
            None
        }
    }

    proof fn lemma_cast_properties(node: SyntaxNode) {
    }

    proof fn lemma_wf_accepts(self) {
    }

    fn can_cast(kind: SyntaxKind) -> (r: bool) {
        matches!(kind, SyntaxKind::RootNode)
    }

    fn cast(node: SyntaxNode) -> (r: Option<Ast>) {
        match node.kind() {
            SyntaxKind::RootNode => Some(Ast(node)),
            _ => None,
        }
    }

    fn syntax(&self) -> (r: &SyntaxNode) {
        &self.0
    }
}

impl Ast {
    /// Yields all of the document items of the AST, in document order.
    pub fn items(&self) -> (r: Vec<DocumentItem>)
        ensures
            r@.len() == typed_child_views::<DocumentItem>(self.nv().children).len(),
            forall|i: int|
                0 <= i < r@.len() ==> (#[trigger] r@[i]).wf() && r@[i].nv() == typed_child_views::<
                    DocumentItem,
                >(self.nv().children)[i],
    {
        typed_children(&self.0)
    }

    /// Yields the import statements of the AST, in document order.
    pub fn imports(&self) -> (r: Vec<ImportStatement>)
        ensures
            r@.len() == typed_child_views::<ImportStatement>(self.nv().children).len(),
            forall|i: int|
                0 <= i < r@.len() ==> (#[trigger] r@[i]).wf() && r@[i].nv() == typed_child_views::<
                    ImportStatement,
                >(self.nv().children)[i],
    {
        typed_children(&self.0)
    }

    /// Yields the struct definitions of the AST, in document order.
    pub fn structs(&self) -> (r: Vec<StructDefinition>)
        ensures
            r@.len() == typed_child_views::<StructDefinition>(self.nv().children).len(),
            forall|i: int|
                0 <= i < r@.len() ==> (#[trigger] r@[i]).wf() && r@[i].nv() == typed_child_views::<
                    StructDefinition,
                >(self.nv().children)[i],
    {
        typed_children(&self.0)
    }

    /// Yields the task definitions of the AST, in document order.
    pub fn tasks(&self) -> (r: Vec<TaskDefinition>)
        ensures
            r@.len() == typed_child_views::<TaskDefinition>(self.nv().children).len(),
            forall|i: int|
                0 <= i < r@.len() ==> (#[trigger] r@[i]).wf() && r@[i].nv() == typed_child_views::<
                    TaskDefinition,
                >(self.nv().children)[i],
    {
        typed_children(&self.0)
    }

    /// Yields the workflow definitions of the AST, in document order.
    pub fn workflows(&self) -> (r: Vec<WorkflowDefinition>)
        ensures
            r@.len() == typed_child_views::<WorkflowDefinition>(self.nv().children).len(),
            forall|i: int|
                0 <= i < r@.len() ==> (#[trigger] r@[i]).wf() && r@[i].nv() == typed_child_views::<
                    WorkflowDefinition,
                >(self.nv().children)[i],
    {
        typed_children(&self.0)
    }

    /// The version statement of the document, where one stands.
    pub fn version_statement(&self) -> (r: Option<VersionStatement>)
        ensures
            match r {
                Some(w) => typed_child_views::<VersionStatement>(self.nv().children).len() > 0
                    && w.wf() && w.nv() == typed_child_views::<VersionStatement>(
                    self.nv().children,
                )[0],
                None => typed_child_views::<VersionStatement>(self.nv().children).len() == 0,
            },
    {
        first_typed_child(&self.0)
    }
}

/// A document item: the sum over the constructs that may stand at the top
/// level of a document. The active variant is determined solely by the
/// underlying node's kind, recomputed on every cast.
#[derive(Debug, PartialEq, Eq)]
pub enum DocumentItem {
    /// The item is an import statement.
    Import(ImportStatement),
    /// The item is a struct definition.
    Struct(StructDefinition),
    /// The item is a task definition.
    Task(TaskDefinition),
    /// The item is a workflow definition.
    Workflow(WorkflowDefinition),
}

impl AstNode for DocumentItem {
    open spec fn accepts(kind: SyntaxKind) -> bool {
        kind == SyntaxKind::ImportStatementNode || kind == SyntaxKind::StructDefinitionNode
            || kind == SyntaxKind::TaskDefinitionNode || kind == SyntaxKind::WorkflowDefinitionNode
    }

    open spec fn nv(self) -> NodeView {
        match self {
            DocumentItem::Import(i) => i.0@,
            DocumentItem::Struct(s) => s.0@,
            DocumentItem::Task(t) => t.0@,
            DocumentItem::Workflow(w) => w.0@,
        }
    }

    open spec fn wf(self) -> bool {
        match self {
            DocumentItem::Import(i) => i.0@.kind == SyntaxKind::ImportStatementNode,
            DocumentItem::Struct(s) => s.0@.kind == SyntaxKind::StructDefinitionNode,
            DocumentItem::Task(t) => t.0@.kind == SyntaxKind::TaskDefinitionNode,
            DocumentItem::Workflow(w) => w.0@.kind == SyntaxKind::WorkflowDefinitionNode,
        }
    }

    open spec fn spec_cast(node: SyntaxNode) -> Option<DocumentItem> {
        if node@.kind == SyntaxKind::ImportStatementNode {
            Some(DocumentItem::Import(ImportStatement(node)))
        } else if node@.kind == SyntaxKind::StructDefinitionNode {
            Some(DocumentItem::Struct(StructDefinition(node)))
        } else if node@.kind == SyntaxKind::TaskDefinitionNode {
            Some(DocumentItem::Task(TaskDefinition(node)))
        } else if node@.kind == SyntaxKind::WorkflowDefinitionNode {
            Some(DocumentItem::Workflow(WorkflowDefinition(node)))
        } else {
            None
        }
    }

    proof fn lemma_cast_properties(node: SyntaxNode) {
    }

    proof fn lemma_wf_accepts(self) {
    }

    fn can_cast(kind: SyntaxKind) -> (r: bool) {
        matches!(
            kind,
            SyntaxKind::ImportStatementNode
                | SyntaxKind::StructDefinitionNode
                | SyntaxKind::TaskDefinitionNode
                | SyntaxKind::WorkflowDefinitionNode
        )
    }

    fn cast(node: SyntaxNode) -> (r: Option<DocumentItem>) {
        match node.kind() {
            SyntaxKind::ImportStatementNode => Some(DocumentItem::Import(ImportStatement(node))),
            SyntaxKind::StructDefinitionNode => Some(DocumentItem::Struct(StructDefinition(node))),
            SyntaxKind::TaskDefinitionNode => Some(DocumentItem::Task(TaskDefinition(node))),
            SyntaxKind::WorkflowDefinitionNode => Some(
                DocumentItem::Workflow(WorkflowDefinition(node)),
            ),
            _ => None,
        }
    }

    fn syntax(&self) -> (r: &SyntaxNode) {
        match self {
            DocumentItem::Import(i) => &i.0,
            DocumentItem::Struct(s) => &s.0,
            DocumentItem::Task(t) => &t.0,
            DocumentItem::Workflow(w) => &w.0,
        }
    }
}

/// Exactly one variant of the document item sum accepts any kind that the
/// sum accepts, and no two variants accept a common kind.
pub proof fn lemma_document_item_cast_totality(kind: SyntaxKind)
    ensures
        DocumentItem::accepts(kind) <==> (ImportStatement::accepts(kind)
            || StructDefinition::accepts(kind) || TaskDefinition::accepts(kind)
            || WorkflowDefinition::accepts(kind)),
        !(ImportStatement::accepts(kind) && StructDefinition::accepts(kind)),
        !(ImportStatement::accepts(kind) && TaskDefinition::accepts(kind)),
        !(ImportStatement::accepts(kind) && WorkflowDefinition::accepts(kind)),
        !(StructDefinition::accepts(kind) && TaskDefinition::accepts(kind)),
        !(StructDefinition::accepts(kind) && WorkflowDefinition::accepts(kind)),
        !(TaskDefinition::accepts(kind) && WorkflowDefinition::accepts(kind)),
{
}

/// An `import` statement.
#[derive(Debug, PartialEq, Eq)]
pub struct ImportStatement(pub SyntaxNode);

impl AstNode for ImportStatement {
    open spec fn accepts(kind: SyntaxKind) -> bool {
        kind == SyntaxKind::ImportStatementNode
    }

    open spec fn nv(self) -> NodeView {
        self.0@
    }

    open spec fn wf(self) -> bool {
        Self::accepts(self.0@.kind)
    }

    open spec fn spec_cast(node: SyntaxNode) -> Option<ImportStatement> {
        if node@.kind == SyntaxKind::ImportStatementNode {
            Some(ImportStatement(node))
        } else {
            None
        }
    }

    proof fn lemma_cast_properties(node: SyntaxNode) {
    }

    proof fn lemma_wf_accepts(self) {
    }

    fn can_cast(kind: SyntaxKind) -> (r: bool) {
        matches!(kind, SyntaxKind::ImportStatementNode)
    }

    fn cast(node: SyntaxNode) -> (r: Option<ImportStatement>) {
        match node.kind() {
            SyntaxKind::ImportStatementNode => Some(ImportStatement(node)),
            _ => None,
        }
    }

    fn syntax(&self) -> (r: &SyntaxNode) {
        &self.0
    }
}

impl ImportStatement {
    /// The imported document's location: the text of the statement's
    /// literal string.
    pub fn uri(&self) -> (r: Option<String>)
        ensures
            match r {
                Some(s) => spec_first_token_text(self.nv().children, SyntaxKind::LiteralString)
                    == Some(s@),
                None => spec_first_token_text(
                    self.nv().children,
                    SyntaxKind::LiteralString,
                ) is None,
            },
    {
        first_token_text(&self.0, SyntaxKind::LiteralString)
    }
}

/// A `struct` definition.
#[derive(Debug, PartialEq, Eq)]
pub struct StructDefinition(pub SyntaxNode);

impl AstNode for StructDefinition {
    open spec fn accepts(kind: SyntaxKind) -> bool {
        kind == SyntaxKind::StructDefinitionNode
    }

    open spec fn nv(self) -> NodeView {
        self.0@
    }

    open spec fn wf(self) -> bool {
        Self::accepts(self.0@.kind)
    }

    open spec fn spec_cast(node: SyntaxNode) -> Option<StructDefinition> {
        if node@.kind == SyntaxKind::StructDefinitionNode {
            Some(StructDefinition(node))
        } else {
            None
        }
    }

    proof fn lemma_cast_properties(node: SyntaxNode) {
    }

    proof fn lemma_wf_accepts(self) {
    }

    fn can_cast(kind: SyntaxKind) -> (r: bool) {
        matches!(kind, SyntaxKind::StructDefinitionNode)
    }

    fn cast(node: SyntaxNode) -> (r: Option<StructDefinition>) {
        match node.kind() {
            SyntaxKind::StructDefinitionNode => Some(StructDefinition(node)),
            _ => None,
        }
    }

    fn syntax(&self) -> (r: &SyntaxNode) {
        &self.0
    }
}

impl StructDefinition {
    /// The name of the struct: the text of its identifier token.
    pub fn name(&self) -> (r: Option<String>)
        ensures
            match r {
                Some(s) => spec_first_token_text(self.nv().children, SyntaxKind::Ident) == Some(
                    s@,
                ),
                None => spec_first_token_text(self.nv().children, SyntaxKind::Ident) is None,
            },
    {
        first_token_text(&self.0, SyntaxKind::Ident)
    }

    /// Yields the member declarations of the struct, in document order.
    pub fn unbound_decls(&self) -> (r: Vec<UnboundDecl>)
        ensures
            r@.len() == typed_child_views::<UnboundDecl>(self.nv().children).len(),
            forall|i: int|
                0 <= i < r@.len() ==> (#[trigger] r@[i]).wf() && r@[i].nv() == typed_child_views::<
                    UnboundDecl,
                >(self.nv().children)[i],
    {
        typed_children(&self.0)
    }
}

/// A `task` definition.
#[derive(Debug, PartialEq, Eq)]
pub struct TaskDefinition(pub SyntaxNode);

impl AstNode for TaskDefinition {
    open spec fn accepts(kind: SyntaxKind) -> bool {
        kind == SyntaxKind::TaskDefinitionNode
    }

    open spec fn nv(self) -> NodeView {
        self.0@
    }

    open spec fn wf(self) -> bool {
        Self::accepts(self.0@.kind)
    }

    open spec fn spec_cast(node: SyntaxNode) -> Option<TaskDefinition> {
        if node@.kind == SyntaxKind::TaskDefinitionNode {
            Some(TaskDefinition(node))
        } else {
            None
        }
    }

    proof fn lemma_cast_properties(node: SyntaxNode) {
    }

    proof fn lemma_wf_accepts(self) {
    }

    fn can_cast(kind: SyntaxKind) -> (r: bool) {
        matches!(kind, SyntaxKind::TaskDefinitionNode)
    }

    fn cast(node: SyntaxNode) -> (r: Option<TaskDefinition>) {
        match node.kind() {
            SyntaxKind::TaskDefinitionNode => Some(TaskDefinition(node)),
            _ => None,
        }
    }

    fn syntax(&self) -> (r: &SyntaxNode) {
        &self.0
    }
}

impl TaskDefinition {
    /// The name of the task: the text of its identifier token.
    pub fn name(&self) -> (r: Option<String>)
        ensures
            match r {
                Some(s) => spec_first_token_text(self.nv().children, SyntaxKind::Ident) == Some(
                    s@,
                ),
                None => spec_first_token_text(self.nv().children, SyntaxKind::Ident) is None,
            },
    {
        first_token_text(&self.0, SyntaxKind::Ident)
    }

    /// Yields the command sections of the task, in document order.
    pub fn command_sections(&self) -> (r: Vec<CommandSection>)
        ensures
            r@.len() == typed_child_views::<CommandSection>(self.nv().children).len(),
            forall|i: int|
                0 <= i < r@.len() ==> (#[trigger] r@[i]).wf() && r@[i].nv() == typed_child_views::<
                    CommandSection,
                >(self.nv().children)[i],
    {
        typed_children(&self.0)
    }

    /// Yields the unbound declarations of the task, in document order.
    pub fn unbound_decls(&self) -> (r: Vec<UnboundDecl>)
        ensures
            r@.len() == typed_child_views::<UnboundDecl>(self.nv().children).len(),
            forall|i: int|
                0 <= i < r@.len() ==> (#[trigger] r@[i]).wf() && r@[i].nv() == typed_child_views::<
                    UnboundDecl,
                >(self.nv().children)[i],
    {
        typed_children(&self.0)
    }

    /// Yields the bound declarations of the task, in document order.
    pub fn bound_decls(&self) -> (r: Vec<BoundDecl>)
        ensures
            r@.len() == typed_child_views::<BoundDecl>(self.nv().children).len(),
            forall|i: int|
                0 <= i < r@.len() ==> (#[trigger] r@[i]).wf() && r@[i].nv() == typed_child_views::<
                    BoundDecl,
                >(self.nv().children)[i],
    {
        typed_children(&self.0)
    }
}

/// A `workflow` definition.
#[derive(Debug, PartialEq, Eq)]
pub struct WorkflowDefinition(pub SyntaxNode);

impl AstNode for WorkflowDefinition {
    open spec fn accepts(kind: SyntaxKind) -> bool {
        kind == SyntaxKind::WorkflowDefinitionNode
    }

    open spec fn nv(self) -> NodeView {
        self.0@
    }

    open spec fn wf(self) -> bool {
        Self::accepts(self.0@.kind)
    }

    open spec fn spec_cast(node: SyntaxNode) -> Option<WorkflowDefinition> {
        if node@.kind == SyntaxKind::WorkflowDefinitionNode {
            Some(WorkflowDefinition(node))
        } else {
            None
        }
    }

    proof fn lemma_cast_properties(node: SyntaxNode) {
    }

    proof fn lemma_wf_accepts(self) {
    }

    fn can_cast(kind: SyntaxKind) -> (r: bool) {
        matches!(kind, SyntaxKind::WorkflowDefinitionNode)
    }

    fn cast(node: SyntaxNode) -> (r: Option<WorkflowDefinition>) {
        match node.kind() {
            SyntaxKind::WorkflowDefinitionNode => Some(WorkflowDefinition(node)),
            _ => None,
        }
    }

    fn syntax(&self) -> (r: &SyntaxNode) {
        &self.0
    }
}

impl WorkflowDefinition {
    /// The name of the workflow: the text of its identifier token.
    pub fn name(&self) -> (r: Option<String>)
        ensures
            match r {
                Some(s) => spec_first_token_text(self.nv().children, SyntaxKind::Ident) == Some(
                    s@,
                ),
                None => spec_first_token_text(self.nv().children, SyntaxKind::Ident) is None,
            },
    {
        first_token_text(&self.0, SyntaxKind::Ident)
    }

    /// Yields the call statements of the workflow, in document order.
    pub fn calls(&self) -> (r: Vec<CallStatement>)
        ensures
            r@.len() == typed_child_views::<CallStatement>(self.nv().children).len(),
            forall|i: int|
                0 <= i < r@.len() ==> (#[trigger] r@[i]).wf() && r@[i].nv() == typed_child_views::<
                    CallStatement,
                >(self.nv().children)[i],
    {
        typed_children(&self.0)
    }

    /// Yields the bound declarations of the workflow, in document order.
    pub fn bound_decls(&self) -> (r: Vec<BoundDecl>)
        ensures
            r@.len() == typed_child_views::<BoundDecl>(self.nv().children).len(),
            forall|i: int|
                0 <= i < r@.len() ==> (#[trigger] r@[i]).wf() && r@[i].nv() == typed_child_views::<
                    BoundDecl,
                >(self.nv().children)[i],
    {
        typed_children(&self.0)
    }
}

/// A `version` statement.
#[derive(Debug, PartialEq, Eq)]
pub struct VersionStatement(pub SyntaxNode);

impl AstNode for VersionStatement {
    open spec fn accepts(kind: SyntaxKind) -> bool {
        kind == SyntaxKind::VersionStatementNode
    }

    open spec fn nv(self) -> NodeView {
        self.0@
    }

    open spec fn wf(self) -> bool {
        Self::accepts(self.0@.kind)
    }

    open spec fn spec_cast(node: SyntaxNode) -> Option<VersionStatement> {
        if node@.kind == SyntaxKind::VersionStatementNode {
            Some(VersionStatement(node))
        } else {
            None
        }
    }

    proof fn lemma_cast_properties(node: SyntaxNode) {
    }

    proof fn lemma_wf_accepts(self) {
    }

    fn can_cast(kind: SyntaxKind) -> (r: bool) {
        matches!(kind, SyntaxKind::VersionStatementNode)
    }

    fn cast(node: SyntaxNode) -> (r: Option<VersionStatement>) {
        match node.kind() {
            SyntaxKind::VersionStatementNode => Some(VersionStatement(node)),
            _ => None,
        }
    }

    fn syntax(&self) -> (r: &SyntaxNode) {
        &self.0
    }
}

impl VersionStatement {
    /// The declared version: the text of the statement's version token.
    pub fn version(&self) -> (r: Option<String>)
        ensures
            match r {
                Some(s) => spec_first_token_text(self.nv().children, SyntaxKind::Version) == Some(
                    s@,
                ),
                None => spec_first_token_text(self.nv().children, SyntaxKind::Version) is None,
            },
    {
        first_token_text(&self.0, SyntaxKind::Version)
    }
}

/// A `command` section of a task.
#[derive(Debug, PartialEq, Eq)]
pub struct CommandSection(pub SyntaxNode);

impl AstNode for CommandSection {
    open spec fn accepts(kind: SyntaxKind) -> bool {
        kind == SyntaxKind::CommandSectionNode
    }

    open spec fn nv(self) -> NodeView {
        self.0@
    }

    open spec fn wf(self) -> bool {
        Self::accepts(self.0@.kind)
    }

    open spec fn spec_cast(node: SyntaxNode) -> Option<CommandSection> {
        if node@.kind == SyntaxKind::CommandSectionNode {
            Some(CommandSection(node))
        } else {
            None
        }
    }

    proof fn lemma_cast_properties(node: SyntaxNode) {
    }

    proof fn lemma_wf_accepts(self) {
    }

    fn can_cast(kind: SyntaxKind) -> (r: bool) {
        matches!(kind, SyntaxKind::CommandSectionNode)
    }

    fn cast(node: SyntaxNode) -> (r: Option<CommandSection>) {
        match node.kind() {
            SyntaxKind::CommandSectionNode => Some(CommandSection(node)),
            _ => None,
        }
    }

    fn syntax(&self) -> (r: &SyntaxNode) {
        &self.0
    }
}

impl CommandSection {
    /// The text of the command, where the section holds any.
    pub fn text(&self) -> (r: Option<String>)
        ensures
            match r {
                Some(s) => spec_first_token_text(self.nv().children, SyntaxKind::CommandText)
                    == Some(s@),
                None => spec_first_token_text(self.nv().children, SyntaxKind::CommandText) is None,
            },
    {
        first_token_text(&self.0, SyntaxKind::CommandText)
    }
}

/// An unbound declaration: a type and a name with no bound value.
#[derive(Debug, PartialEq, Eq)]
pub struct UnboundDecl(pub SyntaxNode);

impl AstNode for UnboundDecl {
    open spec fn accepts(kind: SyntaxKind) -> bool {
        kind == SyntaxKind::UnboundDeclNode
    }

    open spec fn nv(self) -> NodeView {
        self.0@
    }

    open spec fn wf(self) -> bool {
        Self::accepts(self.0@.kind)
    }

    open spec fn spec_cast(node: SyntaxNode) -> Option<UnboundDecl> {
        if node@.kind == SyntaxKind::UnboundDeclNode {
            Some(UnboundDecl(node))
        } else {
            None
        }
    }

    proof fn lemma_cast_properties(node: SyntaxNode) {
    }

    proof fn lemma_wf_accepts(self) {
    }

    fn can_cast(kind: SyntaxKind) -> (r: bool) {
        matches!(kind, SyntaxKind::UnboundDeclNode)
    }

    fn cast(node: SyntaxNode) -> (r: Option<UnboundDecl>) {
        match node.kind() {
            SyntaxKind::UnboundDeclNode => Some(UnboundDecl(node)),
            _ => None,
        }
    }

    fn syntax(&self) -> (r: &SyntaxNode) {
        &self.0
    }
}

impl UnboundDecl {
    /// The declared name: the text of the declaration's identifier token.
    pub fn name(&self) -> (r: Option<String>)
        ensures
            match r {
                Some(s) => spec_first_token_text(self.nv().children, SyntaxKind::Ident) == Some(
                    s@,
                ),
                None => spec_first_token_text(self.nv().children, SyntaxKind::Ident) is None,
            },
    {
        first_token_text(&self.0, SyntaxKind::Ident)
    }

    /// The declared type, where one stands.
    pub fn wdl_type(&self) -> (r: Option<WdlType>)
        ensures
            match r {
                Some(w) => typed_child_views::<WdlType>(self.nv().children).len() > 0 && w.wf()
                    && w.nv() == typed_child_views::<WdlType>(self.nv().children)[0],
                None => typed_child_views::<WdlType>(self.nv().children).len() == 0,
            },
    {
        first_typed_child(&self.0)
    }
}

/// A bound declaration: a type, a name, and a bound value.
#[derive(Debug, PartialEq, Eq)]
pub struct BoundDecl(pub SyntaxNode);

impl AstNode for BoundDecl {
    open spec fn accepts(kind: SyntaxKind) -> bool {
        kind == SyntaxKind::BoundDeclNode
    }

    open spec fn nv(self) -> NodeView {
        self.0@
    }

    open spec fn wf(self) -> bool {
        Self::accepts(self.0@.kind)
    }

    open spec fn spec_cast(node: SyntaxNode) -> Option<BoundDecl> {
        if node@.kind == SyntaxKind::BoundDeclNode {
            Some(BoundDecl(node))
        } else {
            None
        }
    }

    proof fn lemma_cast_properties(node: SyntaxNode) {
    }

    proof fn lemma_wf_accepts(self) {
    }

    fn can_cast(kind: SyntaxKind) -> (r: bool) {
        matches!(kind, SyntaxKind::BoundDeclNode)
    }

    fn cast(node: SyntaxNode) -> (r: Option<BoundDecl>) {
        match node.kind() {
            SyntaxKind::BoundDeclNode => Some(BoundDecl(node)),
            _ => None,
        }
    }

    fn syntax(&self) -> (r: &SyntaxNode) {
        &self.0
    }
}

impl BoundDecl {
    /// The declared name: the text of the declaration's identifier token.
    pub fn name(&self) -> (r: Option<String>)
        ensures
            match r {
                Some(s) => spec_first_token_text(self.nv().children, SyntaxKind::Ident) == Some(
                    s@,
                ),
                None => spec_first_token_text(self.nv().children, SyntaxKind::Ident) is None,
            },
    {
        first_token_text(&self.0, SyntaxKind::Ident)
    }

    /// The declared type, where one stands.
    pub fn wdl_type(&self) -> (r: Option<WdlType>)
        ensures
            match r {
                Some(w) => typed_child_views::<WdlType>(self.nv().children).len() > 0 && w.wf()
                    && w.nv() == typed_child_views::<WdlType>(self.nv().children)[0],
                None => typed_child_views::<WdlType>(self.nv().children).len() == 0,
            },
    {
        first_typed_child(&self.0)
    }

    /// The bound value, where one stands.
    pub fn expr(&self) -> (r: Option<Expr>)
        ensures
            match r {
                Some(w) => typed_child_views::<Expr>(self.nv().children).len() > 0 && w.wf()
                    && w.nv() == typed_child_views::<Expr>(self.nv().children)[0],
                None => typed_child_views::<Expr>(self.nv().children).len() == 0,
            },
    {
        first_typed_child(&self.0)
    }
}

/// A WDL type descriptor.
#[derive(Debug, PartialEq, Eq)]
pub struct WdlType(pub SyntaxNode);

impl AstNode for WdlType {
    open spec fn accepts(kind: SyntaxKind) -> bool {
        kind == SyntaxKind::WdlTypeNode
    }

    open spec fn nv(self) -> NodeView {
        self.0@
    }

    open spec fn wf(self) -> bool {
        Self::accepts(self.0@.kind)
    }

    open spec fn spec_cast(node: SyntaxNode) -> Option<WdlType> {
        if node@.kind == SyntaxKind::WdlTypeNode {
            Some(WdlType(node))
        } else {
            None
        }
    }

    proof fn lemma_cast_properties(node: SyntaxNode) {
    }

    proof fn lemma_wf_accepts(self) {
    }

    fn can_cast(kind: SyntaxKind) -> (r: bool) {
        matches!(kind, SyntaxKind::WdlTypeNode)
    }

    fn cast(node: SyntaxNode) -> (r: Option<WdlType>) {
        match node.kind() {
            SyntaxKind::WdlTypeNode => Some(WdlType(node)),
            _ => None,
        }
    }

    fn syntax(&self) -> (r: &SyntaxNode) {
        &self.0
    }
}

/// An expression: the sum over the expression node kinds.
#[derive(Debug, PartialEq, Eq)]
pub enum Expr {
    /// A literal expression.
    Literal(SyntaxNode),
    /// A name-reference expression.
    NameRef(SyntaxNode),
}

impl AstNode for Expr {
    open spec fn accepts(kind: SyntaxKind) -> bool {
        kind == SyntaxKind::LiteralExprNode || kind == SyntaxKind::NameRefExprNode
    }

    open spec fn nv(self) -> NodeView {
        match self {
            Expr::Literal(n) => n@,
            Expr::NameRef(n) => n@,
        }
    }

    open spec fn wf(self) -> bool {
        match self {
            Expr::Literal(n) => n@.kind == SyntaxKind::LiteralExprNode,
            Expr::NameRef(n) => n@.kind == SyntaxKind::NameRefExprNode,
        }
    }

    open spec fn spec_cast(node: SyntaxNode) -> Option<Expr> {
        if node@.kind == SyntaxKind::LiteralExprNode {
            Some(Expr::Literal(node))
        } else if node@.kind == SyntaxKind::NameRefExprNode {
            Some(Expr::NameRef(node))
        } else {
            None
        }
    }

    proof fn lemma_cast_properties(node: SyntaxNode) {
    }

    proof fn lemma_wf_accepts(self) {
    }

    fn can_cast(kind: SyntaxKind) -> (r: bool) {
        matches!(kind, SyntaxKind::LiteralExprNode | SyntaxKind::NameRefExprNode)
    }

    fn cast(node: SyntaxNode) -> (r: Option<Expr>) {
        match node.kind() {
            SyntaxKind::LiteralExprNode => Some(Expr::Literal(node)),
            SyntaxKind::NameRefExprNode => Some(Expr::NameRef(node)),
            _ => None,
        }
    }

    fn syntax(&self) -> (r: &SyntaxNode) {
        match self {
            Expr::Literal(n) => n,
            Expr::NameRef(n) => n,
        }
    }
}

/// Exactly one variant of the expression sum accepts any kind that the sum
/// accepts.
pub proof fn lemma_expr_cast_totality(kind: SyntaxKind)
    ensures
        Expr::accepts(kind) <==> (kind == SyntaxKind::LiteralExprNode || kind
            == SyntaxKind::NameRefExprNode),
        !(kind == SyntaxKind::LiteralExprNode && kind == SyntaxKind::NameRefExprNode),
{
}

/// A `call` statement of a workflow.
#[derive(Debug, PartialEq, Eq)]
pub struct CallStatement(pub SyntaxNode);

impl AstNode for CallStatement {
    open spec fn accepts(kind: SyntaxKind) -> bool {
        kind == SyntaxKind::CallStatementNode
    }

    open spec fn nv(self) -> NodeView {
        self.0@
    }

    open spec fn wf(self) -> bool {
        Self::accepts(self.0@.kind)
    }

    open spec fn spec_cast(node: SyntaxNode) -> Option<CallStatement> {
        if node@.kind == SyntaxKind::CallStatementNode {
            Some(CallStatement(node))
        } else {
            None
        }
    }

    proof fn lemma_cast_properties(node: SyntaxNode) {
    }

    proof fn lemma_wf_accepts(self) {
    }

    fn can_cast(kind: SyntaxKind) -> (r: bool) {
        matches!(kind, SyntaxKind::CallStatementNode)
    }

    fn cast(node: SyntaxNode) -> (r: Option<CallStatement>) {
        match node.kind() {
            SyntaxKind::CallStatementNode => Some(CallStatement(node)),
            _ => None,
        }
    }

    fn syntax(&self) -> (r: &SyntaxNode) {
        &self.0
    }
}

impl CallStatement {
    /// The name of the called task or workflow.
    pub fn target(&self) -> (r: Option<String>)
        ensures
            match r {
                Some(s) => spec_first_token_text(self.nv().children, SyntaxKind::Ident) == Some(
                    s@,
                ),
                None => spec_first_token_text(self.nv().children, SyntaxKind::Ident) is None,
            },
    {
        first_token_text(&self.0, SyntaxKind::Ident)
    }
}

} // verus!
