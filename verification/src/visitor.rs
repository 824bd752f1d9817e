//! The visitor protocol and the pre-order traversal that drives it.
//!
//! A visitor is a capability set: one typed callback per construct of
//! interest, each specified by a ghost transition over the visitor's own
//! model of its threaded state. The walker visits a node, then its
//! children left to right, then runs the exit callback; any callback may
//! return `false` to stop the whole traversal.

use vstd::prelude::*;

use crate::kind::SyntaxKind;
use crate::node::AstNode;
use crate::node::cast_exact;
use crate::tree::ElementView;
use crate::tree::NodeView;
use crate::tree::SyntaxElement;
use crate::tree::SyntaxNode;
use crate::tree::element_view;
use crate::tree::elements_view;
use crate::tree::lemma_elements_view;
use crate::v1::Ast;
use crate::v1::BoundDecl;
use crate::v1::CommandSection;
use crate::v1::ImportStatement;
use crate::v1::StructDefinition;
use crate::v1::TaskDefinition;
use crate::v1::UnboundDecl;
use crate::v1::VersionStatement;
use crate::v1::WorkflowDefinition;

verus! {

/// A set of typed callbacks driven by the traversal.
///
/// `State` is the caller-owned accumulator threaded through one whole
/// traversal; `StateV` is its mathematical model, reached through `sv`.
/// Each callback returns `true` to continue the traversal and `false` to
/// stop it, and is pinned to its ghost transition, so that what a whole
/// traversal does to the state is itself a function of the tree's model.
pub trait Visitor: Sized {
    /// The threaded accumulator.
    type State;

    /// The mathematical model of the accumulator.
    type StateV;

    /// The model of a state value.
    spec fn sv(s: Self::State) -> Self::StateV;

    /// The transition of the `document` callback.
    spec fn spec_document(&self, s: Self::StateV, n: NodeView) -> (Self::StateV, bool);

    /// The transition of the `version_statement` callback.
    spec fn spec_version_statement(&self, s: Self::StateV, n: NodeView) -> (Self::StateV, bool);

    /// The transition of the `import_statement` callback.
    spec fn spec_import_statement(&self, s: Self::StateV, n: NodeView) -> (Self::StateV, bool);

    /// The transition of the `struct_definition` callback.
    spec fn spec_struct_definition(&self, s: Self::StateV, n: NodeView) -> (Self::StateV, bool);

    /// The transition of the `task_definition` callback.
    spec fn spec_task_definition(&self, s: Self::StateV, n: NodeView) -> (Self::StateV, bool);

    /// The transition of the `workflow_definition` callback.
    spec fn spec_workflow_definition(&self, s: Self::StateV, n: NodeView) -> (Self::StateV, bool);

    /// The transition of the `command_section` callback.
    spec fn spec_command_section(&self, s: Self::StateV, n: NodeView) -> (Self::StateV, bool);

    /// The transition of the `unbound_decl` callback.
    spec fn spec_unbound_decl(&self, s: Self::StateV, n: NodeView) -> (Self::StateV, bool);

    /// The transition of the `bound_decl` callback.
    spec fn spec_bound_decl(&self, s: Self::StateV, n: NodeView) -> (Self::StateV, bool);

    /// The transition of the `other_node` callback.
    spec fn spec_other_node(&self, s: Self::StateV, n: NodeView) -> (Self::StateV, bool);

    /// The transition of the `exit_node` callback.
    spec fn spec_exit_node(&self, s: Self::StateV, n: NodeView) -> Self::StateV;

    /// Visits the document root.
    fn document(&self, state: &mut Self::State, node: &Ast) -> (c: bool)
        ensures
            (Self::sv(*final (state)), c) == self.spec_document(Self::sv(*old(state)), node.nv());

    /// Visits a version statement.
    fn version_statement(&self, state: &mut Self::State, node: &VersionStatement) -> (c: bool)
        ensures
            (Self::sv(*final (state)), c) == self.spec_version_statement(
                Self::sv(*old(state)),
                node.nv(),
            );

    /// Visits an import statement.
    fn import_statement(&self, state: &mut Self::State, node: &ImportStatement) -> (c: bool)
        ensures
            (Self::sv(*final (state)), c) == self.spec_import_statement(
                Self::sv(*old(state)),
                node.nv(),
            );

    /// Visits a struct definition.
    fn struct_definition(&self, state: &mut Self::State, node: &StructDefinition) -> (c: bool)
        ensures
            (Self::sv(*final (state)), c) == self.spec_struct_definition(
                Self::sv(*old(state)),
                node.nv(),
            );

    /// Visits a task definition.
    fn task_definition(&self, state: &mut Self::State, node: &TaskDefinition) -> (c: bool)
        ensures
            (Self::sv(*final (state)), c) == self.spec_task_definition(
                Self::sv(*old(state)),
                node.nv(),
            );

    /// Visits a workflow definition.
    fn workflow_definition(&self, state: &mut Self::State, node: &WorkflowDefinition) -> (c: bool)
        ensures
            (Self::sv(*final (state)), c) == self.spec_workflow_definition(
                Self::sv(*old(state)),
                node.nv(),
            );

    /// Visits a command section.
    fn command_section(&self, state: &mut Self::State, node: &CommandSection) -> (c: bool)
        ensures
            (Self::sv(*final (state)), c) == self.spec_command_section(
                Self::sv(*old(state)),
                node.nv(),
            );

    /// Visits an unbound declaration.
    fn unbound_decl(&self, state: &mut Self::State, node: &UnboundDecl) -> (c: bool)
        ensures
            (Self::sv(*final (state)), c) == self.spec_unbound_decl(
                Self::sv(*old(state)),
                node.nv(),
            );

    /// Visits a bound declaration.
    fn bound_decl(&self, state: &mut Self::State, node: &BoundDecl) -> (c: bool)
        ensures
            (Self::sv(*final (state)), c) == self.spec_bound_decl(
                Self::sv(*old(state)),
                node.nv(),
            );

    /// Visits a node with no more specific callback.
    fn other_node(&self, state: &mut Self::State, node: &SyntaxNode) -> (c: bool)
        ensures
            (Self::sv(*final (state)), c) == self.spec_other_node(Self::sv(*old(state)), node@);

    /// Leaves a node, after all of its children were visited.
    fn exit_node(&self, state: &mut Self::State, node: &SyntaxNode)
        ensures
            Self::sv(*final (state)) == self.spec_exit_node(Self::sv(*old(state)), node@);
}

/// The transition a visitor makes on entering a node: the dispatch of the
/// node's kind to the matching typed callback's transition.
pub open spec fn enter_transition<V: Visitor>(v: V, s: V::StateV, n: NodeView) -> (V::StateV, bool) {
    if n.kind == SyntaxKind::RootNode {
        v.spec_document(s, n)
    } else if n.kind == SyntaxKind::VersionStatementNode {
        v.spec_version_statement(s, n)
    } else if n.kind == SyntaxKind::ImportStatementNode {
        v.spec_import_statement(s, n)
    } else if n.kind == SyntaxKind::StructDefinitionNode {
        v.spec_struct_definition(s, n)
    } else if n.kind == SyntaxKind::TaskDefinitionNode {
        v.spec_task_definition(s, n)
    } else if n.kind == SyntaxKind::WorkflowDefinitionNode {
        v.spec_workflow_definition(s, n)
    } else if n.kind == SyntaxKind::CommandSectionNode {
        v.spec_command_section(s, n)
    } else if n.kind == SyntaxKind::UnboundDeclNode {
        v.spec_unbound_decl(s, n)
    } else if n.kind == SyntaxKind::BoundDeclNode {
        v.spec_bound_decl(s, n)
    } else {
        v.spec_other_node(s, n)
    }
}

/// What one pre-order traversal of a node does to a visitor's modeled
/// state: the enter transition, then the children left to right, then the
/// exit transition; a stop anywhere cuts everything after it.
pub open spec fn run_node<V: Visitor>(v: V, s: V::StateV, n: NodeView) -> (V::StateV, bool)
    decreases n,
{
    let (s1, c1) = enter_transition::<V>(v, s, n);
    if !c1 {
        (s1, false)
    } else {
        let (s2, c2) = run_children::<V>(v, s1, n.children);
        if !c2 {
            (s2, false)
        } else {
            (v.spec_exit_node(s2, n), true)
        }
    }
}

/// What visiting a sequence of children left to right does to a visitor's
/// modeled state; tokens are leaves and make no transition.
pub open spec fn run_children<V: Visitor>(v: V, s: V::StateV, cs: Seq<ElementView>) -> (
    V::StateV,
    bool,
)
    decreases cs,
{
    if cs.len() == 0 {
        (s, true)
    } else {
        let (s1, c1) = run_children::<V>(v, s, cs.drop_last());
        if !c1 {
            (s1, false)
        } else {
            match cs.last() {
                ElementView::Node(n) => run_node::<V>(v, s1, n),
                ElementView::Token(_) => (s1, true),
            }
        }
    }
}

/// Once a traversal has stopped on a prefix of the children, the remaining
/// siblings are never visited.
pub proof fn lemma_run_children_stopped<V: Visitor>(v: V, s: V::StateV, cs: Seq<ElementView>, i: int)
    requires
        0 <= i <= cs.len(),
        !run_children::<V>(v, s, cs.take(i)).1,
    ensures
        run_children::<V>(v, s, cs) == run_children::<V>(v, s, cs.take(i)),
    decreases cs.len() - i,
{
    if i < cs.len() {
        assert(cs.take(i + 1).drop_last() =~= cs.take(i));
        lemma_run_children_stopped::<V>(v, s, cs, i + 1);
    } else {
        assert(cs.take(i) =~= cs);
    }
}

/// Walks one node with a pre-order traversal, returning `false` exactly
/// where a callback stopped the traversal.
pub fn visit_node<V: Visitor>(visitor: &V, state: &mut V::State, node: &SyntaxNode) -> (c: bool)
    ensures
        ({
            let (s2, c2) = run_node::<V>(*visitor, V::sv(*old(state)), node@);
            V::sv(*final (state)) == s2 && c == c2
        }),
    decreases *node,
{
    let kind = node.kind();
    let cont: bool = if matches!(kind, SyntaxKind::RootNode) {
        let w: Ast = cast_exact(node);
        visitor.document(state, &w)
    } else if matches!(kind, SyntaxKind::VersionStatementNode) {
        let w: VersionStatement = cast_exact(node);
        visitor.version_statement(state, &w)
    } else if matches!(kind, SyntaxKind::ImportStatementNode) {
        let w: ImportStatement = cast_exact(node);
        visitor.import_statement(state, &w)
    } else if matches!(kind, SyntaxKind::StructDefinitionNode) {
        let w: StructDefinition = cast_exact(node);
        visitor.struct_definition(state, &w)
    } else if matches!(kind, SyntaxKind::TaskDefinitionNode) {
        let w: TaskDefinition = cast_exact(node);
        visitor.task_definition(state, &w)
    } else if matches!(kind, SyntaxKind::WorkflowDefinitionNode) {
        let w: WorkflowDefinition = cast_exact(node);
        visitor.workflow_definition(state, &w)
    } else if matches!(kind, SyntaxKind::CommandSectionNode) {
        let w: CommandSection = cast_exact(node);
        visitor.command_section(state, &w)
    } else if matches!(kind, SyntaxKind::UnboundDeclNode) {
        let w: UnboundDecl = cast_exact(node);
        visitor.unbound_decl(state, &w)
    } else if matches!(kind, SyntaxKind::BoundDeclNode) {
        let w: BoundDecl = cast_exact(node);
        visitor.bound_decl(state, &w)
    } else {
        visitor.other_node(state, node)
    };
    if !cont {
        return false;
    }
    let ghost entered: V::StateV = V::sv(*state);
    let n = node.children.len();
    proof {
        lemma_elements_view(node.children@);
        assert(node@.children.take(0) =~= Seq::<ElementView>::empty());
    }
    let mut i: usize = 0;
    while i < n
        invariant
            i <= n,
            n == node.children@.len(),
            elements_view(node.children@) == node@.children,
            run_children::<V>(*visitor, entered, node@.children.take(i as int)) == (
                V::sv(*state),
                true,
            ),
            enter_transition::<V>(*visitor, V::sv(*old(state)), node@) == (entered, true),
        decreases n - i,
    {
        proof {
            lemma_elements_view(node.children@);
            let taken = node@.children.take(i + 1);
            assert(taken.drop_last() =~= node@.children.take(i as int));
            assert(taken.last() == element_view(node.children@[i as int]));
            assert(decreases_to!(*node => node.children));
            assert(decreases_to!(node.children => node.children@));
            assert(decreases_to!(node.children@ => node.children@[i as int]));
        }
        match &node.children[i] {
            SyntaxElement::Node(child) => {
                proof {
                    assert(decreases_to!(node.children@[i as int] => *child));
                }
                let c = visit_node(visitor, state, child);
                if !c {
                    proof {
                        lemma_run_children_stopped::<V>(
                            *visitor,
                            entered,
                            node@.children,
                            i + 1,
                        );
                    }
                    return false;
                }
            },
            SyntaxElement::Token(_) => {},
        }
        i = i + 1;
    }
    proof {
        assert(node@.children.take(n as int) =~= node@.children);
    }
    visitor.exit_node(state, node);
    true
}

impl Ast {
    /// Walks the AST with a pre-order traversal, invoking the visitor's
    /// typed callbacks on the threaded state.
    ///
    /// What the state becomes is exactly what one modeled traversal of the
    /// document does to it, so a traversal is a function of the tree's
    /// model and the starting state alone.
    pub fn visit<V: Visitor>(&self, state: &mut V::State, visitor: &mut V)
        ensures
            V::sv(*final (state)) == run_node::<V>(*old(visitor), V::sv(*old(state)), self.nv()).0,
            *final (visitor) == *old(visitor),
    {
        visit_node(visitor, state, &self.0);
    }
}

} // verus!
