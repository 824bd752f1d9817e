//! A visitor that records the order in which the traversal reaches the
//! tree's nodes, and the proof that this order is exactly pre-order:
//! each node's own callback first, then its children left to right, then
//! its exit callback.

use vstd::prelude::*;

use crate::kind::SyntaxKind;
use crate::node::AstNode;
use crate::tree::ElementView;
use crate::tree::NodeView;
use crate::tree::SyntaxNode;
use crate::v1::Ast;
use crate::v1::BoundDecl;
use crate::v1::CommandSection;
use crate::v1::ImportStatement;
use crate::v1::StructDefinition;
use crate::v1::TaskDefinition;
use crate::v1::UnboundDecl;
use crate::v1::VersionStatement;
use crate::v1::WorkflowDefinition;
use crate::visitor::Visitor;
use crate::visitor::enter_transition;
use crate::visitor::run_children;
use crate::visitor::run_node;

verus! {

/// One step of a traversal: a node was entered or left.
#[derive(Clone, Copy, Debug, PartialEq, Eq, Structural, Hash)]
pub struct TraceEvent {
    /// Whether the node was entered; otherwise it was left.
    pub enter: bool,
    /// The kind of the node reached.
    pub kind: SyntaxKind,
    /// The starting byte offset of the node reached.
    pub start: usize,
}

/// The event of entering a node.
pub open spec fn enter_event(n: NodeView) -> TraceEvent {
    TraceEvent { enter: true, kind: n.kind, start: n.start as usize }
}

/// The event of leaving a node.
pub open spec fn exit_event(n: NodeView) -> TraceEvent {
    TraceEvent { enter: false, kind: n.kind, start: n.start as usize }
}

/// The pre-order event sequence of a node: enter it, walk its children
/// left to right, leave it.
pub open spec fn preorder_events(n: NodeView) -> Seq<TraceEvent>
    decreases n,
{
    seq![enter_event(n)] + child_events(n.children) + seq![exit_event(n)]
}

/// The pre-order event sequences of a node's children, concatenated in
/// document order; tokens are leaves and yield no event.
pub open spec fn child_events(cs: Seq<ElementView>) -> Seq<TraceEvent>
    decreases cs,
{
    if cs.len() == 0 {
        Seq::empty()
    } else {
        child_events(cs.drop_last()) + match cs.last() {
            ElementView::Node(m) => preorder_events(m),
            ElementView::Token(_) => Seq::empty(),
        }
    }
}

/// A visitor that appends one event for every node reached and never
/// stops the traversal.
pub struct TraceVisitor;

impl Visitor for TraceVisitor {
    type State = Vec<TraceEvent>;

    type StateV = Seq<TraceEvent>;

    open spec fn sv(s: Vec<TraceEvent>) -> Seq<TraceEvent> {
        s@
    }

    open spec fn spec_document(&self, s: Seq<TraceEvent>, n: NodeView) -> (Seq<TraceEvent>, bool) {
        (s.push(enter_event(n)), true)
    }

    open spec fn spec_version_statement(&self, s: Seq<TraceEvent>, n: NodeView) -> (
        Seq<TraceEvent>,
        bool,
    ) {
        (s.push(enter_event(n)), true)
    }

    open spec fn spec_import_statement(&self, s: Seq<TraceEvent>, n: NodeView) -> (
        Seq<TraceEvent>,
        bool,
    ) {
        (s.push(enter_event(n)), true)
    }

    open spec fn spec_struct_definition(&self, s: Seq<TraceEvent>, n: NodeView) -> (
        Seq<TraceEvent>,
        bool,
    ) {
        (s.push(enter_event(n)), true)
    }

    open spec fn spec_task_definition(&self, s: Seq<TraceEvent>, n: NodeView) -> (
        Seq<TraceEvent>,
        bool,
    ) {
        (s.push(enter_event(n)), true)
    }

    open spec fn spec_workflow_definition(&self, s: Seq<TraceEvent>, n: NodeView) -> (
        Seq<TraceEvent>,
        bool,
    ) {
        (s.push(enter_event(n)), true)
    }

    open spec fn spec_command_section(&self, s: Seq<TraceEvent>, n: NodeView) -> (
        Seq<TraceEvent>,
        bool,
    ) {
        (s.push(enter_event(n)), true)
    }

    open spec fn spec_unbound_decl(&self, s: Seq<TraceEvent>, n: NodeView) -> (
        Seq<TraceEvent>,
        bool,
    ) {
        (s.push(enter_event(n)), true)
    }

    open spec fn spec_bound_decl(&self, s: Seq<TraceEvent>, n: NodeView) -> (
        Seq<TraceEvent>,
        bool,
    ) {
        (s.push(enter_event(n)), true)
    }

    open spec fn spec_other_node(&self, s: Seq<TraceEvent>, n: NodeView) -> (
        Seq<TraceEvent>,
        bool,
    ) {
        (s.push(enter_event(n)), true)
    }

    open spec fn spec_exit_node(&self, s: Seq<TraceEvent>, n: NodeView) -> Seq<TraceEvent> {
        s.push(exit_event(n))
    }

    fn document(&self, state: &mut Vec<TraceEvent>, node: &Ast) -> (c: bool) {
        let syntax = node.syntax();
        state.push(TraceEvent { enter: true, kind: syntax.kind(), start: syntax.start() });
        true
    }

    fn version_statement(&self, state: &mut Vec<TraceEvent>, node: &VersionStatement) -> (c:
        bool) {
        let syntax = node.syntax();
        state.push(TraceEvent { enter: true, kind: syntax.kind(), start: syntax.start() });
        true
    }

    fn import_statement(&self, state: &mut Vec<TraceEvent>, node: &ImportStatement) -> (c: bool) {
        let syntax = node.syntax();
        state.push(TraceEvent { enter: true, kind: syntax.kind(), start: syntax.start() });
        true
    }

    fn struct_definition(&self, state: &mut Vec<TraceEvent>, node: &StructDefinition) -> (c:
        bool) {
        let syntax = node.syntax();
        state.push(TraceEvent { enter: true, kind: syntax.kind(), start: syntax.start() });
        true
    }

    fn task_definition(&self, state: &mut Vec<TraceEvent>, node: &TaskDefinition) -> (c: bool) {
        let syntax = node.syntax();
        state.push(TraceEvent { enter: true, kind: syntax.kind(), start: syntax.start() });
        true
    }

    fn workflow_definition(&self, state: &mut Vec<TraceEvent>, node: &WorkflowDefinition) -> (c:
        bool) {
        let syntax = node.syntax();
        state.push(TraceEvent { enter: true, kind: syntax.kind(), start: syntax.start() });
        true
    }

    fn command_section(&self, state: &mut Vec<TraceEvent>, node: &CommandSection) -> (c: bool) {
        let syntax = node.syntax();
        state.push(TraceEvent { enter: true, kind: syntax.kind(), start: syntax.start() });
        true
    }

    fn unbound_decl(&self, state: &mut Vec<TraceEvent>, node: &UnboundDecl) -> (c: bool) {
        let syntax = node.syntax();
        state.push(TraceEvent { enter: true, kind: syntax.kind(), start: syntax.start() });
        true
    }

    fn bound_decl(&self, state: &mut Vec<TraceEvent>, node: &BoundDecl) -> (c: bool) {
        let syntax = node.syntax();
        state.push(TraceEvent { enter: true, kind: syntax.kind(), start: syntax.start() });
        true
    }

    fn other_node(&self, state: &mut Vec<TraceEvent>, node: &SyntaxNode) -> (c: bool) {
        state.push(TraceEvent { enter: true, kind: node.kind(), start: node.start() });
        true
    }

    fn exit_node(&self, state: &mut Vec<TraceEvent>, node: &SyntaxNode) {
        state.push(TraceEvent { enter: false, kind: node.kind(), start: node.start() });
    }
}

/// The traversal reaches nodes in pre-order: what a traced traversal of a
/// node appends to the state is exactly the node's pre-order event
/// sequence, and it never stops early.
pub proof fn lemma_traversal_preorder(s: Seq<TraceEvent>, n: NodeView)
    ensures
        run_node::<TraceVisitor>(TraceVisitor {  }, s, n) == (s + preorder_events(n), true),
    decreases n,
{
    let v = TraceVisitor {  };
    let s1 = s.push(enter_event(n));
    assert(enter_transition::<TraceVisitor>(v, s, n) == (s1, true));
    lemma_child_events(s1, n.children);
    let s2 = s1 + child_events(n.children);
    assert(run_node::<TraceVisitor>(v, s, n) == (s2.push(exit_event(n)), true));
    assert(s2.push(exit_event(n)) =~= s + preorder_events(n));
}

/// The traversal reaches a node's children left to right: what a traced
/// walk of the children appends is the concatenation of their pre-order
/// event sequences, in document order.
pub proof fn lemma_child_events(s: Seq<TraceEvent>, cs: Seq<ElementView>)
    ensures
        run_children::<TraceVisitor>(TraceVisitor {  }, s, cs) == (s + child_events(cs), true),
    decreases cs,
{
    let v = TraceVisitor {  };
    if cs.len() == 0 {
        assert(s + child_events(cs) =~= s);
    } else {
        lemma_child_events(s, cs.drop_last());
        let s1 = s + child_events(cs.drop_last());
        match cs.last() {
            ElementView::Node(m) => {
                lemma_traversal_preorder(s1, m);
                assert(s1 + preorder_events(m) =~= s + child_events(cs));
            },
            ElementView::Token(_) => {
                assert(s1 =~= s + child_events(cs));
            },
        }
    }
}

} // verus!
