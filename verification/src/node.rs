//! The AST node capability: the one contract through which every typed
//! wrapper is built, and the one generic algorithm for typed child
//! iteration.

use vstd::prelude::*;

use crate::kind::SyntaxKind;
use crate::tree::ElementView;
use crate::tree::NodeView;
use crate::tree::SyntaxElement;
use crate::tree::SyntaxNode;
use crate::tree::element_view;
use crate::tree::elements_view;
use crate::tree::lemma_elements_view;
use crate::tree::lemma_elements_view_take;

verus! {

/// The capability implemented by every typed wrapper over a syntax node:
/// test whether a kind is compatible, attempt to wrap a node, and expose
/// the wrapped node.
///
/// Casting never fails loudly: a kind mismatch is a normal `None`, used for
/// filtering. A wrapper never copies or mutates the tree it wraps.
pub trait AstNode: Sized {
    /// Holds of the kinds a node may have for this type to wrap it.
    spec fn accepts(kind: SyntaxKind) -> bool;

    /// The model of the wrapped node.
    spec fn nv(self) -> NodeView;

    /// Holds of every wrapper that casting can produce: the wrapped node's
    /// kind is accepted, and for sum types the active variant is the one
    /// that the kind selects.
    spec fn wf(self) -> bool;

    /// What casting a node returns.
    spec fn spec_cast(node: SyntaxNode) -> Option<Self>;

    /// Casting succeeds exactly on the accepted kinds, and wraps the given
    /// node without changing it.
    proof fn lemma_cast_properties(node: SyntaxNode)
        ensures
            Self::spec_cast(node) is Some <==> Self::accepts(node@.kind),
            Self::spec_cast(node) is Some ==> Self::spec_cast(node)->Some_0.wf()
                && Self::spec_cast(node)->Some_0.nv() == node@;

    /// A well-formed wrapper always wraps a node of an accepted kind.
    proof fn lemma_wf_accepts(self)
        requires
            self.wf(),
        ensures
            Self::accepts(self.nv().kind);

    /// Whether a node of the given kind could be wrapped by this type.
    fn can_cast(kind: SyntaxKind) -> (r: bool)
        ensures
            r == Self::accepts(kind);

    /// Attempts to wrap the node; `None` on a kind mismatch.
    fn cast(node: SyntaxNode) -> (r: Option<Self>)
        ensures
            r == Self::spec_cast(node);

    /// The underlying node, without copying.
    fn syntax(&self) -> (r: &SyntaxNode)
        ensures
            r@ == self.nv(),
            self.wf() ==> Self::accepts(r@.kind);
}

/// Casting is a round trip: wrapping any node that carries a well-formed
/// wrapper's own model recovers a wrapper with that same model. In
/// particular, casting a wrapper's underlying node back through the same
/// type recovers an equal value.
pub proof fn lemma_cast_round_trip<T: AstNode>(w: T, node: SyntaxNode)
    requires
        w.wf(),
        node@ == w.nv(),
    ensures
        T::spec_cast(node) is Some,
        T::spec_cast(node)->Some_0.wf(),
        T::spec_cast(node)->Some_0.nv() == w.nv(),
{
    w.lemma_wf_accepts();
    T::lemma_cast_properties(node);
}

/// Wraps a node whose kind is known to be accepted by `T`.
///
/// The walker uses this where it has already dispatched on the kind; the
/// wrapped node is a value-equal copy of the given one.
pub fn cast_exact<T: AstNode>(node: &SyntaxNode) -> (w: T)
    requires
        T::accepts(node@.kind),
    ensures
        w.wf(),
        w.nv() == node@,
{
    let copy = node.duplicate();
    let ghost snapshot = copy;
    let cast_result = T::cast(copy);
    proof {
        T::lemma_cast_properties(snapshot);
    }
    match cast_result {
        Some(w) => w,
        None => unreached(),
    }
}

/// The models of the children of a node that a type `T` accepts, in
/// document order: tokens and nodes of other kinds are skipped, and no
/// descendant deeper than one level is reached.
pub open spec fn typed_child_views<T: AstNode>(children: Seq<ElementView>) -> Seq<NodeView>
    decreases children,
{
    if children.len() == 0 {
        Seq::empty()
    } else {
        let prefix = typed_child_views::<T>(children.drop_last());
        match children.last() {
            ElementView::Node(nv) => if T::accepts(nv.kind) {
                prefix.push(nv)
            } else {
                prefix
            },
            ElementView::Token(_) => prefix,
        }
    }
}

/// Yields the children of `parent` that cast to `T`, in document order.
///
/// This is the one generic algorithm behind every repeated-construct
/// accessor; re-invoking it re-scans the parent, so it may be repeated any
/// number of times with the same result.
pub fn typed_children<T: AstNode>(parent: &SyntaxNode) -> (r: Vec<T>)
    ensures
        r@.len() == typed_child_views::<T>(parent@.children).len(),
        forall|i: int|
            0 <= i < r@.len() ==> (#[trigger] r@[i]).wf() && r@[i].nv() == typed_child_views::<T>(
                parent@.children,
            )[i],
{
    let kids = parent.children();
    let n = kids.len();
    proof {
        lemma_elements_view(kids@);
    }
    let mut r: Vec<T> = Vec::new();
    for i in 0..n
        invariant
            n == kids@.len(),
            elements_view(kids@) == parent@.children,
            r@.len() == typed_child_views::<T>(parent@.children.take(i as int)).len(),
            forall|j: int|
                0 <= j < r@.len() ==> (#[trigger] r@[j]).wf() && r@[j].nv() == typed_child_views::<
                    T,
                >(parent@.children.take(i as int))[j],
    {
        proof {
            lemma_elements_view(kids@);
            lemma_elements_view_take(kids@, i as int);
            lemma_elements_view_take(kids@, i + 1);
            let taken = parent@.children.take(i + 1);
            assert(taken.drop_last() =~= parent@.children.take(i as int));
            assert(taken.last() == element_view(kids@[i as int]));
        }
        match &kids[i] {
            SyntaxElement::Node(node) => {
                let copy = node.duplicate();
                let cast_result = T::cast(copy);
                proof {
                    T::lemma_cast_properties(copy);
                }
                match cast_result {
                    Some(w) => {
                        r.push(w);
                    },
                    None => {},
                }
            },
            SyntaxElement::Token(_) => {},
        }
    }
    proof {
        assert(parent@.children.take(n as int) =~= parent@.children);
    }
    r
}

} // verus!
