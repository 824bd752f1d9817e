//! The concrete syntax tree: an immutable tree of nodes and tokens, each
//! tagged with a kind and a source span.
//!
//! The tree is delivered by a grammar engine and consumed read-only by the
//! typed layers above it. Its mathematical model is the ghost tree of
//! [`NodeView`], [`TokenView`] and [`ElementView`] values, reached through
//! the `@` view operator; every contract of this crate speaks of that model.

use vstd::prelude::*;

use crate::kind::SyntaxKind;
use crate::kind::is_node_kind;
use crate::kind::is_token_kind;

verus! {

/// The model of a token: a kind, a byte span, and the backing text.
pub struct TokenView {
    /// The kind of the token.
    pub kind: SyntaxKind,
    /// The starting byte offset of the token.
    pub start: nat,
    /// The ending byte offset of the token.
    pub end: nat,
    /// The source text the token covers.
    pub text: Seq<char>,
}

/// The model of a node: a kind, a byte span, and the ordered children.
pub struct NodeView {
    /// The kind of the node.
    pub kind: SyntaxKind,
    /// The starting byte offset of the node.
    pub start: nat,
    /// The ending byte offset of the node.
    pub end: nat,
    /// The children of the node, in document order.
    pub children: Seq<ElementView>,
}

/// The model of a child: either a node or a token.
pub enum ElementView {
    /// A composite child.
    Node(NodeView),
    /// A terminal child.
    Token(TokenView),
}

/// A terminal tree element: a span of source text with a kind.
#[derive(Debug, PartialEq, Eq)]
pub struct SyntaxToken {
    /// The kind of the token.
    pub kind: SyntaxKind,
    /// The starting byte offset of the token.
    pub start: usize,
    /// The ending byte offset of the token.
    pub end: usize,
    /// The source text the token covers.
    pub text: String,
}

/// A composite tree element: a kind, a span, and ordered children.
#[derive(Debug, PartialEq, Eq)]
pub struct SyntaxNode {
    /// The kind of the node.
    pub kind: SyntaxKind,
    /// The starting byte offset of the node.
    pub start: usize,
    /// The ending byte offset of the node.
    pub end: usize,
    /// The children of the node, in document order.
    pub children: Vec<SyntaxElement>,
}

/// A child of a node: either a nested node or a token.
#[derive(Debug, PartialEq, Eq)]
pub enum SyntaxElement {
    /// A composite child.
    Node(SyntaxNode),
    /// A terminal child.
    Token(SyntaxToken),
}

/// The model of a token.
pub open spec fn token_view(t: SyntaxToken) -> TokenView {
    TokenView { kind: t.kind, start: t.start as nat, end: t.end as nat, text: t.text@ }
}

/// The model of a node.
pub open spec fn node_view(n: SyntaxNode) -> NodeView
    decreases n,
{
    NodeView {
        kind: n.kind,
        start: n.start as nat,
        end: n.end as nat,
        children: elements_view(n.children@),
    }
}

/// The model of a sequence of children, in order.
pub open spec fn elements_view(s: Seq<SyntaxElement>) -> Seq<ElementView>
    decreases s,
{
    if s.len() == 0 {
        Seq::empty()
    } else {
        elements_view(s.drop_last()).push(element_view(s.last()))
    }
}

/// The model of a child.
pub open spec fn element_view(e: SyntaxElement) -> ElementView
    decreases e,
{
    match e {
        SyntaxElement::Node(n) => ElementView::Node(node_view(n)),
        SyntaxElement::Token(t) => ElementView::Token(token_view(t)),
    }
}

impl View for SyntaxToken {
    type V = TokenView;

    open spec fn view(&self) -> TokenView {
        token_view(*self)
    }
}

impl View for SyntaxNode {
    type V = NodeView;

    open spec fn view(&self) -> NodeView {
        node_view(*self)
    }
}

impl View for SyntaxElement {
    type V = ElementView;

    open spec fn view(&self) -> ElementView {
        element_view(*self)
    }
}

/// The model of a sequence of children has one entry per child, in order.
pub proof fn lemma_elements_view(s: Seq<SyntaxElement>)
    ensures
        elements_view(s).len() == s.len(),
        forall|i: int| 0 <= i < s.len() ==> elements_view(s)[i] == element_view(#[trigger] s[i]),
    decreases s,
{
    if s.len() > 0 {
        lemma_elements_view(s.drop_last());
        assert forall|i: int| 0 <= i < s.len() implies elements_view(s)[i] == element_view(
            #[trigger] s[i],
        ) by {
            if i < s.len() - 1 {
                assert(s.drop_last()[i] == s[i]);
                assert(elements_view(s)[i] == elements_view(s.drop_last())[i]);
            }
        }
    }
}

/// A prefix of the model is the model of the prefix.
pub proof fn lemma_elements_view_take(s: Seq<SyntaxElement>, i: int)
    requires
        0 <= i <= s.len(),
    ensures
        elements_view(s.take(i)) == elements_view(s).take(i),
    decreases i,
{
    lemma_elements_view(s);
    lemma_elements_view(s.take(i));
    assert forall|j: int| 0 <= j < i implies elements_view(s.take(i))[j] == elements_view(s).take(
        i,
    )[j] by {
        assert(s.take(i)[j] == s[j]);
    }
    assert(elements_view(s.take(i)) =~= elements_view(s).take(i));
}

impl SyntaxToken {
    /// Makes a token from a kind, a span and the text it covers.
    pub fn new(kind: SyntaxKind, start: usize, end: usize, text: String) -> (r: SyntaxToken)
        requires
            is_token_kind(kind),
        ensures
            r@ == (TokenView { kind, start: start as nat, end: end as nat, text: text@ }),
    {
        SyntaxToken { kind, start, end, text }
    }

    /// The kind of the token.
    pub fn kind(&self) -> (r: SyntaxKind)
        ensures
            r == self@.kind,
    {
        self.kind
    }

    /// The starting byte offset of the token.
    pub fn start(&self) -> (r: usize)
        ensures
            r as nat == self@.start,
    {
        self.start
    }

    /// The ending byte offset of the token.
    pub fn end(&self) -> (r: usize)
        ensures
            r as nat == self@.end,
    {
        self.end
    }

    /// The text the token covers.
    pub fn text(&self) -> (r: &str)
        ensures
            r@ == self@.text,
    {
        self.text.as_str()
    }

    /// Makes a value-equal copy of the token.
    pub fn duplicate(&self) -> (r: SyntaxToken)
        ensures
            r@ == self@,
    {
        SyntaxToken {
            kind: self.kind,
            start: self.start,
            end: self.end,
            text: self.text.clone(),
        }
    }
}

impl SyntaxNode {
    /// Makes a node from a kind, a span and its children, in document order.
    pub fn new(kind: SyntaxKind, start: usize, end: usize, children: Vec<SyntaxElement>) -> (r:
        SyntaxNode)
        requires
            is_node_kind(kind),
        ensures
            r@ == (NodeView {
                kind,
                start: start as nat,
                end: end as nat,
                children: elements_view(children@),
            }),
    {
        SyntaxNode { kind, start, end, children }
    }

    /// The kind of the node.
    pub fn kind(&self) -> (r: SyntaxKind)
        ensures
            r == self@.kind,
    {
        self.kind
    }

    /// The starting byte offset of the node.
    pub fn start(&self) -> (r: usize)
        ensures
            r as nat == self@.start,
    {
        self.start
    }

    /// The ending byte offset of the node.
    pub fn end(&self) -> (r: usize)
        ensures
            r as nat == self@.end,
    {
        self.end
    }

    /// The children of the node, in document order.
    pub fn children(&self) -> (r: &Vec<SyntaxElement>)
        ensures
            r@ == self.children@,
            elements_view(r@) == self@.children,
    {
        &self.children
    }

    /// Makes a value-equal copy of the node.
    pub fn duplicate(&self) -> (r: SyntaxNode)
        ensures
            r@ == self@,
        decreases *self,
    {
        let mut children: Vec<SyntaxElement> = Vec::new();
        let n = self.children.len();
        proof {
            lemma_elements_view(self.children@);
        }
        for i in 0..n
            invariant
                n == self.children.len(),
                elements_view(children@) == elements_view(self.children@.take(i as int)),
                children@.len() == i,
        {
            proof {
                lemma_elements_view(self.children@);
                lemma_elements_view_take(self.children@, i as int);
                lemma_elements_view_take(self.children@, i + 1);
                assert(decreases_to!(*self => self.children));
                assert(decreases_to!(self.children => self.children@));
                assert(decreases_to!(self.children@ => self.children@[i as int]));
            }
            let child: SyntaxElement = match &self.children[i] {
                SyntaxElement::Node(node) => {
                    proof {
                        assert(decreases_to!(self.children@[i as int] => *node));
                    }
                    SyntaxElement::Node(node.duplicate())
                },
                SyntaxElement::Token(token) => SyntaxElement::Token(token.duplicate()),
            };
            proof {
                assert(element_view(child) == element_view(self.children@[i as int]));
            }
            let ghost prev: Seq<SyntaxElement> = children@;
            children.push(child);
            proof {
                assert(children@.drop_last() =~= prev);
                assert(elements_view(children@) == elements_view(prev).push(element_view(child)));
                let orig = self.children@.take(i + 1);
                assert(orig.drop_last() =~= self.children@.take(i as int));
                assert(orig.last() == self.children@[i as int]);
                assert(elements_view(orig) == elements_view(self.children@.take(i as int)).push(
                    element_view(self.children@[i as int]),
                ));
            }
        }
        proof {
            assert(self.children@.take(n as int) =~= self.children@);
        }
        SyntaxNode { kind: self.kind, start: self.start, end: self.end, children }
    }
}

impl SyntaxElement {
    /// The kind of the element, node or token alike.
    pub fn kind(&self) -> (r: SyntaxKind)
        ensures
            r == element_kind(self@),
    {
        match self {
            SyntaxElement::Node(n) => n.kind(),
            SyntaxElement::Token(t) => t.kind(),
        }
    }

    /// Makes a value-equal copy of the element.
    pub fn duplicate(&self) -> (r: SyntaxElement)
        ensures
            r@ == self@,
    {
        match self {
            SyntaxElement::Node(n) => SyntaxElement::Node(n.duplicate()),
            SyntaxElement::Token(t) => SyntaxElement::Token(t.duplicate()),
        }
    }
}

/// The kind of a modeled element, node or token alike.
pub open spec fn element_kind(e: ElementView) -> SyntaxKind {
    match e {
        ElementView::Node(n) => n.kind,
        ElementView::Token(t) => t.kind,
    }
}

} // verus!
