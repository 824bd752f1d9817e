//! Renders a concrete syntax tree as nested test text: each element on
//! its own line as its kind and span, with children bracketed and
//! indented. The rendering is pure computation; printing it is a
//! consumer's business.

use vstd::prelude::*;

use crate::kind::SyntaxKind;
use crate::tree::ElementView;
use crate::tree::SyntaxElement;
use crate::tree::SyntaxNode;
use crate::tree::element_view;
use crate::tree::elements_view;
use crate::tree::lemma_elements_view;

verus! {

/// The character of one decimal digit.
pub open spec fn digit_char(d: nat) -> char {
    if d == 0 {
        '0'
    } else if d == 1 {
        '1'
    } else if d == 2 {
        '2'
    } else if d == 3 {
        '3'
    } else if d == 4 {
        '4'
    } else if d == 5 {
        '5'
    } else if d == 6 {
        '6'
    } else if d == 7 {
        '7'
    } else if d == 8 {
        '8'
    } else {
        '9'
    }
}

/// The decimal text of a number, most significant digit first.
pub open spec fn dec_text(n: nat) -> Seq<char>
    decreases n,
{
    if n < 10 {
        seq![digit_char(n)]
    } else {
        dec_text(n / 10).push(digit_char(n % 10))
    }
}

/// Writes a number as decimal text.
pub fn format_usize(x: usize) -> (r: String)
    ensures
        r@ == dec_text(x as nat),
    decreases x,
{
    let digit: &str = match x % 10 {
        0 => "0",
        1 => "1",
        2 => "2",
        3 => "3",
        4 => "4",
        5 => "5",
        6 => "6",
        7 => "7",
        8 => "8",
        _ => "9",
    };
    proof {
        reveal_strlit("0");
        reveal_strlit("1");
        reveal_strlit("2");
        reveal_strlit("3");
        reveal_strlit("4");
        reveal_strlit("5");
        reveal_strlit("6");
        reveal_strlit("7");
        reveal_strlit("8");
        reveal_strlit("9");
        assert(digit@ =~= seq![digit_char((x % 10) as nat)]);
        assert((x % 10) as nat == (x as nat) % 10);
        assert((x / 10) as nat == (x as nat) / 10);
    }
    if x < 10 {
        digit.to_owned()
    } else {
        let mut prefix = format_usize(x / 10);
        prefix.append(digit);
        proof {
            assert(dec_text((x as nat) / 10).push(digit_char((x as nat) % 10)) =~= dec_text(
                (x as nat) / 10,
            ) + seq![digit_char((x as nat) % 10)]);
        }
        prefix
    }
}

/// The name of a kind, as the taxonomy writes it.
pub open spec fn kind_text(k: SyntaxKind) -> Seq<char> {
    match k {
        SyntaxKind::RootNode => "RootNode"@,
        SyntaxKind::VersionStatementNode => "VersionStatementNode"@,
        SyntaxKind::ImportStatementNode => "ImportStatementNode"@,
        SyntaxKind::StructDefinitionNode => "StructDefinitionNode"@,
        SyntaxKind::TaskDefinitionNode => "TaskDefinitionNode"@,
        SyntaxKind::WorkflowDefinitionNode => "WorkflowDefinitionNode"@,
        SyntaxKind::CommandSectionNode => "CommandSectionNode"@,
        SyntaxKind::UnboundDeclNode => "UnboundDeclNode"@,
        SyntaxKind::BoundDeclNode => "BoundDeclNode"@,
        SyntaxKind::WdlTypeNode => "WdlTypeNode"@,
        SyntaxKind::LiteralExprNode => "LiteralExprNode"@,
        SyntaxKind::NameRefExprNode => "NameRefExprNode"@,
        SyntaxKind::CallStatementNode => "CallStatementNode"@,
        SyntaxKind::Ident => "Ident"@,
        SyntaxKind::Version => "Version"@,
        SyntaxKind::LiteralString => "LiteralString"@,
        SyntaxKind::VersionKeyword => "VersionKeyword"@,
        SyntaxKind::ImportKeyword => "ImportKeyword"@,
        SyntaxKind::StructKeyword => "StructKeyword"@,
        SyntaxKind::TaskKeyword => "TaskKeyword"@,
        SyntaxKind::WorkflowKeyword => "WorkflowKeyword"@,
        SyntaxKind::CommandKeyword => "CommandKeyword"@,
        SyntaxKind::CallKeyword => "CallKeyword"@,
        SyntaxKind::BooleanTypeKeyword => "BooleanTypeKeyword"@,
        SyntaxKind::IntTypeKeyword => "IntTypeKeyword"@,
        SyntaxKind::FloatTypeKeyword => "FloatTypeKeyword"@,
        SyntaxKind::StringTypeKeyword => "StringTypeKeyword"@,
        SyntaxKind::FileTypeKeyword => "FileTypeKeyword"@,
        SyntaxKind::QuestionMark => "QuestionMark"@,
        SyntaxKind::Assignment => "Assignment"@,
        SyntaxKind::OpenBrace => "OpenBrace"@,
        SyntaxKind::CloseBrace => "CloseBrace"@,
        SyntaxKind::CommandText => "CommandText"@,
        SyntaxKind::Whitespace => "Whitespace"@,
        SyntaxKind::Comment => "Comment"@,
    }
}

/// Names a kind.
pub fn kind_name(k: SyntaxKind) -> (r: &'static str)
    ensures
        r@ == kind_text(k),
{
    match k {
        SyntaxKind::RootNode => "RootNode",
        SyntaxKind::VersionStatementNode => "VersionStatementNode",
        SyntaxKind::ImportStatementNode => "ImportStatementNode",
        SyntaxKind::StructDefinitionNode => "StructDefinitionNode",
        SyntaxKind::TaskDefinitionNode => "TaskDefinitionNode",
        SyntaxKind::WorkflowDefinitionNode => "WorkflowDefinitionNode",
        SyntaxKind::CommandSectionNode => "CommandSectionNode",
        SyntaxKind::UnboundDeclNode => "UnboundDeclNode",
        SyntaxKind::BoundDeclNode => "BoundDeclNode",
        SyntaxKind::WdlTypeNode => "WdlTypeNode",
        SyntaxKind::LiteralExprNode => "LiteralExprNode",
        SyntaxKind::NameRefExprNode => "NameRefExprNode",
        SyntaxKind::CallStatementNode => "CallStatementNode",
        SyntaxKind::Ident => "Ident",
        SyntaxKind::Version => "Version",
        SyntaxKind::LiteralString => "LiteralString",
        SyntaxKind::VersionKeyword => "VersionKeyword",
        SyntaxKind::ImportKeyword => "ImportKeyword",
        SyntaxKind::StructKeyword => "StructKeyword",
        SyntaxKind::TaskKeyword => "TaskKeyword",
        SyntaxKind::WorkflowKeyword => "WorkflowKeyword",
        SyntaxKind::CommandKeyword => "CommandKeyword",
        SyntaxKind::CallKeyword => "CallKeyword",
        SyntaxKind::BooleanTypeKeyword => "BooleanTypeKeyword",
        SyntaxKind::IntTypeKeyword => "IntTypeKeyword",
        SyntaxKind::FloatTypeKeyword => "FloatTypeKeyword",
        SyntaxKind::StringTypeKeyword => "StringTypeKeyword",
        SyntaxKind::FileTypeKeyword => "FileTypeKeyword",
        SyntaxKind::QuestionMark => "QuestionMark",
        SyntaxKind::Assignment => "Assignment",
        SyntaxKind::OpenBrace => "OpenBrace",
        SyntaxKind::CloseBrace => "CloseBrace",
        SyntaxKind::CommandText => "CommandText",
        SyntaxKind::Whitespace => "Whitespace",
        SyntaxKind::Comment => "Comment",
    }
}

/// A run of spaces.
pub open spec fn spaces(n: nat) -> Seq<char>
    decreases n,
{
    if n == 0 {
        Seq::empty()
    } else {
        spaces((n - 1) as nat).push(' ')
    }
}

/// Writes a run of spaces.
pub fn format_spaces(n: usize) -> (r: String)
    ensures
        r@ == spaces(n as nat),
{
    let mut out = String::new();
    let mut i: usize = 0;
    proof {
        reveal_strlit(" ");
    }
    while i < n
        invariant
            i <= n,
            out@ == spaces(i as nat),
        decreases n - i,
    {
        out.append(" ");
        proof {
            reveal_strlit(" ");
            assert(spaces((i + 1) as nat) =~= spaces(i as nat) + " "@);
        }
        i = i + 1;
    }
    out
}

/// The rendered text of one element at the given indent: the kind and
/// the span, and for a node with children the children bracketed, each on
/// its own line, two spaces deeper.
pub open spec fn render_element(e: ElementView, indent: nat) -> Seq<char>
    decreases e,
{
    let head = spaces(indent) + kind_text(element_head(e).0) + "("@ + dec_text(
        element_head(e).1,
    ) + ", "@ + dec_text(element_head(e).2);
    match e {
        ElementView::Token(_) => head + ")"@,
        ElementView::Node(n) => if n.children.len() == 0 {
            head + ")"@
        } else {
            head + ", [\n"@ + render_children(n.children, (indent + 2) as nat) + spaces(indent) + "])"@
        },
    }
}

/// The kind, start and end of an element, node or token alike.
pub open spec fn element_head(e: ElementView) -> (SyntaxKind, nat, nat) {
    match e {
        ElementView::Node(n) => (n.kind, n.start, n.end),
        ElementView::Token(t) => (t.kind, t.start, t.end),
    }
}

/// The rendered text of a sequence of children, each followed by a comma
/// and a line break.
pub open spec fn render_children(cs: Seq<ElementView>, indent: nat) -> Seq<char>
    decreases cs,
{
    if cs.len() == 0 {
        Seq::empty()
    } else {
        render_children(cs.drop_last(), indent) + render_element(cs.last(), indent) + ",\n"@
    }
}

/// Renders one element of the tree as nested test text. The prefix is
/// the indentation already reached: a run of spaces as long as the ghost
/// indent says.
pub fn write_element(element: &SyntaxElement, prefix: &str, Ghost(indent): Ghost<nat>) -> (r:
    String)
    requires
        prefix@ == spaces(indent),
    ensures
        r@ == render_element(element@, indent),
    decreases *element,
{
    match element {
        SyntaxElement::Token(t) => {
            let mut out = prefix.to_owned();
            out.append(kind_name(t.kind));
            out.append("(");
            out.append(format_usize(t.start).as_str());
            out.append(", ");
            out.append(format_usize(t.end).as_str());
            out.append(")");
            out
        },
        SyntaxElement::Node(n) => write_node(n, prefix, Ghost(indent)),
    }
}

/// Renders one node of the tree as nested test text.
pub fn write_node(node: &SyntaxNode, prefix: &str, Ghost(indent): Ghost<nat>) -> (r: String)
    requires
        prefix@ == spaces(indent),
    ensures
        r@ == render_element(ElementView::Node(node@), indent),
    decreases *node,
{
    let mut out = prefix.to_owned();
    out.append(kind_name(node.kind));
    out.append("(");
    out.append(format_usize(node.start).as_str());
    out.append(", ");
    out.append(format_usize(node.end).as_str());
    if node.children.len() == 0 {
        proof {
            assert(node@.children =~= Seq::<ElementView>::empty());
        }
        out.append(")");
        return out;
    }
    out.append(", [\n");
    let ghost head_and_open = out@;
    let mut child_prefix = prefix.to_owned();
    child_prefix.append("  ");
    proof {
        reveal_strlit("  ");
        assert(spaces((indent + 1) as nat) =~= spaces(indent).push(' '));
        assert(spaces((indent + 2) as nat) =~= spaces((indent + 1) as nat).push(' '));
        assert(child_prefix@ =~= spaces((indent + 2) as nat));
    }
    let cn = node.children.len();
    proof {
        lemma_elements_view(node.children@);
        assert(node@.children.take(0) =~= Seq::<ElementView>::empty());
    }
    let mut i: usize = 0;
    while i < cn
        invariant
            i <= cn,
            cn == node.children@.len(),
            elements_view(node.children@) == node@.children,
            child_prefix@ == spaces((indent + 2) as nat),
            out@ == head_and_open + render_children(
                node@.children.take(i as int),
                (indent + 2) as nat,
            ),
        decreases cn - i,
    {
        proof {
            lemma_elements_view(node.children@);
            let taken = node@.children.take(i + 1);
            assert(taken.drop_last() =~= node@.children.take(i as int));
            assert(taken.last() == element_view(node.children@[i as int]));
            assert(decreases_to!(*node => node.children));
            assert(decreases_to!(node.children => node.children@));
            assert(decreases_to!(node.children@ => node.children@[i as int]));
        }
        let line = write_element(
            &node.children[i],
            child_prefix.as_str(),
            Ghost((indent + 2) as nat),
        );
        out.append(line.as_str());
        out.append(",\n");
        proof {
            assert(out@ =~= head_and_open + render_children(
                node@.children.take(i + 1),
                (indent + 2) as nat,
            ));
        }
        i = i + 1;
    }
    proof {
        assert(node@.children.take(cn as int) =~= node@.children);
    }
    out.append(prefix);
    out.append("])");
    out
}

/// Renders a whole document as nested test text, ending with a line
/// break.
pub fn write_document(root: &SyntaxNode) -> (r: String)
    ensures
        r@ == render_element(ElementView::Node(root@), 0) + "\n"@,
{
    proof {
        reveal_strlit("");
        assert(""@ =~= spaces(0));
    }
    let mut out = write_node(root, "", Ghost(0nat));
    out.append("\n");
    out
}

} // verus!
