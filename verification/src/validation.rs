//! The validation engine: a visitor whose threaded state is an ordered
//! diagnostics collector.
//!
//! Rules enforced while walking: declaration names are unique within
//! their enclosing scope, a task holds exactly one command section, and a
//! declaration's type node is well formed. A violated rule appends one
//! diagnostic and the walk goes on, so one pass reports every problem.

use vstd::prelude::*;

use crate::decl::Type;
use crate::decl::spec_type_fold;
use crate::kind::SyntaxKind;
use crate::tree::ElementView;
use crate::tree::NodeView;
use crate::tree::SyntaxElement;
use crate::tree::SyntaxNode;
use crate::tree::element_view;
use crate::tree::elements_view;
use crate::tree::lemma_elements_view;
use crate::v1::Ast;
use crate::v1::BoundDecl;
use crate::v1::CommandSection;
use crate::v1::ImportStatement;
use crate::v1::StructDefinition;
use crate::v1::TaskDefinition;
use crate::v1::UnboundDecl;
use crate::v1::VersionStatement;
use crate::v1::WorkflowDefinition;
use crate::v1::first_token_text;
use crate::v1::spec_first_token_text;
use crate::node::AstNode;
use crate::visitor::Visitor;
use crate::visitor::run_children;
use crate::visitor::run_node;

verus! {

/// How grave a finding is.
#[derive(Clone, Copy, Debug, PartialEq, Eq, Structural, Hash)]
pub enum Severity {
    /// The document is wrong.
    Error,
    /// The document is suspect.
    Warning,
}

/// The model of a diagnostic.
pub struct DiagnosticView {
    /// The severity of the finding.
    pub severity: Severity,
    /// The identifier of the violated rule.
    pub rule: Seq<char>,
    /// The message of the finding.
    pub message: Seq<char>,
    /// The starting byte offset of the cited span.
    pub start: nat,
    /// The ending byte offset of the cited span.
    pub end: nat,
    /// A second cited span, where the rule relates two places.
    pub related: Option<(nat, nat)>,
}

/// A reported finding about the document: a severity, a message, a span,
/// and the identifier of the rule that produced it.
#[derive(Clone, Debug, PartialEq, Eq)]
pub struct Diagnostic {
    /// The severity of the finding.
    pub severity: Severity,
    /// The identifier of the violated rule.
    pub rule: String,
    /// The message of the finding.
    pub message: String,
    /// The starting byte offset of the cited span.
    pub start: usize,
    /// The ending byte offset of the cited span.
    pub end: usize,
    /// A second cited span, where the rule relates two places.
    pub related: Option<(usize, usize)>,
}

/// The model of a diagnostic.
pub open spec fn diag_view(d: Diagnostic) -> DiagnosticView {
    DiagnosticView {
        severity: d.severity,
        rule: d.rule@,
        message: d.message@,
        start: d.start as nat,
        end: d.end as nat,
        related: match d.related {
            Some((a, b)) => Some((a as nat, b as nat)),
            None => None,
        },
    }
}

impl View for Diagnostic {
    type V = DiagnosticView;

    open spec fn view(&self) -> DiagnosticView {
        diag_view(*self)
    }
}

/// The model of an ordered sequence of diagnostics.
pub open spec fn diags_view(s: Seq<Diagnostic>) -> Seq<DiagnosticView>
    decreases s,
{
    if s.len() == 0 {
        Seq::empty()
    } else {
        diags_view(s.drop_last()).push(diag_view(s.last()))
    }
}

/// The model of a sequence of diagnostics has one entry per diagnostic,
/// in order.
pub proof fn lemma_diags_view(s: Seq<Diagnostic>)
    ensures
        diags_view(s).len() == s.len(),
        forall|i: int| 0 <= i < s.len() ==> diags_view(s)[i] == diag_view(#[trigger] s[i]),
    decreases s,
{
    if s.len() > 0 {
        lemma_diags_view(s.drop_last());
        assert forall|i: int| 0 <= i < s.len() implies diags_view(s)[i] == diag_view(
            #[trigger] s[i],
        ) by {
            if i < s.len() - 1 {
                assert(s.drop_last()[i] == s[i]);
            }
        }
    }
}

/// The model distributes over concatenation.
pub proof fn lemma_diags_view_concat(a: Seq<Diagnostic>, b: Seq<Diagnostic>)
    ensures
        diags_view(a + b) == diags_view(a) + diags_view(b),
    decreases b,
{
    if b.len() == 0 {
        assert(a + b =~= a);
        assert(diags_view(a) + diags_view(b) =~= diags_view(a));
    } else {
        lemma_diags_view_concat(a, b.drop_last());
        assert((a + b).drop_last() =~= a + b.drop_last());
        assert((a + b).last() == b.last());
        assert(diags_view(a) + diags_view(b) =~= (diags_view(a) + diags_view(
            b.drop_last(),
        )).push(diag_view(b.last())));
    }
}

/// A declaration seen in a scope: its name's text and its span.
pub struct EntryView {
    /// The declared name.
    pub name: Seq<char>,
    /// The starting byte offset of the declaration.
    pub start: nat,
    /// The ending byte offset of the declaration.
    pub end: nat,
}

/// A declaration seen while scanning a scope.
pub struct DeclEntry {
    /// The declared name.
    pub name: String,
    /// The starting byte offset of the declaration.
    pub start: usize,
    /// The ending byte offset of the declaration.
    pub end: usize,
}

/// The model of a scanned declaration.
pub open spec fn entry_view(e: DeclEntry) -> EntryView {
    EntryView { name: e.name@, start: e.start as nat, end: e.end as nat }
}

/// The model of a sequence of scanned declarations.
pub open spec fn entries_view(s: Seq<DeclEntry>) -> Seq<EntryView>
    decreases s,
{
    if s.len() == 0 {
        Seq::empty()
    } else {
        entries_view(s.drop_last()).push(entry_view(s.last()))
    }
}

/// The model of a sequence of scanned declarations has one entry each, in
/// order.
pub proof fn lemma_entries_view(s: Seq<DeclEntry>)
    ensures
        entries_view(s).len() == s.len(),
        forall|i: int| 0 <= i < s.len() ==> entries_view(s)[i] == entry_view(#[trigger] s[i]),
    decreases s,
{
    if s.len() > 0 {
        lemma_entries_view(s.drop_last());
        assert forall|i: int| 0 <= i < s.len() implies entries_view(s)[i] == entry_view(
            #[trigger] s[i],
        ) by {
            if i < s.len() - 1 {
                assert(s.drop_last()[i] == s[i]);
            }
        }
    }
}

/// Holds of the node kinds that declare a name in their enclosing scope.
pub open spec fn is_decl_kind(k: SyntaxKind) -> bool {
    k == SyntaxKind::UnboundDeclNode || k == SyntaxKind::BoundDeclNode
}

/// The named declarations among a scope's children, in document order: a
/// declaration without an identifier token has no name to clash with and
/// is passed over.
pub open spec fn decl_entries(cs: Seq<ElementView>) -> Seq<EntryView>
    decreases cs,
{
    if cs.len() == 0 {
        Seq::empty()
    } else {
        let prefix = decl_entries(cs.drop_last());
        match cs.last() {
            ElementView::Node(n) => if is_decl_kind(n.kind) {
                match spec_first_token_text(n.children, SyntaxKind::Ident) {
                    Some(t) => prefix.push(EntryView { name: t, start: n.start, end: n.end }),
                    None => prefix,
                }
            } else {
                prefix
            },
            ElementView::Token(_) => prefix,
        }
    }
}

/// The index of the first earlier entry with the given name, or `-1`
/// where none stands.
pub open spec fn first_with_name(es: Seq<EntryView>, name: Seq<char>) -> int
    decreases es,
{
    if es.len() == 0 {
        -1
    } else {
        let before = first_with_name(es.drop_last(), name);
        if before >= 0 {
            before
        } else if es.last().name == name {
            es.len() - 1
        } else {
            -1
        }
    }
}

/// The diagnostic reporting that a name was declared twice: it cites the
/// later declaration's span and, as related, the earlier one's.
pub open spec fn dup_diag(earlier: EntryView, later: EntryView) -> DiagnosticView {
    DiagnosticView {
        severity: Severity::Error,
        rule: "duplicate-name"@,
        message: "a declaration with this name already stands in this scope"@,
        start: later.start,
        end: later.end,
        related: Some((earlier.start, earlier.end)),
    }
}

/// The duplicate-name diagnostics of a scope's declarations, in document
/// order: each declaration whose name already stands earlier in the scope
/// yields one diagnostic citing both spans.
pub open spec fn dup_diags(es: Seq<EntryView>) -> Seq<DiagnosticView>
    decreases es,
{
    if es.len() == 0 {
        Seq::empty()
    } else {
        let prefix = dup_diags(es.drop_last());
        let j = es.len() - 1;
        let i = first_with_name(es.drop_last(), es.last().name);
        if i >= 0 {
            prefix.push(dup_diag(es.drop_last()[i], es.last()))
        } else {
            prefix
        }
    }
}

/// A scope's declarations yield no duplicate-name diagnostic exactly
/// where no two of them share a name.
pub proof fn lemma_duplicate_name_detection(es: Seq<EntryView>)
    ensures
        dup_diags(es).len() == 0 <==> (forall|i: int, j: int|
            0 <= i < j < es.len() ==> (#[trigger] es[i].name) != (#[trigger] es[j].name)),
    decreases es,
{
    lemma_first_with_name_means(es);
    if es.len() > 0 {
        lemma_duplicate_name_detection(es.drop_last());
        let j = es.len() - 1;
        lemma_first_with_name_means(es.drop_last());
        if dup_diags(es).len() == 0 {
            assert forall|a: int, b: int| 0 <= a < b < es.len() implies (#[trigger] es[a].name)
                != (#[trigger] es[b].name) by {
                if b < j {
                    assert(es.drop_last()[a] == es[a]);
                    assert(es.drop_last()[b] == es[b]);
                } else {
                    if es[a].name == es[b].name {
                        assert(es.drop_last()[a] == es[a]);
                        lemma_first_with_name_found(es.drop_last(), es.last().name, a);
                    }
                }
            }
        } else {
            if dup_diags(es.drop_last()).len() > 0 {
            } else {
                let i = first_with_name(es.drop_last(), es.last().name);
                assert(i >= 0);
                lemma_first_with_name_means(es.drop_last());
                assert(es.drop_last()[i].name == es.last().name);
                assert(es[i] == es.drop_last()[i]);
                assert(es[i].name == es[j].name);
            }
        }
    }
}

/// What a nonnegative result of `first_with_name` means: the entry there
/// bears the name.
proof fn lemma_first_with_name_means(es: Seq<EntryView>)
    ensures
        forall|name: Seq<char>|
            {
                let i = #[trigger] first_with_name(es, name);
                i >= 0 ==> 0 <= i < es.len() && es[i].name == name
            },
    decreases es,
{
    if es.len() > 0 {
        lemma_first_with_name_means(es.drop_last());
        assert forall|name: Seq<char>|
            {
                let i = #[trigger] first_with_name(es, name);
                i >= 0 ==> 0 <= i < es.len() && es[i].name == name
            } by {
            let i = first_with_name(es, name);
            if i >= 0 {
                let before = first_with_name(es.drop_last(), name);
                if before >= 0 {
                    assert(es.drop_last()[before] == es[before]);
                }
            }
        }
    }
}

/// Where some entry bears the name, `first_with_name` finds one.
proof fn lemma_first_with_name_found(es: Seq<EntryView>, name: Seq<char>, witness: int)
    requires
        0 <= witness < es.len(),
        es[witness].name == name,
    ensures
        first_with_name(es, name) >= 0,
    decreases es,
{
    if es.len() > 0 {
        if witness < es.len() - 1 {
            assert(es.drop_last()[witness] == es[witness]);
            lemma_first_with_name_found(es.drop_last(), name, witness);
        }
    }
}

/// Every duplicate-name diagnostic cites the spans of two declarations
/// of the scope that bear the same name, the earlier one as related and
/// the later one as primary.
pub proof fn lemma_dup_diags_cite_both_spans(es: Seq<EntryView>, k: int)
    requires
        0 <= k < dup_diags(es).len(),
    ensures
        exists|i: int, j: int|
            0 <= i < j < es.len() && (#[trigger] es[i]).name == (#[trigger] es[j]).name
                && dup_diags(es)[k] == dup_diag(es[i], es[j]),
    decreases es,
{
    if es.len() > 0 {
        let prefix = dup_diags(es.drop_last());
        let j = es.len() - 1;
        let i = first_with_name(es.drop_last(), es.last().name);
        if k < prefix.len() {
            lemma_dup_diags_cite_both_spans(es.drop_last(), k);
            let (a, b) = choose|a: int, b: int|
                0 <= a < b < es.drop_last().len() && (#[trigger] es.drop_last()[a]).name == (
                #[trigger] es.drop_last()[b]).name && dup_diags(es.drop_last())[k] == dup_diag(
                    es.drop_last()[a],
                    es.drop_last()[b],
                );
            assert(es.drop_last()[a] == es[a]);
            assert(es.drop_last()[b] == es[b]);
            assert(dup_diags(es)[k] == dup_diag(es[a], es[b]));
        } else {
            assert(i >= 0);
            lemma_first_with_name_means(es.drop_last());
            assert(es.drop_last()[i] == es[i]);
            assert(es[i].name == es[j].name);
            assert(dup_diags(es)[k] == dup_diag(es[i], es[j]));
        }
    }
}

/// Scans a scope's children for its named declarations, in document
/// order.
pub fn collect_decl_entries(node: &SyntaxNode) -> (r: Vec<DeclEntry>)
    ensures
        entries_view(r@) == decl_entries(node@.children),
{
    let n = node.children.len();
    let mut r: Vec<DeclEntry> = Vec::new();
    proof {
        lemma_elements_view(node.children@);
        assert(node@.children.take(0) =~= Seq::<ElementView>::empty());
    }
    let mut i: usize = 0;
    while i < n
        invariant
            i <= n,
            n == node.children@.len(),
            elements_view(node.children@) == node@.children,
            entries_view(r@) == decl_entries(node@.children.take(i as int)),
        decreases n - i,
    {
        proof {
            lemma_elements_view(node.children@);
            let taken = node@.children.take(i + 1);
            assert(taken.drop_last() =~= node@.children.take(i as int));
            assert(taken.last() == element_view(node.children@[i as int]));
        }
        match &node.children[i] {
            SyntaxElement::Node(child) => {
                let kind = child.kind();
                if matches!(kind, SyntaxKind::UnboundDeclNode | SyntaxKind::BoundDeclNode) {
                    match first_token_text(child, SyntaxKind::Ident) {
                        Some(name) => {
                            let entry = DeclEntry {
                                name,
                                start: child.start(),
                                end: child.end(),
                            };
                            let ghost prev = r@;
                            r.push(entry);
                            proof {
                                assert(r@.drop_last() =~= prev);
                            }
                        },
                        None => {},
                    }
                }
            },
            SyntaxElement::Token(_) => {},
        }
        i = i + 1;
    }
    proof {
        assert(node@.children.take(n as int) =~= node@.children);
    }
    r
}

/// Reports each declaration whose name already stands earlier among the
/// given entries, in document order.
pub fn duplicate_name_diags(entries: &Vec<DeclEntry>) -> (r: Vec<Diagnostic>)
    ensures
        diags_view(r@) == dup_diags(entries_view(entries@)),
{
    let n = entries.len();
    let mut r: Vec<Diagnostic> = Vec::new();
    proof {
        lemma_entries_view(entries@);
        assert(entries@.take(0) =~= Seq::<DeclEntry>::empty());
        assert(entries_view(entries@.take(0)) =~= entries_view(entries@).take(0));
    }
    let mut j: usize = 0;
    while j < n
        invariant
            j <= n,
            n == entries@.len(),
            diags_view(r@) == dup_diags(entries_view(entries@).take(j as int)),
        decreases n - j,
    {
        proof {
            lemma_entries_view(entries@);
            let full = entries_view(entries@);
            assert(full.take(j + 1).drop_last() =~= full.take(j as int));
            assert(full.take(j + 1).last() == full[j as int]);
        }
        let mut found: usize = n;
        let mut i: usize = 0;
        while i < j
            invariant
                i <= j,
                j < n,
                n == entries@.len(),
                found == n || (found < i && entries@[found as int].name@
                    == entries@[j as int].name@),
                first_with_name(
                    entries_view(entries@).take(j as int).take(i as int),
                    entries_view(entries@)[j as int].name,
                ) == if found == n {
                    -1
                } else {
                    found as int
                },
            decreases j - i,
        {
            proof {
                lemma_entries_view(entries@);
                let scope = entries_view(entries@).take(j as int);
                assert(scope.take(i + 1).drop_last() =~= scope.take(i as int));
                assert(scope.take(i + 1).last() == entries_view(entries@)[i as int]);
            }
            if found == n {
                if entries[i].name.eq(&entries[j].name) {
                    found = i;
                }
            } else {
                proof {
                    let scope = entries_view(entries@).take(j as int);
                    lemma_first_with_name_stable(
                        scope,
                        entries_view(entries@)[j as int].name,
                        i as int,
                    );
                }
            }
            i = i + 1;
        }
        proof {
            let scope = entries_view(entries@).take(j as int);
            assert(scope.take(j as int) =~= scope);
        }
        if found < n {
            let d = Diagnostic {
                severity: Severity::Error,
                rule: "duplicate-name".to_owned(),
                message: "a declaration with this name already stands in this scope".to_owned(),
                start: entries[j].start,
                end: entries[j].end,
                related: Some((entries[found].start, entries[found].end)),
            };
            let ghost prev = r@;
            r.push(d);
            proof {
                lemma_entries_view(entries@);
                assert(r@.drop_last() =~= prev);
                let full = entries_view(entries@);
                assert(full.take(j as int)[found as int] == entry_view(entries@[found as int]));
            }
        }
        j = j + 1;
    }
    proof {
        assert(entries_view(entries@).take(n as int) =~= entries_view(entries@));
    }
    r
}

/// Once a first bearer of a name stands in a prefix, longer prefixes keep
/// it.
proof fn lemma_first_with_name_stable(es: Seq<EntryView>, name: Seq<char>, i: int)
    requires
        0 <= i < es.len(),
        first_with_name(es.take(i), name) >= 0,
    ensures
        first_with_name(es.take(i + 1), name) == first_with_name(es.take(i), name),
    decreases es.len(),
{
    assert(es.take(i + 1).drop_last() =~= es.take(i));
}

/// How many composite children of the given kind a node holds.
pub open spec fn count_kind(cs: Seq<ElementView>, k: SyntaxKind) -> nat
    decreases cs,
{
    if cs.len() == 0 {
        0
    } else {
        count_kind(cs.drop_last(), k) + match cs.last() {
            ElementView::Node(n) => if n.kind == k {
                1nat
            } else {
                0nat
            },
            ElementView::Token(_) => 0nat,
        }
    }
}

/// The first composite child of the given kind, or `None` where none
/// stands.
pub open spec fn first_node_of_kind(cs: Seq<ElementView>, k: SyntaxKind) -> Option<NodeView>
    decreases cs,
{
    if cs.len() == 0 {
        None
    } else {
        let before = first_node_of_kind(cs.drop_last(), k);
        if before is Some {
            before
        } else {
            match cs.last() {
                ElementView::Node(n) => if n.kind == k {
                    Some(n)
                } else {
                    None
                },
                ElementView::Token(_) => None,
            }
        }
    }
}

/// The diagnostic reporting that a task does not hold exactly one command
/// section.
pub open spec fn command_diag(n: NodeView) -> DiagnosticView {
    DiagnosticView {
        severity: Severity::Error,
        rule: "command-count"@,
        message: "a task must hold exactly one command section"@,
        start: n.start,
        end: n.end,
        related: None,
    }
}

/// The structural-completeness diagnostics of a task: one finding where
/// its command section is missing or repeated.
pub open spec fn command_diags(n: NodeView) -> Seq<DiagnosticView> {
    if count_kind(n.children, SyntaxKind::CommandSectionNode) == 1 {
        Seq::empty()
    } else {
        seq![command_diag(n)]
    }
}

/// Everything a task definition is held to: unique declaration names and
/// exactly one command section.
pub open spec fn task_diags(n: NodeView) -> Seq<DiagnosticView> {
    dup_diags(decl_entries(n.children)) + command_diags(n)
}

/// The diagnostic reporting that a declaration does not hold exactly one
/// type node.
pub open spec fn type_shape_diag(n: NodeView) -> DiagnosticView {
    DiagnosticView {
        severity: Severity::Error,
        rule: "type-shape"@,
        message: "a declaration must hold exactly one type"@,
        start: n.start,
        end: n.end,
        related: None,
    }
}

/// The diagnostic reporting that a declaration's type node is malformed.
pub open spec fn type_malformed_diag(n: NodeView) -> DiagnosticView {
    DiagnosticView {
        severity: Severity::Error,
        rule: "type-form"@,
        message: "the type of this declaration is not well formed"@,
        start: n.start,
        end: n.end,
        related: None,
    }
}

/// The type well-formedness diagnostics of a declaration: one finding
/// where its type node is missing, repeated, or not from the closed WDL
/// type set.
pub open spec fn decl_diags(n: NodeView) -> Seq<DiagnosticView> {
    match first_node_of_kind(n.children, SyntaxKind::WdlTypeNode) {
        None => seq![type_shape_diag(n)],
        Some(t) => if count_kind(n.children, SyntaxKind::WdlTypeNode) != 1 {
            seq![type_shape_diag(n)]
        } else if spec_type_fold(t.children, None, false) is Err {
            seq![type_malformed_diag(n)]
        } else {
            Seq::empty()
        },
    }
}

/// Checks a declaration node's type for well-formedness, returning the
/// finding where there is one.
pub fn check_decl_type(node: &SyntaxNode) -> (r: Option<Diagnostic>)
    ensures
        match r {
            Some(d) => decl_diags(node@) == seq![d@],
            None => decl_diags(node@) == Seq::<DiagnosticView>::empty(),
        },
{
    let n = node.children.len();
    let mut count: usize = 0;
    let mut found: usize = n;
    proof {
        lemma_elements_view(node.children@);
        assert(node@.children.take(0) =~= Seq::<ElementView>::empty());
    }
    let mut i: usize = 0;
    while i < n
        invariant
            i <= n,
            n == node.children@.len(),
            elements_view(node.children@) == node@.children,
            count == count_kind(node@.children.take(i as int), SyntaxKind::WdlTypeNode),
            count <= i,
            match first_node_of_kind(node@.children.take(i as int), SyntaxKind::WdlTypeNode) {
                Some(t) => found < i && node@.children[found as int] == ElementView::Node(t)
                    && t.kind == SyntaxKind::WdlTypeNode,
                None => found == n,
            },
        decreases n - i,
    {
        proof {
            lemma_elements_view(node.children@);
            let taken = node@.children.take(i + 1);
            assert(taken.drop_last() =~= node@.children.take(i as int));
            assert(taken.last() == element_view(node.children@[i as int]));
        }
        match &node.children[i] {
            SyntaxElement::Node(child) => {
                if matches!(child.kind(), SyntaxKind::WdlTypeNode) {
                    if found == n {
                        found = i;
                    }
                    count = count + 1;
                }
            },
            SyntaxElement::Token(_) => {},
        }
        i = i + 1;
    }
    proof {
        assert(node@.children.take(n as int) =~= node@.children);
    }
    if found == n {
        return Some(
            Diagnostic {
                severity: Severity::Error,
                rule: "type-shape".to_owned(),
                message: "a declaration must hold exactly one type".to_owned(),
                start: node.start(),
                end: node.end(),
                related: None,
            },
        );
    }
    if count != 1 {
        return Some(
            Diagnostic {
                severity: Severity::Error,
                rule: "type-shape".to_owned(),
                message: "a declaration must hold exactly one type".to_owned(),
                start: node.start(),
                end: node.end(),
                related: None,
            },
        );
    }
    proof {
        lemma_elements_view(node.children@);
    }
    match &node.children[found] {
        SyntaxElement::Node(child) => {
            match Type::try_from_node(child) {
                Ok(_) => None,
                Err(_) => Some(
                    Diagnostic {
                        severity: Severity::Error,
                        rule: "type-form".to_owned(),
                        message: "the type of this declaration is not well formed".to_owned(),
                        start: node.start(),
                        end: node.end(),
                        related: None,
                    },
                ),
            }
        },
        SyntaxElement::Token(_) => unreached(),
    }
}

/// Counts the composite children of the given kind.
pub fn count_kind_children(node: &SyntaxNode, k: SyntaxKind) -> (r: usize)
    ensures
        r == count_kind(node@.children, k),
{
    let n = node.children.len();
    let mut count: usize = 0;
    proof {
        lemma_elements_view(node.children@);
        assert(node@.children.take(0) =~= Seq::<ElementView>::empty());
    }
    let mut i: usize = 0;
    while i < n
        invariant
            i <= n,
            n == node.children@.len(),
            elements_view(node.children@) == node@.children,
            count == count_kind(node@.children.take(i as int), k),
            count <= i,
        decreases n - i,
    {
        proof {
            lemma_elements_view(node.children@);
            let taken = node@.children.take(i + 1);
            assert(taken.drop_last() =~= node@.children.take(i as int));
            assert(taken.last() == element_view(node.children@[i as int]));
        }
        match &node.children[i] {
            SyntaxElement::Node(child) => {
                if child.kind() == k {
                    count = count + 1;
                }
            },
            SyntaxElement::Token(_) => {},
        }
        i = i + 1;
    }
    proof {
        assert(node@.children.take(n as int) =~= node@.children);
    }
    count
}

/// The validation engine: the visitor that accumulates diagnostics while
/// the traversal walks the document.
pub struct Validator;

impl Visitor for Validator {
    type State = Vec<Diagnostic>;

    type StateV = Seq<DiagnosticView>;

    open spec fn sv(s: Vec<Diagnostic>) -> Seq<DiagnosticView> {
        diags_view(s@)
    }

    open spec fn spec_document(&self, s: Seq<DiagnosticView>, n: NodeView) -> (
        Seq<DiagnosticView>,
        bool,
    ) {
        (s, true)
    }

    open spec fn spec_version_statement(&self, s: Seq<DiagnosticView>, n: NodeView) -> (
        Seq<DiagnosticView>,
        bool,
    ) {
        (s, true)
    }

    open spec fn spec_import_statement(&self, s: Seq<DiagnosticView>, n: NodeView) -> (
        Seq<DiagnosticView>,
        bool,
    ) {
        (s, true)
    }

    open spec fn spec_struct_definition(&self, s: Seq<DiagnosticView>, n: NodeView) -> (
        Seq<DiagnosticView>,
        bool,
    ) {
        (s + dup_diags(decl_entries(n.children)), true)
    }

    open spec fn spec_task_definition(&self, s: Seq<DiagnosticView>, n: NodeView) -> (
        Seq<DiagnosticView>,
        bool,
    ) {
        (s + task_diags(n), true)
    }

    open spec fn spec_workflow_definition(&self, s: Seq<DiagnosticView>, n: NodeView) -> (
        Seq<DiagnosticView>,
        bool,
    ) {
        (s + dup_diags(decl_entries(n.children)), true)
    }

    open spec fn spec_command_section(&self, s: Seq<DiagnosticView>, n: NodeView) -> (
        Seq<DiagnosticView>,
        bool,
    ) {
        (s, true)
    }

    open spec fn spec_unbound_decl(&self, s: Seq<DiagnosticView>, n: NodeView) -> (
        Seq<DiagnosticView>,
        bool,
    ) {
        (s + decl_diags(n), true)
    }

    open spec fn spec_bound_decl(&self, s: Seq<DiagnosticView>, n: NodeView) -> (
        Seq<DiagnosticView>,
        bool,
    ) {
        (s + decl_diags(n), true)
    }

    open spec fn spec_other_node(&self, s: Seq<DiagnosticView>, n: NodeView) -> (
        Seq<DiagnosticView>,
        bool,
    ) {
        (s, true)
    }

    open spec fn spec_exit_node(&self, s: Seq<DiagnosticView>, n: NodeView) -> Seq<DiagnosticView> {
        s
    }

    fn document(&self, state: &mut Vec<Diagnostic>, node: &Ast) -> (c: bool) {
        true
    }

    fn version_statement(&self, state: &mut Vec<Diagnostic>, node: &VersionStatement) -> (c:
        bool) {
        true
    }

    fn import_statement(&self, state: &mut Vec<Diagnostic>, node: &ImportStatement) -> (c: bool) {
        true
    }

    fn struct_definition(&self, state: &mut Vec<Diagnostic>, node: &StructDefinition) -> (c:
        bool) {
        let entries = collect_decl_entries(node.syntax());
        let mut fresh = duplicate_name_diags(&entries);
        let ghost prev = state@;
        let ghost fresh_view = fresh@;
        state.append(&mut fresh);
        proof {
            lemma_diags_view_concat(prev, fresh_view);
        }
        true
    }

    fn task_definition(&self, state: &mut Vec<Diagnostic>, node: &TaskDefinition) -> (c: bool) {
        let entries = collect_decl_entries(node.syntax());
        let mut fresh = duplicate_name_diags(&entries);
        let ghost prev = state@;
        let ghost fresh_view = fresh@;
        state.append(&mut fresh);
        proof {
            lemma_diags_view_concat(prev, fresh_view);
        }
        let commands = count_kind_children(node.syntax(), SyntaxKind::CommandSectionNode);
        if commands != 1 {
            let ghost before = state@;
            state.push(
                Diagnostic {
                    severity: Severity::Error,
                    rule: "command-count".to_owned(),
                    message: "a task must hold exactly one command section".to_owned(),
                    start: node.syntax().start(),
                    end: node.syntax().end(),
                    related: None,
                },
            );
            proof {
                assert(state@.drop_last() =~= before);
                assert(diags_view(before).push(diags_view(state@).last()) =~= diags_view(
                    prev,
                ) + task_diags(node.nv()));
            }
        } else {
            proof {
                assert(diags_view(state@) =~= diags_view(prev) + task_diags(node.nv()));
            }
        }
        true
    }

    fn workflow_definition(&self, state: &mut Vec<Diagnostic>, node: &WorkflowDefinition) -> (c:
        bool) {
        let entries = collect_decl_entries(node.syntax());
        let mut fresh = duplicate_name_diags(&entries);
        let ghost prev = state@;
        let ghost fresh_view = fresh@;
        state.append(&mut fresh);
        proof {
            lemma_diags_view_concat(prev, fresh_view);
        }
        true
    }

    fn command_section(&self, state: &mut Vec<Diagnostic>, node: &CommandSection) -> (c: bool) {
        true
    }

    fn unbound_decl(&self, state: &mut Vec<Diagnostic>, node: &UnboundDecl) -> (c: bool) {
        let finding = check_decl_type(node.syntax());
        let ghost prev = state@;
        match finding {
            Some(d) => {
                let ghost dv = d@;
                state.push(d);
                proof {
                    assert(state@.drop_last() =~= prev);
                    assert(diags_view(prev).push(dv) =~= diags_view(prev) + seq![dv]);
                }
            },
            None => {
                proof {
                    assert(diags_view(prev) =~= diags_view(prev) + decl_diags(node.nv()));
                }
            },
        }
        true
    }

    fn bound_decl(&self, state: &mut Vec<Diagnostic>, node: &BoundDecl) -> (c: bool) {
        let finding = check_decl_type(node.syntax());
        let ghost prev = state@;
        match finding {
            Some(d) => {
                let ghost dv = d@;
                state.push(d);
                proof {
                    assert(state@.drop_last() =~= prev);
                    assert(diags_view(prev).push(dv) =~= diags_view(prev) + seq![dv]);
                }
            },
            None => {
                proof {
                    assert(diags_view(prev) =~= diags_view(prev) + decl_diags(node.nv()));
                }
            },
        }
        true
    }

    fn other_node(&self, state: &mut Vec<Diagnostic>, node: &SyntaxNode) -> (c: bool) {
        true
    }

    fn exit_node(&self, state: &mut Vec<Diagnostic>, node: &SyntaxNode) {
    }
}

/// The diagnostics one validation pass over a document produces: a
/// function of the tree's model alone.
pub open spec fn spec_validate(n: NodeView) -> Seq<DiagnosticView> {
    run_node::<Validator>(Validator {  }, Seq::empty(), n).0
}

/// Runs the validation engine over a document, producing its diagnostics
/// in traversal order, which is document order.
pub fn validate(ast: &Ast) -> (r: Vec<Diagnostic>)
    ensures
        diags_view(r@) == spec_validate(ast.nv()),
{
    let mut state: Vec<Diagnostic> = Vec::new();
    let mut validator = Validator {  };
    ast.visit(&mut state, &mut validator);
    state
}

/// The stable merge of two diagnostic sequences by source position: a
/// finding of the second sequence comes forward only where it starts
/// strictly earlier than what remains of the first.
pub open spec fn spec_merge(a: Seq<DiagnosticView>, b: Seq<DiagnosticView>) -> Seq<DiagnosticView>
    decreases a.len() + b.len(),
{
    if a.len() == 0 {
        b
    } else if b.len() == 0 {
        a
    } else if b.first().start < a.first().start {
        seq![b.first()] + spec_merge(a, b.drop_first())
    } else {
        seq![a.first()] + spec_merge(a.drop_first(), b)
    }
}

impl Diagnostic {
    /// Makes a value-equal copy of the diagnostic.
    pub fn duplicate(&self) -> (r: Diagnostic)
        ensures
            r@ == self@,
    {
        Diagnostic {
            severity: self.severity,
            rule: self.rule.clone(),
            message: self.message.clone(),
            start: self.start,
            end: self.end,
            related: self.related,
        }
    }
}

/// Merges two ordered diagnostic sequences into one, by source position,
/// stably: ties keep the first sequence's findings first.
pub fn merge_diagnostics(a: &Vec<Diagnostic>, b: &Vec<Diagnostic>) -> (r: Vec<Diagnostic>)
    ensures
        diags_view(r@) == spec_merge(diags_view(a@), diags_view(b@)),
{
    let na = a.len();
    let nb = b.len();
    let ghost av = diags_view(a@);
    let ghost bv = diags_view(b@);
    let mut r: Vec<Diagnostic> = Vec::new();
    let mut i: usize = 0;
    let mut j: usize = 0;
    proof {
        lemma_diags_view(a@);
        lemma_diags_view(b@);
        assert(av.skip(0) =~= av);
        assert(bv.skip(0) =~= bv);
    }
    while i < na || j < nb
        invariant
            i <= na,
            j <= nb,
            na == a@.len(),
            nb == b@.len(),
            av == diags_view(a@),
            bv == diags_view(b@),
            av.len() == na && bv.len() == nb,
            forall|k: int| 0 <= k < na ==> av[k] == diag_view(#[trigger] a@[k]),
            forall|k: int| 0 <= k < nb ==> bv[k] == diag_view(#[trigger] b@[k]),
            spec_merge(av, bv) == diags_view(r@) + spec_merge(
                av.skip(i as int),
                bv.skip(j as int),
            ),
        decreases na + nb - i - j,
    {
        let take_a: bool = if i < na && j < nb {
            !(b[j].start < a[i].start)
        } else {
            i < na
        };
        if take_a {
            let ghost prev = r@;
            let ghost rest_a = av.skip(i as int);
            let ghost rest_b = bv.skip(j as int);
            r.push(a[i].duplicate());
            proof {
                assert(r@.drop_last() =~= prev);
                assert(rest_a.first() == av[i as int]);
                assert(rest_a.drop_first() =~= av.skip(i + 1));
                if rest_b.len() > 0 {
                    assert(rest_b.first() == bv[j as int]);
                }
                assert(rest_a =~= seq![av[i as int]] + av.skip(i + 1));
                assert(spec_merge(rest_a, rest_b) == seq![av[i as int]] + spec_merge(
                    av.skip(i + 1),
                    rest_b,
                ));
                assert(diags_view(r@) =~= diags_view(prev).push(av[i as int]));
                assert(diags_view(prev).push(av[i as int]) + spec_merge(av.skip(i + 1), rest_b)
                    =~= diags_view(prev) + spec_merge(rest_a, rest_b));
            }
            i = i + 1;
        } else {
            let ghost prev = r@;
            let ghost rest_a = av.skip(i as int);
            let ghost rest_b = bv.skip(j as int);
            r.push(b[j].duplicate());
            proof {
                assert(r@.drop_last() =~= prev);
                assert(rest_b.first() == bv[j as int]);
                assert(rest_b.drop_first() =~= bv.skip(j + 1));
                if rest_a.len() > 0 {
                    assert(rest_a.first() == av[i as int]);
                }
                assert(rest_b =~= seq![bv[j as int]] + bv.skip(j + 1));
                assert(spec_merge(rest_a, rest_b) == seq![bv[j as int]] + spec_merge(
                    rest_a,
                    bv.skip(j + 1),
                ));
                assert(diags_view(r@) =~= diags_view(prev).push(bv[j as int]));
                assert(diags_view(prev).push(bv[j as int]) + spec_merge(rest_a, bv.skip(j + 1))
                    =~= diags_view(prev) + spec_merge(rest_a, rest_b));
            }
            j = j + 1;
        }
    }
    proof {
        assert(av.skip(na as int) =~= Seq::<DiagnosticView>::empty());
        assert(bv.skip(nb as int) =~= Seq::<DiagnosticView>::empty());
        assert(diags_view(r@) + Seq::<DiagnosticView>::empty() =~= diags_view(r@));
    }
    r
}

/// Runs the validation engine and merges the grammar engine's own
/// concerns into the same ordering by source position.
pub fn validate_with_concerns(ast: &Ast, concerns: &Vec<Diagnostic>) -> (r: Vec<Diagnostic>)
    ensures
        diags_view(r@) == spec_merge(spec_validate(ast.nv()), diags_view(concerns@)),
{
    let mine = validate(ast);
    merge_diagnostics(&mine, concerns)
}

/// A diagnostic never aborts the pass: the validation engine walks every
/// node of the document, however many findings it collects on the way.
pub proof fn lemma_validation_never_stops(s: Seq<DiagnosticView>, n: NodeView)
    ensures
        run_node::<Validator>(Validator {  }, s, n).1,
    decreases n,
{
    let v = Validator {  };
    let (s1, c1) = crate::visitor::enter_transition::<Validator>(v, s, n);
    assert(c1);
    lemma_validation_children_never_stop(s1, n.children);
}

/// Walking the children never stops either.
pub proof fn lemma_validation_children_never_stop(s: Seq<DiagnosticView>, cs: Seq<ElementView>)
    ensures
        run_children::<Validator>(Validator {  }, s, cs).1,
    decreases cs,
{
    let v = Validator {  };
    if cs.len() > 0 {
        lemma_validation_children_never_stop(s, cs.drop_last());
        let (s1, c1) = run_children::<Validator>(v, s, cs.drop_last());
        match cs.last() {
            ElementView::Node(m) => {
                lemma_validation_never_stops(s1, m);
            },
            ElementView::Token(_) => {},
        }
    }
}

/// Validation is deterministic: the diagnostics of a pass are a function
/// of the document's model, so two passes over the same document agree in
/// count, order, spans and messages.
pub proof fn lemma_validation_deterministic(
    n: NodeView,
    a: Seq<DiagnosticView>,
    b: Seq<DiagnosticView>,
)
    requires
        a == spec_validate(n),
        b == spec_validate(n),
    ensures
        a == b,
{
}

} // verus!
