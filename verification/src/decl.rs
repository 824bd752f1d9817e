//! Unbound declarations: a validated name paired with a WDL type
//! descriptor, assembled from parse fragments by a fallible builder.

use vstd::prelude::*;

use crate::kind::SyntaxKind;
use crate::tree::ElementView;
use crate::tree::NodeView;
use crate::tree::SyntaxElement;
use crate::tree::SyntaxNode;
use crate::tree::element_view;
use crate::tree::elements_view;
use crate::tree::lemma_elements_view;

verus! {

/// The closed set of primitive WDL type kinds.
#[derive(Clone, Copy, Debug, PartialEq, Eq, Structural, Hash)]
pub enum Kind {
    /// The `Boolean` type.
    Boolean,
    /// The `Int` type.
    Int,
    /// The `Float` type.
    Float,
    /// The `String` type.
    StringType,
    /// The `File` type.
    File,
}

/// A WDL type descriptor: a primitive kind and an optionality flag.
#[derive(Clone, Copy, Debug, PartialEq, Eq, Structural, Hash)]
pub struct Type {
    /// The primitive kind of the type.
    pub kind: Kind,
    /// Whether the type is optional.
    pub optional: bool,
}

impl Type {
    /// Makes a type descriptor from a kind and an optionality flag.
    pub fn new(kind: Kind, optional: bool) -> (r: Type)
        ensures
            r == (Type { kind, optional }),
    {
        Type { kind, optional }
    }

    /// The primitive kind of the type.
    pub fn kind(&self) -> (r: &Kind)
        ensures
            *r == self.kind,
    {
        &self.kind
    }

    /// Whether the type is optional.
    pub fn optional(&self) -> (r: bool)
        ensures
            r == self.optional,
    {
        self.optional
    }
}

/// An error related to a WDL [`Type`].
#[derive(Clone, Copy, Debug, PartialEq, Eq, Structural)]
pub enum TypeError {
    /// No primitive type keyword stands in the type node.
    Missing,
    /// More than one primitive type keyword stands in the type node.
    Duplicate,
    /// A child stands in the type node that no type may hold.
    Unexpected,
}

/// Holds of the first character of a valid identifier.
pub open spec fn is_identifier_start(c: char) -> bool {
    ('a' <= c && c <= 'z') || ('A' <= c && c <= 'Z')
}

/// Holds of every character of a valid identifier.
pub open spec fn is_identifier_char(c: char) -> bool {
    is_identifier_start(c) || ('0' <= c && c <= '9') || c == '_'
}

/// Holds of text that is a syntactically valid identifier: nonempty, a
/// letter first, then letters, digits and underscores.
pub open spec fn valid_identifier(s: Seq<char>) -> bool {
    s.len() > 0 && is_identifier_start(s[0]) && forall|i: int|
        0 <= i < s.len() ==> is_identifier_char(#[trigger] s[i])
}

/// An error related to an [`Identifier`].
#[derive(Clone, Copy, Debug, PartialEq, Eq, Structural)]
pub enum IdentifierError {
    /// The text is not a valid identifier.
    Invalid,
}

/// A validated singular identifier.
#[derive(Clone, Debug, PartialEq, Eq, Hash)]
pub struct Identifier {
    /// The text of the identifier.
    pub text: String,
}

impl Identifier {
    /// Validates text as an identifier.
    ///
    /// Succeeds exactly on nonempty text made of letters, digits and
    /// underscores that starts with a letter.
    pub fn try_from(text: String) -> (r: Result<Identifier, IdentifierError>)
        ensures
            match r {
                Ok(id) => valid_identifier(text@) && id.text@ == text@,
                Err(e) => !valid_identifier(text@) && e == IdentifierError::Invalid,
            },
    {
        let s = text.as_str();
        let n = s.unicode_len();
        if n == 0 {
            return Err(IdentifierError::Invalid);
        }
        let mut i: usize = 0;
        while i < n
            invariant
                i <= n,
                n == text@.len(),
                s@ == text@,
                n > 0,
                forall|j: int| 0 <= j < i ==> is_identifier_char(#[trigger] text@[j]),
                i > 0 ==> is_identifier_start(text@[0]),
            decreases n - i,
        {
            let c = s.get_char(i);
            if i == 0 {
                if !((('a' <= c) && (c <= 'z')) || (('A' <= c) && (c <= 'Z'))) {
                    return Err(IdentifierError::Invalid);
                }
            } else {
                if !((('a' <= c) && (c <= 'z')) || (('A' <= c) && (c <= 'Z')) || (('0' <= c) && (c
                    <= '9')) || c == '_') {
                    return Err(IdentifierError::Invalid);
                }
            }
            i = i + 1;
        }
        Ok(Identifier { text })
    }

    /// The text of the identifier.
    pub fn as_str(&self) -> (r: &str)
        ensures
            r@ == self.text@,
    {
        self.text.as_str()
    }
}

/// An error related to the [`Builder`].
#[derive(Clone, Copy, Debug, PartialEq, Eq, Structural)]
pub enum BuilderError {
    /// A name was provided twice.
    DuplicateName,
    /// A type was provided twice.
    DuplicateType,
    /// No name was provided.
    MissingName,
    /// No type was provided.
    MissingType,
}

/// A fallible builder for an unbound [`Declaration`]: every required
/// field is checked before an immutable value is produced.
#[derive(Clone, Debug, PartialEq, Eq)]
pub struct Builder {
    /// The name provided so far.
    pub name: Option<Identifier>,
    /// The type provided so far.
    pub ty: Option<Type>,
}

impl Default for Builder {
    /// An empty builder, with no field provided yet.
    fn default() -> (r: Builder)
        ensures
            r.name is None,
            r.ty is None,
    {
        Builder { name: None, ty: None }
    }
}

impl Builder {
    /// Provides the name; refused where one was already provided.
    pub fn name(self, name: Identifier) -> (r: Result<Builder, BuilderError>)
        ensures
            match r {
                Ok(b) => self.name is None && b.name == Some(name) && b.ty == self.ty,
                Err(e) => self.name is Some && e == BuilderError::DuplicateName,
            },
    {
        match self.name {
            Some(_) => Err(BuilderError::DuplicateName),
            None => Ok(Builder { name: Some(name), ty: self.ty }),
        }
    }

    /// Provides the type; refused where one was already provided.
    pub fn wdl_type(self, ty: Type) -> (r: Result<Builder, BuilderError>)
        ensures
            match r {
                Ok(b) => self.ty is None && b.ty == Some(ty) && b.name == self.name,
                Err(e) => self.ty is Some && e == BuilderError::DuplicateType,
            },
    {
        match self.ty {
            Some(_) => Err(BuilderError::DuplicateType),
            None => Ok(Builder { name: self.name, ty: Some(ty) }),
        }
    }

    /// Produces the declaration; refused where a required field is
    /// missing.
    pub fn try_build(self) -> (r: Result<Declaration, BuilderError>)
        ensures
            match r {
                Ok(d) => self.name == Some(d.name) && self.ty == Some(d.ty),
                Err(e) => (self.name is None && e == BuilderError::MissingName) || (
                self.name is Some && self.ty is None && e == BuilderError::MissingType),
            },
    {
        match self.name {
            None => Err(BuilderError::MissingName),
            Some(name) => match self.ty {
                None => Err(BuilderError::MissingType),
                Some(ty) => Ok(Declaration { name, ty }),
            },
        }
    }
}

/// An error related to a [`Declaration`].
#[derive(Clone, Copy, Debug, PartialEq, Eq, Structural)]
pub enum Error {
    /// A builder error.
    Builder(BuilderError),
    /// An identifier error.
    Identifier(IdentifierError),
    /// A WDL type error.
    Type(TypeError),
}

/// What each builder error says.
pub open spec fn builder_error_text(e: BuilderError) -> Seq<char> {
    match e {
        BuilderError::DuplicateName => "a name was already provided"@,
        BuilderError::DuplicateType => "a type was already provided"@,
        BuilderError::MissingName => "a name was never provided"@,
        BuilderError::MissingType => "a type was never provided"@,
    }
}

impl BuilderError {
    /// The error rendered as text.
    pub fn message(&self) -> (r: String)
        ensures
            r@ == builder_error_text(*self),
    {
        match self {
            BuilderError::DuplicateName => "a name was already provided".to_owned(),
            BuilderError::DuplicateType => "a type was already provided".to_owned(),
            BuilderError::MissingName => "a name was never provided".to_owned(),
            BuilderError::MissingType => "a type was never provided".to_owned(),
        }
    }
}

/// What each identifier error says.
pub open spec fn identifier_error_text(e: IdentifierError) -> Seq<char> {
    match e {
        IdentifierError::Invalid => "the text is not a valid identifier"@,
    }
}

impl IdentifierError {
    /// The error rendered as text.
    pub fn message(&self) -> (r: String)
        ensures
            r@ == identifier_error_text(*self),
    {
        match self {
            IdentifierError::Invalid => "the text is not a valid identifier".to_owned(),
        }
    }
}

/// What each type error says.
pub open spec fn type_error_text(e: TypeError) -> Seq<char> {
    match e {
        TypeError::Missing => "no primitive type keyword stands in the type"@,
        TypeError::Duplicate => "more than one primitive type keyword stands in the type"@,
        TypeError::Unexpected => "a child stands in the type that no type may hold"@,
    }
}

impl TypeError {
    /// The error rendered as text.
    pub fn message(&self) -> (r: String)
        ensures
            r@ == type_error_text(*self),
    {
        match self {
            TypeError::Missing => "no primitive type keyword stands in the type".to_owned(),
            TypeError::Duplicate => {
                "more than one primitive type keyword stands in the type".to_owned()
            },
            TypeError::Unexpected => "a child stands in the type that no type may hold".to_owned(),
        }
    }
}

impl Error {
    /// The error rendered as text.
    pub fn message(&self) -> (r: String)
        ensures
            match self {
                Error::Builder(e) => r@ == "builder error: "@ + builder_error_text(*e),
                Error::Identifier(e) => r@ == "identifier error: "@ + identifier_error_text(*e),
                Error::Type(e) => r@ == "wdl type error: "@ + type_error_text(*e),
            },
    {
        match self {
            Error::Builder(e) => {
                let prefix: String = "builder error: ".to_owned();
                prefix.concat(e.message().as_str())
            },
            Error::Identifier(e) => {
                let prefix: String = "identifier error: ".to_owned();
                prefix.concat(e.message().as_str())
            },
            Error::Type(e) => {
                let prefix: String = "wdl type error: ".to_owned();
                prefix.concat(e.message().as_str())
            },
        }
    }
}

/// An unbound declaration: a validated name and a WDL type.
#[derive(Clone, Debug, PartialEq, Eq, Hash)]
pub struct Declaration {
    /// The name.
    pub name: Identifier,
    /// The WDL type.
    pub ty: Type,
}

impl Declaration {
    /// Gets the name of the [`Declaration`] by reference.
    pub fn name(&self) -> (r: &Identifier)
        ensures
            *r == self.name,
    {
        &self.name
    }

    /// Gets the WDL [type](Type) of the [`Declaration`] by reference.
    pub fn wdl_type(&self) -> (r: &Type)
        ensures
            *r == self.ty,
    {
        &self.ty
    }
}

/// The primitive kind a type keyword token stands for, or `None` for any
/// other kind of token.
pub open spec fn keyword_kind(k: SyntaxKind) -> Option<Kind> {
    if k == SyntaxKind::BooleanTypeKeyword {
        Some(Kind::Boolean)
    } else if k == SyntaxKind::IntTypeKeyword {
        Some(Kind::Int)
    } else if k == SyntaxKind::FloatTypeKeyword {
        Some(Kind::Float)
    } else if k == SyntaxKind::StringTypeKeyword {
        Some(Kind::StringType)
    } else if k == SyntaxKind::FileTypeKeyword {
        Some(Kind::File)
    } else {
        None
    }
}

/// What reading a type node's children one by one does to the pair of a
/// found kind and an optionality flag, and what it produces at the end.
pub open spec fn spec_type_fold(cs: Seq<ElementView>, found: Option<Kind>, optional: bool) -> Result<
    Type,
    TypeError,
>
    decreases cs,
{
    if cs.len() == 0 {
        match found {
            Some(kind) => Ok(Type { kind, optional }),
            None => Err(TypeError::Missing),
        }
    } else {
        match cs.first() {
            ElementView::Token(t) => {
                if keyword_kind(t.kind) is Some {
                    if found is Some {
                        Err(TypeError::Duplicate)
                    } else {
                        spec_type_fold(cs.drop_first(), keyword_kind(t.kind), optional)
                    }
                } else if t.kind == SyntaxKind::QuestionMark {
                    spec_type_fold(cs.drop_first(), found, true)
                } else if t.kind == SyntaxKind::Whitespace || t.kind == SyntaxKind::Comment {
                    spec_type_fold(cs.drop_first(), found, optional)
                } else {
                    Err(TypeError::Unexpected)
                }
            },
            ElementView::Node(_) => Err(TypeError::Unexpected),
        }
    }
}

/// What a type node denotes: the result of reading its children.
pub open spec fn spec_type_of(n: NodeView) -> Result<Type, TypeError> {
    spec_type_fold(n.children, None, false)
}

impl Type {
    /// Reads a WDL type from a type node: one primitive type keyword and
    /// an optional `?` marker, with nothing else but trivia.
    pub fn try_from_node(node: &SyntaxNode) -> (r: Result<Type, TypeError>)
        requires
            node@.kind == SyntaxKind::WdlTypeNode,
        ensures
            r == spec_type_of(node@),
    {
        let n = node.children.len();
        let mut found: Option<Kind> = None;
        let mut optional: bool = false;
        proof {
            lemma_elements_view(node.children@);
            assert(node@.children.skip(0) =~= node@.children);
        }
        let mut i: usize = 0;
        while i < n
            invariant
                i <= n,
                n == node.children@.len(),
                elements_view(node.children@) == node@.children,
                spec_type_of(node@) == spec_type_fold(
                    node@.children.skip(i as int),
                    found,
                    optional,
                ),
            decreases n - i,
        {
            proof {
                lemma_elements_view(node.children@);
                let rest = node@.children.skip(i as int);
                assert(rest.first() == element_view(node.children@[i as int]));
                assert(rest.drop_first() =~= node@.children.skip(i + 1));
            }
            match &node.children[i] {
                SyntaxElement::Token(t) => {
                    let kw = match t.kind() {
                        SyntaxKind::BooleanTypeKeyword => Some(Kind::Boolean),
                        SyntaxKind::IntTypeKeyword => Some(Kind::Int),
                        SyntaxKind::FloatTypeKeyword => Some(Kind::Float),
                        SyntaxKind::StringTypeKeyword => Some(Kind::StringType),
                        SyntaxKind::FileTypeKeyword => Some(Kind::File),
                        _ => None,
                    };
                    proof {
                        assert(kw == keyword_kind(t@.kind));
                    }
                    match kw {
                        Some(_) => {
                            if found.is_some() {
                                return Err(TypeError::Duplicate);
                            }
                            found = kw;
                        },
                        None => {
                            if matches!(t.kind(), SyntaxKind::QuestionMark) {
                                optional = true;
                            } else if matches!(
                                t.kind(),
                                SyntaxKind::Whitespace | SyntaxKind::Comment,
                            ) {
                            } else {
                                return Err(TypeError::Unexpected);
                            }
                        },
                    }
                },
                SyntaxElement::Node(_) => {
                    return Err(TypeError::Unexpected);
                },
            }
            i = i + 1;
        }
        proof {
            assert(node@.children.skip(n as int) =~= Seq::<ElementView>::empty());
        }
        match found {
            Some(kind) => Ok(Type { kind, optional }),
            None => Err(TypeError::Missing),
        }
    }
}

/// Holds of a child that an unbound declaration node may carry: a type
/// node, or an identifier, whitespace or comment token. The grammar
/// engine and this layer share a closed contract on that shape; any other
/// child is a defect of that contract, not of user input.
pub open spec fn decl_child_ok(e: ElementView) -> bool {
    match e {
        ElementView::Node(n) => n.kind == SyntaxKind::WdlTypeNode,
        ElementView::Token(t) => t.kind == SyntaxKind::Ident || t.kind == SyntaxKind::Whitespace
            || t.kind == SyntaxKind::Comment,
    }
}

/// The model of a name provided to the builder.
pub open spec fn name_model(o: Option<Identifier>) -> Option<Seq<char>> {
    match o {
        Some(id) => Some(id.text@),
        None => None,
    }
}

/// What reading an unbound declaration node's children one by one does to
/// the builder, and what it produces at the end: the declared name's text
/// and the declared type, or the first error met.
pub open spec fn spec_decl_fold(
    cs: Seq<ElementView>,
    name: Option<Seq<char>>,
    ty: Option<Type>,
) -> Result<(Seq<char>, Type), Error>
    decreases cs,
{
    if cs.len() == 0 {
        match name {
            None => Err(Error::Builder(BuilderError::MissingName)),
            Some(n) => match ty {
                None => Err(Error::Builder(BuilderError::MissingType)),
                Some(t) => Ok((n, t)),
            },
        }
    } else {
        match cs.first() {
            ElementView::Node(nv) => match spec_type_fold(nv.children, None, false) {
                Ok(t) => if ty is Some {
                    Err(Error::Builder(BuilderError::DuplicateType))
                } else {
                    spec_decl_fold(cs.drop_first(), name, Some(t))
                },
                Err(e) => Err(Error::Type(e)),
            },
            ElementView::Token(tv) => if tv.kind == SyntaxKind::Ident {
                if valid_identifier(tv.text) {
                    if name is Some {
                        Err(Error::Builder(BuilderError::DuplicateName))
                    } else {
                        spec_decl_fold(cs.drop_first(), Some(tv.text), ty)
                    }
                } else {
                    Err(Error::Identifier(IdentifierError::Invalid))
                }
            } else {
                spec_decl_fold(cs.drop_first(), name, ty)
            },
        }
    }
}

impl Declaration {
    /// Assembles an unbound declaration from its node: the type from the
    /// type node child, the name from the identifier token, trivia
    /// skipped.
    ///
    /// The node must have the shape the grammar engine guarantees for an
    /// unbound declaration; a child of any other shape is a defect of
    /// that contract and is excluded outright.
    pub fn try_from_node(node: &SyntaxNode) -> (r: Result<Declaration, Error>)
        requires
            node@.kind == SyntaxKind::UnboundDeclNode,
            forall|i: int| 0 <= i < node@.children.len() ==> decl_child_ok(#[trigger] node@.children[i]),
        ensures
            match r {
                Ok(d) => spec_decl_fold(node@.children, None, None) == Ok::<_, Error>(
                    (d.name.text@, d.ty),
                ),
                Err(e) => spec_decl_fold(node@.children, None, None) == Err::<(Seq<char>, Type), _>(
                    e,
                ),
            },
    {
        let n = node.children.len();
        let mut builder = Builder::default();
        proof {
            lemma_elements_view(node.children@);
            assert(node@.children.skip(0) =~= node@.children);
        }
        let mut i: usize = 0;
        while i < n
            invariant
                i <= n,
                n == node.children@.len(),
                elements_view(node.children@) == node@.children,
                forall|j: int|
                    0 <= j < node@.children.len() ==> decl_child_ok(#[trigger] node@.children[j]),
                spec_decl_fold(node@.children, None, None) == spec_decl_fold(
                    node@.children.skip(i as int),
                    name_model(builder.name),
                    builder.ty,
                ),
            decreases n - i,
        {
            proof {
                lemma_elements_view(node.children@);
                let rest = node@.children.skip(i as int);
                assert(rest.first() == element_view(node.children@[i as int]));
                assert(rest.drop_first() =~= node@.children.skip(i + 1));
                assert(decl_child_ok(node@.children[i as int]));
            }
            match &node.children[i] {
                SyntaxElement::Node(child) => {
                    let ty = match Type::try_from_node(child) {
                        Ok(ty) => ty,
                        Err(e) => {
                            return Err(Error::Type(e));
                        },
                    };
                    builder = match builder.wdl_type(ty) {
                        Ok(b) => b,
                        Err(e) => {
                            return Err(Error::Builder(e));
                        },
                    };
                },
                SyntaxElement::Token(t) => {
                    if matches!(t.kind(), SyntaxKind::Ident) {
                        let name = match Identifier::try_from(t.text().to_owned()) {
                            Ok(name) => name,
                            Err(e) => {
                                return Err(Error::Identifier(e));
                            },
                        };
                        builder = match builder.name(name) {
                            Ok(b) => b,
                            Err(e) => {
                                return Err(Error::Builder(e));
                            },
                        };
                    }
                },
            }
            i = i + 1;
        }
        proof {
            assert(node@.children.skip(n as int) =~= Seq::<ElementView>::empty());
        }
        match builder.try_build() {
            Ok(d) => Ok(d),
            Err(e) => Err(Error::Builder(e)),
        }
    }
}

} // verus!
