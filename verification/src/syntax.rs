//! The syntax tree of one source file, as far as the inventory reads it.
//!
//! A tree is a list of [`Declaration`]s in source order. It holds plain
//! values only: names and type texts as strings, lines as numbers. Trees come
//! from [`crate::parse::parse_source`] or are written down by hand.
//!
//! Each type has a view in which strings are sequences of characters and
//! vectors are sequences: what is said of trees is said of these views.

use vstd::prelude::*;

verus! {

/// What is written in front of a declaration to say who may use it.
#[derive(Clone, Copy, Debug, PartialEq, Eq, Structural)]
pub enum Modifier {
    /// `pub` and nothing more.
    Public,
    /// `pub` with a scope in brackets, such as `pub(crate)` or `pub(super)`.
    Restricted,
    /// No modifier at all.
    Inherited,
}

impl Modifier {
    /// Only the bare `pub` makes a declaration public.
    pub open spec fn public(&self) -> bool {
        *self is Public
    }

    /// Whether this is the bare `pub`.
    #[verifier::when_used_as_spec(public)]
    pub fn is_public(&self) -> (r: bool)
        ensures
            r == self.public(),
    {
        match self {
            Modifier::Public => true,
            Modifier::Restricted => false,
            Modifier::Inherited => false,
        }
    }
}

/// What most declarations begin with: a modifier and a name, with the line
/// on which the name is written.
#[derive(Debug, PartialEq, Eq)]
pub struct Header {
    pub modifier: Modifier,
    pub name: String,
    pub line: usize,
}

/// A [`Header`] as plain values.
#[verifier::ext_equal]
pub struct HeaderView {
    pub modifier: Modifier,
    pub name: Seq<char>,
    pub line: nat,
}

impl View for Header {
    type V = HeaderView;

    open spec fn view(&self) -> HeaderView {
        HeaderView { modifier: self.modifier, name: self.name@, line: self.line as nat }
    }
}

/// One field of a struct, of a union or of an enum variant. A field of a
/// tuple has no name. `ty` is the text of the field's type, as the parser
/// renders it.
#[derive(Debug, PartialEq, Eq)]
pub struct FieldDecl {
    pub name: Option<String>,
    pub ty: String,
}

/// A [`FieldDecl`] as plain values.
#[verifier::ext_equal]
pub struct FieldDeclView {
    pub name: Option<Seq<char>>,
    pub ty: Seq<char>,
}

impl View for FieldDecl {
    type V = FieldDeclView;

    open spec fn view(&self) -> FieldDeclView {
        FieldDeclView {
            name: match self.name {
                Some(name) => Some(name@),
                None => None,
            },
            ty: self.ty@,
        }
    }
}

/// One variant of an enum.
#[derive(Debug, PartialEq, Eq)]
pub struct VariantDecl {
    pub name: String,
    pub fields: Vec<FieldDecl>,
}

/// A [`VariantDecl`] as plain values.
#[verifier::ext_equal]
pub struct VariantDeclView {
    pub name: Seq<char>,
    pub fields: Seq<FieldDeclView>,
}

impl View for VariantDecl {
    type V = VariantDeclView;

    open spec fn view(&self) -> VariantDeclView {
        VariantDeclView { name: self.name@, fields: field_views(self.fields@) }
    }
}

/// The views of `headers`, in order.
pub open spec fn header_views(headers: Seq<Header>) -> Seq<HeaderView> {
    Seq::new(headers.len(), |i: int| headers[i]@)
}

/// The views of `fields`, in order.
pub open spec fn field_views(fields: Seq<FieldDecl>) -> Seq<FieldDeclView> {
    Seq::new(fields.len(), |i: int| fields[i]@)
}

/// The views of `variants`, in order.
pub open spec fn variant_views(variants: Seq<VariantDecl>) -> Seq<VariantDeclView> {
    Seq::new(variants.len(), |i: int| variants[i]@)
}

/// The views of `texts`, in order.
pub open spec fn text_views(texts: Seq<String>) -> Seq<Seq<char>> {
    Seq::new(texts.len(), |i: int| texts[i]@)
}

/// The view of the path of an implemented trait, where there is one.
pub open spec fn path_view(path: Option<Vec<String>>) -> Option<Seq<Seq<char>>> {
    match path {
        Some(segments) => Some(text_views(segments@)),
        None => None,
    }
}

/// One declaration of a file or of an inline module.
#[derive(Debug, PartialEq, Eq)]
pub enum Declaration {
    /// A free function.
    Function { header: Header },
    /// A struct with its fields in source order.
    Struct { header: Header, fields: Vec<FieldDecl> },
    /// An enum with its variants in source order.
    Enum { header: Header, variants: Vec<VariantDecl> },
    /// A trait with the functions it declares. The modifier of such a
    /// function is whatever the source holds; a trait's functions are as
    /// visible as the trait.
    Trait { header: Header, functions: Vec<Header> },
    /// A module. `body` is what stands between its braces, and is empty for
    /// a module that is only named (`mod m;`).
    Module { header: Header, body: Vec<Declaration> },
    /// An implementation block with its functions. `trait_path` holds the
    /// segments of the implemented trait's path, and is `None` for an
    /// inherent block.
    Impl { trait_path: Option<Vec<String>>, functions: Vec<Header> },
    /// A `const` item.
    Constant { header: Header },
    /// A `static` item.
    Static { header: Header },
    /// A `type` alias.
    TypeAlias { header: Header },
    /// A union with its fields in source order.
    Union { header: Header, fields: Vec<FieldDecl> },
    /// An `extern crate` item.
    ExternCrate { header: Header },
    /// An `extern` block with the functions it declares.
    ForeignBlock { functions: Vec<Header> },
    /// A `use` item. `tree` is the text of what is imported, as the parser
    /// renders it, blanks between the tokens included.
    Use { modifier: Modifier, tree: String },
    /// A macro invoked in item position, with the segments of its path.
    Macro { path: Vec<String> },
    /// Tokens that the parser kept without interpreting them.
    Opaque,
    /// A declaration of a kind that the inventory does not list.
    Unrecognized,
}

/// A [`Declaration`] as plain values.
#[verifier::ext_equal]
pub enum DeclarationView {
    Function { header: HeaderView },
    Struct { header: HeaderView, fields: Seq<FieldDeclView> },
    Enum { header: HeaderView, variants: Seq<VariantDeclView> },
    Trait { header: HeaderView, functions: Seq<HeaderView> },
    Module { header: HeaderView, body: Seq<DeclarationView> },
    Impl { trait_path: Option<Seq<Seq<char>>>, functions: Seq<HeaderView> },
    Constant { header: HeaderView },
    Static { header: HeaderView },
    TypeAlias { header: HeaderView },
    Union { header: HeaderView, fields: Seq<FieldDeclView> },
    ExternCrate { header: HeaderView },
    ForeignBlock { functions: Seq<HeaderView> },
    Use { modifier: Modifier, tree: Seq<char> },
    Macro { path: Seq<Seq<char>> },
    Opaque,
    Unrecognized,
}

/// The view of one declaration.
pub open spec fn declaration_view(d: Declaration) -> DeclarationView
    decreases d,
{
    match d {
        Declaration::Function { header } => DeclarationView::Function { header: header@ },
        Declaration::Struct { header, fields } => DeclarationView::Struct {
            header: header@,
            fields: field_views(fields@),
        },
        Declaration::Enum { header, variants } => DeclarationView::Enum {
            header: header@,
            variants: variant_views(variants@),
        },
        Declaration::Trait { header, functions } => DeclarationView::Trait {
            header: header@,
            functions: header_views(functions@),
        },
        Declaration::Module { header, body } => DeclarationView::Module {
            header: header@,
            body: tree_view(body@),
        },
        Declaration::Impl { trait_path, functions } => DeclarationView::Impl {
            trait_path: path_view(trait_path),
            functions: header_views(functions@),
        },
        Declaration::Constant { header } => DeclarationView::Constant { header: header@ },
        Declaration::Static { header } => DeclarationView::Static { header: header@ },
        Declaration::TypeAlias { header } => DeclarationView::TypeAlias { header: header@ },
        Declaration::Union { header, fields } => DeclarationView::Union {
            header: header@,
            fields: field_views(fields@),
        },
        Declaration::ExternCrate { header } => DeclarationView::ExternCrate { header: header@ },
        Declaration::ForeignBlock { functions } => DeclarationView::ForeignBlock {
            functions: header_views(functions@),
        },
        Declaration::Use { modifier, tree } => DeclarationView::Use { modifier, tree: tree@ },
        Declaration::Macro { path } => DeclarationView::Macro { path: text_views(path@) },
        Declaration::Opaque => DeclarationView::Opaque,
        Declaration::Unrecognized => DeclarationView::Unrecognized,
    }
}

/// The view of a tree: the views of its declarations, in order.
pub open spec fn tree_view(items: Seq<Declaration>) -> Seq<DeclarationView>
    decreases items,
{
    if items.len() == 0 {
        Seq::empty()
    } else {
        tree_view(items.drop_last()).push(declaration_view(items.last()))
    }
}

impl View for Declaration {
    type V = DeclarationView;

    open spec fn view(&self) -> DeclarationView {
        declaration_view(*self)
    }
}

/// A tree holds one view for each declaration, at the declaration's place.
pub proof fn lemma_tree_view_by_place(items: Seq<Declaration>)
    ensures
        tree_view(items).len() == items.len(),
        forall|i: int| 0 <= i < items.len() ==> #[trigger] tree_view(items)[i] == items[i]@,
    decreases items.len(),
{
    if items.len() > 0 {
        lemma_tree_view_by_place(items.drop_last());
    }
}

impl DeclarationView {
    /// The modifier that the declaration itself carries, where its kind can
    /// carry one.
    pub open spec fn modifier(self) -> Option<Modifier> {
        match self {
            DeclarationView::Function { header } => Some(header.modifier),
            DeclarationView::Struct { header, .. } => Some(header.modifier),
            DeclarationView::Enum { header, .. } => Some(header.modifier),
            DeclarationView::Trait { header, .. } => Some(header.modifier),
            DeclarationView::Module { header, .. } => Some(header.modifier),
            DeclarationView::Constant { header } => Some(header.modifier),
            DeclarationView::Static { header } => Some(header.modifier),
            DeclarationView::TypeAlias { header } => Some(header.modifier),
            DeclarationView::Union { header, .. } => Some(header.modifier),
            DeclarationView::ExternCrate { header } => Some(header.modifier),
            DeclarationView::Use { modifier, .. } => Some(modifier),
            DeclarationView::Impl { .. } => None,
            DeclarationView::ForeignBlock { .. } => None,
            DeclarationView::Macro { .. } => None,
            DeclarationView::Opaque => None,
            DeclarationView::Unrecognized => None,
        }
    }

    /// The declarations nested in this one: the body of a module, and
    /// nothing for every other kind.
    pub open spec fn nested(self) -> Seq<DeclarationView> {
        match self {
            DeclarationView::Module { body, .. } => body,
            _ => Seq::empty(),
        }
    }
}

/// The declarations of a tree in the order in which a walk meets them: each
/// one before what is nested in it, and all of that before its next sibling.
pub open spec fn walk_order(items: Seq<DeclarationView>) -> Seq<DeclarationView>
    decreases items,
{
    if items.len() == 0 {
        Seq::empty()
    } else {
        walk_order(items.drop_last()) + walk_from(items.last())
    }
}

/// `d`, followed by the walk of what is nested in it.
pub open spec fn walk_from(d: DeclarationView) -> Seq<DeclarationView>
    decreases d,
{
    match d {
        DeclarationView::Module { header, body } => seq![d] + walk_order(body),
        _ => seq![d],
    }
}

} // verus!
