//! From the text of a source file to its syntax tree.
//!
//! The parsing is `syn`'s. The types of `syn`'s tree are declared here
//! without their content, and each read of such a tree goes through a small
//! trusted function. What such a function returns depends on its argument
//! alone, and has a name; nothing more is claimed of it. [`parsed`] says,
//! over these names, which tree or failure a text gives, and
//! [`parse_source`] computes it.

use vstd::prelude::*;
use vstd::string::*;
use crate::record::DeclarationKind;
use crate::syntax::{
    Declaration, DeclarationView, FieldDecl, FieldDeclView, Header, HeaderView, Modifier,
    VariantDecl, VariantDeclView, field_views, header_views, path_view, text_views, tree_view,
    variant_views,
};

verus! {

/// `syn::Item`: one item of a file or of a module.
#[verifier::external_type_specification]
#[verifier::external_body]
pub struct ExItem(syn::Item);

/// `syn::Visibility`: what is written in front of an item to say who may use it.
#[verifier::external_type_specification]
#[verifier::external_body]
pub struct ExVisibility(syn::Visibility);

/// `proc_macro2::Ident`, which `syn` hands on as `syn::Ident`: an identifier
/// with its place in the source.
#[verifier::external_type_specification]
#[verifier::external_body]
pub struct ExIdent(proc_macro2::Ident);

/// `syn::Type`: a type as it is written.
#[verifier::external_type_specification]
#[verifier::external_body]
pub struct ExType(syn::Type);

/// `syn::Field`: a field of a struct, of a union or of a variant.
#[verifier::external_type_specification]
#[verifier::external_body]
pub struct ExField(syn::Field);

/// `syn::Variant`: a variant of an enum.
#[verifier::external_type_specification]
#[verifier::external_body]
pub struct ExVariant(syn::Variant);

/// `syn::TraitItem`: an item between the braces of a trait.
#[verifier::external_type_specification]
#[verifier::external_body]
pub struct ExTraitItem(syn::TraitItem);

/// `syn::ImplItem`: an item between the braces of an implementation block.
#[verifier::external_type_specification]
#[verifier::external_body]
pub struct ExImplItem(syn::ImplItem);

/// `syn::ForeignItem`: an item between the braces of an `extern` block.
#[verifier::external_type_specification]
#[verifier::external_body]
pub struct ExForeignItem(syn::ForeignItem);

/// `syn::Path`: a path such as `std::fmt::Display`.
#[verifier::external_type_specification]
#[verifier::external_body]
pub struct ExPath(syn::Path);

/// `syn::UseTree`: what a `use` item imports.
#[verifier::external_type_specification]
#[verifier::external_body]
pub struct ExUseTree(syn::UseTree);

/// `syn::Error`: why a text did not parse.
#[verifier::external_type_specification]
#[verifier::external_body]
pub struct ExError(syn::Error);

/// Why a text is not a source file: the parser's message.
#[derive(Debug, PartialEq, Eq)]
pub struct ParseFailure {
    pub message: String,
}

impl View for ParseFailure {
    type V = Seq<char>;

    /// The message.
    open spec fn view(&self) -> Seq<char> {
        self.message@
    }
}

/// The values that `refs` refers to, in order.
pub open spec fn pointees<T>(refs: Seq<&T>) -> Seq<T> {
    Seq::new(refs.len(), |i: int| *refs[i])
}

/// The number of characters from which on a text is not handed to the
/// parser: `proc-macro2` counts the characters of a text in 32 bits, one
/// behind the other from 1.
pub const SPAN_LIMIT: usize = 0xFFFF_FFFF;

/// `proc_macro2::extra::invalidate_current_thread_spans`: empties the table
/// in which `proc-macro2` keeps the texts parsed on this thread, so that the
/// next text is counted from 1 again. Places in texts parsed before are lost
/// with it. It is not for use inside a procedural macro, where it panics.
#[verifier::external_body]
fn forget_spans() {
    proc_macro2::extra::invalidate_current_thread_spans()
}

/// What `syn::parse_file` gives for `text`: the items of the file, or the
/// error.
pub uninterp spec fn parse_result(text: Seq<char>) -> Result<Seq<syn::Item>, syn::Error>;

/// `syn::parse_file`, of whose result the items are kept: the items of the
/// file that `text` holds, or the error of the first place at which `text`
/// is not Rust. The places of the items are counted in a table that
/// [`forget_spans`] has emptied just before; the text must be short enough
/// to be counted. `syn` follows nested brackets by recursion: a text whose
/// brackets nest deeper than the stack allows is beyond it.
#[verifier::external_body]
fn parse_items(text: &str) -> (r: Result<Vec<syn::Item>, syn::Error>)
    requires
        text@.len() < SPAN_LIMIT,
    ensures
        r is Ok <==> parse_result(text@) is Ok,
        r matches Ok(items) ==> parse_result(text@)->Ok_0 == items@,
        r matches Err(error) ==> parse_result(text@)->Err_0 == error,
{
    syn::parse_file(text).map(|file| file.items)
}

/// The message of `error`.
pub uninterp spec fn error_message(error: syn::Error) -> Seq<char>;

/// `syn::Error`'s `to_string`: the message of the error.
#[verifier::external_body]
fn failure_text(error: &syn::Error) -> (r: String)
    ensures
        r@ == error_message(*error),
{
    error.to_string()
}

/// Which of the three forms `vis` has.
pub uninterp spec fn written_modifier(vis: syn::Visibility) -> Modifier;

/// Tells the three variants of `syn::Visibility` apart.
#[verifier::external_body]
fn modifier_of(vis: &syn::Visibility) -> (r: Modifier)
    ensures
        r == written_modifier(*vis),
{
    match vis {
        syn::Visibility::Public(_) => Modifier::Public,
        syn::Visibility::Restricted(_) => Modifier::Restricted,
        syn::Visibility::Inherited => Modifier::Inherited,
    }
}

/// `ident` as it is written.
pub uninterp spec fn ident_name(ident: proc_macro2::Ident) -> Seq<char>;

/// `proc_macro2::Ident`'s `to_string`: the identifier as it is written.
#[verifier::external_body]
fn ident_text(ident: &proc_macro2::Ident) -> (r: String)
    ensures
        r@ == ident_name(*ident),
{
    ident.to_string()
}

/// The line of its text on which `ident` begins, counted from 1. An
/// identifier stands for its place in the text that it was parsed from.
pub uninterp spec fn ident_place(ident: proc_macro2::Ident) -> nat;

/// `proc_macro2::Span::start` on the identifier's span: the line of the
/// parsed text on which the identifier begins. The span is looked up in the
/// thread's table of parsed texts, which holds the text of the identifier
/// and no other: it is emptied before each text is parsed, and an identifier
/// lives no longer than the parsing of its text.
#[verifier::external_body]
fn ident_line(ident: &proc_macro2::Ident) -> (r: usize)
    ensures
        r == ident_place(*ident),
{
    ident.span().start().line
}

/// The tokens of `ty` as text.
pub uninterp spec fn type_tokens(ty: syn::Type) -> Seq<char>;

/// `quote::ToTokens::to_token_stream` on a type, and the stream's
/// `to_string`: the tokens of the type with a blank between neighbours.
#[verifier::external_body]
fn type_text(ty: &syn::Type) -> (r: String)
    ensures
        r@ == type_tokens(*ty),
{
    quote::ToTokens::to_token_stream(ty).to_string()
}

/// The tokens of `tree` as text.
pub uninterp spec fn use_tree_tokens(tree: syn::UseTree) -> Seq<char>;

/// `quote::ToTokens::to_token_stream` on the tree of a `use` item, and the
/// stream's `to_string`: the tokens of the tree with a blank between
/// neighbours.
#[verifier::external_body]
fn use_tree_text(tree: &syn::UseTree) -> (r: String)
    ensures
        r@ == use_tree_tokens(*tree),
{
    quote::ToTokens::to_token_stream(tree).to_string()
}

/// The identifier of `field`, where it has one, and its type.
pub uninterp spec fn field_content(field: syn::Field) -> (Option<proc_macro2::Ident>, syn::Type);

/// The fields `ident` and `ty` of a `syn::Field`.
#[verifier::external_body]
fn field_parts<'a>(field: &'a syn::Field) -> (r: (Option<&'a proc_macro2::Ident>, &'a syn::Type))
    ensures
        r.0 is Some <==> field_content(*field).0 is Some,
        r.0 matches Some(ident) ==> field_content(*field).0 == Some(*ident),
        *r.1 == field_content(*field).1,
{
    (field.ident.as_ref(), &field.ty)
}

/// The identifier of `variant` and its fields, in order.
pub uninterp spec fn variant_content(variant: syn::Variant) -> (proc_macro2::Ident, Seq<syn::Field>);

/// The field `ident` of a `syn::Variant`, and its `fields` as
/// `syn::Fields::iter` yields them.
#[verifier::external_body]
fn variant_parts<'a>(variant: &'a syn::Variant) -> (r: (&'a proc_macro2::Ident, Vec<&'a syn::Field>))
    ensures
        *r.0 == variant_content(*variant).0,
        pointees(r.1@) == variant_content(*variant).1,
{
    (&variant.ident, variant.fields.iter().collect())
}

/// The identifiers of the segments of `path`, in order.
pub uninterp spec fn path_content(path: syn::Path) -> Seq<proc_macro2::Ident>;

/// The identifiers of the segments of a `syn::Path`, in order.
#[verifier::external_body]
fn path_idents<'a>(path: &'a syn::Path) -> (r: Vec<&'a proc_macro2::Ident>)
    ensures
        pointees(r@) == path_content(*path),
{
    path.segments.iter().map(|segment| &segment.ident).collect()
}

/// The identifier of `item` where `syn` hands it out as a function of a
/// trait.
pub uninterp spec fn trait_item_function(item: syn::TraitItem) -> Option<proc_macro2::Ident>;

/// The identifier of `item` where it is `syn::TraitItem::Fn`.
#[verifier::external_body]
fn trait_function<'a>(item: &'a syn::TraitItem) -> (r: Option<&'a proc_macro2::Ident>)
    ensures
        r is Some <==> trait_item_function(*item) is Some,
        r matches Some(ident) ==> trait_item_function(*item) == Some(*ident),
{
    match item {
        syn::TraitItem::Fn(function) => Some(&function.sig.ident),
        _ => None,
    }
}

/// The tokens of `item`, where `syn` kept them without interpreting them,
/// read as an item of an implementation block.
pub uninterp spec fn reread_as_impl_item(item: syn::TraitItem) -> Option<syn::ImplItem>;

/// `syn::parse2` on the tokens of `item` where it is
/// `syn::TraitItem::Verbatim`, for a `syn::ImplItem`. `syn` keeps a member
/// of a trait as tokens where it carries a modifier or `default`; a function
/// of that sort that has a body reads as a function of an implementation
/// block.
#[verifier::external_body]
fn verbatim_as_impl_item(item: &syn::TraitItem) -> (r: Option<syn::ImplItem>)
    ensures
        r == reread_as_impl_item(*item),
{
    match item {
        syn::TraitItem::Verbatim(tokens) => syn::parse2::<syn::ImplItem>(tokens.clone()).ok(),
        _ => None,
    }
}

/// The tokens of `item`, where `syn` kept them without interpreting them,
/// read as an item of an `extern` block.
pub uninterp spec fn reread_as_foreign_item(item: syn::TraitItem) -> Option<syn::ForeignItem>;

/// `syn::parse2` on the tokens of `item` where it is
/// `syn::TraitItem::Verbatim`, for a `syn::ForeignItem`. A function that
/// carries a modifier and has no body reads as a function of an `extern`
/// block.
#[verifier::external_body]
fn verbatim_as_foreign_item(item: &syn::TraitItem) -> (r: Option<syn::ForeignItem>)
    ensures
        r == reread_as_foreign_item(*item),
{
    match item {
        syn::TraitItem::Verbatim(tokens) => syn::parse2::<syn::ForeignItem>(tokens.clone()).ok(),
        _ => None,
    }
}

/// The visibility and the identifier of `item` where it is a function.
pub uninterp spec fn impl_item_function(item: syn::ImplItem) -> Option<
    (syn::Visibility, proc_macro2::Ident),
>;

/// The visibility and the identifier of `item` where it is
/// `syn::ImplItem::Fn`.
#[verifier::external_body]
fn impl_function<'a>(item: &'a syn::ImplItem) -> (r: Option<
    (&'a syn::Visibility, &'a proc_macro2::Ident),
>)
    ensures
        r is Some <==> impl_item_function(*item) is Some,
        r matches Some((vis, ident)) ==> impl_item_function(*item) == Some((*vis, *ident)),
{
    match item {
        syn::ImplItem::Fn(function) => Some((&function.vis, &function.sig.ident)),
        _ => None,
    }
}

/// The visibility and the identifier of `item` where it is a function.
pub uninterp spec fn foreign_item_function(item: syn::ForeignItem) -> Option<
    (syn::Visibility, proc_macro2::Ident),
>;

/// The visibility and the identifier of `item` where it is
/// `syn::ForeignItem::Fn`.
#[verifier::external_body]
fn foreign_function<'a>(item: &'a syn::ForeignItem) -> (r: Option<
    (&'a syn::Visibility, &'a proc_macro2::Ident),
>)
    ensures
        r is Some <==> foreign_item_function(*item) is Some,
        r matches Some((vis, ident)) ==> foreign_item_function(*item) == Some((*vis, *ident)),
{
    match item {
        syn::ForeignItem::Fn(function) => Some((&function.vis, &function.sig.ident)),
        _ => None,
    }
}

/// The kind, the visibility and the identifier of `item` where it is a
/// function, a constant, a static, a type alias or an `extern crate`.
pub uninterp spec fn item_plain(item: syn::Item) -> Option<
    (DeclarationKind, syn::Visibility, proc_macro2::Ident),
>;

/// The visibility and the identifier of `item` where it is one of
/// `syn::Item::Fn`, `Const`, `Static`, `Type` and `ExternCrate`, with the
/// kind that stands for the variant.
#[verifier::external_body]
fn as_plain<'a>(item: &'a syn::Item) -> (r: Option<
    (DeclarationKind, &'a syn::Visibility, &'a proc_macro2::Ident),
>)
    ensures
        r is Some <==> item_plain(*item) is Some,
        r matches Some((kind, vis, ident)) ==> item_plain(*item) == Some((kind, *vis, *ident)),
{
    match item {
        syn::Item::Fn(i) => Some((DeclarationKind::Function, &i.vis, &i.sig.ident)),
        syn::Item::Const(i) => Some((DeclarationKind::Constant, &i.vis, &i.ident)),
        syn::Item::Static(i) => Some((DeclarationKind::Static, &i.vis, &i.ident)),
        syn::Item::Type(i) => Some((DeclarationKind::TypeAlias, &i.vis, &i.ident)),
        syn::Item::ExternCrate(i) => Some((DeclarationKind::ExternCrate, &i.vis, &i.ident)),
        _ => None,
    }
}

/// The kind, the visibility, the identifier and the fields of `item` where
/// it is a struct or a union.
pub uninterp spec fn item_composite(item: syn::Item) -> Option<
    (DeclarationKind, syn::Visibility, proc_macro2::Ident, Seq<syn::Field>),
>;

/// The visibility, the identifier and the fields of `item` where it is
/// `syn::Item::Struct` or `syn::Item::Union`, with the kind that stands for
/// the variant. The fields are those that `syn::Fields::iter` yields for a
/// struct, and the named fields of a union.
#[verifier::external_body]
fn as_composite<'a>(item: &'a syn::Item) -> (r: Option<
    (DeclarationKind, &'a syn::Visibility, &'a proc_macro2::Ident, Vec<&'a syn::Field>),
>)
    ensures
        r is Some <==> item_composite(*item) is Some,
        r matches Some((kind, vis, ident, fields)) ==> item_composite(*item) == Some(
            (kind, *vis, *ident, pointees(fields@)),
        ),
{
    match item {
        syn::Item::Struct(i) => Some(
            (DeclarationKind::Struct, &i.vis, &i.ident, i.fields.iter().collect()),
        ),
        syn::Item::Union(i) => Some(
            (DeclarationKind::Union, &i.vis, &i.ident, i.fields.named.iter().collect()),
        ),
        _ => None,
    }
}

/// The visibility, the identifier and the variants of `item` where it is an
/// enum.
pub uninterp spec fn item_enum(item: syn::Item) -> Option<
    (syn::Visibility, proc_macro2::Ident, Seq<syn::Variant>),
>;

/// The visibility, the identifier and the variants of `item` where it is
/// `syn::Item::Enum`.
#[verifier::external_body]
fn as_enum<'a>(item: &'a syn::Item) -> (r: Option<
    (&'a syn::Visibility, &'a proc_macro2::Ident, Vec<&'a syn::Variant>),
>)
    ensures
        r is Some <==> item_enum(*item) is Some,
        r matches Some((vis, ident, variants)) ==> item_enum(*item) == Some(
            (*vis, *ident, pointees(variants@)),
        ),
{
    match item {
        syn::Item::Enum(i) => Some((&i.vis, &i.ident, i.variants.iter().collect())),
        _ => None,
    }
}

/// The visibility, the identifier and the items of `item` where it is a
/// trait.
pub uninterp spec fn item_trait(item: syn::Item) -> Option<
    (syn::Visibility, proc_macro2::Ident, Seq<syn::TraitItem>),
>;

/// The visibility, the identifier and the items of `item` where it is
/// `syn::Item::Trait`.
#[verifier::external_body]
fn as_trait<'a>(item: &'a syn::Item) -> (r: Option<
    (&'a syn::Visibility, &'a proc_macro2::Ident, &'a Vec<syn::TraitItem>),
>)
    ensures
        r is Some <==> item_trait(*item) is Some,
        r matches Some((vis, ident, items)) ==> item_trait(*item) == Some((*vis, *ident, items@)),
{
    match item {
        syn::Item::Trait(i) => Some((&i.vis, &i.ident, &i.items)),
        _ => None,
    }
}

/// The visibility and the identifier of `item` where it is a module, with
/// the items between its braces where it has braces.
pub uninterp spec fn item_module(item: syn::Item) -> Option<
    (syn::Visibility, proc_macro2::Ident, Option<Seq<syn::Item>>),
>;

/// The visibility and the identifier of `item` where it is
/// `syn::Item::Mod`, with the items between its braces where it has
/// braces.
#[verifier::external_body]
fn as_module<'a>(item: &'a syn::Item) -> (r: Option<
    (&'a syn::Visibility, &'a proc_macro2::Ident, Option<&'a Vec<syn::Item>>),
>)
    ensures
        r is Some <==> item_module(*item) is Some,
        r matches Some((vis, ident, Some(content))) ==> item_module(*item) == Some(
            (*vis, *ident, Some(content@)),
        ),
        r matches Some((vis, ident, None)) ==> item_module(*item) == Some(
            (*vis, *ident, None::<Seq<syn::Item>>),
        ),
{
    match item {
        syn::Item::Mod(i) => Some((&i.vis, &i.ident, i.content.as_ref().map(|content| &content.1))),
        _ => None,
    }
}

/// The items of `item` where it is an implementation block, with the path
/// of the trait where the block implements one.
pub uninterp spec fn item_impl(item: syn::Item) -> Option<(Option<syn::Path>, Seq<syn::ImplItem>)>;

/// The items of `item` where it is `syn::Item::Impl`, with the path of the
/// trait where the block implements one.
#[verifier::external_body]
fn as_impl<'a>(item: &'a syn::Item) -> (r: Option<(Option<&'a syn::Path>, &'a Vec<syn::ImplItem>)>)
    ensures
        r is Some <==> item_impl(*item) is Some,
        r matches Some((Some(path), items)) ==> item_impl(*item) == Some((Some(*path), items@)),
        r matches Some((None, items)) ==> item_impl(*item) == Some((None::<syn::Path>, items@)),
{
    match item {
        syn::Item::Impl(i) => Some((i.trait_.as_ref().map(|implemented| &implemented.1), &i.items)),
        _ => None,
    }
}

/// The items of `item` where it is an `extern` block.
pub uninterp spec fn item_foreign_block(item: syn::Item) -> Option<Seq<syn::ForeignItem>>;

/// The items of `item` where it is `syn::Item::ForeignMod`.
#[verifier::external_body]
fn as_foreign_block<'a>(item: &'a syn::Item) -> (r: Option<&'a Vec<syn::ForeignItem>>)
    ensures
        r is Some <==> item_foreign_block(*item) is Some,
        r matches Some(items) ==> item_foreign_block(*item) == Some(items@),
{
    match item {
        syn::Item::ForeignMod(i) => Some(&i.items),
        _ => None,
    }
}

/// The visibility and the tree of `item` where it is a `use` item.
pub uninterp spec fn item_use(item: syn::Item) -> Option<(syn::Visibility, syn::UseTree)>;

/// The visibility and the tree of `item` where it is `syn::Item::Use`.
#[verifier::external_body]
fn as_use<'a>(item: &'a syn::Item) -> (r: Option<(&'a syn::Visibility, &'a syn::UseTree)>)
    ensures
        r is Some <==> item_use(*item) is Some,
        r matches Some((vis, tree)) ==> item_use(*item) == Some((*vis, *tree)),
{
    match item {
        syn::Item::Use(i) => Some((&i.vis, &i.tree)),
        _ => None,
    }
}

/// The path of the macro of `item` where it is a macro invoked in item
/// position.
pub uninterp spec fn item_macro(item: syn::Item) -> Option<syn::Path>;

/// The path of the macro of `item` where it is `syn::Item::Macro`.
#[verifier::external_body]
fn as_macro<'a>(item: &'a syn::Item) -> (r: Option<&'a syn::Path>)
    ensures
        r is Some <==> item_macro(*item) is Some,
        r matches Some(path) ==> item_macro(*item) == Some(*path),
{
    match item {
        syn::Item::Macro(i) => Some(&i.mac.path),
        _ => None,
    }
}

/// Whether `item` is tokens that `syn` kept without interpreting them.
pub uninterp spec fn item_verbatim(item: syn::Item) -> bool;

/// Whether `item` is `syn::Item::Verbatim`.
#[verifier::external_body]
fn is_verbatim(item: &syn::Item) -> (r: bool)
    ensures
        r == item_verbatim(*item),
{
    match item {
        syn::Item::Verbatim(_) => true,
        _ => false,
    }
}

/// The header that stands for a visibility and an identifier of `syn`'s
/// tree.
pub open spec fn header_of(vis: syn::Visibility, ident: proc_macro2::Ident) -> HeaderView {
    HeaderView { modifier: written_modifier(vis), name: ident_name(ident), line: ident_place(ident) }
}

/// The header of a function that `syn` hands out as a function of a trait:
/// such a function has no modifier written on it, and the header notes
/// none.
pub open spec fn unmodified_header_of(ident: proc_macro2::Ident) -> HeaderView {
    HeaderView { modifier: Modifier::Inherited, name: ident_name(ident), line: ident_place(ident) }
}

/// The field that stands for `field`.
pub open spec fn field_of(field: syn::Field) -> FieldDeclView {
    FieldDeclView {
        name: match field_content(field).0 {
            Some(ident) => Some(ident_name(ident)),
            None => None,
        },
        ty: type_tokens(field_content(field).1),
    }
}

/// The fields that stand for `fields`, one for each, in order.
pub open spec fn fields_of(fields: Seq<syn::Field>) -> Seq<FieldDeclView> {
    Seq::new(fields.len(), |i: int| field_of(fields[i]))
}

/// The variant that stands for `variant`.
pub open spec fn variant_of(variant: syn::Variant) -> VariantDeclView {
    VariantDeclView {
        name: ident_name(variant_content(variant).0),
        fields: fields_of(variant_content(variant).1),
    }
}

/// The variants that stand for `variants`, one for each, in order.
pub open spec fn variants_of(variants: Seq<syn::Variant>) -> Seq<VariantDeclView> {
    Seq::new(variants.len(), |i: int| variant_of(variants[i]))
}

/// The segments of `path` as texts.
pub open spec fn path_of(path: syn::Path) -> Seq<Seq<char>> {
    Seq::new(path_content(path).len(), |i: int| ident_name(path_content(path)[i]))
}

/// The headers among `found`, in order.
pub open spec fn kept(found: Seq<Option<HeaderView>>) -> Seq<HeaderView>
    decreases found.len(),
{
    if found.len() == 0 {
        Seq::empty()
    } else {
        match found.last() {
            Some(header) => kept(found.drop_last()).push(header),
            None => kept(found.drop_last()),
        }
    }
}

/// The header of `item` where it is a function of an implementation
/// block.
pub open spec fn impl_function_of(item: syn::ImplItem) -> Option<HeaderView> {
    match impl_item_function(item) {
        Some(parts) => Some(header_of(parts.0, parts.1)),
        None => None,
    }
}

/// The header of `item` where it is a function of an `extern` block.
pub open spec fn foreign_function_of(item: syn::ForeignItem) -> Option<HeaderView> {
    match foreign_item_function(item) {
        Some(parts) => Some(header_of(parts.0, parts.1)),
        None => None,
    }
}

/// The header of a member of a trait that `syn` kept as tokens, where the
/// tokens read as a function: with a body as one of an implementation
/// block, without a body as one of an `extern` block. The header bears the
/// modifier that is written on the function.
pub open spec fn reread_function_of(item: syn::TraitItem) -> Option<HeaderView> {
    let with_body = match reread_as_impl_item(item) {
        Some(inner) => impl_function_of(inner),
        None => None,
    };
    if with_body is Some {
        with_body
    } else {
        match reread_as_foreign_item(item) {
            Some(inner) => foreign_function_of(inner),
            None => None,
        }
    }
}

/// The header of `item` where it is a function of a trait.
pub open spec fn trait_function_of(item: syn::TraitItem) -> Option<HeaderView> {
    match trait_item_function(item) {
        Some(ident) => Some(unmodified_header_of(ident)),
        None => reread_function_of(item),
    }
}

/// The functions among the items of a trait, in order.
pub open spec fn trait_functions_of(items: Seq<syn::TraitItem>) -> Seq<HeaderView> {
    kept(Seq::new(items.len(), |i: int| trait_function_of(items[i])))
}

/// The functions among the items of an implementation block, in order.
pub open spec fn impl_functions_of(items: Seq<syn::ImplItem>) -> Seq<HeaderView> {
    kept(Seq::new(items.len(), |i: int| impl_function_of(items[i])))
}

/// The functions among the items of an `extern` block, in order.
pub open spec fn foreign_functions_of(items: Seq<syn::ForeignItem>) -> Seq<HeaderView> {
    kept(Seq::new(items.len(), |i: int| foreign_function_of(items[i])))
}

/// The declaration that an item of the kind `kind` is written down as when
/// it consists of a header and nothing more. A kind that is not of that
/// sort gives a declaration that the inventory does not list.
pub open spec fn plain_view(kind: DeclarationKind, header: HeaderView) -> DeclarationView {
    match kind {
        DeclarationKind::Function => DeclarationView::Function { header },
        DeclarationKind::Constant => DeclarationView::Constant { header },
        DeclarationKind::Static => DeclarationView::Static { header },
        DeclarationKind::TypeAlias => DeclarationView::TypeAlias { header },
        DeclarationKind::ExternCrate => DeclarationView::ExternCrate { header },
        _ => DeclarationView::Unrecognized,
    }
}

/// The declaration that an item of the kind `kind` is written down as when
/// it consists of a header and fields: a struct or a union. Any other kind
/// gives a declaration that the inventory does not list.
pub open spec fn composite_view(
    kind: DeclarationKind,
    header: HeaderView,
    fields: Seq<FieldDeclView>,
) -> DeclarationView {
    match kind {
        DeclarationKind::Struct => DeclarationView::Struct { header, fields },
        DeclarationKind::Union => DeclarationView::Union { header, fields },
        _ => DeclarationView::Unrecognized,
    }
}

/// The body that is written down for a module whose braces hold `content`,
/// with `depth` levels of modules to spare: the declarations of `content`,
/// and nothing where there are no braces or `depth` is used up.
pub open spec fn body_of(content: Option<Seq<syn::Item>>, depth: nat) -> Seq<DeclarationView>
    decreases depth, 0nat, 0nat,
{
    match content {
        Some(items) => if depth > 0 {
            declarations_of(items, (depth - 1) as nat)
        } else {
            Seq::empty()
        },
        None => Seq::empty(),
    }
}

/// The declaration that stands for `item`. `depth` says how many levels of
/// inline modules below `item` are written down.
pub open spec fn declaration_of(item: syn::Item, depth: nat) -> DeclarationView
    decreases depth, 0nat, 1nat,
{
    if item_plain(item) is Some {
        let parts = item_plain(item)->0;
        plain_view(parts.0, header_of(parts.1, parts.2))
    } else if item_composite(item) is Some {
        let parts = item_composite(item)->0;
        composite_view(parts.0, header_of(parts.1, parts.2), fields_of(parts.3))
    } else if item_enum(item) is Some {
        let parts = item_enum(item)->0;
        DeclarationView::Enum { header: header_of(parts.0, parts.1), variants: variants_of(parts.2) }
    } else if item_trait(item) is Some {
        let parts = item_trait(item)->0;
        DeclarationView::Trait {
            header: header_of(parts.0, parts.1),
            functions: trait_functions_of(parts.2),
        }
    } else if item_module(item) is Some {
        let parts = item_module(item)->0;
        DeclarationView::Module { header: header_of(parts.0, parts.1), body: body_of(parts.2, depth) }
    } else if item_impl(item) is Some {
        let parts = item_impl(item)->0;
        DeclarationView::Impl {
            trait_path: match parts.0 {
                Some(path) => Some(path_of(path)),
                None => None,
            },
            functions: impl_functions_of(parts.1),
        }
    } else if item_foreign_block(item) is Some {
        DeclarationView::ForeignBlock { functions: foreign_functions_of(item_foreign_block(item)->0) }
    } else if item_use(item) is Some {
        let parts = item_use(item)->0;
        DeclarationView::Use { modifier: written_modifier(parts.0), tree: use_tree_tokens(parts.1) }
    } else if item_macro(item) is Some {
        DeclarationView::Macro { path: path_of(item_macro(item)->0) }
    } else if item_verbatim(item) {
        DeclarationView::Opaque
    } else {
        DeclarationView::Unrecognized
    }
}

/// The declarations that stand for `items`, one for each, in order.
pub open spec fn declarations_of(items: Seq<syn::Item>, depth: nat) -> Seq<DeclarationView>
    decreases depth, items.len(), 2nat,
{
    if items.len() == 0 {
        Seq::empty()
    } else {
        declarations_of(items.drop_last(), depth).push(declaration_of(items.last(), depth))
    }
}

/// The message of the failure that a text of [`SPAN_LIMIT`] characters or
/// more is given.
pub open spec fn too_long() -> Seq<char> {
    "the text is too long to be parsed"@
}

/// What parsing gives for `text`: the tree of its declarations, or the
/// message of the failure. A text of [`SPAN_LIMIT`] characters or more
/// fails without being handed to the parser. Of any other text the parser
/// says whether it is Rust, and gives the message where it is not; where it
/// is, the tree holds a declaration for each item of the file, with modules
/// written down as deep as the text has characters, which is deeper than
/// any text nests.
pub open spec fn parsed(text: Seq<char>) -> Result<Seq<DeclarationView>, Seq<char>> {
    if text.len() >= SPAN_LIMIT {
        Err(too_long())
    } else {
        match parse_result(text) {
            Ok(items) => Ok(declarations_of(items, text.len())),
            Err(error) => Err(error_message(error)),
        }
    }
}

/// What came of a parse, as plain values.
pub open spec fn parse_view(outcome: Result<Vec<Declaration>, ParseFailure>) -> Result<
    Seq<DeclarationView>,
    Seq<char>,
> {
    match outcome {
        Ok(tree) => Ok(tree_view(tree@)),
        Err(failure) => Err(failure@),
    }
}

fn lower_header(vis: &syn::Visibility, ident: &proc_macro2::Ident) -> (r: Header)
    ensures
        r@ == header_of(*vis, *ident),
{
    Header { modifier: modifier_of(vis), name: ident_text(ident), line: ident_line(ident) }
}

fn lower_fields(fields: &Vec<&syn::Field>) -> (r: Vec<FieldDecl>)
    ensures
        field_views(r@) == fields_of(pointees(fields@)),
{
    let mut out: Vec<FieldDecl> = Vec::new();
    let mut i: usize = 0;
    while i < fields.len()
        invariant
            i <= fields.len(),
            field_views(out@) == fields_of(pointees(fields@)).subrange(0, i as int),
        decreases fields.len() - i,
    {
        let ghost before = field_views(out@);
        let (ident, ty) = field_parts(fields[i]);
        let name = match ident {
            Some(ident) => Some(ident_text(ident)),
            None => None,
        };
        let field = FieldDecl { name, ty: type_text(ty) };
        assert(field@ == field_of(*fields@[i as int]));
        out.push(field);
        assert(field_views(out@) =~= before.push(field@));
        assert(fields_of(pointees(fields@))[i as int] == field_of(pointees(fields@)[i as int]));
        assert(fields_of(pointees(fields@)).subrange(0, i + 1) =~= before.push(field@));
        i += 1;
    }
    assert(fields_of(pointees(fields@)).subrange(0, i as int) =~= fields_of(pointees(fields@)));
    out
}

fn lower_variants(variants: &Vec<&syn::Variant>) -> (r: Vec<VariantDecl>)
    ensures
        variant_views(r@) == variants_of(pointees(variants@)),
{
    let mut out: Vec<VariantDecl> = Vec::new();
    let mut i: usize = 0;
    while i < variants.len()
        invariant
            i <= variants.len(),
            variant_views(out@) == variants_of(pointees(variants@)).subrange(0, i as int),
        decreases variants.len() - i,
    {
        let ghost before = variant_views(out@);
        let (ident, fields) = variant_parts(variants[i]);
        let variant = VariantDecl { name: ident_text(ident), fields: lower_fields(&fields) };
        assert(variant@ == variant_of(*variants@[i as int]));
        out.push(variant);
        assert(variant_views(out@) =~= before.push(variant@));
        assert(variants_of(pointees(variants@))[i as int] == variant_of(
            pointees(variants@)[i as int],
        ));
        assert(variants_of(pointees(variants@)).subrange(0, i + 1) =~= before.push(variant@));
        i += 1;
    }
    assert(variants_of(pointees(variants@)).subrange(0, i as int) =~= variants_of(
        pointees(variants@),
    ));
    out
}

fn lower_path(path: &syn::Path) -> (r: Vec<String>)
    ensures
        text_views(r@) == path_of(*path),
{
    let idents = path_idents(path);
    let mut out: Vec<String> = Vec::new();
    let mut i: usize = 0;
    while i < idents.len()
        invariant
            i <= idents.len(),
            pointees(idents@) == path_content(*path),
            text_views(out@) == path_of(*path).subrange(0, i as int),
        decreases idents.len() - i,
    {
        let ghost before = text_views(out@);
        let name = ident_text(idents[i]);
        assert(*idents@[i as int] == pointees(idents@)[i as int]);
        out.push(name);
        assert(text_views(out@) =~= before.push(name@));
        assert(path_of(*path)[i as int] == ident_name(path_content(*path)[i as int]));
        assert(path_of(*path).subrange(0, i + 1) =~= before.push(name@));
        i += 1;
    }
    assert(path_of(*path).subrange(0, i as int) =~= path_of(*path));
    out
}

/// The header of a member of a trait that `syn` kept as tokens, where the
/// tokens read as a function.
fn lower_reread_function(item: &syn::TraitItem) -> (r: Option<Header>)
    ensures
        r is Some <==> reread_function_of(*item) is Some,
        r matches Some(header) ==> reread_function_of(*item) == Some(header@),
{
    match verbatim_as_impl_item(item) {
        Some(inner) => match impl_function(&inner) {
            Some((vis, ident)) => {
                return Some(lower_header(vis, ident));
            },
            None => {},
        },
        None => {},
    }
    match verbatim_as_foreign_item(item) {
        Some(inner) => match foreign_function(&inner) {
            Some((vis, ident)) => Some(lower_header(vis, ident)),
            None => None,
        },
        None => None,
    }
}

/// The functions among the items of a trait. A function that `syn` hands
/// out as one has no modifier written on it; one that carries a modifier is
/// read from the tokens that `syn` kept of it.
fn lower_trait_functions(items: &Vec<syn::TraitItem>) -> (r: Vec<Header>)
    ensures
        header_views(r@) == trait_functions_of(items@),
{
    let mut out: Vec<Header> = Vec::new();
    let mut i: usize = 0;
    let ghost found = Seq::new(items@.len(), |k: int| trait_function_of(items@[k]));
    assert(found.subrange(0, 0) =~= Seq::<Option<HeaderView>>::empty());
    assert(header_views(out@) =~= kept(found.subrange(0, 0)));
    while i < items.len()
        invariant
            i <= items.len(),
            found == Seq::new(items@.len(), |k: int| trait_function_of(items@[k])),
            header_views(out@) == kept(found.subrange(0, i as int)),
        decreases items.len() - i,
    {
        let ghost before = header_views(out@);
        assert(found.subrange(0, i + 1).drop_last() =~= found.subrange(0, i as int));
        assert(found.subrange(0, i + 1).last() == trait_function_of(items@[i as int]));
        match trait_function(&items[i]) {
            Some(ident) => {
                let header = trait_function_header(ident_text(ident), ident_line(ident));
                assert(header@ == unmodified_header_of(*ident));
                out.push(header);
                assert(header_views(out@) =~= before.push(header@));
            },
            None => match lower_reread_function(&items[i]) {
                Some(header) => {
                    out.push(header);
                    assert(header_views(out@) =~= before.push(header@));
                },
                None => {},
            },
        }
        i += 1;
    }
    assert(found.subrange(0, i as int) =~= found);
    out
}

/// The functions among the items of an implementation block.
fn lower_impl_functions(items: &Vec<syn::ImplItem>) -> (r: Vec<Header>)
    ensures
        header_views(r@) == impl_functions_of(items@),
{
    let mut out: Vec<Header> = Vec::new();
    let mut i: usize = 0;
    let ghost found = Seq::new(items@.len(), |k: int| impl_function_of(items@[k]));
    assert(found.subrange(0, 0) =~= Seq::<Option<HeaderView>>::empty());
    assert(header_views(out@) =~= kept(found.subrange(0, 0)));
    while i < items.len()
        invariant
            i <= items.len(),
            found == Seq::new(items@.len(), |k: int| impl_function_of(items@[k])),
            header_views(out@) == kept(found.subrange(0, i as int)),
        decreases items.len() - i,
    {
        let ghost before = header_views(out@);
        assert(found.subrange(0, i + 1).drop_last() =~= found.subrange(0, i as int));
        assert(found.subrange(0, i + 1).last() == impl_function_of(items@[i as int]));
        match impl_function(&items[i]) {
            Some((vis, ident)) => {
                let header = lower_header(vis, ident);
                out.push(header);
                assert(header_views(out@) =~= before.push(header@));
            },
            None => {},
        }
        i += 1;
    }
    assert(found.subrange(0, i as int) =~= found);
    out
}

/// The functions among the items of an `extern` block.
fn lower_foreign_functions(items: &Vec<syn::ForeignItem>) -> (r: Vec<Header>)
    ensures
        header_views(r@) == foreign_functions_of(items@),
{
    let mut out: Vec<Header> = Vec::new();
    let mut i: usize = 0;
    let ghost found = Seq::new(items@.len(), |k: int| foreign_function_of(items@[k]));
    assert(found.subrange(0, 0) =~= Seq::<Option<HeaderView>>::empty());
    assert(header_views(out@) =~= kept(found.subrange(0, 0)));
    while i < items.len()
        invariant
            i <= items.len(),
            found == Seq::new(items@.len(), |k: int| foreign_function_of(items@[k])),
            header_views(out@) == kept(found.subrange(0, i as int)),
        decreases items.len() - i,
    {
        let ghost before = header_views(out@);
        assert(found.subrange(0, i + 1).drop_last() =~= found.subrange(0, i as int));
        assert(found.subrange(0, i + 1).last() == foreign_function_of(items@[i as int]));
        match foreign_function(&items[i]) {
            Some((vis, ident)) => {
                let header = lower_header(vis, ident);
                out.push(header);
                assert(header_views(out@) =~= before.push(header@));
            },
            None => {},
        }
        i += 1;
    }
    assert(found.subrange(0, i as int) =~= found);
    out
}

/// The declaration that stands for `item`. `depth` says how many levels of
/// inline modules below `item` are written down: the body of a module that
/// lies deeper is left empty.
fn lower_item(item: &syn::Item, depth: usize) -> (r: Declaration)
    ensures
        r@ == declaration_of(*item, depth as nat),
    decreases depth, 0nat,
{
    if let Some((kind, vis, ident)) = as_plain(item) {
        plain_declaration(kind, lower_header(vis, ident))
    } else if let Some((kind, vis, ident, fields)) = as_composite(item) {
        composite_declaration(kind, lower_header(vis, ident), lower_fields(&fields))
    } else if let Some((vis, ident, variants)) = as_enum(item) {
        Declaration::Enum { header: lower_header(vis, ident), variants: lower_variants(&variants) }
    } else if let Some((vis, ident, items)) = as_trait(item) {
        Declaration::Trait { header: lower_header(vis, ident), functions: lower_trait_functions(items) }
    } else if let Some((vis, ident, content)) = as_module(item) {
        let body = match content {
            Some(items) => if depth > 0 {
                lower_items(items, depth - 1)
            } else {
                Vec::new()
            },
            None => Vec::new(),
        };
        assert(tree_view(Seq::<Declaration>::empty()) =~= Seq::<DeclarationView>::empty());
        let ghost parts = item_module(*item)->0;
        assert(tree_view(body@) == body_of(parts.2, depth as nat));
        Declaration::Module { header: lower_header(vis, ident), body }
    } else if let Some((implemented, items)) = as_impl(item) {
        let trait_path = match implemented {
            Some(path) => Some(lower_path(path)),
            None => None,
        };
        Declaration::Impl { trait_path, functions: lower_impl_functions(items) }
    } else if let Some(items) = as_foreign_block(item) {
        Declaration::ForeignBlock { functions: lower_foreign_functions(items) }
    } else if let Some((vis, tree)) = as_use(item) {
        Declaration::Use { modifier: modifier_of(vis), tree: use_tree_text(tree) }
    } else if let Some(path) = as_macro(item) {
        Declaration::Macro { path: lower_path(path) }
    } else if is_verbatim(item) {
        Declaration::Opaque
    } else {
        Declaration::Unrecognized
    }
}

/// The declarations that stand for `items`, one for each, in order.
fn lower_items(items: &Vec<syn::Item>, depth: usize) -> (r: Vec<Declaration>)
    ensures
        tree_view(r@) == declarations_of(items@, depth as nat),
    decreases depth, 1nat,
{
    let mut out: Vec<Declaration> = Vec::new();
    let mut i: usize = 0;
    assert(items@.subrange(0, 0) =~= Seq::<syn::Item>::empty());
    assert(tree_view(out@) =~= declarations_of(items@.subrange(0, 0), depth as nat));
    while i < items.len()
        invariant
            i <= items.len(),
            tree_view(out@) == declarations_of(items@.subrange(0, i as int), depth as nat),
        decreases items.len() - i,
    {
        let ghost before = out@;
        assert(items@.subrange(0, i + 1).drop_last() =~= items@.subrange(0, i as int));
        let declaration = lower_item(&items[i], depth);
        out.push(declaration);
        assert(out@.drop_last() =~= before);
        i += 1;
    }
    assert(items@.subrange(0, i as int) =~= items@);
    out
}

/// Parses `text` as a source file: the tree of its declarations in source
/// order, or the message of the failure.
///
/// The places that `proc-macro2` keeps of texts parsed earlier on this
/// thread are given up first; a text of [`SPAN_LIMIT`] characters or more is
/// not handed to the parser and fails.
pub fn parse_source(text: &str) -> (r: Result<Vec<Declaration>, ParseFailure>)
    ensures
        parse_view(r) == parsed(text@),
{
    let length: usize = text.unicode_len();
    if length >= SPAN_LIMIT {
        return Err(ParseFailure { message: String::from_str("the text is too long to be parsed") });
    }
    forget_spans();
    match parse_items(text) {
        Ok(items) => Ok(lower_items(&items, length)),
        Err(error) => Err(ParseFailure { message: failure_text(&error) }),
    }
}

/// Writes down an item that consists of a header and nothing more.
pub fn plain_declaration(kind: DeclarationKind, header: Header) -> (r: Declaration)
    ensures
        r@ == plain_view(kind, header@),
{
    match kind {
        DeclarationKind::Function => Declaration::Function { header },
        DeclarationKind::Constant => Declaration::Constant { header },
        DeclarationKind::Static => Declaration::Static { header },
        DeclarationKind::TypeAlias => Declaration::TypeAlias { header },
        DeclarationKind::ExternCrate => Declaration::ExternCrate { header },
        _ => Declaration::Unrecognized,
    }
}

/// Writes down an item that consists of a header and fields.
pub fn composite_declaration(kind: DeclarationKind, header: Header, fields: Vec<FieldDecl>) -> (r:
    Declaration)
    ensures
        r@ == composite_view(kind, header@, field_views(fields@)),
{
    match kind {
        DeclarationKind::Struct => Declaration::Struct { header, fields },
        DeclarationKind::Union => Declaration::Union { header, fields },
        _ => Declaration::Unrecognized,
    }
}

/// The header of a function of a trait on which no modifier is written: its
/// name and line.
pub fn trait_function_header(name: String, line: usize) -> (r: Header)
    ensures
        r@.modifier == Modifier::Inherited,
        r@.name == name@,
        r@.line == line,
{
    Header { modifier: Modifier::Inherited, name, line }
}

} // verus!
