//! What the inventory holds for one declaration.

use vstd::prelude::*;

verus! {

/// The kinds of declaration that the inventory tells apart.
#[derive(Clone, Copy, Debug, PartialEq, Eq, Hash, Structural)]
pub enum DeclarationKind {
    /// A free function, or a function of an inherent implementation block.
    Function,
    /// A struct.
    Struct,
    /// An enum.
    Enum,
    /// A trait.
    Trait,
    /// A function that a trait declares or that a block implements for a
    /// trait, under the name `Trait::function`.
    TraitFunction,
    /// A module.
    Module,
    /// A `const` item.
    Constant,
    /// A `static` item.
    Static,
    /// A `type` alias.
    TypeAlias,
    /// A union.
    Union,
    /// An `extern crate` item.
    ExternCrate,
    /// A function declared in an `extern` block.
    ForeignFunction,
    /// A `use` item, under the text of what it imports.
    Use,
    /// A macro invoked in item position, under the macro's name.
    Macro,
    /// Tokens that the parser did not interpret.
    Opaque,
}

/// Every kind once, in the order in which kinds are listed.
pub open spec fn all_kinds() -> Seq<DeclarationKind> {
    seq![
        DeclarationKind::Function,
        DeclarationKind::Struct,
        DeclarationKind::Enum,
        DeclarationKind::Trait,
        DeclarationKind::TraitFunction,
        DeclarationKind::Module,
        DeclarationKind::Constant,
        DeclarationKind::Static,
        DeclarationKind::TypeAlias,
        DeclarationKind::Union,
        DeclarationKind::ExternCrate,
        DeclarationKind::ForeignFunction,
        DeclarationKind::Use,
        DeclarationKind::Macro,
        DeclarationKind::Opaque,
    ]
}

impl DeclarationKind {
    /// The name under which the kind is listed and by which a query asks for
    /// it.
    pub open spec fn label(self) -> Seq<char> {
        match self {
            DeclarationKind::Function => "Function"@,
            DeclarationKind::Struct => "Struct"@,
            DeclarationKind::Enum => "Enum"@,
            DeclarationKind::Trait => "Trait"@,
            DeclarationKind::TraitFunction => "TraitFunction"@,
            DeclarationKind::Module => "Module"@,
            DeclarationKind::Constant => "Constant"@,
            DeclarationKind::Static => "Static"@,
            DeclarationKind::TypeAlias => "TypeAlias"@,
            DeclarationKind::Union => "Union"@,
            DeclarationKind::ExternCrate => "ExternCrate"@,
            DeclarationKind::ForeignFunction => "ForeignFunction"@,
            DeclarationKind::Use => "Use"@,
            DeclarationKind::Macro => "Macro"@,
            DeclarationKind::Opaque => "Opaque"@,
        }
    }

    /// The position of the kind in [`all_kinds`].
    pub open spec fn position(self) -> int {
        match self {
            DeclarationKind::Function => 0,
            DeclarationKind::Struct => 1,
            DeclarationKind::Enum => 2,
            DeclarationKind::Trait => 3,
            DeclarationKind::TraitFunction => 4,
            DeclarationKind::Module => 5,
            DeclarationKind::Constant => 6,
            DeclarationKind::Static => 7,
            DeclarationKind::TypeAlias => 8,
            DeclarationKind::Union => 9,
            DeclarationKind::ExternCrate => 10,
            DeclarationKind::ForeignFunction => 11,
            DeclarationKind::Use => 12,
            DeclarationKind::Macro => 13,
            DeclarationKind::Opaque => 14,
        }
    }

    /// The kind's name.
    pub fn name(self) -> (r: &'static str)
        ensures
            r@ == self.label(),
    {
        match self {
            DeclarationKind::Function => "Function",
            DeclarationKind::Struct => "Struct",
            DeclarationKind::Enum => "Enum",
            DeclarationKind::Trait => "Trait",
            DeclarationKind::TraitFunction => "TraitFunction",
            DeclarationKind::Module => "Module",
            DeclarationKind::Constant => "Constant",
            DeclarationKind::Static => "Static",
            DeclarationKind::TypeAlias => "TypeAlias",
            DeclarationKind::Union => "Union",
            DeclarationKind::ExternCrate => "ExternCrate",
            DeclarationKind::ForeignFunction => "ForeignFunction",
            DeclarationKind::Use => "Use",
            DeclarationKind::Macro => "Macro",
            DeclarationKind::Opaque => "Opaque",
        }
    }

    /// All kinds in listing order.
    pub fn all() -> (r: Vec<DeclarationKind>)
        ensures
            r@ == all_kinds(),
    {
        let mut kinds: Vec<DeclarationKind> = Vec::new();
        kinds.push(DeclarationKind::Function);
        kinds.push(DeclarationKind::Struct);
        kinds.push(DeclarationKind::Enum);
        kinds.push(DeclarationKind::Trait);
        kinds.push(DeclarationKind::TraitFunction);
        kinds.push(DeclarationKind::Module);
        kinds.push(DeclarationKind::Constant);
        kinds.push(DeclarationKind::Static);
        kinds.push(DeclarationKind::TypeAlias);
        kinds.push(DeclarationKind::Union);
        kinds.push(DeclarationKind::ExternCrate);
        kinds.push(DeclarationKind::ForeignFunction);
        kinds.push(DeclarationKind::Use);
        kinds.push(DeclarationKind::Macro);
        kinds.push(DeclarationKind::Opaque);
        assert(kinds@ =~= all_kinds());
        kinds
    }
}

/// [`all_kinds`] holds each kind at its position, and so exactly once.
pub proof fn lemma_all_kinds_complete(kind: DeclarationKind)
    ensures
        all_kinds().len() == 15,
        0 <= kind.position() < 15,
        all_kinds()[kind.position()] == kind,
        forall|i: int| 0 <= i < 15 && all_kinds()[i] == kind ==> i == kind.position(),
{
}

/// One entry of a record's field list: a field's name and the text of its
/// type.
#[derive(Debug, PartialEq, Eq)]
pub struct FieldEntry {
    pub name: String,
    pub ty: String,
}

/// A [`FieldEntry`] as plain sequences.
#[verifier::ext_equal]
pub struct FieldEntryView {
    pub name: Seq<char>,
    pub ty: Seq<char>,
}

impl View for FieldEntry {
    type V = FieldEntryView;

    open spec fn view(&self) -> FieldEntryView {
        FieldEntryView { name: self.name@, ty: self.ty@ }
    }
}

/// One declaration that the inventory lists.
///
/// `file` is the path of the file that declares it. `line` is the line on
/// which the declaration's name is written; records of the kinds `Use`,
/// `Macro` and `Opaque` have none. `fields` is the field list of a struct or
/// union, in source order, and `None` for every other kind.
#[derive(Debug, PartialEq, Eq)]
pub struct DeclarationRecord {
    pub kind: DeclarationKind,
    pub name: String,
    pub file: String,
    pub line: Option<usize>,
    pub fields: Option<Vec<FieldEntry>>,
}

/// A [`DeclarationRecord`] as plain values.
#[verifier::ext_equal]
pub struct RecordView {
    pub kind: DeclarationKind,
    pub name: Seq<char>,
    pub file: Seq<char>,
    pub line: Option<nat>,
    pub fields: Option<Seq<FieldEntryView>>,
}

/// The views of `entries`, in order.
pub open spec fn entry_views(entries: Seq<FieldEntry>) -> Seq<FieldEntryView> {
    Seq::new(entries.len(), |i: int| entries[i]@)
}

/// The views of `records`, in order.
pub open spec fn record_views(records: Seq<DeclarationRecord>) -> Seq<RecordView> {
    Seq::new(records.len(), |i: int| records[i]@)
}

/// The views of the records that `records` refers to, in order.
pub open spec fn borrowed_views(records: Seq<&DeclarationRecord>) -> Seq<RecordView> {
    Seq::new(records.len(), |i: int| records[i]@)
}

impl View for DeclarationRecord {
    type V = RecordView;

    open spec fn view(&self) -> RecordView {
        RecordView {
            kind: self.kind,
            name: self.name@,
            file: self.file@,
            line: match self.line {
                Some(n) => Some(n as nat),
                None => None,
            },
            fields: match self.fields {
                Some(entries) => Some(entry_views(entries@)),
                None => None,
            },
        }
    }
}

/// The records of `records` that are of `kind`, in order.
pub open spec fn of_kind(records: Seq<RecordView>, kind: DeclarationKind) -> Seq<RecordView>
    decreases records.len(),
{
    if records.len() == 0 {
        Seq::empty()
    } else if records.last().kind == kind {
        of_kind(records.drop_last(), kind).push(records.last())
    } else {
        of_kind(records.drop_last(), kind)
    }
}

/// Listing by kind keeps each record under its own kind and under no other,
/// and loses none: what is listed under `kind` is of that kind, and a record
/// of that kind is listed there.
pub proof fn lemma_of_kind_sorts(records: Seq<RecordView>, kind: DeclarationKind)
    ensures
        forall|i: int|
            0 <= i < of_kind(records, kind).len() ==> of_kind(records, kind)[i].kind == kind,
        forall|i: int|
            0 <= i < of_kind(records, kind).len() ==> records.contains(of_kind(records, kind)[i]),
        forall|i: int|
            0 <= i < records.len() && records[i].kind == kind ==> of_kind(records, kind).contains(
                records[i],
            ),
        of_kind(records, kind).len() <= records.len(),
    decreases records.len(),
{
    if records.len() > 0 {
        let head = records.drop_last();
        lemma_of_kind_sorts(head, kind);
        let listed = of_kind(records, kind);
        let before = of_kind(head, kind);
        assert forall|i: int| 0 <= i < listed.len() implies records.contains(listed[i]) by {
            if i < before.len() {
                assert(head.contains(before[i]));
                let j = choose|j: int| 0 <= j < head.len() && head[j] == before[i];
                assert(records[j] == listed[i]);
            } else {
                assert(records[records.len() - 1] == listed[i]);
            }
        }
        assert forall|i: int| 0 <= i < records.len() && records[i].kind == kind implies listed.contains(
            records[i],
        ) by {
            if i < head.len() {
                assert(head[i] == records[i]);
                assert(before.contains(head[i]));
                let j = choose|j: int| 0 <= j < before.len() && before[j] == head[i];
                assert(listed[j] == records[i]);
            } else {
                assert(listed[listed.len() - 1] == records[i]);
            }
        }
    }
}

} // verus!
