//! From a syntax tree to the records of what it declares in public.
//!
//! A declaration is public when it carries the bare `pub` modifier, and only
//! then. [`records_of_all`] says which records a tree yields and in which
//! order; [`extract`] computes them.
//!
//! What is nested is treated as follows.
//! - The body of an inline module is walked whatever the module's own
//!   modifier is: each declaration in it is judged by the modifier that it
//!   carries itself. Its records follow the module's, in the same flat list.
//! - The functions of a trait belong to the trait: a public trait lists each
//!   of them, with or without a modifier of its own, under the name
//!   `Trait::function`; a trait that is not public lists none.
//! - The functions of an implementation block and of an `extern` block are
//!   listed where they carry `pub` themselves.
//! - The named fields of a public struct or union make up the field list of
//!   its record. Fields of a tuple have no name and are left out.
//! - The fields of an enum's variants are not taken for fields of the enum.
//!   Each field of each variant of a public enum is listed as an opaque
//!   fragment, after the enum's record.

use vstd::prelude::*;
use vstd::string::*;
use crate::inventory::{FileInventory, all_from};
use crate::record::{
    DeclarationKind, DeclarationRecord, FieldEntry, FieldEntryView, RecordView, entry_views,
    record_views,
};
use crate::syntax::{
    Declaration, DeclarationView, FieldDecl, FieldDeclView, Header, HeaderView, VariantDecl,
    VariantDeclView, field_views, header_views, path_view, text_views, tree_view, variant_views,
};
use crate::text::{strip_spaces, without_spaces};

verus! {

/// The name under which an opaque fragment is listed.
pub open spec fn opaque_name() -> Seq<char> {
    "<opaque>"@
}

/// The last segment of `path`, or the empty text where `path` has none.
pub open spec fn last_segment(path: Seq<Seq<char>>) -> Seq<char> {
    if path.len() == 0 {
        Seq::empty()
    } else {
        path.last()
    }
}

/// `name` behind `owner` and two colons.
pub open spec fn qualified(owner: Seq<char>, name: Seq<char>) -> Seq<char> {
    owner + "::"@ + name
}

/// The record of a declaration that has a header and no field list.
pub open spec fn plain_record(file: Seq<char>, kind: DeclarationKind, header: HeaderView) -> RecordView {
    RecordView { kind, name: header.name, file, line: Some(header.line), fields: None }
}

/// The record of a struct or union with its field list.
pub open spec fn composite_record(
    file: Seq<char>,
    kind: DeclarationKind,
    header: HeaderView,
    fields: Seq<FieldDeclView>,
) -> RecordView {
    RecordView {
        kind,
        name: header.name,
        file,
        line: Some(header.line),
        fields: Some(named_fields(fields)),
    }
}

/// The record of a declaration that has a name and nothing else.
pub open spec fn bare_record(file: Seq<char>, kind: DeclarationKind, name: Seq<char>) -> RecordView {
    RecordView { kind, name, file, line: None, fields: None }
}

/// The fields of `fields` that have a name, in order, each with the text of
/// its type.
pub open spec fn named_fields(fields: Seq<FieldDeclView>) -> Seq<FieldEntryView>
    decreases fields.len(),
{
    if fields.len() == 0 {
        Seq::empty()
    } else {
        match fields.last().name {
            Some(name) => named_fields(fields.drop_last()).push(
                FieldEntryView { name, ty: fields.last().ty },
            ),
            None => named_fields(fields.drop_last()),
        }
    }
}

/// The number of fields that the variants of an enum hold between them.
pub open spec fn payload_count(variants: Seq<VariantDeclView>) -> nat
    decreases variants.len(),
{
    if variants.len() == 0 {
        0
    } else {
        payload_count(variants.drop_last()) + variants.last().fields.len()
    }
}

/// `count` records of opaque fragments.
pub open spec fn opaque_records(file: Seq<char>, count: nat) -> Seq<RecordView> {
    Seq::new(count, |i: int| bare_record(file, DeclarationKind::Opaque, opaque_name()))
}

/// The record of the function `function` of the trait named `owner`.
pub open spec fn method_record(file: Seq<char>, owner: Seq<char>, function: HeaderView) -> RecordView {
    RecordView {
        kind: DeclarationKind::TraitFunction,
        name: qualified(owner, function.name),
        file,
        line: Some(function.line),
        fields: None,
    }
}

/// One record for each function of a trait, whatever its modifier.
pub open spec fn method_records(file: Seq<char>, owner: Seq<char>, functions: Seq<HeaderView>) -> Seq<
    RecordView,
> {
    Seq::new(functions.len(), |i: int| method_record(file, owner, functions[i]))
}

/// The record of a function of an implementation block: under the trait's
/// name where the block implements a trait, under its own name alone where
/// the block is inherent.
pub open spec fn member_record(
    file: Seq<char>,
    trait_path: Option<Seq<Seq<char>>>,
    function: HeaderView,
) -> RecordView {
    match trait_path {
        Some(path) => method_record(file, last_segment(path), function),
        None => plain_record(file, DeclarationKind::Function, function),
    }
}

/// The records of the public functions of an implementation block, in
/// order.
pub open spec fn member_records(
    file: Seq<char>,
    trait_path: Option<Seq<Seq<char>>>,
    functions: Seq<HeaderView>,
) -> Seq<RecordView>
    decreases functions.len(),
{
    if functions.len() == 0 {
        Seq::empty()
    } else if functions.last().modifier.public() {
        member_records(file, trait_path, functions.drop_last()).push(
            member_record(file, trait_path, functions.last()),
        )
    } else {
        member_records(file, trait_path, functions.drop_last())
    }
}

/// The records of the public functions of an `extern` block, in order.
pub open spec fn foreign_records(file: Seq<char>, functions: Seq<HeaderView>) -> Seq<RecordView>
    decreases functions.len(),
{
    if functions.len() == 0 {
        Seq::empty()
    } else if functions.last().modifier.public() {
        foreign_records(file, functions.drop_last()).push(
            plain_record(file, DeclarationKind::ForeignFunction, functions.last()),
        )
    } else {
        foreign_records(file, functions.drop_last())
    }
}

/// The records that `d` yields by itself, without what is nested in it as a
/// declaration of its own (the body of a module).
pub open spec fn own_records(file: Seq<char>, d: DeclarationView) -> Seq<RecordView> {
    match d {
        DeclarationView::Function { header } => if header.modifier.public() {
            seq![plain_record(file, DeclarationKind::Function, header)]
        } else {
            Seq::empty()
        },
        DeclarationView::Struct { header, fields } => if header.modifier.public() {
            seq![composite_record(file, DeclarationKind::Struct, header, fields)]
        } else {
            Seq::empty()
        },
        DeclarationView::Enum { header, variants } => if header.modifier.public() {
            seq![plain_record(file, DeclarationKind::Enum, header)] + opaque_records(
                file,
                payload_count(variants),
            )
        } else {
            Seq::empty()
        },
        DeclarationView::Trait { header, functions } => if header.modifier.public() {
            seq![plain_record(file, DeclarationKind::Trait, header)] + method_records(
                file,
                header.name,
                functions,
            )
        } else {
            Seq::empty()
        },
        DeclarationView::Module { header, body } => if header.modifier.public() {
            seq![plain_record(file, DeclarationKind::Module, header)]
        } else {
            Seq::empty()
        },
        DeclarationView::Impl { trait_path, functions } => member_records(file, trait_path, functions),
        DeclarationView::Constant { header } => if header.modifier.public() {
            seq![plain_record(file, DeclarationKind::Constant, header)]
        } else {
            Seq::empty()
        },
        DeclarationView::Static { header } => if header.modifier.public() {
            seq![plain_record(file, DeclarationKind::Static, header)]
        } else {
            Seq::empty()
        },
        DeclarationView::TypeAlias { header } => if header.modifier.public() {
            seq![plain_record(file, DeclarationKind::TypeAlias, header)]
        } else {
            Seq::empty()
        },
        DeclarationView::Union { header, fields } => if header.modifier.public() {
            seq![composite_record(file, DeclarationKind::Union, header, fields)]
        } else {
            Seq::empty()
        },
        DeclarationView::ExternCrate { header } => if header.modifier.public() {
            seq![plain_record(file, DeclarationKind::ExternCrate, header)]
        } else {
            Seq::empty()
        },
        DeclarationView::ForeignBlock { functions } => foreign_records(file, functions),
        DeclarationView::Use { modifier, tree } => if modifier.public() {
            seq![bare_record(file, DeclarationKind::Use, without_spaces(tree))]
        } else {
            Seq::empty()
        },
        DeclarationView::Macro { path } => seq![
            bare_record(file, DeclarationKind::Macro, last_segment(path)),
        ],
        DeclarationView::Opaque => seq![bare_record(file, DeclarationKind::Opaque, opaque_name())],
        DeclarationView::Unrecognized => Seq::empty(),
    }
}

/// The records that `d` yields: its own, then those of the declarations
/// nested in it.
pub open spec fn records_of(file: Seq<char>, d: DeclarationView) -> Seq<RecordView>
    decreases d,
{
    match d {
        DeclarationView::Module { header, body } => own_records(file, d) + records_of_all(file, body),
        _ => own_records(file, d),
    }
}

/// The records that the declarations `items` of the file `file` yield, in
/// the order of the walk.
pub open spec fn records_of_all(file: Seq<char>, items: Seq<DeclarationView>) -> Seq<RecordView>
    decreases items,
{
    if items.len() == 0 {
        Seq::empty()
    } else {
        records_of_all(file, items.drop_last()) + records_of(file, items.last())
    }
}

/// Every record of `file`'s tree names `file`.
pub proof fn lemma_records_name_file(file: Seq<char>, items: Seq<DeclarationView>)
    ensures
        all_from(records_of_all(file, items), file),
    decreases items,
{
    if items.len() > 0 {
        lemma_records_name_file(file, items.drop_last());
        lemma_record_names_file(file, items.last());
    }
}

/// Every record that `d` yields in `file` names `file`.
pub proof fn lemma_record_names_file(file: Seq<char>, d: DeclarationView)
    ensures
        all_from(records_of(file, d), file),
    decreases d,
{
    lemma_own_records_name_file(file, d);
    match d {
        DeclarationView::Module { header, body } => {
            lemma_records_name_file(file, body);
        },
        _ => {},
    }
}

/// Every record that `d` yields by itself in `file` names `file`.
pub proof fn lemma_own_records_name_file(file: Seq<char>, d: DeclarationView)
    ensures
        all_from(own_records(file, d), file),
{
    match d {
        DeclarationView::Impl { trait_path, functions } => {
            lemma_member_records_name_file(file, trait_path, functions);
        },
        DeclarationView::ForeignBlock { functions } => {
            lemma_foreign_records_name_file(file, functions);
        },
        _ => {},
    }
}

proof fn lemma_member_records_name_file(
    file: Seq<char>,
    trait_path: Option<Seq<Seq<char>>>,
    functions: Seq<HeaderView>,
)
    ensures
        all_from(member_records(file, trait_path, functions), file),
    decreases functions.len(),
{
    if functions.len() > 0 {
        lemma_member_records_name_file(file, trait_path, functions.drop_last());
    }
}

proof fn lemma_foreign_records_name_file(file: Seq<char>, functions: Seq<HeaderView>)
    ensures
        all_from(foreign_records(file, functions), file),
    decreases functions.len(),
{
    if functions.len() > 0 {
        lemma_foreign_records_name_file(file, functions.drop_last());
    }
}

/// `name` behind `owner` and two colons.
fn qualify(owner: &str, name: &str) -> (r: String)
    ensures
        r@ == qualified(owner@, name@),
{
    let mut out = String::from_str(owner);
    out.append("::");
    out.append(name);
    out
}

/// The last segment of `path`, or the empty text.
fn last_of(path: &Vec<String>) -> (r: &str)
    ensures
        r@ == last_segment(text_views(path@)),
{
    if path.len() == 0 {
        proof {
            reveal_strlit("");
        }
        assert(""@ =~= Seq::<char>::empty());
        ""
    } else {
        path[path.len() - 1].as_str()
    }
}

fn make_plain(file: &str, kind: DeclarationKind, header: &Header) -> (r: DeclarationRecord)
    ensures
        r@ == plain_record(file@, kind, header@),
{
    DeclarationRecord {
        kind,
        name: header.name.clone(),
        file: String::from_str(file),
        line: Some(header.line),
        fields: None,
    }
}

fn make_bare(file: &str, kind: DeclarationKind, name: String) -> (r: DeclarationRecord)
    ensures
        r@ == bare_record(file@, kind, name@),
{
    DeclarationRecord { kind, name, file: String::from_str(file), line: None, fields: None }
}

fn make_method(file: &str, owner: &str, function: &Header) -> (r: DeclarationRecord)
    ensures
        r@ == method_record(file@, owner@, function@),
{
    DeclarationRecord {
        kind: DeclarationKind::TraitFunction,
        name: qualify(owner, function.name.as_str()),
        file: String::from_str(file),
        line: Some(function.line),
        fields: None,
    }
}

/// The field list of a struct or union.
fn field_entries(fields: &Vec<FieldDecl>) -> (r: Vec<FieldEntry>)
    ensures
        entry_views(r@) == named_fields(field_views(fields@)),
{
    let mut entries: Vec<FieldEntry> = Vec::new();
    let mut i: usize = 0;
    let ghost views = field_views(fields@);
    assert(views.subrange(0, 0) =~= Seq::<FieldDeclView>::empty());
    while i < fields.len()
        invariant
            i <= fields.len(),
            views == field_views(fields@),
            entry_views(entries@) == named_fields(views.subrange(0, i as int)),
        decreases fields.len() - i,
    {
        let ghost before = entry_views(entries@);
        assert(views.subrange(0, i + 1).drop_last() =~= views.subrange(0, i as int));
        assert(views.subrange(0, i + 1).last() == fields@[i as int]@);
        match &fields[i].name {
            Some(name) => {
                entries.push(FieldEntry { name: name.clone(), ty: fields[i].ty.clone() });
                assert(entry_views(entries@) =~= before.push(
                    FieldEntryView { name: name@, ty: fields@[i as int].ty@ },
                ));
            },
            None => {},
        }
        i += 1;
    }
    assert(views.subrange(0, i as int) =~= views);
    entries
}

fn make_composite(file: &str, kind: DeclarationKind, header: &Header, fields: &Vec<FieldDecl>) -> (r:
    DeclarationRecord)
    ensures
        r@ == composite_record(file@, kind, header@, field_views(fields@)),
{
    DeclarationRecord {
        kind,
        name: header.name.clone(),
        file: String::from_str(file),
        line: Some(header.line),
        fields: Some(field_entries(fields)),
    }
}

/// Appends `record` to `out`.
fn put(out: &mut Vec<DeclarationRecord>, record: DeclarationRecord)
    ensures
        record_views(final(out)@) == record_views(old(out)@).push(record@),
        record_views(final(out)@) == record_views(old(out)@) + seq![record@],
{
    out.push(record);
    assert(record_views(out@) =~= record_views(old(out)@).push(record@));
    assert(record_views(out@) =~= record_views(old(out)@) + seq![record@]);
}

/// Appends one opaque record for each field of each of `variants`.
fn put_payloads(file: &str, variants: &Vec<VariantDecl>, out: &mut Vec<DeclarationRecord>)
    ensures
        record_views(final(out)@) == record_views(old(out)@) + opaque_records(
            file@,
            payload_count(variant_views(variants@)),
        ),
{
    let mut i: usize = 0;
    let ghost views = variant_views(variants@);
    assert(views.subrange(0, 0) =~= Seq::<VariantDeclView>::empty());
    assert(record_views(out@) =~= record_views(old(out)@) + opaque_records(file@, 0));
    while i < variants.len()
        invariant
            i <= variants.len(),
            views == variant_views(variants@),
            record_views(out@) == record_views(old(out)@) + opaque_records(
                file@,
                payload_count(views.subrange(0, i as int)),
            ),
        decreases variants.len() - i,
    {
        let ghost done = payload_count(views.subrange(0, i as int));
        assert(views.subrange(0, i + 1).drop_last() =~= views.subrange(0, i as int));
        assert(views.subrange(0, i + 1).last().fields.len() == variants@[i as int].fields@.len());
        let fields = &variants[i].fields;
        let mut j: usize = 0;
        while j < fields.len()
            invariant
                j <= fields.len(),
                record_views(out@) == record_views(old(out)@) + opaque_records(file@, done + j as nat),
            decreases fields.len() - j,
        {
            put(out, make_bare(file, DeclarationKind::Opaque, String::from_str("<opaque>")));
            assert(record_views(out@) =~= record_views(old(out)@) + opaque_records(
                file@,
                done + j as nat + 1,
            ));
            j += 1;
        }
        i += 1;
    }
    assert(views.subrange(0, i as int) =~= views);
}

/// Appends one record for each function of the trait named `owner`.
fn put_methods(file: &str, owner: &str, functions: &Vec<Header>, out: &mut Vec<DeclarationRecord>)
    ensures
        record_views(final(out)@) == record_views(old(out)@) + method_records(
            file@,
            owner@,
            header_views(functions@),
        ),
{
    let mut i: usize = 0;
    let ghost views = header_views(functions@);
    assert(record_views(out@) =~= record_views(old(out)@) + method_records(
        file@,
        owner@,
        views.subrange(0, 0),
    ));
    while i < functions.len()
        invariant
            i <= functions.len(),
            views == header_views(functions@),
            record_views(out@) == record_views(old(out)@) + method_records(
                file@,
                owner@,
                views.subrange(0, i as int),
            ),
        decreases functions.len() - i,
    {
        put(out, make_method(file, owner, &functions[i]));
        assert(record_views(out@) =~= record_views(old(out)@) + method_records(
            file@,
            owner@,
            views.subrange(0, i + 1),
        ));
        i += 1;
    }
    assert(views.subrange(0, i as int) =~= views);
}

/// Appends the records of the public functions of an implementation
/// block.
fn put_members(
    file: &str,
    trait_path: &Option<Vec<String>>,
    functions: &Vec<Header>,
    out: &mut Vec<DeclarationRecord>,
)
    ensures
        record_views(final(out)@) == record_views(old(out)@) + member_records(
            file@,
            path_view(*trait_path),
            header_views(functions@),
        ),
{
    let mut i: usize = 0;
    let ghost views = header_views(functions@);
    assert(views.subrange(0, 0) =~= Seq::<HeaderView>::empty());
    assert(record_views(out@) =~= record_views(old(out)@) + Seq::<RecordView>::empty());
    while i < functions.len()
        invariant
            i <= functions.len(),
            views == header_views(functions@),
            record_views(out@) == record_views(old(out)@) + member_records(
                file@,
                path_view(*trait_path),
                views.subrange(0, i as int),
            ),
        decreases functions.len() - i,
    {
        assert(views.subrange(0, i + 1).drop_last() =~= views.subrange(0, i as int));
        assert(views.subrange(0, i + 1).last() == functions@[i as int]@);
        let function = &functions[i];
        if function.modifier.is_public() {
            let ghost before = member_records(
                file@,
                path_view(*trait_path),
                views.subrange(0, i as int),
            );
            let record = match trait_path {
                Some(path) => make_method(file, last_of(path), function),
                None => make_plain(file, DeclarationKind::Function, function),
            };
            put(out, record);
            assert(record_views(out@) =~= record_views(old(out)@) + before.push(record@));
        }
        i += 1;
    }
    assert(views.subrange(0, i as int) =~= views);
}

/// Appends the records of the public functions of an `extern` block.
fn put_foreign(file: &str, functions: &Vec<Header>, out: &mut Vec<DeclarationRecord>)
    ensures
        record_views(final(out)@) == record_views(old(out)@) + foreign_records(
            file@,
            header_views(functions@),
        ),
{
    let mut i: usize = 0;
    let ghost views = header_views(functions@);
    assert(views.subrange(0, 0) =~= Seq::<HeaderView>::empty());
    assert(record_views(out@) =~= record_views(old(out)@) + Seq::<RecordView>::empty());
    while i < functions.len()
        invariant
            i <= functions.len(),
            views == header_views(functions@),
            record_views(out@) == record_views(old(out)@) + foreign_records(
                file@,
                views.subrange(0, i as int),
            ),
        decreases functions.len() - i,
    {
        assert(views.subrange(0, i + 1).drop_last() =~= views.subrange(0, i as int));
        assert(views.subrange(0, i + 1).last() == functions@[i as int]@);
        let function = &functions[i];
        if function.modifier.is_public() {
            let ghost before = foreign_records(file@, views.subrange(0, i as int));
            let record = make_plain(file, DeclarationKind::ForeignFunction, function);
            put(out, record);
            assert(record_views(out@) =~= record_views(old(out)@) + before.push(record@));
        }
        i += 1;
    }
    assert(views.subrange(0, i as int) =~= views);
}

/// Appends what `d` yields by itself.
fn put_own(file: &str, d: &Declaration, out: &mut Vec<DeclarationRecord>)
    ensures
        record_views(final(out)@) == record_views(old(out)@) + own_records(file@, d@),
{
    let ghost before = record_views(out@);
    assert(before =~= before + Seq::<RecordView>::empty());
    match d {
        Declaration::Function { header } => {
            if header.modifier.is_public() {
                put(out, make_plain(file, DeclarationKind::Function, header));
            }
        },
        Declaration::Struct { header, fields } => {
            if header.modifier.is_public() {
                put(out, make_composite(file, DeclarationKind::Struct, header, fields));
            }
        },
        Declaration::Enum { header, variants } => {
            if header.modifier.is_public() {
                let record = make_plain(file, DeclarationKind::Enum, header);
                put(out, record);
                put_payloads(file, variants, out);
                assert(record_views(out@) =~= before + (seq![record@] + opaque_records(
                    file@,
                    payload_count(variant_views(variants@)),
                )));
            }
        },
        Declaration::Trait { header, functions } => {
            if header.modifier.is_public() {
                let record = make_plain(file, DeclarationKind::Trait, header);
                put(out, record);
                put_methods(file, header.name.as_str(), functions, out);
                assert(record_views(out@) =~= before + (seq![record@] + method_records(
                    file@,
                    header.name@,
                    header_views(functions@),
                )));
            }
        },
        Declaration::Module { header, body } => {
            if header.modifier.is_public() {
                put(out, make_plain(file, DeclarationKind::Module, header));
            }
        },
        Declaration::Impl { trait_path, functions } => {
            put_members(file, trait_path, functions, out);
        },
        Declaration::Constant { header } => {
            if header.modifier.is_public() {
                put(out, make_plain(file, DeclarationKind::Constant, header));
            }
        },
        Declaration::Static { header } => {
            if header.modifier.is_public() {
                put(out, make_plain(file, DeclarationKind::Static, header));
            }
        },
        Declaration::TypeAlias { header } => {
            if header.modifier.is_public() {
                put(out, make_plain(file, DeclarationKind::TypeAlias, header));
            }
        },
        Declaration::Union { header, fields } => {
            if header.modifier.is_public() {
                put(out, make_composite(file, DeclarationKind::Union, header, fields));
            }
        },
        Declaration::ExternCrate { header } => {
            if header.modifier.is_public() {
                put(out, make_plain(file, DeclarationKind::ExternCrate, header));
            }
        },
        Declaration::ForeignBlock { functions } => {
            put_foreign(file, functions, out);
        },
        Declaration::Use { modifier, tree } => {
            if modifier.is_public() {
                put(out, make_bare(file, DeclarationKind::Use, strip_spaces(tree.as_str())));
            }
        },
        Declaration::Macro { path } => {
            put(out, make_bare(file, DeclarationKind::Macro, String::from_str(last_of(path))));
        },
        Declaration::Opaque => {
            put(out, make_bare(file, DeclarationKind::Opaque, String::from_str("<opaque>")));
        },
        Declaration::Unrecognized => {},
    }
}

/// Appends what `d` yields: its own records, then those of what is nested
/// in it.
fn visit(file: &str, d: &Declaration, out: &mut Vec<DeclarationRecord>)
    ensures
        record_views(final(out)@) == record_views(old(out)@) + records_of(file@, d@),
    decreases d,
{
    put_own(file, d, out);
    match d {
        Declaration::Module { header, body } => {
            visit_all(file, body, out);
            assert(record_views(out@) =~= record_views(old(out)@) + (own_records(file@, d@)
                + records_of_all(file@, tree_view(body@))));
        },
        _ => {},
    }
}

/// Appends what each of `items` yields, in order.
fn visit_all(file: &str, items: &Vec<Declaration>, out: &mut Vec<DeclarationRecord>)
    ensures
        record_views(final(out)@) == record_views(old(out)@) + records_of_all(
            file@,
            tree_view(items@),
        ),
    decreases items,
{
    let mut i: usize = 0;
    assert(items@.subrange(0, 0) =~= Seq::<Declaration>::empty());
    assert(record_views(out@) =~= record_views(old(out)@) + Seq::<RecordView>::empty());
    while i < items.len()
        invariant
            i <= items.len(),
            record_views(out@) == record_views(old(out)@) + records_of_all(
                file@,
                tree_view(items@.subrange(0, i as int)),
            ),
        decreases items.len() - i,
    {
        let ghost before = records_of_all(file@, tree_view(items@.subrange(0, i as int)));
        assert(items@.subrange(0, i + 1).drop_last() =~= items@.subrange(0, i as int));
        visit(file, &items[i], out);
        assert(tree_view(items@.subrange(0, i + 1)).drop_last() =~= tree_view(
            items@.subrange(0, i as int),
        ));
        assert(record_views(out@) =~= record_views(old(out)@) + (before + records_of(
            file@,
            items@[i as int]@,
        )));
        i += 1;
    }
    assert(items@.subrange(0, i as int) =~= items@);
}

/// Walks the tree `items` of the file `path` and lists what it declares in
/// public.
pub fn extract(path: &str, items: &Vec<Declaration>) -> (r: FileInventory)
    ensures
        r@.path == path@,
        r@.records == records_of_all(path@, tree_view(items@)),
{
    let mut records: Vec<DeclarationRecord> = Vec::new();
    assert(record_views(records@) =~= Seq::<RecordView>::empty());
    visit_all(path, items, &mut records);
    assert(record_views(records@) =~= records_of_all(path@, tree_view(items@)));
    proof {
        lemma_records_name_file(path@, tree_view(items@));
    }
    FileInventory::from_records(path, records)
}

} // verus!
