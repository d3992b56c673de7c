//! An inventory laid out as lines, for a query.
//!
//! A file is shown where it holds a record of a kind that the query asks
//! for: its path, then for each such kind, in the order of
//! [`all_kinds`], the kind's name, the records of that kind in the order
//! in which the file holds them, and a blank line. A record that has a field
//! list is followed by a heading and one line for each field. How a line is
//! written, in which colours and widths, is left to the caller.

use vstd::prelude::*;
use vstd::string::*;
use crate::inventory::{FileInventory, FileInventoryView, Inventory};
use crate::query::{Query, selects};
use crate::record::{
    DeclarationKind, DeclarationRecord, FieldEntryView, RecordView, all_kinds, borrowed_views,
    entry_views, lemma_all_kinds_complete, lemma_of_kind_sorts, of_kind,
};

verus! {

/// One line of a presentation.
#[derive(Debug, PartialEq, Eq)]
pub enum Line {
    /// The path of a file, ahead of what is shown of it.
    File { path: String },
    /// The name of a kind, ahead of the file's records of that kind.
    Kind { kind: DeclarationKind },
    /// A record: its name and, where it has one, its line in the source.
    Record { name: String, line: Option<usize> },
    /// The heading of a record's field list.
    FieldsHeading,
    /// A field: its name and the text of its type.
    Field { name: String, ty: String },
    /// The empty line that ends the records of a kind.
    Blank,
}

/// A [`Line`] as plain values.
#[verifier::ext_equal]
pub enum LineView {
    File { path: Seq<char> },
    Kind { kind: DeclarationKind },
    Record { name: Seq<char>, line: Option<nat> },
    FieldsHeading,
    Field { name: Seq<char>, ty: Seq<char> },
    Blank,
}

impl View for Line {
    type V = LineView;

    open spec fn view(&self) -> LineView {
        match self {
            Line::File { path } => LineView::File { path: path@ },
            Line::Kind { kind } => LineView::Kind { kind: *kind },
            Line::Record { name, line } => LineView::Record {
                name: name@,
                line: match line {
                    Some(n) => Some(*n as nat),
                    None => None,
                },
            },
            Line::FieldsHeading => LineView::FieldsHeading,
            Line::Field { name, ty } => LineView::Field { name: name@, ty: ty@ },
            Line::Blank => LineView::Blank,
        }
    }
}

/// The views of `lines`, in order.
pub open spec fn line_views(lines: Seq<Line>) -> Seq<LineView> {
    Seq::new(lines.len(), |i: int| lines[i]@)
}

/// One line for each of `fields`, in order.
pub open spec fn field_lines(fields: Seq<FieldEntryView>) -> Seq<LineView> {
    Seq::new(fields.len(), |i: int| LineView::Field { name: fields[i].name, ty: fields[i].ty })
}

/// The lines of one record: the record itself and, where it has a field
/// list, the heading and the fields.
pub open spec fn record_lines(record: RecordView) -> Seq<LineView> {
    seq![LineView::Record { name: record.name, line: record.line }] + match record.fields {
        Some(fields) => seq![LineView::FieldsHeading] + field_lines(fields),
        None => Seq::empty(),
    }
}

/// The lines of `records`, one record after the other.
pub open spec fn records_lines(records: Seq<RecordView>) -> Seq<LineView>
    decreases records.len(),
{
    if records.len() == 0 {
        Seq::empty()
    } else {
        records_lines(records.drop_last()) + record_lines(records.last())
    }
}

/// What is shown of `kind` for a file that holds `records`: nothing where
/// no record is of that kind.
pub open spec fn kind_lines(records: Seq<RecordView>, kind: DeclarationKind) -> Seq<LineView> {
    if of_kind(records, kind).len() == 0 {
        Seq::empty()
    } else {
        seq![LineView::Kind { kind }] + records_lines(of_kind(records, kind)) + seq![LineView::Blank]
    }
}

/// What is shown of those of `kinds` that `tokens` ask for, in the order of
/// `kinds`.
pub open spec fn kinds_lines(
    records: Seq<RecordView>,
    tokens: Seq<Seq<char>>,
    kinds: Seq<DeclarationKind>,
) -> Seq<LineView>
    decreases kinds.len(),
{
    if kinds.len() == 0 {
        Seq::empty()
    } else if selects(tokens, kinds.last()) {
        kinds_lines(records, tokens, kinds.drop_last()) + kind_lines(records, kinds.last())
    } else {
        kinds_lines(records, tokens, kinds.drop_last())
    }
}

/// What is shown of `file`: nothing where it holds no record that `tokens`
/// ask for.
pub open spec fn file_lines(file: FileInventoryView, tokens: Seq<Seq<char>>) -> Seq<LineView> {
    if kinds_lines(file.records, tokens, all_kinds()).len() == 0 {
        Seq::empty()
    } else {
        seq![LineView::File { path: file.path }] + kinds_lines(file.records, tokens, all_kinds())
    }
}

/// What is shown of `files`, in their order.
pub open spec fn presentation(files: Seq<FileInventoryView>, tokens: Seq<Seq<char>>) -> Seq<LineView>
    decreases files.len(),
{
    if files.len() == 0 {
        Seq::empty()
    } else {
        presentation(files.drop_last(), tokens) + file_lines(files.last(), tokens)
    }
}

/// A kind is shown for a file exactly where the file holds a record of it.
pub proof fn lemma_kind_shown_iff_held(records: Seq<RecordView>, kind: DeclarationKind)
    ensures
        kind_lines(records, kind).len() > 0 <==> exists|i: int|
            0 <= i < records.len() && (#[trigger] records[i]).kind == kind,
{
    lemma_of_kind_sorts(records, kind);
    let listed = of_kind(records, kind);
    if listed.len() > 0 {
        assert(records.contains(listed[0]));
        let i = choose|i: int| 0 <= i < records.len() && records[i] == listed[0];
        assert(records[i].kind == kind);
    }
    if exists|i: int| 0 <= i < records.len() && (#[trigger] records[i]).kind == kind {
        let i = choose|i: int| 0 <= i < records.len() && (#[trigger] records[i]).kind == kind;
        assert(listed.contains(records[i]));
    }
}

proof fn lemma_kinds_shown(records: Seq<RecordView>, tokens: Seq<Seq<char>>, kinds: Seq<DeclarationKind>)
    ensures
        kinds_lines(records, tokens, kinds).len() > 0 <==> exists|j: int|
            0 <= j < kinds.len() && selects(tokens, #[trigger] kinds[j]) && kind_lines(
                records,
                kinds[j],
            ).len() > 0,
    decreases kinds.len(),
{
    if kinds.len() > 0 {
        let head = kinds.drop_last();
        let last = kinds.len() - 1;
        lemma_kinds_shown(records, tokens, head);
        if exists|j: int|
            0 <= j < head.len() && selects(tokens, #[trigger] head[j]) && kind_lines(records, head[j]).len()
                > 0 {
            let j = choose|j: int|
                0 <= j < head.len() && selects(tokens, #[trigger] head[j]) && kind_lines(
                    records,
                    head[j],
                ).len() > 0;
            assert(kinds[j] == head[j]);
        }
        if selects(tokens, kinds.last()) && kind_lines(records, kinds.last()).len() > 0 {
            assert(kinds[last] == kinds.last());
        }
        if exists|j: int|
            0 <= j < kinds.len() && selects(tokens, #[trigger] kinds[j]) && kind_lines(
                records,
                kinds[j],
            ).len() > 0 {
            let j = choose|j: int|
                0 <= j < kinds.len() && selects(tokens, #[trigger] kinds[j]) && kind_lines(
                    records,
                    kinds[j],
                ).len() > 0;
            if j < last {
                assert(head[j] == kinds[j]);
            }
        }
    }
}

/// A file is shown exactly where it holds a record of a kind that the query
/// asks for.
pub proof fn lemma_file_shown_iff_match(file: FileInventoryView, tokens: Seq<Seq<char>>)
    ensures
        file_lines(file, tokens).len() > 0 <==> exists|i: int|
            0 <= i < file.records.len() && selects(tokens, (#[trigger] file.records[i]).kind),
{
    let records = file.records;
    lemma_kinds_shown(records, tokens, all_kinds());
    if file_lines(file, tokens).len() > 0 {
        let j = choose|j: int|
            0 <= j < all_kinds().len() && selects(tokens, #[trigger] all_kinds()[j]) && kind_lines(
                records,
                all_kinds()[j],
            ).len() > 0;
        lemma_kind_shown_iff_held(records, all_kinds()[j]);
        let i = choose|i: int| 0 <= i < records.len() && (#[trigger] records[i]).kind == all_kinds()[j];
        assert(selects(tokens, records[i].kind));
    }
    if exists|i: int| 0 <= i < records.len() && selects(tokens, (#[trigger] records[i]).kind) {
        let i = choose|i: int| 0 <= i < records.len() && selects(tokens, (#[trigger] records[i]).kind);
        let kind = records[i].kind;
        lemma_all_kinds_complete(kind);
        lemma_kind_shown_iff_held(records, kind);
        assert(all_kinds()[kind.position()] == kind);
    }
}

/// Appends `line` to `out`.
fn put_line(out: &mut Vec<Line>, line: Line)
    ensures
        line_views(final(out)@) == line_views(old(out)@) + seq![line@],
{
    out.push(line);
    assert(line_views(out@) =~= line_views(old(out)@) + seq![line@]);
}

/// Appends the lines of `record`.
fn put_record_lines(record: &DeclarationRecord, out: &mut Vec<Line>)
    ensures
        line_views(final(out)@) == line_views(old(out)@) + record_lines(record@),
{
    let ghost start = line_views(out@);
    put_line(out, Line::Record { name: record.name.clone(), line: record.line });
    match &record.fields {
        Some(fields) => {
            put_line(out, Line::FieldsHeading);
            let ghost entries = record@.fields->0;
            let ghost head = start + seq![LineView::Record { name: record@.name, line: record@.line }]
                + seq![LineView::FieldsHeading];
            let mut i: usize = 0;
            assert(line_views(out@) =~= head + field_lines(entries.subrange(0, 0)));
            while i < fields.len()
                invariant
                    i <= fields.len(),
                    entries == entry_views(fields@),
                    line_views(out@) == head + field_lines(entries.subrange(0, i as int)),
                decreases fields.len() - i,
            {
                put_line(out, Line::Field { name: fields[i].name.clone(), ty: fields[i].ty.clone() });
                assert(line_views(out@) =~= head + field_lines(entries.subrange(0, i + 1)));
                i += 1;
            }
            assert(entries.subrange(0, i as int) =~= entries);
            assert(line_views(out@) =~= start + record_lines(record@));
        },
        None => {
            assert(line_views(out@) =~= start + record_lines(record@));
        },
    }
}

/// Appends what is shown of `kind` for `file`.
fn put_kind_lines(file: &FileInventory, kind: DeclarationKind, out: &mut Vec<Line>)
    ensures
        line_views(final(out)@) == line_views(old(out)@) + kind_lines(file@.records, kind),
{
    let ghost start = line_views(out@);
    let listed = file.records_of_kind(kind);
    let ghost views = of_kind(file@.records, kind);
    assert(views.len() == listed@.len());
    if listed.len() == 0 {
        assert(line_views(out@) =~= start + kind_lines(file@.records, kind));
        return ;
    }
    put_line(out, Line::Kind { kind });
    let ghost head = start + seq![LineView::Kind { kind }];
    let mut i: usize = 0;
    assert(views.subrange(0, 0) =~= Seq::<RecordView>::empty());
    assert(line_views(out@) =~= head + records_lines(views.subrange(0, 0)));
    while i < listed.len()
        invariant
            i <= listed.len(),
            views.len() == listed@.len(),
            views == borrowed_views(listed@),
            line_views(out@) == head + records_lines(views.subrange(0, i as int)),
        decreases listed.len() - i,
    {
        let ghost before = records_lines(views.subrange(0, i as int));
        assert(views.subrange(0, i + 1).drop_last() =~= views.subrange(0, i as int));
        assert(views[i as int] == listed@[i as int]@);
        put_record_lines(listed[i], out);
        assert(line_views(out@) =~= head + (before + record_lines(views[i as int])));
        i += 1;
    }
    assert(views.subrange(0, i as int) =~= views);
    put_line(out, Line::Blank);
    assert(line_views(out@) =~= start + kind_lines(file@.records, kind));
}

/// What is shown of `file` below its path.
fn kinds_of_file(file: &FileInventory, query: &Query) -> (r: Vec<Line>)
    ensures
        line_views(r@) == kinds_lines(file@.records, query@, all_kinds()),
{
    let kinds = DeclarationKind::all();
    let mut out: Vec<Line> = Vec::new();
    let mut i: usize = 0;
    assert(kinds@.subrange(0, 0) =~= Seq::<DeclarationKind>::empty());
    assert(line_views(out@) =~= Seq::<LineView>::empty());
    while i < kinds.len()
        invariant
            i <= kinds.len(),
            kinds@ == all_kinds(),
            line_views(out@) == kinds_lines(file@.records, query@, kinds@.subrange(0, i as int)),
        decreases kinds.len() - i,
    {
        assert(kinds@.subrange(0, i + 1).drop_last() =~= kinds@.subrange(0, i as int));
        if query.selects(kinds[i]) {
            put_kind_lines(file, kinds[i], &mut out);
        }
        i += 1;
    }
    assert(kinds@.subrange(0, i as int) =~= kinds@);
    out
}

/// Lays out what `query` asks for of `inventory`.
pub fn present(inventory: &Inventory, query: &Query) -> (r: Vec<Line>)
    ensures
        line_views(r@) == presentation(inventory@, query@),
{
    let mut out: Vec<Line> = Vec::new();
    let count: usize = inventory.len();
    let mut i: usize = 0;
    assert(inventory@.subrange(0, 0) =~= Seq::<FileInventoryView>::empty());
    assert(line_views(out@) =~= Seq::<LineView>::empty());
    while i < count
        invariant
            i <= count,
            count == inventory@.len(),
            line_views(out@) == presentation(inventory@.subrange(0, i as int), query@),
        decreases count - i,
    {
        let ghost before = line_views(out@);
        assert(inventory@.subrange(0, i + 1).drop_last() =~= inventory@.subrange(0, i as int));
        let file = inventory.file(i);
        let mut body = kinds_of_file(file, query);
        if body.len() > 0 {
            let ghost shown = line_views(body@);
            put_line(&mut out, Line::File { path: String::from_str(file.path()) });
            let ghost headed = out@;
            let ghost below = body@;
            out.append(&mut body);
            assert(out@ == headed + below);
            assert(line_views(out@) =~= line_views(headed) + line_views(below));
            assert(line_views(out@) =~= before + (seq![LineView::File { path: file@.path }] + shown));
        } else {
            assert(line_views(out@) =~= before + file_lines(file@, query@));
        }
        i += 1;
    }
    assert(inventory@.subrange(0, i as int) =~= inventory@);
    out
}

} // verus!
