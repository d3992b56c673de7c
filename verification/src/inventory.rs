//! The result of a scan: for each file its records, and all files together.

use vstd::prelude::*;
use vstd::string::*;
use crate::record::{
    DeclarationKind, DeclarationRecord, RecordView, borrowed_views, of_kind, record_views,
};

verus! {

/// The records of one file, in the order in which the walk of its tree met
/// the declarations. Every record names the file in its `file`.
/// [`FileInventory::records_of_kind`] gives the records by kind: each under
/// its own kind and under no other.
pub struct FileInventory {
    path: String,
    records: Vec<DeclarationRecord>,
}

/// A [`FileInventory`] as plain values.
#[verifier::ext_equal]
pub struct FileInventoryView {
    pub path: Seq<char>,
    pub records: Seq<RecordView>,
}

/// Whether each of `records` names `path` as its file.
pub open spec fn all_from(records: Seq<RecordView>, path: Seq<char>) -> bool {
    forall|i: int| 0 <= i < records.len() ==> (#[trigger] records[i]).file == path
}

impl View for FileInventory {
    type V = FileInventoryView;

    closed spec fn view(&self) -> FileInventoryView {
        FileInventoryView { path: self.path@, records: record_views(self.records@) }
    }
}

impl FileInventory {
    #[verifier::type_invariant]
    spec fn consistent(self) -> bool {
        all_from(record_views(self.records@), self.path@)
    }

    /// The inventory of the file `path` that holds `records`.
    pub(crate) fn from_records(path: &str, records: Vec<DeclarationRecord>) -> (r: FileInventory)
        requires
            all_from(record_views(records@), path@),
        ensures
            r@.path == path@,
            r@.records == record_views(records@),
    {
        FileInventory { path: String::from_str(path), records }
    }

    /// The path of the file.
    pub fn path(&self) -> (r: &str)
        ensures
            r@ == self@.path,
    {
        self.path.as_str()
    }

    /// The file's records, each of which names the file.
    pub fn records(&self) -> (r: &Vec<DeclarationRecord>)
        ensures
            record_views(r@) == self@.records,
            all_from(self@.records, self@.path),
    {
        proof {
            use_type_invariant(self);
        }
        &self.records
    }

    /// The number of records.
    pub fn len(&self) -> (r: usize)
        ensures
            r == self@.records.len(),
    {
        self.records.len()
    }

    /// Whether the file has no record.
    pub fn is_empty(&self) -> (r: bool)
        ensures
            r == (self@.records.len() == 0),
    {
        self.records.len() == 0
    }

    /// The file's records of `kind`, in order.
    pub fn records_of_kind(&self, kind: DeclarationKind) -> (r: Vec<&DeclarationRecord>)
        ensures
            borrowed_views(r@) == of_kind(self@.records, kind),
    {
        let mut found: Vec<&DeclarationRecord> = Vec::new();
        let mut i: usize = 0;
        assert(record_views(self.records@).subrange(0, 0) =~= Seq::<RecordView>::empty());
        assert(borrowed_views(found@) =~= Seq::<RecordView>::empty());
        while i < self.records.len()
            invariant
                i <= self.records.len(),
                borrowed_views(found@) == of_kind(
                    record_views(self.records@).subrange(0, i as int),
                    kind,
                ),
            decreases self.records.len() - i,
        {
            let ghost before = borrowed_views(found@);
            let ghost views = record_views(self.records@);
            assert(views.subrange(0, i + 1).drop_last() =~= views.subrange(0, i as int));
            if self.records[i].kind == kind {
                found.push(&self.records[i]);
                assert(borrowed_views(found@) =~= before.push(views[i as int]));
            }
            i += 1;
        }
        assert(record_views(self.records@).subrange(0, i as int) =~= record_views(self.records@));
        found
    }
}

/// Whether no two of `files` share a path.
pub open spec fn distinct_paths(files: Seq<FileInventoryView>) -> bool {
    forall|i: int, j: int|
        0 <= i < files.len() && 0 <= j < files.len() && i != j ==> (#[trigger] files[i]).path != (
        #[trigger] files[j]).path
}

/// Whether `files` holds a file with the path `path`.
pub open spec fn has_path(files: Seq<FileInventoryView>, path: Seq<char>) -> bool {
    exists|i: int| 0 <= i < files.len() && (#[trigger] files[i]).path == path
}

/// A position at which `files` holds the path `path`, where there is one.
pub open spec fn position_of(files: Seq<FileInventoryView>, path: Seq<char>) -> int {
    choose|i: int| 0 <= i < files.len() && (#[trigger] files[i]).path == path
}

/// The records that `files` holds for `path`.
pub open spec fn lookup(files: Seq<FileInventoryView>, path: Seq<char>) -> Option<Seq<RecordView>> {
    if has_path(files, path) {
        Some(files[position_of(files, path)].records)
    } else {
        None
    }
}

/// `files` once `file` has been put in: in the place of the file with the
/// same path where there is one, at the end where there is none.
pub open spec fn with_file(files: Seq<FileInventoryView>, file: FileInventoryView) -> Seq<
    FileInventoryView,
> {
    if has_path(files, file.path) {
        files.update(position_of(files, file.path), file)
    } else {
        files.push(file)
    }
}

/// Putting a file in keeps the paths distinct, makes the file the one found
/// under its path, and leaves what is found under every other path as it
/// was.
pub proof fn lemma_with_file(files: Seq<FileInventoryView>, file: FileInventoryView, other: Seq<char>)
    requires
        distinct_paths(files),
    ensures
        distinct_paths(with_file(files, file)),
        lookup(with_file(files, file), file.path) == Some(file.records),
        other != file.path ==> lookup(with_file(files, file), other) == lookup(files, other),
        has_path(files, file.path) ==> with_file(files, file).len() == files.len(),
        !has_path(files, file.path) ==> with_file(files, file).len() == files.len() + 1,
{
    let after = with_file(files, file);
    let at = if has_path(files, file.path) {
        position_of(files, file.path)
    } else {
        files.len() as int
    };
    assert(after[at] == file);
    assert forall|i: int| 0 <= i < after.len() && i != at implies after[i] == files[i] && (
    #[trigger] after[i]).path != file.path by {
        if has_path(files, file.path) {
            assert(files[i].path != files[at].path);
        }
    }
    assert(has_path(after, file.path));
    assert(position_of(after, file.path) == at);
    if other != file.path {
        if has_path(files, other) {
            let k = position_of(files, other);
            assert(after[k].path == other);
            assert(has_path(after, other));
            let m = position_of(after, other);
            assert(files[m].path == other);
            assert(m == k);
        } else {
            if has_path(after, other) {
                let m = position_of(after, other);
                assert(files[m].path == other);
            }
        }
    }
}

/// The records of all scanned files, by path. No two files share a path;
/// the files stand in the order in which their paths were first put in.
pub struct Inventory {
    files: Vec<FileInventory>,
}

impl View for Inventory {
    type V = Seq<FileInventoryView>;

    closed spec fn view(&self) -> Seq<FileInventoryView> {
        Seq::new(self.files@.len(), |i: int| self.files@[i]@)
    }
}

impl Inventory {
    #[verifier::type_invariant]
    spec fn consistent(self) -> bool {
        distinct_paths(self@)
    }

    /// An inventory without files.
    pub fn new() -> (r: Inventory)
        ensures
            r@ == Seq::<FileInventoryView>::empty(),
    {
        let files: Vec<FileInventory> = Vec::new();
        assert(Seq::new(files@.len(), |i: int| files@[i]@) =~= Seq::<FileInventoryView>::empty());
        Inventory { files }
    }

    /// The number of files, no two of which share a path.
    pub fn len(&self) -> (r: usize)
        ensures
            r == self@.len(),
            distinct_paths(self@),
    {
        proof {
            use_type_invariant(self);
        }
        self.files.len()
    }

    /// The file at position `i`.
    pub fn file(&self, i: usize) -> (r: &FileInventory)
        requires
            i < self@.len(),
        ensures
            r@ == self@[i as int],
    {
        &self.files[i]
    }

    /// The position of the file with the path `path`.
    pub fn position(&self, path: &str) -> (r: Option<usize>)
        ensures
            r is Some <==> has_path(self@, path@),
            r is Some ==> r->0 < self@.len() && self@[r->0 as int].path == path@,
            r is Some ==> position_of(self@, path@) == r->0,
    {
        proof {
            use_type_invariant(self);
        }
        let wanted = String::from_str(path);
        let mut i: usize = 0;
        while i < self.files.len()
            invariant
                i <= self.files.len(),
                wanted@ == path@,
                distinct_paths(self@),
                forall|k: int| 0 <= k < i ==> (#[trigger] self@[k]).path != path@,
            decreases self.files.len() - i,
        {
            if self.files[i].path == wanted {
                assert(self@[i as int].path == path@);
                assert(self@[position_of(self@, path@)].path == path@);
                return Some(i);
            }
            i += 1;
        }
        None
    }

    /// The file with the path `path`.
    pub fn find(&self, path: &str) -> (r: Option<&FileInventory>)
        ensures
            r is Some <==> has_path(self@, path@),
            r is Some ==> r->0@.path == path@,
            r is Some ==> lookup(self@, path@) == Some(r->0@.records),
            r is None ==> lookup(self@, path@) is None,
    {
        match self.position(path) {
            Some(i) => Some(&self.files[i]),
            None => None,
        }
    }

    /// Puts `file` in, in the place of an earlier file with the same path
    /// where there is one.
    pub fn insert(&mut self, file: FileInventory)
        ensures
            final(self)@ == with_file(old(self)@, file@),
            distinct_paths(final(self)@),
    {
        proof {
            use_type_invariant(&*self);
            lemma_with_file(self@, file@, file@.path);
        }
        let ghost before = self@;
        let place = self.position(file.path());
        let mut files: Vec<FileInventory> = Vec::new();
        assert(Seq::new(files@.len(), |i: int| files@[i]@) =~= Seq::<FileInventoryView>::empty());
        core::mem::swap(&mut self.files, &mut files);
        match place {
            Some(i) => {
                files.set(i, file);
                assert(Seq::new(files@.len(), |i: int| files@[i]@) =~= before.update(i as int, file@));
            },
            None => {
                files.push(file);
                assert(Seq::new(files@.len(), |i: int| files@[i]@) =~= before.push(file@));
            },
        }
        core::mem::swap(&mut self.files, &mut files);
    }
}

} // verus!
