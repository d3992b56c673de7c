//! A scan: the files parsed so far with their records, and a diagnostic for
//! each file that did not parse.
//!
//! A file that does not parse is left out of the inventory and noted; the
//! scan goes on with the next file.

use vstd::prelude::*;
use vstd::string::*;
use crate::extract::{extract, records_of_all};
use crate::inventory::{
    FileInventoryView, Inventory, distinct_paths, has_path, lemma_with_file, position_of,
    with_file,
};
use crate::parse::{ParseFailure, parse_source, parse_view, parsed};
use crate::syntax::{Declaration, DeclarationView, tree_view};
use crate::text::{ends_with, has_suffix};

verus! {

/// The note that a file was left out: its path and the parser's message.
#[derive(Debug, PartialEq, Eq)]
pub struct Diagnostic {
    pub path: String,
    pub message: String,
}

/// A [`Diagnostic`] as plain sequences.
#[verifier::ext_equal]
pub struct DiagnosticView {
    pub path: Seq<char>,
    pub message: Seq<char>,
}

impl View for Diagnostic {
    type V = DiagnosticView;

    open spec fn view(&self) -> DiagnosticView {
        DiagnosticView { path: self.path@, message: self.message@ }
    }
}

/// The views of `diagnostics`, in order.
pub open spec fn diagnostic_views(diagnostics: Seq<Diagnostic>) -> Seq<DiagnosticView> {
    Seq::new(diagnostics.len(), |i: int| diagnostics[i]@)
}

/// The line that reports `diagnostic`.
pub open spec fn report_line(diagnostic: DiagnosticView) -> Seq<char> {
    "Failed to parse file "@ + diagnostic.path + ": "@ + diagnostic.message
}

impl Diagnostic {
    /// The line that reports the diagnostic.
    pub fn to_line(&self) -> (r: String)
        ensures
            r@ == report_line(self@),
    {
        let mut line = String::from_str("Failed to parse file ");
        line.append(self.path.as_str());
        line.append(": ");
        line.append(self.message.as_str());
        line
    }
}

/// Whether a file of the name `name` is taken for a Rust source file: the
/// name ends in `.rs` and has something before that.
pub open spec fn names_rust_source(name: Seq<char>) -> bool {
    name.len() > 3 && has_suffix(name, ".rs"@)
}

/// Whether a file of the name `name` is taken for a Rust source file.
/// `name` is the last component of the file's path.
pub fn is_rust_source(name: &str) -> (r: bool)
    ensures
        r == names_rust_source(name@),
{
    name.unicode_len() > 3 && ends_with(name, ".rs")
}

/// What came of parsing one file.
pub type Outcome = Result<Vec<Declaration>, ParseFailure>;

/// An [`Outcome`] as plain values: the tree, or the parser's message.
#[verifier::ext_equal]
pub enum OutcomeView {
    Parsed { tree: Seq<DeclarationView> },
    Failed { message: Seq<char> },
}

/// The view of `outcome`.
pub open spec fn outcome_view(outcome: Outcome) -> OutcomeView {
    match outcome {
        Ok(tree) => OutcomeView::Parsed { tree: tree_view(tree@) },
        Err(failure) => OutcomeView::Failed { message: failure@ },
    }
}

/// The outcome that a parse gives: a tree or a message.
pub open spec fn outcome_named(result: Result<Seq<DeclarationView>, Seq<char>>) -> OutcomeView {
    match result {
        Ok(tree) => OutcomeView::Parsed { tree },
        Err(message) => OutcomeView::Failed { message },
    }
}

/// The outcome of parsing `text`.
pub open spec fn outcome_of(text: Seq<char>) -> OutcomeView {
    outcome_named(parsed(text))
}

/// The outcomes of parsing the texts of `files`, in order.
pub open spec fn outcomes_of(files: Seq<SourceFile>) -> Seq<OutcomeView> {
    Seq::new(files.len(), |i: int| outcome_of(files[i]@.text))
}

/// A scan as plain values.
#[verifier::ext_equal]
pub struct ScanView {
    pub files: Seq<FileInventoryView>,
    pub diagnostics: Seq<DiagnosticView>,
}

/// The scan `before` once the file `path` has been parsed with `outcome`: a
/// tree puts the file in with the records of the tree, a failure adds a
/// diagnostic and leaves the files as they were.
pub open spec fn after_outcome(before: ScanView, path: Seq<char>, outcome: OutcomeView) -> ScanView {
    match outcome {
        OutcomeView::Parsed { tree } => ScanView {
            files: with_file(before.files, FileInventoryView { path, records: records_of_all(path, tree) }),
            diagnostics: before.diagnostics,
        },
        OutcomeView::Failed { message } => ScanView {
            files: before.files,
            diagnostics: before.diagnostics.push(DiagnosticView { path, message }),
        },
    }
}

/// The scan `start` once the files `paths` have been parsed, in order, with
/// `outcomes`.
pub open spec fn after_outcomes(start: ScanView, paths: Seq<Seq<char>>, outcomes: Seq<OutcomeView>) -> ScanView
    recommends
        paths.len() == outcomes.len(),
    decreases paths.len(),
{
    if paths.len() == 0 || outcomes.len() == 0 {
        start
    } else {
        after_outcome(
            after_outcomes(start, paths.drop_last(), outcomes.drop_last()),
            paths.last(),
            outcomes.last(),
        )
    }
}

/// The scan before any file.
pub open spec fn empty_scan() -> ScanView {
    ScanView { files: Seq::empty(), diagnostics: Seq::empty() }
}

/// A file that does not parse leaves no trace among the files: the scan
/// holds the files that it would hold had that file not been there, those
/// after it included, and one diagnostic more.
pub proof fn lemma_failure_leaves_no_trace(
    start: ScanView,
    paths: Seq<Seq<char>>,
    outcomes: Seq<OutcomeView>,
    i: int,
)
    requires
        paths.len() == outcomes.len(),
        0 <= i < paths.len(),
        outcomes[i] is Failed,
    ensures
        after_outcomes(start, paths, outcomes).files == after_outcomes(
            start,
            paths.remove(i),
            outcomes.remove(i),
        ).files,
        after_outcomes(start, paths, outcomes).diagnostics.len() == after_outcomes(
            start,
            paths.remove(i),
            outcomes.remove(i),
        ).diagnostics.len() + 1,
    decreases paths.len(),
{
    if i == paths.len() - 1 {
        assert(paths.remove(i) =~= paths.drop_last());
        assert(outcomes.remove(i) =~= outcomes.drop_last());
    } else {
        lemma_failure_leaves_no_trace(start, paths.drop_last(), outcomes.drop_last(), i);
        assert(paths.remove(i).drop_last() =~= paths.drop_last().remove(i));
        assert(outcomes.remove(i).drop_last() =~= outcomes.drop_last().remove(i));
        assert(paths.remove(i).last() == paths.last());
        assert(outcomes.remove(i).last() == outcomes.last());
    }
}

/// Putting a file in adds its path to those that are held and takes none
/// away.
pub proof fn lemma_with_file_paths(files: Seq<FileInventoryView>, file: FileInventoryView, path: Seq<char>)
    ensures
        has_path(with_file(files, file), path) <==> has_path(files, path) || path == file.path,
{
    let after = with_file(files, file);
    if has_path(files, file.path) {
        let at = position_of(files, file.path);
        assert(after[at].path == file.path);
        if has_path(files, path) {
            let k = position_of(files, path);
            assert(after[k].path == path);
        }
        if has_path(after, path) {
            let k = position_of(after, path);
            assert(files[k].path == path);
        }
    } else {
        assert(after[files.len() as int] == file);
        if has_path(files, path) {
            let k = position_of(files, path);
            assert(after[k].path == path);
        }
        if has_path(after, path) && path != file.path {
            let k = position_of(after, path);
            assert(files[k].path == path);
        }
    }
}

/// A scan holds a file for each path that it held at the start or that
/// parsed, and for no other: a file that failed, and did not parse at
/// another time, is absent. No two of its files share a path.
pub proof fn lemma_scanned_paths(
    start: ScanView,
    paths: Seq<Seq<char>>,
    outcomes: Seq<OutcomeView>,
    path: Seq<char>,
)
    requires
        paths.len() == outcomes.len(),
    ensures
        has_path(after_outcomes(start, paths, outcomes).files, path) <==> has_path(start.files, path)
            || exists|i: int| 0 <= i < paths.len() && paths[i] == path && outcomes[i] is Parsed,
        distinct_paths(start.files) ==> distinct_paths(after_outcomes(start, paths, outcomes).files),
    decreases paths.len(),
{
    if paths.len() > 0 {
        let earlier = after_outcomes(start, paths.drop_last(), outcomes.drop_last());
        lemma_scanned_paths(start, paths.drop_last(), outcomes.drop_last(), path);
        let last = paths.len() - 1;
        match outcomes.last() {
            OutcomeView::Parsed { tree } => {
                let file = FileInventoryView {
                    path: paths.last(),
                    records: records_of_all(paths.last(), tree),
                };
                lemma_with_file_paths(earlier.files, file, path);
                if distinct_paths(start.files) {
                    lemma_with_file(earlier.files, file, path);
                }
                if path == paths.last() {
                    assert(paths[last] == path && outcomes[last] is Parsed);
                }
            },
            OutcomeView::Failed { message } => {},
        }
        if exists|i: int| 0 <= i < last && paths.drop_last()[i] == path && outcomes.drop_last()[i] is Parsed {
            let i = choose|i: int|
                0 <= i < last && paths.drop_last()[i] == path && outcomes.drop_last()[i] is Parsed;
            assert(paths[i] == path && outcomes[i] is Parsed);
        }
        if exists|i: int| 0 <= i < paths.len() && paths[i] == path && outcomes[i] is Parsed {
            let i = choose|i: int| 0 <= i < paths.len() && paths[i] == path && outcomes[i] is Parsed;
            if i < last {
                assert(paths.drop_last()[i] == path && outcomes.drop_last()[i] is Parsed);
            }
        }
    }
}

/// The files that parsed, in order, each with the records of its tree.
pub open spec fn parsed_files(paths: Seq<Seq<char>>, outcomes: Seq<OutcomeView>) -> Seq<FileInventoryView>
    recommends
        paths.len() == outcomes.len(),
    decreases paths.len(),
{
    if paths.len() == 0 || outcomes.len() == 0 {
        Seq::empty()
    } else {
        match outcomes.last() {
            OutcomeView::Parsed { tree } => parsed_files(paths.drop_last(), outcomes.drop_last()).push(
                FileInventoryView { path: paths.last(), records: records_of_all(paths.last(), tree) },
            ),
            OutcomeView::Failed { message } => parsed_files(paths.drop_last(), outcomes.drop_last()),
        }
    }
}

/// The diagnostics of the files that failed, in order.
pub open spec fn failures(paths: Seq<Seq<char>>, outcomes: Seq<OutcomeView>) -> Seq<DiagnosticView>
    recommends
        paths.len() == outcomes.len(),
    decreases paths.len(),
{
    if paths.len() == 0 || outcomes.len() == 0 {
        Seq::empty()
    } else {
        match outcomes.last() {
            OutcomeView::Parsed { tree } => failures(paths.drop_last(), outcomes.drop_last()),
            OutcomeView::Failed { message } => failures(paths.drop_last(), outcomes.drop_last()).push(
                DiagnosticView { path: paths.last(), message },
            ),
        }
    }
}

/// Whether no two of `paths` are the same.
pub open spec fn all_different(paths: Seq<Seq<char>>) -> bool {
    forall|i: int, j: int| 0 <= i < j < paths.len() ==> paths[i] != paths[j]
}

/// A scan of files with different paths, from an empty scan, holds one file
/// for each file that parsed, in order, and no other; and whatever the
/// paths, it holds one diagnostic for each file that failed, in order.
pub proof fn lemma_scan_in_full(paths: Seq<Seq<char>>, outcomes: Seq<OutcomeView>)
    requires
        paths.len() == outcomes.len(),
    ensures
        after_outcomes(empty_scan(), paths, outcomes).diagnostics == failures(paths, outcomes),
        all_different(paths) ==> after_outcomes(empty_scan(), paths, outcomes).files == parsed_files(
            paths,
            outcomes,
        ),
    decreases paths.len(),
{
    if paths.len() > 0 {
        let head = paths.drop_last();
        let earlier = after_outcomes(empty_scan(), head, outcomes.drop_last());
        lemma_scan_in_full(head, outcomes.drop_last());
        if all_different(paths) {
            assert(all_different(head)) by {
                assert forall|i: int, j: int| 0 <= i < j < head.len() implies head[i] != head[j] by {
                    assert(paths[i] != paths[j]);
                }
            }
            lemma_scanned_paths(empty_scan(), head, outcomes.drop_last(), paths.last());
            assert(!has_path(empty_scan().files, paths.last()));
            assert(!has_path(earlier.files, paths.last())) by {
                assert forall|i: int| 0 <= i < head.len() implies head[i] != paths.last() by {
                    assert(paths[i] != paths[paths.len() - 1]);
                }
            }
        }
    }
}

/// A file with its text, as a scan takes it.
#[derive(Debug, PartialEq, Eq)]
pub struct SourceFile {
    pub path: String,
    pub text: String,
}

/// A [`SourceFile`] as plain sequences.
#[verifier::ext_equal]
pub struct SourceFileView {
    pub path: Seq<char>,
    pub text: Seq<char>,
}

impl View for SourceFile {
    type V = SourceFileView;

    open spec fn view(&self) -> SourceFileView {
        SourceFileView { path: self.path@, text: self.text@ }
    }
}

/// The paths of `files`, in order.
pub open spec fn paths_of(files: Seq<SourceFile>) -> Seq<Seq<char>> {
    Seq::new(files.len(), |i: int| files[i]@.path)
}

/// The files parsed so far and the diagnostics of those that did not parse.
pub struct Scan {
    pub inventory: Inventory,
    pub diagnostics: Vec<Diagnostic>,
}

impl View for Scan {
    type V = ScanView;

    open spec fn view(&self) -> ScanView {
        ScanView { files: self.inventory@, diagnostics: diagnostic_views(self.diagnostics@) }
    }
}

impl Scan {
    /// A scan that has seen no file.
    pub fn new() -> (r: Scan)
        ensures
            r@ == empty_scan(),
    {
        let scan = Scan { inventory: Inventory::new(), diagnostics: Vec::new() };
        assert(scan@ =~= empty_scan());
        scan
    }

    /// Takes in what came of parsing the file `path`.
    pub fn record_outcome(&mut self, path: &str, outcome: Outcome)
        ensures
            final(self)@ == after_outcome(old(self)@, path@, outcome_view(outcome)),
    {
        match outcome {
            Ok(tree) => {
                let file = extract(path, &tree);
                assert(file@ =~= FileInventoryView {
                    path: path@,
                    records: records_of_all(path@, tree_view(tree@)),
                });
                self.inventory.insert(file);
                assert(self@ =~= after_outcome(old(self)@, path@, outcome_view(outcome)));
            },
            Err(failure) => {
                let ghost message = failure.message@;
                self.diagnostics.push(
                    Diagnostic { path: String::from_str(path), message: failure.message },
                );
                assert(diagnostic_views(self.diagnostics@) =~= diagnostic_views(
                    old(self).diagnostics@,
                ).push(DiagnosticView { path: path@, message }));
                assert(self@ =~= after_outcome(old(self)@, path@, outcome_view(outcome)));
            },
        }
    }

    /// Parses `text`, the content of the file `path`, and takes in what came
    /// of it: the records of its tree where it is Rust, a diagnostic where
    /// it is not.
    pub fn scan_source(&mut self, path: &str, text: &str)
        ensures
            final(self)@ == after_outcome(old(self)@, path@, outcome_of(text@)),
    {
        let outcome = parse_source(text);
        assert(outcome_view(outcome) == outcome_named(parse_view(outcome)));
        self.record_outcome(path, outcome);
    }
}

/// Scans `files` in order, from an empty scan. Every file is parsed,
/// whatever came of the files before it.
pub fn scan_sources(files: &Vec<SourceFile>) -> (r: Scan)
    ensures
        r@ == after_outcomes(empty_scan(), paths_of(files@), outcomes_of(files@)),
{
    let mut scan = Scan::new();
    let mut i: usize = 0;
    let ghost paths = paths_of(files@);
    let ghost outcomes = outcomes_of(files@);
    while i < files.len()
        invariant
            i <= files.len(),
            paths == paths_of(files@),
            outcomes == outcomes_of(files@),
            scan@ == after_outcomes(
                empty_scan(),
                paths.subrange(0, i as int),
                outcomes.subrange(0, i as int),
            ),
        decreases files.len() - i,
    {
        assert(paths.subrange(0, i + 1).drop_last() =~= paths.subrange(0, i as int));
        assert(outcomes.subrange(0, i + 1).drop_last() =~= outcomes.subrange(0, i as int));
        scan.scan_source(files[i].path.as_str(), files[i].text.as_str());
        i += 1;
    }
    assert(paths.subrange(0, i as int) =~= paths);
    assert(outcomes.subrange(0, i as int) =~= outcomes);
    scan
}

} // verus!
