use codebase_scanner::extract::extract;
use codebase_scanner::inventory::Inventory;
use codebase_scanner::parse::{parse_source, ParseFailure};
use codebase_scanner::record::DeclarationKind;
use codebase_scanner::scan::{is_rust_source, scan_sources, Diagnostic, Scan, SourceFile};

fn source(path: &str, text: &str) -> SourceFile {
    SourceFile { path: path.to_string(), text: text.to_string() }
}

#[test]
fn a_file_that_fails_to_parse_is_left_out_and_the_scan_goes_on() {
    let files = vec![
        source("src/a.rs", "pub fn a() {}"),
        source("src/broken.rs", "pub fn ( {"),
        source("src/b.rs", "pub struct B;"),
    ];
    let scan = scan_sources(&files);
    assert_eq!(scan.inventory.len(), 2);
    assert_eq!(scan.inventory.file(0).path(), "src/a.rs");
    assert_eq!(scan.inventory.file(1).path(), "src/b.rs");
    assert_eq!(scan.inventory.file(1).records()[0].name, "B");
    assert!(scan.inventory.find("src/broken.rs").is_none());
    assert_eq!(scan.diagnostics.len(), 1);
    assert_eq!(scan.diagnostics[0].path, "src/broken.rs");
    assert!(!scan.diagnostics[0].message.is_empty());
}

#[test]
fn a_failure_changes_nothing_but_the_diagnostics() {
    let with_failure = scan_sources(&vec![
        source("a.rs", "pub fn a() {}"),
        source("bad.rs", "}"),
        source("b.rs", "pub fn b() {}"),
    ]);
    let without = scan_sources(&vec![source("a.rs", "pub fn a() {}"), source("b.rs", "pub fn b() {}")]);
    assert_eq!(with_failure.inventory.len(), without.inventory.len());
    for i in 0..without.inventory.len() {
        assert_eq!(with_failure.inventory.file(i).path(), without.inventory.file(i).path());
        assert_eq!(with_failure.inventory.file(i).records(), without.inventory.file(i).records());
    }
    assert_eq!(with_failure.diagnostics.len(), without.diagnostics.len() + 1);
}

#[test]
fn a_file_without_public_declarations_is_held_with_no_record() {
    let scan = scan_sources(&vec![source("quiet.rs", "fn private() {}")]);
    assert_eq!(scan.inventory.len(), 1);
    assert!(scan.inventory.file(0).is_empty());
    assert!(scan.inventory.find("quiet.rs").is_some());
}

#[test]
fn files_with_the_same_declarations_stay_apart() {
    let scan = scan_sources(&vec![source("x.rs", "pub fn same() {}"), source("y.rs", "pub fn same() {}")]);
    assert_eq!(scan.inventory.len(), 2);
    assert_eq!(scan.inventory.find("x.rs").unwrap().records()[0].file, "x.rs");
    assert_eq!(scan.inventory.find("y.rs").unwrap().records()[0].file, "y.rs");
}

#[test]
fn recording_an_outcome_by_hand() {
    let mut scan = Scan::new();
    assert_eq!(scan.inventory.len(), 0);
    scan.record_outcome("ok.rs", parse_source("pub fn f() {}"));
    scan.record_outcome("bad.rs", Err(ParseFailure { message: "unexpected token".to_string() }));
    assert_eq!(scan.inventory.len(), 1);
    assert_eq!(
        scan.diagnostics,
        vec![Diagnostic { path: "bad.rs".to_string(), message: "unexpected token".to_string() }]
    );
    assert_eq!(scan.diagnostics[0].to_line(), "Failed to parse file bad.rs: unexpected token");
}

#[test]
fn scanning_one_source_at_a_time() {
    let mut scan = Scan::new();
    scan.scan_source("one.rs", "pub fn one() {}");
    scan.scan_source("two.rs", "pub fn two( {}");
    scan.scan_source("three.rs", "pub fn three() {}");
    assert_eq!(scan.inventory.len(), 2);
    assert_eq!(scan.inventory.file(1).path(), "three.rs");
    assert_eq!(scan.diagnostics.len(), 1);
    assert_eq!(scan.diagnostics[0].path, "two.rs");
}

#[test]
fn a_path_scanned_again_replaces_what_was_held() {
    let mut scan = Scan::new();
    scan.scan_source("a.rs", "pub fn old() {}");
    scan.scan_source("b.rs", "pub fn other() {}");
    scan.scan_source("a.rs", "pub struct New;");
    assert_eq!(scan.inventory.len(), 2);
    assert_eq!(scan.inventory.file(0).path(), "a.rs");
    assert_eq!(scan.inventory.file(0).len(), 1);
    assert_eq!(scan.inventory.file(0).records()[0].kind, DeclarationKind::Struct);
    assert_eq!(scan.inventory.file(1).path(), "b.rs");
}

#[test]
fn inventory_insert_find_and_position() {
    let mut inventory = Inventory::new();
    assert_eq!(inventory.len(), 0);
    assert!(inventory.find("a.rs").is_none());
    assert_eq!(inventory.position("a.rs"), None);
    inventory.insert(extract("a.rs", &parse_source("pub fn a() {}").unwrap()));
    inventory.insert(extract("b.rs", &parse_source("pub fn b() {}").unwrap()));
    assert_eq!(inventory.len(), 2);
    assert_eq!(inventory.position("a.rs"), Some(0));
    assert_eq!(inventory.position("b.rs"), Some(1));
    assert_eq!(inventory.position("c.rs"), None);
    assert_eq!(inventory.find("b.rs").unwrap().records()[0].name, "b");
    inventory.insert(extract("a.rs", &parse_source("").unwrap()));
    assert_eq!(inventory.len(), 2);
    assert!(inventory.find("a.rs").unwrap().is_empty());
}

#[test]
fn which_file_names_are_rust_sources() {
    assert!(is_rust_source("main.rs"));
    assert!(is_rust_source("a.rs"));
    assert!(is_rust_source("archive.tar.rs"));
    assert!(is_rust_source("..rs"));
    assert!(!is_rust_source(".rs"));
    assert!(!is_rust_source("rs"));
    assert!(!is_rust_source("main.rs.bak"));
    assert!(!is_rust_source("main.RS"));
    assert!(!is_rust_source("mainrs"));
    assert!(!is_rust_source(""));
    assert!(is_rust_source("é.rs"));
}
