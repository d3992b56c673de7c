use codebase_scanner::present::{present, Line};
use codebase_scanner::query::Query;
use codebase_scanner::record::DeclarationKind;
use codebase_scanner::scan::{scan_sources, Scan, SourceFile};

fn scanned() -> Scan {
    scan_sources(&vec![
        SourceFile {
            path: "src/shapes.rs".to_string(),
            text: "pub struct Point { pub x: i32, y: i32 }\npub fn origin() -> Point { Point { x: 0, y: 0 } }\npub struct Empty;\n".to_string(),
        },
        SourceFile { path: "src/private.rs".to_string(), text: "fn hidden() {}".to_string() },
        SourceFile { path: "src/util.rs".to_string(), text: "pub use std::fmt;\npub fn help() {}\n".to_string() },
    ])
}

fn file(path: &str) -> Line {
    Line::File { path: path.to_string() }
}

fn kind(kind: DeclarationKind) -> Line {
    Line::Kind { kind }
}

fn record(name: &str, line: Option<usize>) -> Line {
    Line::Record { name: name.to_string(), line }
}

fn field(name: &str, ty: &str) -> Line {
    Line::Field { name: name.to_string(), ty: ty.to_string() }
}

#[test]
fn everything_is_shown_for_the_catch_all() {
    let scan = scanned();
    let lines = present(&scan.inventory, &Query::everything());
    assert_eq!(
        lines,
        vec![
            file("src/shapes.rs"),
            kind(DeclarationKind::Function),
            record("origin", Some(2)),
            Line::Blank,
            kind(DeclarationKind::Struct),
            record("Point", Some(1)),
            Line::FieldsHeading,
            field("x", "i32"),
            field("y", "i32"),
            record("Empty", Some(3)),
            Line::FieldsHeading,
            Line::Blank,
            file("src/util.rs"),
            kind(DeclarationKind::Function),
            record("help", Some(2)),
            Line::Blank,
            kind(DeclarationKind::Use),
            record("std::fmt", None),
            Line::Blank,
        ]
    );
}

#[test]
fn only_files_with_a_match_are_shown() {
    let scan = scanned();
    let lines = present(&scan.inventory, &Query::parse("use"));
    assert_eq!(
        lines,
        vec![file("src/util.rs"), kind(DeclarationKind::Use), record("std::fmt", None), Line::Blank]
    );
}

#[test]
fn kinds_come_in_listing_order_whatever_the_order_of_the_tokens() {
    let scan = scanned();
    let lines = present(&scan.inventory, &Query::parse("use,func"));
    assert_eq!(
        lines,
        vec![
            file("src/shapes.rs"),
            kind(DeclarationKind::Function),
            record("origin", Some(2)),
            Line::Blank,
            file("src/util.rs"),
            kind(DeclarationKind::Function),
            record("help", Some(2)),
            Line::Blank,
            kind(DeclarationKind::Use),
            record("std::fmt", None),
            Line::Blank,
        ]
    );
}

#[test]
fn nothing_is_shown_where_nothing_matches() {
    let scan = scanned();
    assert_eq!(present(&scan.inventory, &Query::parse("enum")), vec![]);
    assert_eq!(present(&scan.inventory, &Query::parse("")), vec![]);
    assert_eq!(present(&Scan::new().inventory, &Query::everything()), vec![]);
}

#[test]
fn presenting_leaves_the_inventory_as_it_was() {
    let scan = scanned();
    let first = present(&scan.inventory, &Query::everything());
    let second = present(&scan.inventory, &Query::everything());
    assert_eq!(first, second);
    assert_eq!(scan.inventory.len(), 3);
}
