use codebase_scanner::extract::extract;
use codebase_scanner::inventory::FileInventory;
use codebase_scanner::parse::parse_source;
use codebase_scanner::record::{DeclarationKind, DeclarationRecord, FieldEntry};
use codebase_scanner::scan::{scan_sources, SourceFile};

fn inventory_of(text: &str) -> FileInventory {
    let tree = parse_source(text).expect("the text parses");
    extract("src/lib.rs", &tree)
}

fn listing(file: &FileInventory) -> Vec<(DeclarationKind, String)> {
    file.records().iter().map(|r| (r.kind, r.name.clone())).collect()
}

fn named(kind: DeclarationKind, name: &str) -> (DeclarationKind, String) {
    (kind, name.to_string())
}

fn field(name: &str, ty: &str) -> FieldEntry {
    FieldEntry { name: name.to_string(), ty: ty.to_string() }
}

#[test]
fn a_single_public_function() {
    let files = vec![SourceFile { path: "a.rs".to_string(), text: "pub fn a() {}".to_string() }];
    let scan = scan_sources(&files);
    assert!(scan.diagnostics.is_empty());
    assert_eq!(scan.inventory.len(), 1);
    let file = scan.inventory.file(0);
    assert_eq!(file.path(), "a.rs");
    assert_eq!(
        file.records(),
        &vec![DeclarationRecord {
            kind: DeclarationKind::Function,
            name: "a".to_string(),
            file: "a.rs".to_string(),
            line: Some(1),
            fields: None,
        }]
    );
}

#[test]
fn a_public_struct_with_its_field() {
    let file = inventory_of("pub struct S { pub x: i32 }");
    assert_eq!(
        file.records(),
        &vec![DeclarationRecord {
            kind: DeclarationKind::Struct,
            name: "S".to_string(),
            file: "src/lib.rs".to_string(),
            line: Some(1),
            fields: Some(vec![field("x", "i32")]),
        }]
    );
}

#[test]
fn struct_fields_keep_source_order_whatever_their_modifier() {
    let file = inventory_of("pub struct P { z: u8, pub a: String, pub(crate) m: Vec<i32> }");
    assert_eq!(
        file.records()[0].fields,
        Some(vec![field("z", "u8"), field("a", "String"), field("m", "Vec < i32 >")])
    );
}

#[test]
fn tuple_struct_has_an_empty_field_list() {
    let file = inventory_of("pub struct Pair(pub i32, pub i32);\npub struct Unit;");
    assert_eq!(listing(&file), vec![named(DeclarationKind::Struct, "Pair"), named(DeclarationKind::Struct, "Unit")]);
    assert_eq!(file.records()[0].fields, Some(vec![]));
    assert_eq!(file.records()[1].fields, Some(vec![]));
    assert_eq!(file.records()[1].line, Some(2));
}

#[test]
fn a_trait_and_a_block_that_implements_it() {
    let file = inventory_of("pub trait T { fn m(&self); }\nimpl T for S { fn m(&self) {} }");
    assert_eq!(listing(&file), vec![named(DeclarationKind::Trait, "T"), named(DeclarationKind::TraitFunction, "T::m")]);
    assert_eq!(file.records()[1].line, Some(1));
}

#[test]
fn an_implementing_function_with_pub_is_listed_beside_the_declared_one() {
    let file = inventory_of("pub trait T { fn m(&self); }\nimpl T for S { pub fn m(&self) {} }");
    assert_eq!(
        listing(&file),
        vec![
            named(DeclarationKind::Trait, "T"),
            named(DeclarationKind::TraitFunction, "T::m"),
            named(DeclarationKind::TraitFunction, "T::m"),
        ]
    );
    assert_eq!(file.records()[1].line, Some(1));
    assert_eq!(file.records()[2].line, Some(2));
}

#[test]
fn a_trait_function_is_qualified_by_the_last_segment_of_the_path() {
    let file = inventory_of("impl std::fmt::Display for S { pub fn fmt(&self) {} }");
    assert_eq!(listing(&file), vec![named(DeclarationKind::TraitFunction, "Display::fmt")]);
}

#[test]
fn inherent_and_trait_forms_of_one_name_stay_apart() {
    let file = inventory_of("impl S { pub fn m(&self) {} }\nimpl T for S { pub fn m(&self) {} }");
    assert_eq!(listing(&file), vec![named(DeclarationKind::Function, "m"), named(DeclarationKind::TraitFunction, "T::m")]);
}

#[test]
fn the_same_name_in_two_inherent_blocks_is_listed_twice() {
    let file = inventory_of("impl A { pub fn new() {} }\nimpl B { pub fn new() {} fn hidden() {} }");
    assert_eq!(listing(&file), vec![named(DeclarationKind::Function, "new"), named(DeclarationKind::Function, "new")]);
    assert_eq!(file.records()[0].line, Some(1));
    assert_eq!(file.records()[1].line, Some(2));
}

#[test]
fn a_module_is_flattened_into_the_file() {
    let file = inventory_of("pub mod inner { pub fn f() {} }");
    assert_eq!(listing(&file), vec![named(DeclarationKind::Module, "inner"), named(DeclarationKind::Function, "f")]);
}

#[test]
fn nested_modules_come_in_the_order_of_the_walk() {
    let text = "pub fn first() {}\npub mod a {\n    pub mod b {\n        pub fn deep() {}\n    }\n    pub fn shallow() {}\n}\npub fn last() {}\n";
    let file = inventory_of(text);
    assert_eq!(
        listing(&file),
        vec![
            named(DeclarationKind::Function, "first"),
            named(DeclarationKind::Module, "a"),
            named(DeclarationKind::Module, "b"),
            named(DeclarationKind::Function, "deep"),
            named(DeclarationKind::Function, "shallow"),
            named(DeclarationKind::Function, "last"),
        ]
    );
    let lines: Vec<Option<usize>> = file.records().iter().map(|r| r.line).collect();
    assert_eq!(lines, vec![Some(1), Some(2), Some(3), Some(4), Some(6), Some(8)]);
}

#[test]
fn a_module_without_pub_is_not_listed_but_walked() {
    let file = inventory_of("mod hidden { pub fn shown() {} fn not_shown() {} }\nmod named_only;");
    assert_eq!(listing(&file), vec![named(DeclarationKind::Function, "shown")]);
}

#[test]
fn declarations_without_the_bare_pub_are_left_out() {
    let text = "fn a() {}\npub(crate) fn b() {}\npub(super) struct C;\npub(in crate::x) enum D {}\nstruct E { pub x: i32 }\ntrait F { fn m(&self); }\nconst G: u8 = 0;\npub(crate) static H: u8 = 0;\ntype I = u8;\nuse std::fmt;\npub(crate) use std::io;\nextern crate alloc;\nunion J { a: u8 }\n";
    let file = inventory_of(text);
    assert!(file.is_empty());
    assert_eq!(file.len(), 0);
}

#[test]
fn every_kind_with_a_header() {
    let text = "pub const MAX: u16 = 65535;\npub static BIKE: u8 = 42;\npub type Small = u8;\npub extern crate alloc;\npub union Bits { a: u32, b: f32 }\n";
    let file = inventory_of(text);
    assert_eq!(
        listing(&file),
        vec![
            named(DeclarationKind::Constant, "MAX"),
            named(DeclarationKind::Static, "BIKE"),
            named(DeclarationKind::TypeAlias, "Small"),
            named(DeclarationKind::ExternCrate, "alloc"),
            named(DeclarationKind::Union, "Bits"),
        ]
    );
    assert_eq!(file.records()[3].line, Some(4));
    assert_eq!(file.records()[3].fields, None);
    assert_eq!(file.records()[4].fields, Some(vec![field("a", "u32"), field("b", "f32")]));
}

#[test]
fn the_fields_of_enum_variants_are_listed_as_opaque_fragments() {
    let file = inventory_of("pub enum E { A, B(u8, u16), C { x: i32 } }\nenum Hidden { A(u8) }");
    assert_eq!(
        listing(&file),
        vec![
            named(DeclarationKind::Enum, "E"),
            named(DeclarationKind::Opaque, "<opaque>"),
            named(DeclarationKind::Opaque, "<opaque>"),
            named(DeclarationKind::Opaque, "<opaque>"),
        ]
    );
    assert_eq!(file.records()[0].fields, None);
    assert_eq!(file.records()[1].line, None);
}

#[test]
fn the_functions_of_a_trait_follow_the_trait() {
    let text = "pub trait Shape {\n    const SIDES: u8;\n    type Unit;\n    fn area(&self) -> f64;\n    fn name(&self) -> String { String::new() }\n}\n";
    let file = inventory_of(text);
    assert_eq!(
        listing(&file),
        vec![
            named(DeclarationKind::Trait, "Shape"),
            named(DeclarationKind::TraitFunction, "Shape::area"),
            named(DeclarationKind::TraitFunction, "Shape::name"),
        ]
    );
    assert_eq!(file.records()[1].line, Some(4));
    assert_eq!(file.records()[2].line, Some(5));
}

#[test]
fn foreign_functions_are_listed_where_they_carry_pub() {
    let file = inventory_of("extern \"C\" {\n    pub fn puts(s: *const u8) -> i32;\n    fn hidden();\n    pub static ERRNO: i32;\n}");
    assert_eq!(listing(&file), vec![named(DeclarationKind::ForeignFunction, "puts")]);
    assert_eq!(file.records()[0].line, Some(2));
}

#[test]
fn a_use_is_listed_under_its_path_without_blanks() {
    let file = inventory_of("pub use std::collections::HashMap;\npub use a::{b, c};\npub use x::*;\nuse hidden::y;");
    assert_eq!(
        listing(&file),
        vec![
            named(DeclarationKind::Use, "std::collections::HashMap"),
            named(DeclarationKind::Use, "a::{b,c}"),
            named(DeclarationKind::Use, "x::*"),
        ]
    );
    assert_eq!(file.records()[0].line, None);
}

#[test]
fn a_macro_is_listed_under_the_last_segment_of_its_path() {
    let file = inventory_of("macro_rules! twice { () => {}; }\nlazy_static::lazy_static! { }\nthread_local!();");
    assert_eq!(
        listing(&file),
        vec![
            named(DeclarationKind::Macro, "macro_rules"),
            named(DeclarationKind::Macro, "lazy_static"),
            named(DeclarationKind::Macro, "thread_local"),
        ]
    );
    assert_eq!(file.records()[0].line, None);
    assert_eq!(file.records()[0].fields, None);
}

#[test]
fn tokens_that_the_parser_leaves_alone_are_listed_as_opaque() {
    let file = inventory_of("fn declared_only();");
    assert_eq!(listing(&file), vec![named(DeclarationKind::Opaque, "<opaque>")]);
    assert_eq!(file.records()[0].line, None);
}

#[test]
fn an_empty_file_has_an_empty_inventory() {
    let file = inventory_of("");
    assert!(file.is_empty());
    assert_eq!(file.path(), "src/lib.rs");
}

#[test]
fn a_text_that_is_not_rust_is_a_failure_with_a_message() {
    let failure = parse_source("pub fn broken( {").unwrap_err();
    assert!(!failure.message.is_empty());
    let other = parse_source("this is not rust").unwrap_err();
    assert!(!other.message.is_empty());
}

#[test]
fn records_by_kind() {
    let file = inventory_of("pub fn a() {}\npub struct S;\npub fn b() {}");
    let functions: Vec<String> =
        file.records_of_kind(DeclarationKind::Function).iter().map(|r| r.name.clone()).collect();
    assert_eq!(functions, vec!["a".to_string(), "b".to_string()]);
    assert_eq!(file.records_of_kind(DeclarationKind::Struct).len(), 1);
    assert!(file.records_of_kind(DeclarationKind::Enum).is_empty());
}

#[test]
fn a_file_with_many_constructs() {
    let text = r#"//! A crate.
#![allow(dead_code)]
#[macro_use]
extern crate core;

use std::fmt::{self, Display};
pub use std::io::Result as IoResult;

/// Documented.
#[derive(Debug, Clone)]
pub struct Wrapper<'a, T: Display + 'a>
where
    T: Clone,
{
    pub inner: &'a T,
    pub(crate) count: usize,
    callback: Box<dyn Fn(u8) -> u8 + Send>,
}

pub(crate) struct Local;

pub enum Shape<T> {
    Circle { radius: T },
    Rect(T, T),
    Empty,
}

pub trait Area: Display {
    type Output;
    const UNIT: &'static str;
    fn area(&self) -> Self::Output;
    async fn later(&self);
    unsafe fn raw(&self) -> *const u8;
}

impl<T: Display> Wrapper<'_, T> {
    pub const LIMIT: usize = 4;
    pub fn get(&self) -> &T { self.inner }
    pub(crate) fn count(&self) -> usize { self.count }
    pub async fn wait(&self) {}
    fn hidden(&self) {}
}

unsafe impl<T> Send for Shape<T> {}

impl<T: Display> fmt::Display for Shape<T> {
    fn fmt(&self, f: &mut fmt::Formatter<'_>) -> fmt::Result { Ok(()) }
}

pub const fn answer() -> u32 { 42 }
pub unsafe extern "C" fn entry() {}
pub static mut COUNTER: u32 = 0;
pub type Pair<T> = (T, T);

pub mod outer {
    pub(super) fn near() {}
    pub mod inner {
        pub struct Deep { pub value: Option<Vec<(u8, String)>> }
    }
}

macro_rules! helper { ($x:expr) => { $x }; }
helper!(1);
"#;
    let file = inventory_of(text);
    assert_eq!(
        listing(&file),
        vec![
            named(DeclarationKind::Use, "std::io::ResultasIoResult"),
            named(DeclarationKind::Struct, "Wrapper"),
            named(DeclarationKind::Enum, "Shape"),
            named(DeclarationKind::Opaque, "<opaque>"),
            named(DeclarationKind::Opaque, "<opaque>"),
            named(DeclarationKind::Opaque, "<opaque>"),
            named(DeclarationKind::Trait, "Area"),
            named(DeclarationKind::TraitFunction, "Area::area"),
            named(DeclarationKind::TraitFunction, "Area::later"),
            named(DeclarationKind::TraitFunction, "Area::raw"),
            named(DeclarationKind::Function, "get"),
            named(DeclarationKind::Function, "wait"),
            named(DeclarationKind::Function, "answer"),
            named(DeclarationKind::Function, "entry"),
            named(DeclarationKind::Static, "COUNTER"),
            named(DeclarationKind::TypeAlias, "Pair"),
            named(DeclarationKind::Module, "outer"),
            named(DeclarationKind::Module, "inner"),
            named(DeclarationKind::Struct, "Deep"),
            named(DeclarationKind::Macro, "macro_rules"),
            named(DeclarationKind::Macro, "helper"),
        ]
    );
    assert_eq!(
        file.records()[1].fields,
        Some(vec![
            field("inner", "& 'a T"),
            field("count", "usize"),
            field("callback", "Box < dyn Fn (u8) -> u8 + Send >"),
        ])
    );
    assert_eq!(file.records()[1].line, Some(11));
    assert_eq!(file.records()[18].fields, Some(vec![field("value", "Option < Vec < (u8 , String) > >")]));
}

#[test]
fn modules_nested_deep_are_written_out_in_full() {
    let depth = 60;
    let mut text = String::new();
    for level in 0..depth {
        text.push_str(&format!("pub mod m{} {{ ", level));
    }
    text.push_str("pub fn bottom() {}");
    for _ in 0..depth {
        text.push_str(" }");
    }
    let file = inventory_of(&text);
    assert_eq!(file.len(), depth + 1);
    assert_eq!(file.records()[0].name, "m0");
    assert_eq!(file.records()[depth - 1].name, format!("m{}", depth - 1));
    assert_eq!(file.records()[depth].kind, DeclarationKind::Function);
    assert_eq!(file.records()[depth].name, "bottom");
}

#[test]
fn a_trait_function_is_listed_whatever_modifier_is_written_on_it() {
    let file = inventory_of("pub trait T {\n    pub fn m(&self);\n    pub(crate) fn n(&self) {}\n    fn o(&self);\n}");
    assert_eq!(
        listing(&file),
        vec![
            named(DeclarationKind::Trait, "T"),
            named(DeclarationKind::TraitFunction, "T::m"),
            named(DeclarationKind::TraitFunction, "T::n"),
            named(DeclarationKind::TraitFunction, "T::o"),
        ]
    );
    assert_eq!(file.records()[1].line, Some(2));
    assert_eq!(file.records()[2].line, Some(3));
}
