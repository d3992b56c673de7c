use codebase_scanner::extract::extract;
use codebase_scanner::record::{DeclarationKind, DeclarationRecord, FieldEntry};
use codebase_scanner::syntax::{Declaration, FieldDecl, Header, Modifier, VariantDecl};

fn header(modifier: Modifier, name: &str, line: usize) -> Header {
    Header { modifier, name: name.to_string(), line }
}

fn listing(tree: &Vec<Declaration>) -> Vec<(DeclarationKind, String)> {
    extract("t.rs", tree).records().iter().map(|r| (r.kind, r.name.clone())).collect()
}

fn named(kind: DeclarationKind, name: &str) -> (DeclarationKind, String) {
    (kind, name.to_string())
}

#[test]
fn only_the_bare_pub_is_public() {
    assert!(Modifier::Public.is_public());
    assert!(!Modifier::Restricted.is_public());
    assert!(!Modifier::Inherited.is_public());
}

#[test]
fn the_three_modifiers_on_a_function() {
    let tree = vec![
        Declaration::Function { header: header(Modifier::Inherited, "a", 1) },
        Declaration::Function { header: header(Modifier::Public, "b", 2) },
        Declaration::Function { header: header(Modifier::Restricted, "c", 3) },
    ];
    let file = extract("t.rs", &tree);
    assert_eq!(
        file.records(),
        &vec![DeclarationRecord {
            kind: DeclarationKind::Function,
            name: "b".to_string(),
            file: "t.rs".to_string(),
            line: Some(2),
            fields: None,
        }]
    );
}

#[test]
fn a_trait_function_is_listed_whatever_its_own_modifier() {
    let tree = vec![Declaration::Trait {
        header: header(Modifier::Public, "T", 1),
        functions: vec![
            header(Modifier::Inherited, "a", 2),
            header(Modifier::Restricted, "b", 3),
            header(Modifier::Public, "c", 4),
        ],
    }];
    assert_eq!(
        listing(&tree),
        vec![
            named(DeclarationKind::Trait, "T"),
            named(DeclarationKind::TraitFunction, "T::a"),
            named(DeclarationKind::TraitFunction, "T::b"),
            named(DeclarationKind::TraitFunction, "T::c"),
        ]
    );
}

#[test]
fn a_trait_that_is_not_public_lists_nothing() {
    let tree = vec![
        Declaration::Trait {
            header: header(Modifier::Inherited, "T", 1),
            functions: vec![header(Modifier::Public, "a", 2)],
        },
        Declaration::Trait {
            header: header(Modifier::Restricted, "U", 3),
            functions: vec![header(Modifier::Inherited, "b", 4)],
        },
    ];
    assert_eq!(listing(&tree), vec![]);
}

#[test]
fn implementation_blocks_list_their_public_functions() {
    let functions = || vec![header(Modifier::Public, "shown", 2), header(Modifier::Inherited, "hidden", 3), header(Modifier::Restricted, "inner", 4)];
    let tree = vec![
        Declaration::Impl { trait_path: None, functions: functions() },
        Declaration::Impl { trait_path: Some(vec!["a".to_string(), "b".to_string(), "Tr".to_string()]), functions: functions() },
        Declaration::Impl { trait_path: Some(vec![]), functions: functions() },
    ];
    assert_eq!(
        listing(&tree),
        vec![
            named(DeclarationKind::Function, "shown"),
            named(DeclarationKind::TraitFunction, "Tr::shown"),
            named(DeclarationKind::TraitFunction, "::shown"),
        ]
    );
}

#[test]
fn a_module_is_walked_whatever_its_modifier() {
    let body = || vec![
        Declaration::Function { header: header(Modifier::Public, "f", 2) },
        Declaration::Function { header: header(Modifier::Inherited, "g", 3) },
    ];
    let tree = vec![
        Declaration::Module { header: header(Modifier::Public, "open", 1), body: body() },
        Declaration::Module { header: header(Modifier::Inherited, "closed", 5), body: body() },
        Declaration::Module { header: header(Modifier::Restricted, "narrow", 9), body: body() },
        Declaration::Module { header: header(Modifier::Public, "empty", 13), body: vec![] },
    ];
    assert_eq!(
        listing(&tree),
        vec![
            named(DeclarationKind::Module, "open"),
            named(DeclarationKind::Function, "f"),
            named(DeclarationKind::Function, "f"),
            named(DeclarationKind::Function, "f"),
            named(DeclarationKind::Module, "empty"),
        ]
    );
}

#[test]
fn structs_and_unions_carry_their_named_fields() {
    let fields = || vec![
        FieldDecl { name: Some("x".to_string()), ty: "i32".to_string() },
        FieldDecl { name: None, ty: "u8".to_string() },
        FieldDecl { name: Some("y".to_string()), ty: "Vec < String >".to_string() },
        FieldDecl { name: Some("x".to_string()), ty: "bool".to_string() },
    ];
    let tree = vec![
        Declaration::Struct { header: header(Modifier::Public, "S", 1), fields: fields() },
        Declaration::Union { header: header(Modifier::Public, "U", 2), fields: vec![] },
        Declaration::Struct { header: header(Modifier::Inherited, "Hidden", 3), fields: fields() },
    ];
    let file = extract("t.rs", &tree);
    assert_eq!(file.len(), 2);
    assert_eq!(file.records()[0].kind, DeclarationKind::Struct);
    assert_eq!(
        file.records()[0].fields,
        Some(vec![
            FieldEntry { name: "x".to_string(), ty: "i32".to_string() },
            FieldEntry { name: "y".to_string(), ty: "Vec < String >".to_string() },
            FieldEntry { name: "x".to_string(), ty: "bool".to_string() },
        ])
    );
    assert_eq!(file.records()[1].kind, DeclarationKind::Union);
    assert_eq!(file.records()[1].fields, Some(vec![]));
}

#[test]
fn an_enum_lists_one_opaque_fragment_for_each_field_of_its_variants() {
    let one = || FieldDecl { name: None, ty: "u8".to_string() };
    let tree = vec![
        Declaration::Enum {
            header: header(Modifier::Public, "E", 1),
            variants: vec![
                VariantDecl { name: "A".to_string(), fields: vec![] },
                VariantDecl { name: "B".to_string(), fields: vec![one(), one()] },
                VariantDecl { name: "C".to_string(), fields: vec![FieldDecl { name: Some("x".to_string()), ty: "u8".to_string() }] },
            ],
        },
        Declaration::Enum {
            header: header(Modifier::Inherited, "Hidden", 2),
            variants: vec![VariantDecl { name: "A".to_string(), fields: vec![one()] }],
        },
    ];
    assert_eq!(
        listing(&tree),
        vec![
            named(DeclarationKind::Enum, "E"),
            named(DeclarationKind::Opaque, "<opaque>"),
            named(DeclarationKind::Opaque, "<opaque>"),
            named(DeclarationKind::Opaque, "<opaque>"),
        ]
    );
}

#[test]
fn kinds_without_a_modifier_are_always_listed() {
    let tree = vec![
        Declaration::Macro { path: vec!["a".to_string(), "b".to_string()] },
        Declaration::Macro { path: vec![] },
        Declaration::Opaque,
        Declaration::Unrecognized,
    ];
    let file = extract("t.rs", &tree);
    assert_eq!(
        file.records(),
        &vec![
            DeclarationRecord { kind: DeclarationKind::Macro, name: "b".to_string(), file: "t.rs".to_string(), line: None, fields: None },
            DeclarationRecord { kind: DeclarationKind::Macro, name: "".to_string(), file: "t.rs".to_string(), line: None, fields: None },
            DeclarationRecord { kind: DeclarationKind::Opaque, name: "<opaque>".to_string(), file: "t.rs".to_string(), line: None, fields: None },
        ]
    );
}

#[test]
fn uses_and_the_other_kinds_with_a_header() {
    let tree = vec![
        Declaration::Use { modifier: Modifier::Public, tree: "a :: b :: { c , d as e }".to_string() },
        Declaration::Use { modifier: Modifier::Inherited, tree: "hidden".to_string() },
        Declaration::Use { modifier: Modifier::Public, tree: " \t\n\r spaced \u{b}\u{c}".to_string() },
        Declaration::Constant { header: header(Modifier::Public, "C", 4) },
        Declaration::Static { header: header(Modifier::Public, "S", 5) },
        Declaration::TypeAlias { header: header(Modifier::Public, "T", 6) },
        Declaration::ExternCrate { header: header(Modifier::Public, "x", 7) },
        Declaration::ForeignBlock { functions: vec![header(Modifier::Public, "f", 9), header(Modifier::Inherited, "g", 10)] },
        Declaration::Constant { header: header(Modifier::Restricted, "Hidden", 12) },
    ];
    assert_eq!(
        listing(&tree),
        vec![
            named(DeclarationKind::Use, "a::b::{c,dase}"),
            named(DeclarationKind::Use, "spaced"),
            named(DeclarationKind::Constant, "C"),
            named(DeclarationKind::Static, "S"),
            named(DeclarationKind::TypeAlias, "T"),
            named(DeclarationKind::ExternCrate, "x"),
            named(DeclarationKind::ForeignFunction, "f"),
        ]
    );
}

#[test]
fn a_declaration_that_occurs_twice_is_listed_twice() {
    let tree = vec![
        Declaration::Function { header: header(Modifier::Public, "f", 1) },
        Declaration::Function { header: header(Modifier::Public, "f", 1) },
    ];
    assert_eq!(listing(&tree), vec![named(DeclarationKind::Function, "f"), named(DeclarationKind::Function, "f")]);
}

#[test]
fn every_record_names_the_file() {
    let tree = vec![
        Declaration::Module {
            header: header(Modifier::Public, "m", 1),
            body: vec![Declaration::Trait { header: header(Modifier::Public, "T", 2), functions: vec![header(Modifier::Inherited, "f", 3)] }, Declaration::Opaque],
        },
    ];
    let file = extract("deep/path.rs", &tree);
    assert_eq!(file.len(), 4);
    assert!(file.records().iter().all(|r| r.file == "deep/path.rs"));
}
