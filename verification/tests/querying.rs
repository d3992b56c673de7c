use codebase_scanner::query::Query;
use codebase_scanner::record::DeclarationKind;
use codebase_scanner::text::{ends_with, is_space_char, split_commas, starts_with_ignoring_case, strip_spaces};

fn kinds_selected(text: &str) -> Vec<DeclarationKind> {
    let query = Query::parse(text);
    DeclarationKind::all().into_iter().filter(|kind| query.selects(*kind)).collect()
}

#[test]
fn the_kinds_and_their_names() {
    let names: Vec<&str> = DeclarationKind::all().into_iter().map(|kind| kind.name()).collect();
    assert_eq!(
        names,
        vec![
            "Function", "Struct", "Enum", "Trait", "TraitFunction", "Module", "Constant", "Static",
            "TypeAlias", "Union", "ExternCrate", "ForeignFunction", "Use", "Macro", "Opaque",
        ]
    );
}

#[test]
fn a_query_is_cut_at_its_commas() {
    assert_eq!(Query::parse("fn,struct").tokens, vec!["fn".to_string(), "struct".to_string()]);
    assert_eq!(Query::parse("all").tokens, vec!["all".to_string()]);
    assert_eq!(Query::parse("").tokens, vec!["".to_string()]);
    assert_eq!(Query::parse(",a,,b,").tokens, vec!["", "a", "", "b", ""]);
    assert_eq!(Query::parse(" a , b").tokens, vec![" a ", " b"]);
    assert_eq!(Query::everything().tokens, vec!["all".to_string()]);
    assert_eq!(split_commas("é,ü"), vec!["é".to_string(), "ü".to_string()]);
}

#[test]
fn the_catch_all_asks_for_every_kind() {
    assert_eq!(kinds_selected("all"), DeclarationKind::all());
    assert_eq!(kinds_selected("nothing,all"), DeclarationKind::all());
    let everything = Query::everything();
    assert!(DeclarationKind::all().into_iter().all(|kind| everything.selects(kind)));
}

#[test]
fn a_token_asks_for_the_kinds_whose_name_it_begins() {
    assert_eq!(kinds_selected("Function"), vec![DeclarationKind::Function]);
    assert_eq!(kinds_selected("fun"), vec![DeclarationKind::Function]);
    assert_eq!(kinds_selected("st"), vec![DeclarationKind::Struct, DeclarationKind::Static]);
    assert_eq!(kinds_selected("trait"), vec![DeclarationKind::Trait, DeclarationKind::TraitFunction]);
    assert_eq!(kinds_selected("traitf"), vec![DeclarationKind::TraitFunction]);
    assert_eq!(
        kinds_selected("e"),
        vec![DeclarationKind::Enum, DeclarationKind::ExternCrate]
    );
    assert_eq!(kinds_selected("u"), vec![DeclarationKind::Union, DeclarationKind::Use]);
}

#[test]
fn case_is_ignored() {
    assert_eq!(kinds_selected("STRUCT"), vec![DeclarationKind::Struct]);
    assert_eq!(kinds_selected("sTrUcT"), vec![DeclarationKind::Struct]);
    assert_eq!(kinds_selected("typealias"), vec![DeclarationKind::TypeAlias]);
    assert_eq!(kinds_selected("EXTERNCRATE"), vec![DeclarationKind::ExternCrate]);
}

#[test]
fn tokens_that_ask_for_nothing() {
    assert_eq!(kinds_selected(""), vec![]);
    assert_eq!(kinds_selected(","), vec![]);
    assert_eq!(kinds_selected("Functions"), vec![]);
    assert_eq!(kinds_selected("fn"), vec![]);
    assert_eq!(kinds_selected(" struct"), vec![]);
    assert_eq!(kinds_selected("ALL"), vec![]);
    assert_eq!(kinds_selected("al"), vec![]);
    assert_eq!(kinds_selected("\u{212a}"), vec![]);
}

#[test]
fn several_tokens_ask_for_what_any_of_them_asks_for() {
    assert_eq!(
        kinds_selected("mod,enum,,macro"),
        vec![DeclarationKind::Enum, DeclarationKind::Module, DeclarationKind::Macro]
    );
}

#[test]
fn text_helpers() {
    assert_eq!(strip_spaces("a :: b"), "a::b");
    assert_eq!(strip_spaces(""), "");
    assert_eq!(strip_spaces(" \t\n"), "");
    assert_eq!(strip_spaces("é ü"), "éü");
    assert_eq!(strip_spaces("a\u{a0}b"), "a\u{a0}b");
    assert!(is_space_char(' ') && is_space_char('\t') && is_space_char('\n') && is_space_char('\r'));
    assert!(is_space_char('\u{b}') && is_space_char('\u{c}'));
    assert!(!is_space_char('a') && !is_space_char('\u{a0}'));
    assert!(starts_with_ignoring_case("Function", "func"));
    assert!(starts_with_ignoring_case("Function", ""));
    assert!(starts_with_ignoring_case("abc", "ABC"));
    assert!(!starts_with_ignoring_case("abc", "abcd"));
    assert!(!starts_with_ignoring_case("abc", "abd"));
    assert!(!starts_with_ignoring_case("[", "{"));
    assert!(!starts_with_ignoring_case("@", "`"));
    assert!(ends_with("main.rs", ".rs"));
    assert!(ends_with("main.rs", ""));
    assert!(!ends_with("rs", ".rs"));
    assert!(!ends_with("main.rc", ".rs"));
}
