//! An inventory of the declarations that a tree of Rust source files makes
//! public.
//!
//! - [`parse`] turns the text of one file into a syntax tree ([`syntax`]).
//! - [`extract`] walks such a tree and lists, as records ([`record`]), what
//!   it declares with the bare `pub` modifier; [`laws`] holds what is true of
//!   every such list.
//! - [`scan`] gathers the lists of many files into an [`inventory`] and notes
//!   the files that did not parse.
//! - [`present`] lays an inventory out as lines for a [`query`].
//! - [`text`] holds the operations on text that the others share.

pub mod extract;
pub mod inventory;
pub mod laws;
pub mod parse;
pub mod present;
pub mod query;
pub mod record;
pub mod scan;
pub mod syntax;
pub mod text;
