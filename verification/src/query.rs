//! What to show of an inventory: a list of kinds, asked for by the
//! beginnings of their names.
//!
//! A query is a text of tokens with commas between them. A token asks for
//! each kind whose name it begins, ASCII letters compared without regard to
//! case; the token `all` asks for every kind. A token that is empty asks for
//! nothing. Blanks are part of a token.

use vstd::prelude::*;
use vstd::string::*;
use crate::record::DeclarationKind;
use crate::text::{
    folded, is_prefix_ignoring_case, split_at_commas, split_commas, starts_with_ignoring_case,
};

verus! {

/// The token that asks for every kind.
pub open spec fn catch_all() -> Seq<char> {
    "all"@
}

/// Whether `token` asks for `kind`.
pub open spec fn token_selects(token: Seq<char>, kind: DeclarationKind) -> bool {
    token == catch_all() || (token.len() > 0 && is_prefix_ignoring_case(token, kind.label()))
}

/// Whether one of `tokens` asks for `kind`.
pub open spec fn selects(tokens: Seq<Seq<char>>, kind: DeclarationKind) -> bool {
    exists|i: int| 0 <= i < tokens.len() && token_selects(#[trigger] tokens[i], kind)
}

/// A query, as its tokens in the order in which they were written.
#[derive(Debug, PartialEq, Eq)]
pub struct Query {
    pub tokens: Vec<String>,
}

impl View for Query {
    type V = Seq<Seq<char>>;

    open spec fn view(&self) -> Seq<Seq<char>> {
        self.tokens.deep_view()
    }
}

impl Query {
    /// The query that `text` holds: its pieces between the commas.
    pub fn parse(text: &str) -> (r: Query)
        ensures
            r@ == split_at_commas(text@),
    {
        Query { tokens: split_commas(text) }
    }

    /// The query that asks for every kind.
    pub fn everything() -> (r: Query)
        ensures
            r@ == seq![catch_all()],
    {
        let mut tokens: Vec<String> = Vec::new();
        tokens.push(String::from_str("all"));
        assert(tokens.deep_view() =~= seq![catch_all()]);
        Query { tokens }
    }

    /// Whether the query asks for `kind`.
    pub fn selects(&self, kind: DeclarationKind) -> (r: bool)
        ensures
            r == selects(self@, kind),
    {
        let everything = String::from_str("all");
        let mut i: usize = 0;
        while i < self.tokens.len()
            invariant
                i <= self.tokens.len(),
                everything@ == catch_all(),
                forall|k: int| 0 <= k < i ==> !token_selects(#[trigger] self@[k], kind),
            decreases self.tokens.len() - i,
        {
            let token = &self.tokens[i];
            assert(self@[i as int] == token@);
            if *token == everything {
                return true;
            }
            if token.as_str().unicode_len() > 0 && starts_with_ignoring_case(kind.name(), token.as_str()) {
                return true;
            }
            i += 1;
        }
        false
    }
}

/// The catch-all token asks for every kind, whatever else the query holds.
pub proof fn lemma_catch_all_selects_every_kind(tokens: Seq<Seq<char>>, kind: DeclarationKind)
    requires
        tokens.contains(catch_all()),
    ensures
        selects(tokens, kind),
{
    let i = choose|i: int| 0 <= i < tokens.len() && tokens[i] == catch_all();
    assert(token_selects(tokens[i], kind));
}

/// Case plays no part in whether a token begins a name: two tokens that are
/// the same but for the case of their ASCII letters begin the same names.
pub proof fn lemma_prefix_ignores_case(a: Seq<char>, b: Seq<char>, name: Seq<char>)
    requires
        a.len() == b.len(),
        forall|i: int| 0 <= i < a.len() ==> folded(a[i]) == folded(b[i]),
    ensures
        is_prefix_ignoring_case(a, name) == is_prefix_ignoring_case(b, name),
{
}

/// A query asks for a kind through one of its tokens, so a query asks for
/// what either of two queries asks for once their tokens are put together.
pub proof fn lemma_selects_of_joined(a: Seq<Seq<char>>, b: Seq<Seq<char>>, kind: DeclarationKind)
    ensures
        selects(a + b, kind) <==> selects(a, kind) || selects(b, kind),
{
    if selects(a, kind) {
        let i = choose|i: int| 0 <= i < a.len() && token_selects(#[trigger] a[i], kind);
        assert((a + b)[i] == a[i]);
    }
    if selects(b, kind) {
        let i = choose|i: int| 0 <= i < b.len() && token_selects(#[trigger] b[i], kind);
        assert((a + b)[a.len() + i] == b[i]);
    }
    if selects(a + b, kind) {
        let i = choose|i: int| 0 <= i < (a + b).len() && token_selects(#[trigger] (a + b)[i], kind);
        if i < a.len() {
            assert(a[i] == (a + b)[i]);
        } else {
            assert(b[i - a.len()] == (a + b)[i]);
        }
    }
}

} // verus!
