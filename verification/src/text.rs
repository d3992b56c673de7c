//! Operations on text, stated over sequences of characters.

use vstd::prelude::*;
use vstd::string::*;

verus! {

/// The characters that count as white space: blank, tab, line feed, vertical
/// tab, form feed and carriage return.
pub open spec fn is_space(c: char) -> bool {
    c == ' ' || c == '\t' || c == '\n' || c == '\x0b' || c == '\x0c' || c == '\r'
}

/// `s` with every white-space character taken out.
pub open spec fn without_spaces(s: Seq<char>) -> Seq<char>
    decreases s.len(),
{
    if s.len() == 0 {
        Seq::empty()
    } else if is_space(s.last()) {
        without_spaces(s.drop_last())
    } else {
        without_spaces(s.drop_last()).push(s.last())
    }
}

/// The number that stands for `c` once upper-case ASCII letters are taken
/// for their lower-case forms.
pub open spec fn folded(c: char) -> int {
    if 'A' <= c && c <= 'Z' {
        c as int + 32
    } else {
        c as int
    }
}

/// Whether `prefix` begins `s` when ASCII letters are compared without
/// regard to case.
pub open spec fn is_prefix_ignoring_case(prefix: Seq<char>, s: Seq<char>) -> bool {
    &&& prefix.len() <= s.len()
    &&& forall|i: int| 0 <= i < prefix.len() ==> folded(prefix[i]) == folded(s[i])
}

/// Whether `s` ends with `suffix`.
pub open spec fn has_suffix(s: Seq<char>, suffix: Seq<char>) -> bool {
    &&& suffix.len() <= s.len()
    &&& s.subrange(s.len() - suffix.len(), s.len() as int) == suffix
}

/// The pieces of `s` between its commas, in order. A text without a comma is
/// one piece, and so is the empty text; a comma at either end borders an
/// empty piece.
pub open spec fn split_at_commas(s: Seq<char>) -> Seq<Seq<char>>
    decreases s.len(),
{
    if s.len() == 0 {
        seq![Seq::empty()]
    } else {
        let before = split_at_commas(s.drop_last());
        if s.last() == ',' {
            before.push(Seq::empty())
        } else {
            before.drop_last().push(before.last().push(s.last()))
        }
    }
}

/// `pieces` written one after the other with a comma between neighbours.
pub open spec fn joined_with_commas(pieces: Seq<Seq<char>>) -> Seq<char>
    decreases pieces.len(),
{
    if pieces.len() == 0 {
        Seq::empty()
    } else if pieces.len() == 1 {
        pieces[0]
    } else {
        joined_with_commas(pieces.drop_last()).push(',') + pieces.last()
    }
}

/// Splitting loses nothing: there is at least one piece, no piece holds a
/// comma, and the pieces joined with commas are the text again.
pub proof fn lemma_split_then_join(s: Seq<char>)
    ensures
        split_at_commas(s).len() >= 1,
        forall|i: int, j: int|
            0 <= i < split_at_commas(s).len() && 0 <= j < split_at_commas(s)[i].len()
                ==> split_at_commas(s)[i][j] != ',',
        joined_with_commas(split_at_commas(s)) == s,
    decreases s.len(),
{
    if s.len() > 0 {
        let head = s.drop_last();
        lemma_split_then_join(head);
        let before = split_at_commas(head);
        let after = split_at_commas(s);
        if s.last() == ',' {
            assert(after.drop_last() =~= before);
            assert(joined_with_commas(after) =~= s);
        } else {
            let grown = before.last().push(s.last());
            assert(after.last() == grown);
            if before.len() == 1 {
                assert(before[0] == head);
                assert(joined_with_commas(after) =~= s);
            } else {
                assert(after.drop_last() =~= before.drop_last());
                assert(joined_with_commas(after) =~= joined_with_commas(before).push(s.last()));
                assert(joined_with_commas(after) =~= s);
            }
        }
    } else {
        assert(joined_with_commas(split_at_commas(s)) =~= s);
    }
}

/// Whether `c` is white space.
pub fn is_space_char(c: char) -> (r: bool)
    ensures
        r == is_space(c),
{
    c == ' ' || c == '\t' || c == '\n' || c == '\x0b' || c == '\x0c' || c == '\r'
}

/// Appends the character at position `i` of `s` to `out`.
fn push_char_at(out: &mut String, s: &str, i: usize)
    requires
        i < s@.len() <= usize::MAX,
    ensures
        final(out)@ == old(out)@.push(s@[i as int]),
{
    let piece = s.substring_char(i, i + 1);
    assert(piece@ =~= seq![s@[i as int]]);
    out.append(piece);
    assert(out@ =~= old(out)@.push(s@[i as int]));
}

/// Copies `s` without its white space.
pub fn strip_spaces(s: &str) -> (r: String)
    ensures
        r@ == without_spaces(s@),
{
    let n: usize = s.unicode_len();
    let mut out = String::new();
    let mut i: usize = 0;
    while i < n
        invariant
            i <= n,
            n == s@.len(),
            out@ == without_spaces(s@.subrange(0, i as int)),
        decreases n - i,
    {
        let c = s.get_char(i);
        assert(s@.subrange(0, i + 1).drop_last() =~= s@.subrange(0, i as int));
        if !is_space_char(c) {
            push_char_at(&mut out, s, i);
        }
        i += 1;
    }
    assert(s@.subrange(0, n as int) =~= s@);
    out
}

/// The number by which `c` is compared when case is ignored.
fn fold_char(c: char) -> (r: u32)
    ensures
        r == folded(c),
{
    let code: u32 = c as u32;
    if 'A' <= c && c <= 'Z' {
        code + 32
    } else {
        code
    }
}

/// Whether `s` begins with `prefix`, ASCII letters compared without regard
/// to case.
pub fn starts_with_ignoring_case(s: &str, prefix: &str) -> (r: bool)
    ensures
        r == is_prefix_ignoring_case(prefix@, s@),
{
    let n: usize = prefix.unicode_len();
    if n > s.unicode_len() {
        return false;
    }
    let mut i: usize = 0;
    while i < n
        invariant
            i <= n,
            n == prefix@.len(),
            n <= s@.len(),
            forall|k: int| 0 <= k < i ==> folded(prefix@[k]) == folded(s@[k]),
        decreases n - i,
    {
        if fold_char(prefix.get_char(i)) != fold_char(s.get_char(i)) {
            return false;
        }
        i += 1;
    }
    true
}

/// Whether `s` ends with `suffix`.
pub fn ends_with(s: &str, suffix: &str) -> (r: bool)
    ensures
        r == has_suffix(s@, suffix@),
{
    let n: usize = suffix.unicode_len();
    let len: usize = s.unicode_len();
    if n > len {
        return false;
    }
    let start: usize = len - n;
    let mut i: usize = 0;
    while i < n
        invariant
            i <= n,
            n == suffix@.len(),
            len == s@.len(),
            start == len - n,
            forall|k: int| 0 <= k < i ==> suffix@[k] == s@[start + k],
        decreases n - i,
    {
        if suffix.get_char(i) != s.get_char(start + i) {
            assert(s@.subrange(s@.len() - suffix@.len(), s@.len() as int)[i as int] != suffix@[i as int]);
            return false;
        }
        i += 1;
    }
    assert(s@.subrange(s@.len() - suffix@.len(), s@.len() as int) =~= suffix@);
    true
}

/// Cuts `s` at its commas.
pub fn split_commas(s: &str) -> (r: Vec<String>)
    ensures
        r.deep_view() == split_at_commas(s@),
{
    let n: usize = s.unicode_len();
    let mut done: Vec<String> = Vec::new();
    let mut start: usize = 0;
    let mut i: usize = 0;
    assert(done.deep_view() =~= Seq::<Seq<char>>::empty());
    assert(s@.subrange(0, 0) =~= Seq::<char>::empty());
    assert(split_at_commas(s@.subrange(0, 0)) =~= seq![Seq::<char>::empty()]);
    while i < n
        invariant
            start <= i <= n,
            n == s@.len(),
            split_at_commas(s@.subrange(0, i as int)) == done.deep_view().push(
                s@.subrange(start as int, i as int),
            ),
        decreases n - i,
    {
        let c = s.get_char(i);
        proof {
            let upto = s@.subrange(0, i + 1);
            assert(upto.drop_last() =~= s@.subrange(0, i as int));
            let before = split_at_commas(upto.drop_last());
            assert(before.drop_last() =~= done.deep_view());
            assert(before.last().push(c) =~= s@.subrange(start as int, i + 1));
        }
        if c == ',' {
            let piece = s.substring_char(start, i);
            let ghost earlier = done.deep_view();
            done.push(String::from_str(piece));
            start = i + 1;
            assert(done.deep_view() =~= earlier.push(piece@));
            assert(s@.subrange(start as int, i + 1) =~= Seq::<char>::empty());
        }
        i += 1;
    }
    let ghost earlier = done.deep_view();
    let piece = s.substring_char(start, n);
    done.push(String::from_str(piece));
    assert(done.deep_view() =~= earlier.push(piece@));
    assert(s@.subrange(0, n as int) =~= s@);
    done
}

} // verus!
