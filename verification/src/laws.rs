//! What holds of every extraction.
//!
//! The records of a tree fall into consecutive runs, one for each
//! declaration that the walk meets, in the order of the walk
//! ([`lemma_records_by_declaration`]). The run of a declaration whose
//! modifier is not the bare `pub` is empty; the run of one that carries the
//! bare `pub` begins with the one record of its kind and name. So nothing
//! that is not public is listed, everything public is listed, and what occurs
//! twice is listed twice.

use vstd::prelude::*;
use crate::extract::{
    bare_record, foreign_records, last_segment, member_record, member_records, method_record,
    opaque_name, own_records, plain_record, qualified, records_of, records_of_all,
};
use crate::record::{DeclarationKind, RecordView};
use crate::syntax::{DeclarationView, HeaderView, walk_from, walk_order};
use crate::text::without_spaces;

verus! {

/// The own records of each of `ds`, one declaration after the other.
pub open spec fn own_records_in_order(file: Seq<char>, ds: Seq<DeclarationView>) -> Seq<RecordView>
    decreases ds.len(),
{
    if ds.len() == 0 {
        Seq::empty()
    } else {
        own_records_in_order(file, ds.drop_last()) + own_records(file, ds.last())
    }
}

/// The kind of the record that stands for a declaration itself. Blocks and
/// unrecognized declarations have no such record; for them this is
/// `Opaque`, and means nothing.
pub open spec fn listed_kind(d: DeclarationView) -> DeclarationKind {
    match d {
        DeclarationView::Function { .. } => DeclarationKind::Function,
        DeclarationView::Struct { .. } => DeclarationKind::Struct,
        DeclarationView::Enum { .. } => DeclarationKind::Enum,
        DeclarationView::Trait { .. } => DeclarationKind::Trait,
        DeclarationView::Module { .. } => DeclarationKind::Module,
        DeclarationView::Constant { .. } => DeclarationKind::Constant,
        DeclarationView::Static { .. } => DeclarationKind::Static,
        DeclarationView::TypeAlias { .. } => DeclarationKind::TypeAlias,
        DeclarationView::Union { .. } => DeclarationKind::Union,
        DeclarationView::ExternCrate { .. } => DeclarationKind::ExternCrate,
        DeclarationView::Use { .. } => DeclarationKind::Use,
        DeclarationView::Macro { .. } => DeclarationKind::Macro,
        _ => DeclarationKind::Opaque,
    }
}

/// The name of the record that stands for a declaration itself, where it
/// has one.
pub open spec fn listed_name(d: DeclarationView) -> Seq<char> {
    match d {
        DeclarationView::Function { header } => header.name,
        DeclarationView::Struct { header, .. } => header.name,
        DeclarationView::Enum { header, .. } => header.name,
        DeclarationView::Trait { header, .. } => header.name,
        DeclarationView::Module { header, .. } => header.name,
        DeclarationView::Constant { header } => header.name,
        DeclarationView::Static { header } => header.name,
        DeclarationView::TypeAlias { header } => header.name,
        DeclarationView::Union { header, .. } => header.name,
        DeclarationView::ExternCrate { header } => header.name,
        DeclarationView::Use { tree, .. } => without_spaces(tree),
        DeclarationView::Macro { path } => last_segment(path),
        _ => opaque_name(),
    }
}

/// A declaration whose modifier is not the bare `pub`, be it restricted or
/// absent, yields no record of its own. All that a module of that sort
/// yields comes from the declarations in its body.
pub proof fn lemma_not_public_not_listed(file: Seq<char>, d: DeclarationView)
    requires
        d.modifier() matches Some(m) && !m.public(),
    ensures
        own_records(file, d) == Seq::<RecordView>::empty(),
        records_of(file, d) == records_of_all(file, d.nested()),
{
    assert(records_of_all(file, Seq::<DeclarationView>::empty()) =~= Seq::<RecordView>::empty());
    assert(records_of(file, d) =~= records_of_all(file, d.nested()));
}

/// A function of an implementation block or of an `extern` block whose
/// modifier is not the bare `pub` yields no record: the block yields what it
/// would yield without that function.
pub proof fn lemma_member_not_public_not_listed(
    file: Seq<char>,
    trait_path: Option<Seq<Seq<char>>>,
    functions: Seq<HeaderView>,
    i: int,
)
    requires
        0 <= i < functions.len(),
        !functions[i].modifier.public(),
    ensures
        member_records(file, trait_path, functions) == member_records(
            file,
            trait_path,
            functions.remove(i),
        ),
        foreign_records(file, functions) == foreign_records(file, functions.remove(i)),
    decreases functions.len(),
{
    let head = functions.drop_last();
    if i == functions.len() - 1 {
        assert(functions.remove(i) =~= head);
    } else {
        lemma_member_not_public_not_listed(file, trait_path, head, i);
        assert(functions.remove(i).drop_last() =~= head.remove(i));
        assert(functions.remove(i).last() == functions.last());
    }
}

/// A declaration that carries the bare `pub` yields exactly one record of
/// its own kind. That record comes first and bears the declaration's name
/// and the file.
pub proof fn lemma_public_listed_once(file: Seq<char>, d: DeclarationView)
    requires
        d.modifier() matches Some(m) && m.public(),
    ensures
        own_records(file, d).len() >= 1,
        own_records(file, d)[0].kind == listed_kind(d),
        own_records(file, d)[0].name == listed_name(d),
        own_records(file, d)[0].file == file,
        forall|j: int| 1 <= j < own_records(file, d).len() ==> own_records(file, d)[j].kind != listed_kind(d),
{
}

/// A macro and an opaque fragment can carry no modifier and are always
/// listed, each with one record.
pub proof fn lemma_without_modifier_always_listed(file: Seq<char>, d: DeclarationView)
    requires
        d is Macro || d is Opaque,
    ensures
        d.modifier() is None,
        own_records(file, d) == seq![bare_record(file, listed_kind(d), listed_name(d))],
        d is Macro ==> listed_kind(d) == DeclarationKind::Macro,
        d is Opaque ==> listed_kind(d) == DeclarationKind::Opaque,
{
}

/// A function of an implementation block that carries the bare `pub` yields
/// exactly one record: appended to a block, it adds its record at the end.
pub proof fn lemma_member_public_listed_once(
    file: Seq<char>,
    trait_path: Option<Seq<Seq<char>>>,
    functions: Seq<HeaderView>,
    function: HeaderView,
)
    requires
        function.modifier.public(),
    ensures
        member_records(file, trait_path, functions.push(function)) == member_records(
            file,
            trait_path,
            functions,
        ).push(member_record(file, trait_path, function)),
        foreign_records(file, functions.push(function)) == foreign_records(file, functions).push(
            plain_record(file, DeclarationKind::ForeignFunction, function),
        ),
{
    assert(functions.push(function).drop_last() =~= functions);
}

/// Nothing is merged: what two lists of declarations yield one after the
/// other is what the first yields followed by what the second yields, so a
/// declaration that occurs twice is listed twice.
pub proof fn lemma_records_of_all_concat(file: Seq<char>, a: Seq<DeclarationView>, b: Seq<DeclarationView>)
    ensures
        records_of_all(file, a + b) == records_of_all(file, a) + records_of_all(file, b),
    decreases b.len(),
{
    if b.len() == 0 {
        assert(a + b =~= a);
        assert(records_of_all(file, a) + records_of_all(file, b) =~= records_of_all(file, a));
    } else {
        lemma_records_of_all_concat(file, a, b.drop_last());
        assert((a + b).drop_last() =~= a + b.drop_last());
        assert((a + b).last() == b.last());
        assert(records_of_all(file, a + b) =~= records_of_all(file, a) + records_of_all(file, b));
    }
}

proof fn lemma_own_records_in_order_concat(file: Seq<char>, a: Seq<DeclarationView>, b: Seq<DeclarationView>)
    ensures
        own_records_in_order(file, a + b) == own_records_in_order(file, a) + own_records_in_order(
            file,
            b,
        ),
    decreases b.len(),
{
    if b.len() == 0 {
        assert(a + b =~= a);
        assert(own_records_in_order(file, a) + own_records_in_order(file, b) =~= own_records_in_order(
            file,
            a,
        ));
    } else {
        lemma_own_records_in_order_concat(file, a, b.drop_last());
        assert((a + b).drop_last() =~= a + b.drop_last());
        assert((a + b).last() == b.last());
        assert(own_records_in_order(file, a + b) =~= own_records_in_order(file, a)
            + own_records_in_order(file, b));
    }
}

/// Nesting leaves no trace in the result: the records of a tree are the own
/// records of its declarations, taken in the order of the walk, in one flat
/// list.
pub proof fn lemma_walk_flattens(file: Seq<char>, items: Seq<DeclarationView>)
    ensures
        records_of_all(file, items) == own_records_in_order(file, walk_order(items)),
    decreases items,
{
    if items.len() > 0 {
        let head = items.drop_last();
        let d = items.last();
        lemma_walk_flattens(file, head);
        lemma_own_records_in_order_concat(file, walk_order(head), walk_from(d));
        lemma_walk_from_flattens(file, d);
    }
}

/// The records of one declaration are the own records of what the walk
/// meets from it on.
pub proof fn lemma_walk_from_flattens(file: Seq<char>, d: DeclarationView)
    ensures
        records_of(file, d) == own_records_in_order(file, walk_from(d)),
    decreases d,
{
    assert(seq![d].drop_last() =~= Seq::<DeclarationView>::empty());
    assert(own_records_in_order(file, Seq::<DeclarationView>::empty()) =~= Seq::<RecordView>::empty());
    assert(own_records_in_order(file, seq![d]) =~= own_records(file, d));
    match d {
        DeclarationView::Module { header, body } => {
            lemma_walk_flattens(file, body);
            lemma_own_records_in_order_concat(file, seq![d], walk_order(body));
        },
        _ => {},
    }
}

/// The place in the records of a tree at which the run of the declaration
/// at place `i` of the walk `walk` begins: behind the runs of the
/// declarations that the walk met before it.
pub open spec fn run_start(file: Seq<char>, walk: Seq<DeclarationView>, i: int) -> int {
    own_records_in_order(file, walk.subrange(0, i)).len() as int
}

/// The records of a tree are made of one run for each declaration that the
/// walk meets, in the order of the walk, and a declaration's run holds its
/// own records and nothing else.
pub proof fn lemma_records_by_declaration(file: Seq<char>, items: Seq<DeclarationView>, i: int)
    requires
        0 <= i < walk_order(items).len(),
    ensures
        0 <= run_start(file, walk_order(items), i) <= run_start(file, walk_order(items), i + 1)
            <= records_of_all(file, items).len(),
        records_of_all(file, items).subrange(
            run_start(file, walk_order(items), i),
            run_start(file, walk_order(items), i + 1),
        ) == own_records(file, walk_order(items)[i]),
{
    let walk = walk_order(items);
    let before = walk.subrange(0, i);
    let upto = walk.subrange(0, i + 1);
    let behind = walk.subrange(i + 1, walk.len() as int);
    lemma_walk_flattens(file, items);
    assert(upto.drop_last() =~= before);
    assert(upto.last() == walk[i]);
    assert(walk =~= upto + behind);
    lemma_own_records_in_order_concat(file, upto, behind);
    assert(records_of_all(file, items).subrange(
        run_start(file, walk, i),
        run_start(file, walk, i + 1),
    ) =~= own_records(file, walk[i]));
}

/// Wherever in a tree a declaration carries the bare `pub`, the records of
/// the tree hold its record, of its kind and under its name, at the start of
/// its run; the rest of the run holds no other record of that kind.
pub proof fn lemma_public_is_in_the_records(file: Seq<char>, items: Seq<DeclarationView>, i: int)
    requires
        0 <= i < walk_order(items).len(),
        walk_order(items)[i].modifier() matches Some(m) && m.public(),
    ensures
        run_start(file, walk_order(items), i) < run_start(file, walk_order(items), i + 1),
        run_start(file, walk_order(items), i + 1) <= records_of_all(file, items).len(),
        records_of_all(file, items)[run_start(file, walk_order(items), i)].kind == listed_kind(
            walk_order(items)[i],
        ),
        records_of_all(file, items)[run_start(file, walk_order(items), i)].name == listed_name(
            walk_order(items)[i],
        ),
        forall|k: int|
            run_start(file, walk_order(items), i) < k < run_start(file, walk_order(items), i + 1)
                ==> (#[trigger] records_of_all(file, items)[k]).kind != listed_kind(walk_order(items)[i]),
{
    let walk = walk_order(items);
    let d = walk[i];
    let from = run_start(file, walk, i);
    let to = run_start(file, walk, i + 1);
    let records = records_of_all(file, items);
    lemma_records_by_declaration(file, items, i);
    lemma_public_listed_once(file, d);
    let run = records.subrange(from, to);
    assert(run.len() == to - from);
    assert(run[0] == records[from]);
    assert forall|k: int| from < k < to implies (#[trigger] records[k]).kind != listed_kind(d) by {
        assert(run[k - from] == records[k]);
    }
}

/// Wherever in a tree a declaration carries a modifier that is not the bare
/// `pub`, or could carry one and has none, its run in the records of the
/// tree is empty: no record stands for it.
pub proof fn lemma_not_public_is_not_in_the_records(file: Seq<char>, items: Seq<DeclarationView>, i: int)
    requires
        0 <= i < walk_order(items).len(),
        walk_order(items)[i].modifier() matches Some(m) && !m.public(),
    ensures
        run_start(file, walk_order(items), i) == run_start(file, walk_order(items), i + 1),
{
    lemma_records_by_declaration(file, items, i);
    lemma_not_public_not_listed(file, walk_order(items)[i]);
}

/// The walk reaches every declaration of a tree, at whatever depth: each of
/// `items`, and with a module all that the walk of its body reaches.
pub proof fn lemma_walk_reaches(items: Seq<DeclarationView>, i: int)
    requires
        0 <= i < items.len(),
    ensures
        walk_order(items).contains(items[i]),
        forall|d: DeclarationView| #[trigger]
            walk_order(items[i].nested()).contains(d) ==> walk_order(items).contains(d),
    decreases items.len(),
{
    let head = items.drop_last();
    let last = items.last();
    let walk = walk_order(items);
    let from_last = walk_from(last);
    assert(walk == walk_order(head) + from_last);
    if i == items.len() - 1 {
        assert(from_last[0] == last);
        assert(walk[walk_order(head).len() as int] == last);
        assert forall|d: DeclarationView| #[trigger] walk_order(last.nested()).contains(d) implies walk.contains(
            d,
        ) by {
            let nested = walk_order(last.nested());
            let k = choose|k: int| 0 <= k < nested.len() && nested[k] == d;
            match last {
                DeclarationView::Module { header, body } => {
                    assert(from_last[1 + k] == d);
                    assert(walk[walk_order(head).len() + 1 + k] == d);
                },
                _ => {
                    assert(last.nested() =~= Seq::<DeclarationView>::empty());
                },
            }
        }
    } else {
        lemma_walk_reaches(head, i);
        assert(head[i] == items[i]);
        let k = choose|k: int| 0 <= k < walk_order(head).len() && walk_order(head)[k] == items[i];
        assert(walk[k] == items[i]);
        assert forall|d: DeclarationView| #[trigger] walk_order(items[i].nested()).contains(d) implies walk.contains(
            d,
        ) by {
            assert(walk_order(head).contains(d));
            let k = choose|k: int| 0 <= k < walk_order(head).len() && walk_order(head)[k] == d;
            assert(walk[k] == d);
        }
    }
}

/// A public trait lists itself and then each of its functions, in order,
/// under the trait's name. The modifier of a function plays no part.
pub proof fn lemma_trait_functions_listed(file: Seq<char>, d: DeclarationView)
    requires
        d is Trait,
        d->Trait_header.modifier.public(),
    ensures
        own_records(file, d).len() == 1 + d->Trait_functions.len(),
        own_records(file, d)[0] == plain_record(file, DeclarationKind::Trait, d->Trait_header),
        forall|i: int|
            0 <= i < d->Trait_functions.len() ==> #[trigger] own_records(file, d)[1 + i]
                == method_record(file, d->Trait_header.name, d->Trait_functions[i]),
        forall|i: int|
            0 <= i < d->Trait_functions.len() ==> (#[trigger] own_records(file, d)[1 + i]).kind
                == DeclarationKind::TraitFunction && own_records(file, d)[1 + i].name == qualified(
                d->Trait_header.name,
                d->Trait_functions[i].name,
            ),
{
}

/// A function `f` of a block that implements a trait is listed as a trait
/// function under `Trait::f`, where `Trait` is the last segment of the
/// trait's path. The same function in an inherent block is listed as a
/// function under `f`. The two records differ in kind and in name, and a
/// tree that holds both blocks lists both.
pub proof fn lemma_impl_forms_kept_apart(
    file: Seq<char>,
    for_trait: DeclarationView,
    inherent: DeclarationView,
    function: HeaderView,
)
    requires
        function.modifier.public(),
        for_trait is Impl,
        for_trait->Impl_trait_path is Some,
        for_trait->Impl_functions == seq![function],
        inherent is Impl,
        inherent->Impl_trait_path is None,
        inherent->Impl_functions == seq![function],
    ensures
        records_of_all(file, seq![for_trait, inherent]).len() == 2,
        records_of_all(file, seq![for_trait, inherent])[0].kind == DeclarationKind::TraitFunction,
        records_of_all(file, seq![for_trait, inherent])[0].name == qualified(
            last_segment(for_trait->Impl_trait_path->0),
            function.name,
        ),
        records_of_all(file, seq![for_trait, inherent])[1].kind == DeclarationKind::Function,
        records_of_all(file, seq![for_trait, inherent])[1].name == function.name,
        records_of_all(file, seq![for_trait, inherent])[0].name != records_of_all(
            file,
            seq![for_trait, inherent],
        )[1].name,
{
    reveal_strlit("::");
    let path = for_trait->Impl_trait_path->0;
    let both = seq![for_trait, inherent];
    assert(both.drop_last() =~= seq![for_trait]);
    assert(seq![for_trait].drop_last() =~= Seq::<DeclarationView>::empty());
    assert(seq![function].drop_last() =~= Seq::<HeaderView>::empty());
    assert(member_records(file, Some(path), Seq::<HeaderView>::empty()) =~= Seq::<RecordView>::empty());
    assert(member_records(file, Some(path), seq![function]) =~= seq![
        member_record(file, Some(path), function),
    ]);
    assert(member_records(file, None, Seq::<HeaderView>::empty()) =~= Seq::<RecordView>::empty());
    assert(member_records(file, None, seq![function]) =~= seq![member_record(file, None, function)]);
    let name = qualified(last_segment(path), function.name);
    assert(name.len() == last_segment(path).len() + 2 + function.name.len());
    assert(records_of_all(file, Seq::<DeclarationView>::empty()) =~= Seq::<RecordView>::empty());
    assert(records_of_all(file, seq![for_trait]) =~= records_of(file, for_trait));
    assert(records_of_all(file, both) =~= records_of(file, for_trait) + records_of(file, inherent));
}

} // verus!
