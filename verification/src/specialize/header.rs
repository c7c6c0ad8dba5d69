//! The text of an impl's header.
use rustc_data_structures::fx::FxIndexSet;
use vstd::prelude::*;

use crate::fx::{
    index_set_insert, index_set_items, index_set_new, index_set_swap_remove, index_set_to_vec,
    inserted, swap_removed,
};
use crate::specialize::def_id::DefId;
use crate::text::{join, joined, str_eq, views};

verus! {

/// What a generic argument stands for.
#[derive(Clone, Copy, PartialEq, Eq, Debug, Structural)]
pub enum GenericArgKind {
    Lifetime,
    Type,
    Const,
}

/// A generic parameter of an impl: its identity and how it prints. Equal types
/// have equal identities.
pub struct HeaderArg {
    pub kind: GenericArgKind,
    pub id: u64,
    pub text: String,
}

/// A bound on a type: the trait, and the identity of the type.
#[derive(Clone, Copy, PartialEq, Eq, Debug, Structural)]
pub struct TraitClause {
    pub def_id: DefId,
    pub self_ty: u64,
}

/// A predicate of an impl: the bound that it is, where it is one, and how it
/// prints.
pub struct HeaderPredicate {
    pub trait_clause: Option<TraitClause>,
    pub text: String,
}

/// What the compiler knows of an impl of a trait: its generic parameters, how
/// the trait and the implementing type print, and its predicates, the implicit
/// `Sized` bounds among them.
pub struct ImplHeader {
    pub args: Vec<HeaderArg>,
    pub trait_path: String,
    pub self_ty: String,
    pub sized_trait: Option<DefId>,
    pub predicates: Vec<HeaderPredicate>,
}

/// How the generic parameters print, without the anonymous lifetimes.
pub open spec fn arg_names(args: Seq<HeaderArg>) -> Seq<Seq<char>>
    decreases args.len(),
{
    if args.len() == 0 {
        Seq::empty()
    } else {
        let before = arg_names(args.drop_last());
        if args.last().text@ == "'_"@ {
            before
        } else {
            before.push(args.last().text@)
        }
    }
}

/// Whether `id` is the identity of a type parameter.
pub open spec fn is_type_param(args: Seq<HeaderArg>, id: u64) -> bool {
    exists|i: int|
        0 <= i < args.len() && (#[trigger] args[i]).kind == GenericArgKind::Type && args[i].id
            == id
}

/// The identities of the type parameters, each where it first occurs.
pub open spec fn type_params(args: Seq<HeaderArg>) -> Seq<u64>
    decreases args.len(),
{
    if args.len() == 0 {
        Seq::empty()
    } else {
        let before = type_params(args.drop_last());
        if args.last().kind == GenericArgKind::Type {
            inserted(before, args.last().id)
        } else {
            before
        }
    }
}

/// How the type parameter with the identity `id` prints.
pub open spec fn type_text(args: Seq<HeaderArg>, id: u64) -> Seq<char>
    decreases args.len(),
{
    if args.len() == 0 {
        Seq::empty()
    } else if args[0].kind == GenericArgKind::Type && args[0].id == id {
        args[0].text@
    } else {
        type_text(args.drop_first(), id)
    }
}

/// The type on which `predicate` is a `Sized` bound, where it is one.
pub open spec fn sized_bound(sized_trait: Option<DefId>, predicate: HeaderPredicate) -> Option<
    u64,
> {
    match predicate.trait_clause {
        Some(clause) if sized_trait == Some(clause.def_id) => Some(clause.self_ty),
        _ => None,
    }
}

/// The type parameters in `start` that no `Sized` bound among `predicates`
/// takes out.
pub open spec fn without_sized(
    start: Seq<u64>,
    sized_trait: Option<DefId>,
    predicates: Seq<HeaderPredicate>,
) -> Seq<u64>
    decreases predicates.len(),
{
    if predicates.len() == 0 {
        start
    } else {
        let before = without_sized(start, sized_trait, predicates.drop_last());
        match sized_bound(sized_trait, predicates.last()) {
            Some(ty) => swap_removed(before, ty),
            None => before,
        }
    }
}

/// How the predicates print, without the `Sized` bounds.
pub open spec fn written_bounds(
    sized_trait: Option<DefId>,
    predicates: Seq<HeaderPredicate>,
) -> Seq<Seq<char>>
    decreases predicates.len(),
{
    if predicates.len() == 0 {
        Seq::empty()
    } else {
        let before = written_bounds(sized_trait, predicates.drop_last());
        match sized_bound(sized_trait, predicates.last()) {
            Some(_) => before,
            None => before.push(predicates.last().text@),
        }
    }
}

impl ImplHeader {
    /// The type parameters that the impl does not require to be `Sized`. Where
    /// no parameter has a name, none is looked at.
    pub open spec fn unsized_params(&self) -> Seq<u64> {
        let start = if arg_names(self.args@).len() > 0 {
            type_params(self.args@)
        } else {
            Seq::empty()
        };
        without_sized(start, self.sized_trait, self.predicates@)
    }

    /// The `?Sized` bounds, as they print.
    pub open spec fn relaxed_bounds(&self) -> Seq<Seq<char>> {
        self.unsized_params().map_values(|id: u64| type_text(self.args@, id) + ": ?Sized"@)
    }

    /// The bounds of the `where` clause, as they print.
    pub open spec fn where_bounds(&self) -> Seq<Seq<char>> {
        written_bounds(self.sized_trait, self.predicates@) + self.relaxed_bounds()
    }

    /// The generic parameter list, as it prints.
    pub open spec fn pretty_args(&self) -> Seq<char> {
        let names = arg_names(self.args@);
        if names.len() > 0 {
            "<"@ + joined(names, ", "@) + ">"@
        } else {
            Seq::empty()
        }
    }

    /// The `where` clause, as it prints.
    pub open spec fn pretty_where(&self) -> Seq<char> {
        if self.where_bounds().len() > 0 {
            "\n  where "@ + joined(self.where_bounds(), ", "@)
        } else {
            Seq::empty()
        }
    }

    /// The whole header, as it prints.
    pub open spec fn pretty(&self) -> Seq<char> {
        "impl"@ + self.pretty_args() + " "@ + self.trait_path@ + " for "@ + self.self_ty@
            + self.pretty_where() + ";"@
    }
}

/// `swap_remove` takes out one item and keeps the others.
proof fn lemma_swap_removed(items: Seq<u64>, item: u64)
    requires
        items.no_duplicates(),
    ensures
        swap_removed(items, item).no_duplicates(),
        forall|x: u64| #[trigger]
            swap_removed(items, item).contains(x) <==> items.contains(x) && x != item,
{
    let after = swap_removed(items, item);
    if items.contains(item) {
        let at = items.index_of(item);
        let last = items.len() - 1;
        assert(items[at] == item);
        assert forall|x: u64| #[trigger]
            after.contains(x) implies items.contains(x) && x != item by {
            let i = after.index_of(x);
            if i == at {
                assert(after[i] == items[last]);
            } else {
                assert(after[i] == items[i]);
            }
        }
        assert forall|x: u64| items.contains(x) && x != item implies #[trigger] after.contains(
            x,
        ) by {
            let i = items.index_of(x);
            if i == last {
                assert(after[at] == x);
            } else {
                assert(after[i] == x);
            }
        }
    }
}

proof fn lemma_type_params(args: Seq<HeaderArg>)
    ensures
        type_params(args).no_duplicates(),
        forall|id: u64| #[trigger] type_params(args).contains(id) <==> is_type_param(args, id),
    decreases args.len(),
{
    if args.len() > 0 {
        let front = args.drop_last();
        lemma_type_params(front);
        let before = type_params(front);
        let after = type_params(args);
        assert forall|id: u64| #[trigger] after.contains(id) implies is_type_param(args, id) by {
            if before.contains(id) {
                let i = choose|i: int|
                    0 <= i < front.len() && (#[trigger] front[i]).kind == GenericArgKind::Type
                        && front[i].id == id;
                assert(args[i] == front[i]);
            } else {
                assert(args[args.len() - 1].id == id);
            }
        }
        assert forall|id: u64| is_type_param(args, id) implies #[trigger] after.contains(id) by {
            let i = choose|i: int|
                0 <= i < args.len() && (#[trigger] args[i]).kind == GenericArgKind::Type
                    && args[i].id == id;
            if i < front.len() {
                assert(front[i] == args[i]);
                assert(before.contains(id));
                let k = before.index_of(id);
                assert(after[k] == id);
            } else if !before.contains(id) {
                assert(after.last() == id);
            }
        }
    }
}

/// Whether some predicate is a `Sized` bound on `id`.
pub open spec fn has_sized_bound(
    sized_trait: Option<DefId>,
    predicates: Seq<HeaderPredicate>,
    id: u64,
) -> bool {
    exists|i: int|
        0 <= i < predicates.len() && sized_bound(sized_trait, #[trigger] predicates[i]) == Some(id)
}

proof fn lemma_without_sized(
    start: Seq<u64>,
    sized_trait: Option<DefId>,
    predicates: Seq<HeaderPredicate>,
)
    requires
        start.no_duplicates(),
    ensures
        without_sized(start, sized_trait, predicates).no_duplicates(),
        forall|id: u64| #[trigger]
            without_sized(start, sized_trait, predicates).contains(id) <==> start.contains(id)
                && !has_sized_bound(sized_trait, predicates, id),
    decreases predicates.len(),
{
    if predicates.len() > 0 {
        let front = predicates.drop_last();
        let last = predicates.len() - 1;
        lemma_without_sized(start, sized_trait, front);
        let before = without_sized(start, sized_trait, front);
        match sized_bound(sized_trait, predicates.last()) {
            Some(ty) => lemma_swap_removed(before, ty),
            None => {},
        }
        assert forall|id: u64|
            has_sized_bound(sized_trait, predicates, id) <==> (has_sized_bound(
                sized_trait,
                front,
                id,
            ) || sized_bound(sized_trait, predicates[last]) == Some(id)) by {
            if has_sized_bound(sized_trait, predicates, id) {
                let i = choose|i: int|
                    0 <= i < predicates.len() && sized_bound(sized_trait, #[trigger] predicates[i])
                        == Some(id);
                if i < last {
                    assert(front[i] == predicates[i]);
                }
            }
            if has_sized_bound(sized_trait, front, id) {
                let i = choose|i: int|
                    0 <= i < front.len() && sized_bound(sized_trait, #[trigger] front[i]) == Some(
                        id,
                    );
                assert(predicates[i] == front[i]);
            }
        }
    }
}

/// A type parameter gets a `?Sized` bound exactly where the impl places no
/// `Sized` bound on it, and gets it once.
pub proof fn law_relaxed_bounds(header: &ImplHeader, id: u64)
    requires
        arg_names(header.args@).len() > 0,
    ensures
        header.unsized_params().contains(id) <==> is_type_param(header.args@, id)
            && !has_sized_bound(header.sized_trait, header.predicates@, id),
        header.unsized_params().no_duplicates(),
        header.relaxed_bounds().len() == header.unsized_params().len(),
{
    lemma_type_params(header.args@);
    lemma_without_sized(type_params(header.args@), header.sized_trait, header.predicates@);
}

/// A header begins with the keyword and ends with a semicolon, whatever the impl.
pub proof fn law_header_shape(header: &ImplHeader)
    ensures
        "impl"@.is_prefix_of(header.pretty()),
        ";"@.is_suffix_of(header.pretty()),
{
    reveal_strlit("impl");
    reveal_strlit(";");
    let text = header.pretty();
    assert(text.subrange(0, 4) =~= "impl"@);
    assert(text.subrange(text.len() - 1, text.len() as int) =~= ";"@);
}

fn collect_arg_names(args: &Vec<HeaderArg>) -> (names: Vec<String>)
    ensures
        views(names@) == arg_names(args@),
{
    let mut names: Vec<String> = Vec::new();
    let mut i: usize = 0;
    assert(args@.take(0) =~= Seq::<HeaderArg>::empty());
    while i < args.len()
        invariant
            i <= args@.len(),
            views(names@) =~= arg_names(args@.take(i as int)),
        decreases args@.len() - i,
    {
        assert(args@.take(i + 1).drop_last() =~= args@.take(i as int));
        if !str_eq(args[i].text.as_str(), "'_") {
            names.push(args[i].text.clone());
        }
        i += 1;
    }
    assert(args@.take(i as int) =~= args@);
    names
}

fn collect_type_params(args: &Vec<HeaderArg>) -> (params: FxIndexSet<u64>)
    ensures
        index_set_items(params) == type_params(args@),
{
    let mut params: FxIndexSet<u64> = index_set_new();
    let mut i: usize = 0;
    assert(args@.take(0) =~= Seq::<HeaderArg>::empty());
    while i < args.len()
        invariant
            i <= args@.len(),
            index_set_items(params) == type_params(args@.take(i as int)),
        decreases args@.len() - i,
    {
        assert(args@.take(i + 1).drop_last() =~= args@.take(i as int));
        if args[i].kind == GenericArgKind::Type {
            index_set_insert(&mut params, args[i].id);
        }
        i += 1;
    }
    assert(args@.take(i as int) =~= args@);
    params
}

fn find_type_text(args: &Vec<HeaderArg>, id: u64) -> (text: String)
    ensures
        text@ == type_text(args@, id),
{
    let mut i: usize = 0;
    assert(args@.skip(0) =~= args@);
    while i < args.len()
        invariant
            i <= args@.len(),
            type_text(args@.skip(i as int), id) == type_text(args@, id),
        decreases args@.len() - i,
    {
        assert(args@.skip(i as int).drop_first() =~= args@.skip(i + 1));
        if args[i].kind == GenericArgKind::Type && args[i].id == id {
            return args[i].text.clone();
        }
        i += 1;
    }
    String::new()
}

/// The type on which `predicate` is a `Sized` bound, where it is one.
fn find_sized_bound(sized_trait: Option<DefId>, predicate: &HeaderPredicate) -> (ty: Option<u64>)
    ensures
        ty == sized_bound(sized_trait, *predicate),
{
    match (predicate.trait_clause, sized_trait) {
        (Some(clause), Some(sized)) => if clause.def_id == sized {
            Some(clause.self_ty)
        } else {
            None
        },
        _ => None,
    }
}

/// Recovers the "impl X for Y" signature of an impl of a trait. There is none
/// for an impl that is not one of a trait.
///
/// The predicates hold default bounds like `T: Sized`. These are removed, and
/// `T: ?Sized` is added for every type parameter that has none.
pub fn to_pretty_impl_header(header: Option<&ImplHeader>) -> (text: Option<String>)
    ensures
        header is None <==> text is None,
        header matches Some(known) ==> text->0@ == known.pretty(),
{
    let header: &ImplHeader = match header {
        Some(header) => header,
        None => {
            return None;
        },
    };
    let mut w: String = String::from_str("impl");
    let names: Vec<String> = collect_arg_names(&header.args);
    let mut unsized_types: FxIndexSet<u64> = index_set_new();
    assert(names@.len() == views(names@).len());
    if !names.is_empty() {
        unsized_types = collect_type_params(&header.args);
        w.append("<");
        w.append(join(&names, ", ").as_str());
        w.append(">");
    }
    assert(w@ =~= "impl"@ + header.pretty_args());
    w.append(" ");
    w.append(header.trait_path.as_str());
    w.append(" for ");
    w.append(header.self_ty.as_str());

    let ghost start = index_set_items(unsized_types);
    let predicates: &Vec<HeaderPredicate> = &header.predicates;
    let mut bounds: Vec<String> = Vec::new();
    let mut i: usize = 0;
    assert(predicates@.take(0) =~= Seq::<HeaderPredicate>::empty());
    while i < predicates.len()
        invariant
            i <= predicates@.len(),
            *predicates == header.predicates,
            index_set_items(unsized_types) == without_sized(
                start,
                header.sized_trait,
                predicates@.take(i as int),
            ),
            views(bounds@) =~= written_bounds(header.sized_trait, predicates@.take(i as int)),
        decreases predicates@.len() - i,
    {
        assert(predicates@.take(i + 1).drop_last() =~= predicates@.take(i as int));
        match find_sized_bound(header.sized_trait, &predicates[i]) {
            Some(ty) => {
                index_set_swap_remove(&mut unsized_types, ty);
            },
            None => {
                bounds.push(predicates[i].text.clone());
            },
        }
        i += 1;
    }
    assert(predicates@.take(i as int) =~= predicates@);
    let relaxed: Vec<u64> = index_set_to_vec(&unsized_types);
    let ghost written = views(bounds@);
    let mut k: usize = 0;
    assert(header.relaxed_bounds().take(0) =~= Seq::<Seq<char>>::empty());
    while k < relaxed.len()
        invariant
            k <= relaxed@.len(),
            relaxed@ == header.unsized_params(),
            views(bounds@) =~= written + header.relaxed_bounds().take(k as int),
        decreases relaxed@.len() - k,
    {
        let mut bound: String = find_type_text(&header.args, relaxed[k]);
        bound.append(": ?Sized");
        let ghost before = bounds@;
        bounds.push(bound);
        assert(header.relaxed_bounds()[k as int] =~= bound@);
        assert(header.relaxed_bounds().take(k + 1) =~= header.relaxed_bounds().take(
            k as int,
        ).push(bound@));
        assert(views(bounds@) =~= views(before).push(bound@));
        k += 1;
    }
    assert(header.relaxed_bounds().take(k as int) =~= header.relaxed_bounds());
    assert(views(bounds@) =~= header.where_bounds());
    if !bounds.is_empty() {
        w.append("\n  where ");
        w.append(join(&bounds, ", ").as_str());
    }
    w.append(";");
    assert(w@ =~= header.pretty());
    Some(w)
}

/// The names in a generic parameter list are those of the parameters, in their
/// order, without the anonymous lifetimes and without any other left out.
pub proof fn law_arg_names(args: Seq<HeaderArg>)
    ensures
        arg_names(args) == args.map_values(|arg: HeaderArg| arg.text@).filter(
            |text: Seq<char>| text != "'_"@,
        ),
    decreases args.len(),
{
    let texts = args.map_values(|arg: HeaderArg| arg.text@);
    let named = |text: Seq<char>| text != "'_"@;
    if args.len() == 0 {
        assert(texts.filter(named) =~= Seq::<Seq<char>>::empty()) by {
            reveal(Seq::filter);
        }
    } else {
        let front = args.drop_last();
        law_arg_names(front);
        assert(texts.drop_last() =~= front.map_values(|arg: HeaderArg| arg.text@));
        assert(texts.last() == args.last().text@);
        reveal(Seq::filter);
    }
}

/// The bounds that are written out are the predicates that are no `Sized` bounds,
/// in their order and without any other left out.
pub proof fn law_written_bounds(sized_trait: Option<DefId>, predicates: Seq<HeaderPredicate>)
    ensures
        written_bounds(sized_trait, predicates) == predicates.filter(
            |p: HeaderPredicate|
                !(p.trait_clause matches Some(clause) && sized_trait == Some(clause.def_id)),
        ).map_values(|p: HeaderPredicate| p.text@),
    decreases predicates.len(),
{
    let written = |p: HeaderPredicate|
        !(p.trait_clause matches Some(clause) && sized_trait == Some(clause.def_id));
    let text = |p: HeaderPredicate| p.text@;
    let kept = predicates.filter(written);
    if predicates.len() == 0 {
        assert(kept =~= Seq::<HeaderPredicate>::empty()) by {
            reveal(Seq::filter);
        }
        assert(kept.map_values(text) =~= Seq::<Seq<char>>::empty());
    } else {
        let front = predicates.drop_last();
        let last = predicates.last();
        law_written_bounds(sized_trait, front);
        let before = front.filter(written);
        assert(kept == (if written(last) {
            before.push(last)
        } else {
            before
        })) by {
            reveal(Seq::filter);
        }
        assert(before.push(last).map_values(text) =~= before.map_values(text).push(last.text@));
    }
}

/// A predicate is a `Sized` bound on a type exactly where it is a bound on that
/// type by the `Sized` trait, as far as there is one.
pub proof fn law_sized_bound(sized_trait: Option<DefId>, predicate: HeaderPredicate, id: u64)
    ensures
        sized_bound(sized_trait, predicate) == Some(id) <==> sized_trait is Some
            && predicate.trait_clause == Some(TraitClause { def_id: sized_trait->0, self_ty: id }),
        sized_bound(sized_trait, predicate) is None <==> sized_trait is None || (
        predicate.trait_clause matches Some(clause) ==> Some(clause.def_id) != sized_trait),
{
}

/// The position at which a type parameter is first mentioned.
pub open spec fn is_first_mention(args: Seq<HeaderArg>, at: int, id: u64) -> bool {
    &&& 0 <= at < args.len()
    &&& args[at].kind == GenericArgKind::Type
    &&& args[at].id == id
    &&& forall|k: int|
        0 <= k < at ==> !((#[trigger] args[k]).kind == GenericArgKind::Type && args[k].id == id)
}

proof fn lemma_first_mention(args: Seq<HeaderArg>, i: int) -> (at: int)
    requires
        0 <= i < type_params(args).len(),
    ensures
        is_first_mention(args, at, type_params(args)[i]),
    decreases args.len(),
{
    let front = args.drop_last();
    let before = type_params(front);
    if i < before.len() {
        let at = lemma_first_mention(front, i);
        assert(forall|k: int| 0 <= k < front.len() ==> #[trigger] args[k] == front[k]);
        at
    } else {
        let at = args.len() - 1;
        lemma_type_params(front);
        let id = args[at].id;
        assert(!before.contains(id));
        assert forall|k: int| 0 <= k < at implies !((#[trigger] args[k]).kind
            == GenericArgKind::Type && args[k].id == id) by {
            assert(front[k] == args[k]);
            if front[k].kind == GenericArgKind::Type && front[k].id == id {
                assert(is_type_param(front, id));
            }
        }
        at
    }
}

proof fn lemma_mentions_in_order(args: Seq<HeaderArg>, i: int, j: int, at: int, other: int)
    requires
        0 <= i < j < type_params(args).len(),
        is_first_mention(args, at, type_params(args)[i]),
        is_first_mention(args, other, type_params(args)[j]),
    ensures
        at < other,
    decreases args.len(),
{
    let front = args.drop_last();
    let before = type_params(front);
    let last = args.len() - 1;
    assert(forall|k: int| 0 <= k < front.len() ==> #[trigger] args[k] == front[k]);
    lemma_type_params(args);
    let early = lemma_first_mention(front, i);
    assert(is_first_mention(args, early, type_params(args)[i]));
    assert(early == at);
    if j < before.len() {
        let late = lemma_first_mention(front, j);
        assert(is_first_mention(args, late, type_params(args)[j]));
        assert(late == other);
        assert(is_first_mention(front, at, before[i]));
        assert(is_first_mention(front, other, before[j]));
        lemma_mentions_in_order(front, i, j, at, other);
    } else {
        assert(type_params(args)[j] == args[last].id);
        assert(!before.contains(args[last].id));
        if other < last {
            assert(front[other] == args[other]);
            lemma_type_params(front);
            assert(is_type_param(front, args[last].id));
        }
    }
}

/// The type parameters are listed once each, in the order in which they are first
/// mentioned.
pub proof fn law_type_params(args: Seq<HeaderArg>, i: int, j: int, at: int, other: int, id: u64)
    requires
        0 <= i < j < type_params(args).len(),
        is_first_mention(args, at, type_params(args)[i]),
        is_first_mention(args, other, type_params(args)[j]),
    ensures
        at < other,
        type_params(args)[i] != type_params(args)[j],
        type_params(args).contains(id) <==> exists|k: int|
            0 <= k < args.len() && (#[trigger] args[k]).kind == GenericArgKind::Type && args[k].id
                == id,
{
    lemma_type_params(args);
    lemma_mentions_in_order(args, i, j, at, other);
    assert(is_type_param(args, id) <==> exists|k: int|
        0 <= k < args.len() && (#[trigger] args[k]).kind == GenericArgKind::Type && args[k].id
            == id);
}

/// A type parameter prints as it does where it is first mentioned.
pub proof fn law_type_text(args: Seq<HeaderArg>, at: int, id: u64)
    requires
        is_first_mention(args, at, id),
    ensures
        type_text(args, id) == args[at].text@,
    decreases args.len(),
{
    if at > 0 {
        let rest = args.drop_first();
        assert(args[0].kind == GenericArgKind::Type ==> args[0].id != id);
        assert(forall|k: int| 0 <= k < rest.len() ==> #[trigger] rest[k] == args[k + 1]);
        assert(is_first_mention(rest, at - 1, id)) by {
            assert forall|k: int| 0 <= k < at - 1 implies !((#[trigger] rest[k]).kind
                == GenericArgKind::Type && rest[k].id == id) by {
                assert(rest[k] == args[k + 1]);
            }
        }
        law_type_text(rest, at - 1, id);
    }
}

/// Predicates are gone through one after the other. One that is no `Sized` bound
/// changes nothing, nor does one on a type that is not there; any other takes its
/// type out, and the last one moves to its place.
pub proof fn law_sized_bounds_take_out(
    start: Seq<u64>,
    sized_trait: Option<DefId>,
    predicates: Seq<HeaderPredicate>,
    next: HeaderPredicate,
)
    requires
        start.no_duplicates(),
    ensures
        without_sized(start, sized_trait, Seq::empty()) == start,
        ({
            let before = without_sized(start, sized_trait, predicates);
            let after = without_sized(start, sized_trait, predicates.push(next));
            match next.trait_clause {
                Some(clause) if sized_trait == Some(clause.def_id) => if before.contains(
                    clause.self_ty,
                ) {
                    &&& after.len() == before.len() - 1
                    &&& forall|i: int|
                        0 <= i < after.len() ==> #[trigger] after[i] == (if before[i]
                            == clause.self_ty {
                            before.last()
                        } else {
                            before[i]
                        })
                } else {
                    after == before
                },
                _ => after == before,
            }
        }),
{
    lemma_without_sized(start, sized_trait, predicates);
    let before = without_sized(start, sized_trait, predicates);
    assert(predicates.push(next).drop_last() =~= predicates);
    if let Some(clause) = next.trait_clause {
        if sized_trait == Some(clause.def_id) && before.contains(clause.self_ty) {
            let at = before.index_of(clause.self_ty);
            assert(before[at] == clause.self_ty);
            assert forall|i: int|
                0 <= i < before.len() && i != at implies #[trigger] before[i] != clause.self_ty by {
                assert(before[i] != before[at]);
            }
        }
    }
}

/// The bounds of the `where` clause are those that are written out, and behind
/// them `?Sized` for each type parameter without a `Sized` bound. There is none
/// of the latter where no parameter has a name.
pub proof fn law_where_bounds(header: &ImplHeader, i: int)
    requires
        0 <= i < header.where_bounds().len(),
    ensures
        ({
            let written = written_bounds(header.sized_trait, header.predicates@);
            let relaxed = header.unsized_params();
            &&& header.where_bounds().len() == written.len() + relaxed.len()
            &&& i < written.len() ==> header.where_bounds()[i] == written[i]
            &&& i >= written.len() ==> header.where_bounds()[i] == type_text(
                header.args@,
                relaxed[i - written.len()],
            ) + ": ?Sized"@
        }),
        arg_names(header.args@).len() == 0 ==> header.unsized_params().len() == 0,
        arg_names(header.args@).len() > 0 ==> header.unsized_params() == without_sized(
            type_params(header.args@),
            header.sized_trait,
            header.predicates@,
        ),
{
    lemma_without_sized(Seq::empty(), header.sized_trait, header.predicates@);
    if arg_names(header.args@).len() == 0 {
        let left = header.unsized_params();
        if left.len() > 0 {
            assert(left.contains(left[0]));
            assert(Seq::<u64>::empty().contains(left[0]));
        }
    }
}

/// Without parameters that have a name and without bounds, a header names the
/// trait and the type and nothing else. Named parameters come right behind the
/// keyword, in angle brackets; bounds come on a line of their own, before the
/// semicolon.
pub proof fn law_header_text(header: &ImplHeader, text: Option<String>)
    requires
        call_ensures(to_pretty_impl_header, (Some(header),), text),
    ensures
        text matches Some(all) && ({
            let names = arg_names(header.args@);
            let bounds = header.where_bounds();
            let middle = " "@ + header.trait_path@ + " for "@ + header.self_ty@;
            let start = if names.len() == 0 {
                "impl"@
            } else {
                "impl<"@ + joined(names, ", "@) + ">"@
            };
            let end = if bounds.len() == 0 {
                ";"@
            } else {
                "\n  where "@ + joined(bounds, ", "@) + ";"@
            };
            all@ == start + middle + end
        }),
{
    let names = arg_names(header.args@);
    let bounds = header.where_bounds();
    let middle = " "@ + header.trait_path@ + " for "@ + header.self_ty@;
    reveal_strlit("impl");
    reveal_strlit("<");
    reveal_strlit("impl<");
    assert("impl"@ + "<"@ =~= "impl<"@);
    let list = joined(names, ", "@);
    assert("impl"@ + ("<"@ + list + ">"@) =~= ("impl"@ + "<"@) + list + ">"@);
    let all = text->0@;
    assert(all == "impl"@ + header.pretty_args() + " "@ + header.trait_path@ + " for "@
        + header.self_ty@ + header.pretty_where() + ";"@);
    let start = if names.len() == 0 {
        "impl"@
    } else {
        "impl<"@ + list + ">"@
    };
    assert("impl"@ + header.pretty_args() =~= start);
    let end = if bounds.len() == 0 {
        ";"@
    } else {
        "\n  where "@ + joined(bounds, ", "@) + ";"@
    };
    assert(header.pretty_where() + ";"@ =~= end);
    assert(all =~= start + middle + end);
}

/// Only an impl of a trait has a header.
pub proof fn law_no_header(text: Option<String>)
    requires
        call_ensures(to_pretty_impl_header, (None::<&ImplHeader>,), text),
    ensures
        text is None,
{
}

} // verus!
