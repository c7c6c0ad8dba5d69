//! The order in which the impls of a trait are visited.
use vstd::prelude::*;
use vstd::relations::{sorted_by, total_ordering};
use vstd::seq_lib::{group_to_multiset_ensures, lemma_multiset_commutative, lemma_sorted_unique};

use crate::specialize::def_id::DefId;

verus! {

/// Whether `a` is visited before `b`, or is `b`: by falling crate number, so
/// that remote definitions come first, and then by rising index.
pub open spec fn visited_before(a: DefId, b: DefId) -> bool {
    a.krate > b.krate || (a.krate == b.krate && a.index <= b.index)
}

/// The order of visits, as a relation.
pub open spec fn visit_order() -> spec_fn(DefId, DefId) -> bool {
    |a: DefId, b: DefId| visited_before(a, b)
}

/// The sequence is in the order of visits.
pub open spec fn in_visit_order(impls: Seq<DefId>) -> bool {
    sorted_by(impls, visit_order())
}

/// Both sequences hold the same impls, each as often as the other.
pub open spec fn same_impls(a: Seq<DefId>, b: Seq<DefId>) -> bool {
    a.to_multiset() == b.to_multiset()
}

fn comes_before(a: DefId, b: DefId) -> (before: bool)
    ensures
        before == visited_before(a, b),
{
    a.krate > b.krate || (a.krate == b.krate && a.index <= b.index)
}

proof fn lemma_one_more(a: Seq<DefId>, b: Seq<DefId>, all: Seq<DefId>, next: DefId)
    requires
        same_impls(all, a + b),
    ensures
        same_impls(all.push(next), a.push(next) + b),
        same_impls(all.push(next), a + b.push(next)),
{
    broadcast use group_to_multiset_ensures;

    assert((a + b).push(next) =~= a + b.push(next));
    lemma_multiset_commutative(a, b);
    lemma_multiset_commutative(a.push(next), b);
    assert((a.push(next) + b).to_multiset() =~= (a + b).to_multiset().insert(next));
}

fn merge(a: &Vec<DefId>, b: &Vec<DefId>) -> (all: Vec<DefId>)
    requires
        in_visit_order(a@),
        in_visit_order(b@),
    ensures
        in_visit_order(all@),
        same_impls(all@, a@ + b@),
{
    let mut all: Vec<DefId> = Vec::new();
    let mut i: usize = 0;
    let mut j: usize = 0;
    let ghost leq = visit_order();
    proof {
        assert(a@.take(0) + b@.take(0) =~= Seq::<DefId>::empty());
    }
    while i < a.len() || j < b.len()
        invariant
            leq == visit_order(),
            i <= a@.len(),
            j <= b@.len(),
            in_visit_order(a@),
            in_visit_order(b@),
            in_visit_order(all@),
            same_impls(all@, a@.take(i as int) + b@.take(j as int)),
            forall|k: int, m: int|
                0 <= k < all@.len() && i <= m < a@.len() ==> #[trigger] leq(all@[k], a@[m]),
            forall|k: int, m: int|
                0 <= k < all@.len() && j <= m < b@.len() ==> #[trigger] leq(all@[k], b@[m]),
        decreases a@.len() - i + b@.len() - j,
    {
        let from_a: bool = j >= b.len() || (i < a.len() && comes_before(a[i], b[j]));
        if from_a {
            proof {
                let next = a@[i as int];
                lemma_one_more(a@.take(i as int), b@.take(j as int), all@, next);
                assert(a@.take(i + 1) =~= a@.take(i as int).push(next));
                assert forall|m: int| i <= m < a@.len() implies leq(next, #[trigger] a@[m]) by {
                    if m > i {
                        assert(leq(a@[i as int], a@[m]));
                    }
                }
                assert forall|m: int| j <= m < b@.len() implies leq(next, #[trigger] b@[m]) by {
                    if m > j {
                        assert(leq(b@[j as int], b@[m]));
                    }
                }
            }
            all.push(a[i]);
            i += 1;
        } else {
            proof {
                let next = b@[j as int];
                lemma_one_more(a@.take(i as int), b@.take(j as int), all@, next);
                assert(b@.take(j + 1) =~= b@.take(j as int).push(next));
                assert forall|m: int| i <= m < a@.len() implies leq(next, #[trigger] a@[m]) by {
                    if m > i {
                        assert(leq(a@[i as int], a@[m]));
                    }
                }
                assert forall|m: int| j <= m < b@.len() implies leq(next, #[trigger] b@[m]) by {
                    if m > j {
                        assert(leq(b@[j as int], b@[m]));
                    }
                }
            }
            all.push(b[j]);
            j += 1;
        }
    }
    assert(a@.take(i as int) =~= a@);
    assert(b@.take(j as int) =~= b@);
    all
}

fn sort_range(impls: &Vec<DefId>, from: usize, to: usize) -> (sorted: Vec<DefId>)
    requires
        from <= to <= impls@.len(),
    ensures
        in_visit_order(sorted@),
        same_impls(sorted@, impls@.subrange(from as int, to as int)),
    decreases to - from,
{
    if to - from <= 1 {
        let mut sorted: Vec<DefId> = Vec::new();
        if from < to {
            sorted.push(impls[from]);
        }
        assert(sorted@ =~= impls@.subrange(from as int, to as int));
        sorted
    } else {
        let mid: usize = from + (to - from) / 2;
        let low: Vec<DefId> = sort_range(impls, from, mid);
        let high: Vec<DefId> = sort_range(impls, mid, to);
        proof {
            let a = impls@.subrange(from as int, mid as int);
            let b = impls@.subrange(mid as int, to as int);
            assert(impls@.subrange(from as int, to as int) =~= a + b);
            lemma_multiset_commutative(a, b);
            lemma_multiset_commutative(low@, high@);
        }
        merge(&low, &high)
    }
}

/// Puts impls into the order in which they are visited: remote definitions
/// first, each crate in the order of definition.
pub fn sort_impls(impls: &Vec<DefId>) -> (sorted: Vec<DefId>)
    ensures
        in_visit_order(sorted@),
        same_impls(sorted@, impls@),
        sorted@.to_multiset() == impls@.to_multiset(),
{
    assert(impls@.subrange(0, impls@.len() as int) =~= impls@);
    sort_range(impls, 0, impls.len())
}

/// The order of visits does not depend on the order in which the impls were
/// found.
pub proof fn law_visit_order_is_canonical(a: Seq<DefId>, b: Seq<DefId>)
    requires
        in_visit_order(a),
        in_visit_order(b),
        same_impls(a, b),
    ensures
        a == b,
{
    assert(total_ordering(visit_order()));
    lemma_sorted_unique(a, b, visit_order());
}

/// Every remote impl is visited before every local one, and two impls of one
/// crate in the order in which they are defined.
pub proof fn law_remote_impls_first(impls: Seq<DefId>, i: int, j: int)
    requires
        in_visit_order(impls),
        0 <= i < impls.len(),
        0 <= j < impls.len(),
    ensures
        !impls[i].local() && impls[j].local() ==> i < j,
        impls[i].krate == impls[j].krate && impls[i].index < impls[j].index ==> i < j,
{
    if j < i {
        assert(visit_order()(impls[j], impls[i]));
    }
}

/// Of two impls the one of the crate with the greater number is visited first,
/// and within a crate the one with the smaller index.
pub proof fn law_visits_by_crate_then_index(impls: Seq<DefId>, i: int, j: int)
    requires
        in_visit_order(impls),
        0 <= i < impls.len(),
        0 <= j < impls.len(),
    ensures
        impls[i].krate > impls[j].krate ==> i < j,
        impls[i].krate == impls[j].krate && impls[i].index < impls[j].index ==> i < j,
        i < j ==> impls[i].krate >= impls[j].krate,
        i < j && impls[i].krate == impls[j].krate ==> impls[i].index <= impls[j].index,
{
    if j < i {
        assert(visit_order()(impls[j], impls[i]));
    }
    if i < j {
        assert(visit_order()(impls[i], impls[j]));
    }
}

/// No impl is lost, made up or repeated.
pub proof fn law_same_impls(a: Seq<DefId>, b: Seq<DefId>, impl_def_id: DefId)
    requires
        same_impls(a, b),
    ensures
        a.len() == b.len(),
        a.contains(impl_def_id) <==> b.contains(impl_def_id),
        a.to_multiset().count(impl_def_id) == b.to_multiset().count(impl_def_id),
{
    broadcast use group_to_multiset_ensures;

    assert(a.to_multiset().contains(impl_def_id) <==> b.to_multiset().contains(impl_def_id));
    assert(a.to_multiset().len() == b.to_multiset().len());
}

/// Sorting gives the impls that it was given, by falling crate number and then by
/// rising index, and gives the same for every order in which it got them.
pub proof fn law_sorting(
    impls: &Vec<DefId>,
    sorted: Vec<DefId>,
    others: &Vec<DefId>,
    sorted_others: Vec<DefId>,
    impl_def_id: DefId,
    i: int,
    j: int,
)
    requires
        call_ensures(sort_impls, (impls,), sorted),
        call_ensures(sort_impls, (others,), sorted_others),
        0 <= i < j < sorted@.len(),
    ensures
        sorted@.len() == impls@.len(),
        sorted@.to_multiset().count(impl_def_id) == impls@.to_multiset().count(impl_def_id),
        sorted@[i].krate >= sorted@[j].krate,
        sorted@[i].krate == sorted@[j].krate ==> sorted@[i].index <= sorted@[j].index,
        impls@.to_multiset() == others@.to_multiset() ==> sorted@ == sorted_others@,
{
    law_same_impls(sorted@, impls@, impl_def_id);
    law_visits_by_crate_then_index(sorted@, i, j);
    if impls@.to_multiset() == others@.to_multiset() {
        law_visit_order_is_canonical(sorted@, sorted_others@);
    }
}

} // verus!
