//! The insertion-ordered hash set of `rustc_data_structures`, over integers.
//!
//! The set is a `FxIndexSet`, which is an `indexmap::IndexSet` that hashes with
//! `FxHasher`. Its behaviour is taken from the source of `indexmap` and stated
//! below over the sequence of its items.
use rustc_data_structures::fx::{FxHasher, FxIndexSet};
use std::hash::BuildHasherDefault;
use vstd::prelude::*;

verus! {

/// `indexmap::IndexSet`, which Verus treats as opaque.
#[verifier::external_type_specification]
#[verifier::external_body]
#[verifier::reject_recursive_types(T)]
#[verifier::reject_recursive_types(S)]
pub struct ExIndexSet<T, S>(indexmap::IndexSet<T, S>);

/// `rustc_hash::FxHasher`, which Verus treats as opaque.
#[verifier::external_type_specification]
#[verifier::external_body]
pub struct ExFxHasher(FxHasher);

/// `std::hash::BuildHasherDefault`, which Verus treats as opaque.
#[verifier::external_type_specification]
#[verifier::external_body]
#[verifier::reject_recursive_types(H)]
pub struct ExBuildHasherDefault<H>(BuildHasherDefault<H>);

/// The items of `set`, in the order in which iteration yields them.
pub uninterp spec fn index_set_items(set: FxIndexSet<u64>) -> Seq<u64>;

/// The items after an insertion of `item`: a new item goes to the end, one that
/// is there already keeps its place.
pub open spec fn inserted(items: Seq<u64>, item: u64) -> Seq<u64> {
    if items.contains(item) {
        items
    } else {
        items.push(item)
    }
}

/// The items after a removal of `item`: the last item takes its place.
pub open spec fn swap_removed(items: Seq<u64>, item: u64) -> Seq<u64> {
    if items.contains(item) {
        items.update(items.index_of(item), items.last()).drop_last()
    } else {
        items
    }
}

/// Calls `IndexSet::default`, which returns a set without items.
#[verifier::external_body]
pub(crate) fn index_set_new() -> (set: FxIndexSet<u64>)
    ensures
        index_set_items(set) == Seq::<u64>::empty(),
{
    FxIndexSet::default()
}

/// Calls `IndexSet::insert`. It appends an item that the set does not hold,
/// leaves the set as it is otherwise, and says which of the two happened. No
/// item is ever held twice.
#[verifier::external_body]
pub(crate) fn index_set_insert(set: &mut FxIndexSet<u64>, item: u64) -> (fresh: bool)
    ensures
        index_set_items(*final(set)) == inserted(index_set_items(*old(set)), item),
        index_set_items(*final(set)).no_duplicates(),
        fresh == !index_set_items(*old(set)).contains(item),
{
    set.insert(item)
}

/// Calls `IndexSet::swap_remove`. It moves the last item to the place of the
/// removed one, leaves the set as it is where the item is not held, and says
/// whether it was. No item is ever held twice.
#[verifier::external_body]
pub(crate) fn index_set_swap_remove(set: &mut FxIndexSet<u64>, item: u64) -> (found: bool)
    ensures
        index_set_items(*final(set)) == swap_removed(index_set_items(*old(set)), item),
        index_set_items(*final(set)).no_duplicates(),
        found == index_set_items(*old(set)).contains(item),
{
    set.swap_remove(&item)
}

/// Calls `IndexSet::iter` and copies out what it yields: each item once, in the
/// order of the set.
#[verifier::external_body]
pub(crate) fn index_set_to_vec(set: &FxIndexSet<u64>) -> (items: Vec<u64>)
    ensures
        items@ == index_set_items(*set),
        items@.no_duplicates(),
{
    set.iter().copied().collect()
}

/// An insertion keeps every item in its place, adds the item at the end where it
/// is new, and nothing else.
pub proof fn law_inserted(items: Seq<u64>, item: u64)
    ensures
        items.is_prefix_of(inserted(items, item)),
        inserted(items, item).contains(item),
        items.contains(item) ==> inserted(items, item).len() == items.len(),
        !items.contains(item) ==> inserted(items, item).len() == items.len() + 1 && inserted(
            items,
            item,
        ).last() == item,
{
    let after = inserted(items, item);
    assert(after.subrange(0, items.len() as int) =~= items);
    if !items.contains(item) {
        assert(after[items.len() as int] == item);
    }
}

/// A removal puts the last item in the place of the one that goes, and leaves all
/// others where they are. Where the item is not there, nothing changes.
pub proof fn law_swap_removed(items: Seq<u64>, at: int)
    requires
        items.no_duplicates(),
        0 <= at < items.len(),
    ensures
        swap_removed(items, items[at]).len() == items.len() - 1,
        forall|i: int|
            0 <= i < items.len() - 1 && i != at ==> #[trigger] swap_removed(items, items[at])[i]
                == items[i],
        at < items.len() - 1 ==> swap_removed(items, items[at])[at] == items.last(),
        forall|x: u64| !items.contains(x) ==> #[trigger] swap_removed(items, x) == items,
{
    assert(items.contains(items[at]));
    assert(items.index_of(items[at]) == at);
}

} // verus!
