//! Reading the generic arguments of one impl in terms of another, and deciding
//! whether one impl specializes another.
use vstd::prelude::*;

use crate::specialize::def_id::{DefId, LOCAL_CRATE};
use crate::specialize::report::ImplPolarity;

verus! {

/// A generic argument, by the number under which the compiler keeps it.
#[derive(Clone, Copy, PartialEq, Eq, Hash, Debug, Structural)]
pub struct GenericArg {
    pub id: u64,
}

/// An impl that was selected: its generic arguments, with those of the item at
/// the end; the number of generics that the impl itself declares; and the
/// arguments of its trait under these arguments.
pub struct SelectedImpl {
    pub def_id: DefId,
    pub args: Vec<GenericArg>,
    pub generics_count: usize,
    pub trait_args: Vec<GenericArg>,
}

/// Where the definition of an item is taken from.
#[derive(Clone, Copy, PartialEq, Eq, Hash, Debug, Structural)]
pub enum Node {
    Impl(DefId),
    Trait(DefId),
}

/// What the obligations of the target impl are registered with: nothing of note,
/// or the cause that the compiler keeps under this number.
#[derive(Clone, Copy, PartialEq, Eq, Hash, Debug, Structural)]
pub enum Cause {
    Dummy,
    Given(u32),
}

/// The predicates that are taken for granted while two impls are related.
#[derive(Clone, Copy, PartialEq, Eq, Hash, Debug, Structural)]
pub enum Environment {
    /// Those of whoever asks.
    Caller,
    /// Those of the source impl, with placeholders for its parameters.
    SourceImpl,
}

/// The trait that the target impl has to apply to.
#[derive(Clone, Copy, PartialEq, Eq, Hash, Debug, Structural)]
pub enum SourceTrait {
    /// The trait of the source impl, under the arguments of that impl.
    Instantiated,
    /// The trait of the source impl, for the parameters of that impl themselves.
    Identity,
}

/// The question whether the target impl applies wherever the source impl does.
#[derive(Clone, Copy, PartialEq, Eq, Hash, Debug, Structural)]
pub struct Implication {
    pub source_impl: DefId,
    pub source_trait: SourceTrait,
    pub environment: Environment,
    pub target_impl: DefId,
    pub cause: Cause,
}

impl Implication {
    /// The question that a translation puts: of the impl as it was selected, in
    /// the environment of the caller.
    pub open spec fn of_selected(source_impl: DefId, target_impl: DefId, cause: Cause) -> Self {
        Implication {
            source_impl,
            source_trait: SourceTrait::Instantiated,
            environment: Environment::Caller,
            target_impl,
            cause,
        }
    }

    /// The question that decides on a specialization: of the source impl in
    /// general, taking its own predicates for granted.
    pub open spec fn in_general(source_impl: DefId, target_impl: DefId) -> Self {
        Implication {
            source_impl,
            source_trait: SourceTrait::Identity,
            environment: Environment::SourceImpl,
            target_impl,
            cause: Cause::Dummy,
        }
    }
}

/// The target impl does not apply wherever the source impl does.
#[derive(Clone, Copy, PartialEq, Eq, Hash, Debug, Structural)]
pub struct NotImplied;

/// How far a translation of generic arguments got.
#[derive(Debug)]
pub enum Translation {
    /// The arguments for the target.
    Done(Vec<GenericArg>),
    /// The generic parameters of the target impl have to be found first.
    Fulfill(Implication),
}

/// How far the decision on a specialization got.
#[derive(Clone, Copy, PartialEq, Eq, Debug, Structural)]
pub enum Specialization {
    /// Whether the one impl specializes the other.
    Decided(bool),
    /// It has to be found out first whether the other impl applies wherever the
    /// one does.
    Fulfill(Implication),
}

/// The unstable features of the crate that is being compiled.
#[derive(Clone, Copy, PartialEq, Eq, Debug, Structural)]
pub struct Features {
    pub specialization: bool,
    pub min_specialization: bool,
}

/// An impl, and the unstable features that its source location may use.
#[derive(Clone, Copy, PartialEq, Eq, Debug, Structural)]
pub struct ImplSite {
    pub def_id: DefId,
    pub allows_specialization: bool,
    pub allows_min_specialization: bool,
}

impl SelectedImpl {
    /// A parent impl applies wherever the selected impl does, as far as it is
    /// known. Item definitions come from no other impl.
    pub open spec fn specializes_as_expected(
        &self,
        target_node: Node,
        fulfilled: Option<&Result<Vec<GenericArg>, NotImplied>>,
    ) -> bool {
        match (target_node, fulfilled) {
            (Node::Impl(target_impl), Some(outcome)) => target_impl == self.def_id || outcome is Ok,
            _ => true,
        }
    }
}

/// `args` with its first `count` arguments replaced by `base`.
pub open spec fn rebased(args: Seq<GenericArg>, count: nat, base: Seq<GenericArg>) -> Seq<
    GenericArg,
> {
    if count <= args.len() {
        base + args.skip(count as int)
    } else {
        base
    }
}

/// Replaces the arguments of the impl by `base` and keeps those of the item.
pub fn rebase_onto(args: &Vec<GenericArg>, count: usize, base: &Vec<GenericArg>) -> (all: Vec<
    GenericArg,
>)
    ensures
        all@ == rebased(args@, count as nat, base@),
        base@.is_prefix_of(all@),
{
    let mut all: Vec<GenericArg> = Vec::new();
    let mut i: usize = 0;
    while i < base.len()
        invariant
            i <= base@.len(),
            all@ =~= base@.take(i as int),
        decreases base@.len() - i,
    {
        all.push(base[i]);
        i += 1;
    }
    assert(all@ =~= base@);
    if count <= args.len() {
        let mut k: usize = count;
        while k < args.len()
            invariant
                count <= k <= args@.len(),
                all@ =~= base@ + args@.subrange(count as int, k as int),
            decreases args@.len() - k,
        {
            all.push(args[k]);
            k += 1;
        }
        assert(all@ =~= base@ + args@.skip(count as int));
    }
    assert(all@.subrange(0, base@.len() as int) =~= base@);
    all
}

fn copy_args(args: &Vec<GenericArg>) -> (copy: Vec<GenericArg>)
    ensures
        copy@ == args@,
{
    let none: Vec<GenericArg> = Vec::new();
    let copy: Vec<GenericArg> = rebase_onto(&none, 0, args);
    assert(copy@ =~= args@);
    copy
}

/// Like [translate_args], but obligations from the parent implementation are
/// registered with the given cause.
///
/// This is for reporting *region* errors from those bounds. Type errors should
/// not happen, because the specialization graph already checks for those.
pub fn translate_args_with_cause(
    source: &SelectedImpl,
    target_node: Node,
    cause: Cause,
    fulfilled: Option<&Result<Vec<GenericArg>, NotImplied>>,
) -> (translation: Translation)
    requires
        source.specializes_as_expected(target_node, fulfilled),
    ensures
        translation.follows_from(source, target_node, cause, fulfilled),
{
    match target_node {
        Node::Impl(target_impl) => {
            // no need to translate if we're targeting the impl we started with
            if source.def_id == target_impl {
                return Translation::Done(copy_args(&source.args));
            }
            match fulfilled {
                Some(Ok(target_args)) => Translation::Done(
                    rebase_onto(&source.args, source.generics_count, target_args),
                ),
                _ => Translation::Fulfill(
                    Implication {
                        source_impl: source.def_id,
                        source_trait: SourceTrait::Instantiated,
                        environment: Environment::Caller,
                        target_impl,
                        cause,
                    },
                ),
            }
        },
        // directly inherit the method generics, since those do not vary across impls
        Node::Trait(_) => Translation::Done(
            rebase_onto(&source.args, source.generics_count, &source.trait_args),
        ),
    }
}

/// Given the generic parameters for the requested impl, translates them to the
/// generic parameters appropriate for the actual item definition (whether it be
/// in that impl, a parent impl, or the trait).
///
/// When one impl was selected, but item definitions from a parent impl that
/// provides a default are used, the type parameters of the two have to be
/// related. Here `source` is the selected impl with its generic parameters, and
/// `target_node` is the impl or trait that the definition comes from. The result
/// maps from the generics of `target_node` to those of `source`.
///
/// For example, consider the following scenario:
///
/// ```ignore (illustrative)
/// trait Foo { ... }
/// impl<T, U> Foo for (T, U) { ... }  // target impl
/// impl<V> Foo for (V, V) { ... }     // source impl
/// ```
///
/// Where the source impl was selected with `V` instantiated with `u32`, the
/// result maps both `T` and `U` to `u32`.
///
/// How the generics of a parent impl come out follows from fulfilling its
/// obligations, where-clauses included; `fulfilled` holds the outcome once this
/// was done. That it can be done is what the specialization graph has checked.
pub fn translate_args(
    source: &SelectedImpl,
    target_node: Node,
    fulfilled: Option<&Result<Vec<GenericArg>, NotImplied>>,
) -> (translation: Translation)
    requires
        source.specializes_as_expected(target_node, fulfilled),
    ensures
        translation.follows_from(source, target_node, Cause::Dummy, fulfilled),
{
    translate_args_with_cause(source, target_node, Cause::Dummy, fulfilled)
}

impl Translation {
    /// The translation of `source` to `target_node`: nothing changes for the impl
    /// itself; for another impl or the trait, the arguments of that one take the
    /// place of those of the source impl.
    pub open spec fn follows_from(
        &self,
        source: &SelectedImpl,
        target_node: Node,
        cause: Cause,
        fulfilled: Option<&Result<Vec<GenericArg>, NotImplied>>,
    ) -> bool {
        match target_node {
            Node::Impl(target_impl) => if target_impl == source.def_id {
                self matches Translation::Done(args) && args@ == source.args@
            } else {
                match fulfilled {
                    Some(outcome) => self matches Translation::Done(args) && args@ == rebased(
                        source.args@,
                        source.generics_count as nat,
                        outcome->Ok_0@,
                    ),
                    None => *self == Translation::Fulfill(
                        Implication::of_selected(source.def_id, target_impl, cause),
                    ),
                }
            },
            Node::Trait(_) => self matches Translation::Done(args) && args@ == rebased(
                source.args@,
                source.generics_count as nat,
                source.trait_args@,
            ),
        }
    }
}

/// The arguments of the item itself come through every translation unchanged,
/// behind those of the target.
pub proof fn law_item_args_are_kept(
    args: Seq<GenericArg>,
    count: nat,
    base: Seq<GenericArg>,
    i: int,
)
    requires
        count <= i < args.len(),
    ensures
        rebased(args, count, base).len() == base.len() + args.len() - count,
        rebased(args, count, base)[base.len() + i - count] == args[i],
        base.is_prefix_of(rebased(args, count, base)),
{
    assert(rebased(args, count, base).subrange(0, base.len() as int) =~= base);
}

/// Going to a parent by way of another one ends at the same arguments as going
/// there directly.
pub proof fn law_translations_compose(
    args: Seq<GenericArg>,
    count: nat,
    through: Seq<GenericArg>,
    base: Seq<GenericArg>,
)
    ensures
        rebased(rebased(args, count, through), through.len(), base) == rebased(args, count, base),
{
    assert(rebased(rebased(args, count, through), through.len(), base) =~= rebased(
        args,
        count,
        base,
    ));
}

impl ImplSite {
    /// The impl may take part in a specialization although the feature is not
    /// enabled: it is not of this crate, or its location may use the feature.
    pub open spec fn exempt(self) -> bool {
        !self.def_id.local() || self.allows_specialization || self.allows_min_specialization
    }
}

/// Whether the feature gate lets a specialization through.
pub open spec fn gate_open(features: Features, impl1: ImplSite, impl2: ImplSite) -> bool {
    features.specialization || features.min_specialization || (impl1.exempt() && impl2.exempt())
}

/// Whether the feature gate lets a specialization through.
///
/// The feature gate should prevent introducing new specializations, but not
/// taking advantage of upstream ones.
pub fn specialization_allowed(features: Features, impl1: ImplSite, impl2: ImplSite) -> (allowed:
    bool)
    ensures
        allowed == gate_open(features, impl1, impl2),
{
    // If specialization is enabled for this crate then no extra checks are needed.
    // If it's not, and either of the `impl`s is local to this crate, then this definitely
    // isn't specializing - unless specialization is enabled for the `impl` span,
    // e.g. if it comes from an `allow_internal_unstable` macro
    let specialization_enabled: bool = features.specialization || features.min_specialization;
    if !specialization_enabled {
        if impl1.def_id.is_local() {
            if !impl1.allows_specialization && !impl1.allows_min_specialization {
                return false;
            }
        }
        if impl2.def_id.is_local() {
            if !impl2.allows_specialization && !impl2.allows_min_specialization {
                return false;
            }
        }
    }
    true
}

/// The decision on a specialization. `implied` says whether `impl2` applies
/// wherever `impl1` does, once that is known.
pub open spec fn specialization(
    features: Features,
    impl1: ImplSite,
    impl2: ImplSite,
    polarity1: Option<ImplPolarity>,
    polarity2: Option<ImplPolarity>,
    implied: Option<bool>,
) -> Specialization {
    if !gate_open(features, impl1, impl2) || polarity1 is None || polarity1 != polarity2 {
        Specialization::Decided(false)
    } else {
        match implied {
            Some(implied) => Specialization::Decided(implied),
            None => Specialization::Fulfill(
                Implication::in_general(impl1.def_id, impl2.def_id),
            ),
        }
    }
}

/// Whether the target impl was found to apply wherever the source impl does.
pub open spec fn found_implied(
    fulfilled: Option<&Result<Vec<GenericArg>, NotImplied>>,
) -> Option<bool> {
    match fulfilled {
        Some(outcome) => Some(outcome is Ok),
        None => None,
    }
}

/// Is `impl1` a specialization of `impl2`?
///
/// Specialization is determined by the sets of types to which the impls apply;
/// `impl1` specializes `impl2` if it applies to a subset of the types `impl2`
/// applies to. `fulfilled` says whether it does, once that is known.
///
/// We determine whether there's a subset relationship by replacing bound vars with
/// placeholders in `impl1`, assuming the where clauses for `impl1`, instantiating
/// `impl2` with fresh inference variables, unifying, and attempting to prove the
/// where clauses for `impl2`.
///
/// The polarities of the two impls are looked at past the feature gate only, and
/// have to be known there. There is none for an `impl1` without a trait, which must
/// not be asked about past the feature gate.
pub fn specializes(
    features: Features,
    impl1: ImplSite,
    impl2: ImplSite,
    polarity1: Option<ImplPolarity>,
    polarity2: Option<ImplPolarity>,
    fulfilled: Option<&Result<Vec<GenericArg>, NotImplied>>,
) -> (decision: Specialization)
    requires
        gate_open(features, impl1, impl2) ==> polarity1 is Some && polarity2 is Some,
    ensures
        decision == specialization(
            features,
            impl1,
            impl2,
            polarity1,
            polarity2,
            found_implied(fulfilled),
        ),
{
    if !specialization_allowed(features, impl1, impl2) {
        return Specialization::Decided(false);
    }
    // Currently we do not allow e.g., a negative impl to specialize a positive one
    match (polarity1, polarity2) {
        (Some(polarity1), Some(polarity2)) => if polarity1 != polarity2 {
            return Specialization::Decided(false);
        },
        _ => {
            return Specialization::Decided(false);
        },
    }
    // Attempt to prove that impl2 applies, taking the predicates of impl1 as assumptions.
    match fulfilled {
        Some(outcome) => Specialization::Decided(outcome.is_ok()),
        None => Specialization::Fulfill(
            Implication {
                source_impl: impl1.def_id,
                source_trait: SourceTrait::Identity,
                environment: Environment::SourceImpl,
                target_impl: impl2.def_id,
                cause: Cause::Dummy,
            },
        ),
    }
}

/// The feature gate keeps new specializations out, not those of other crates:
/// two impls of other crates are judged alike whatever the features.
pub proof fn law_upstream_specializations_pass(
    one: Features,
    other: Features,
    impl1: ImplSite,
    impl2: ImplSite,
    polarity1: Option<ImplPolarity>,
    polarity2: Option<ImplPolarity>,
    implied: Option<bool>,
)
    requires
        !impl1.def_id.local(),
        !impl2.def_id.local(),
    ensures
        specialization(one, impl1, impl2, polarity1, polarity2, implied) == specialization(
            other,
            impl1,
            impl2,
            polarity1,
            polarity2,
            implied,
        ),
{
}

/// A local impl that may not use the feature takes part in no specialization of
/// a crate that does not enable it, neither as the one impl nor as the other.
pub proof fn law_gate_keeps_local_impls_out(
    features: Features,
    impl1: ImplSite,
    impl2: ImplSite,
    polarity1: Option<ImplPolarity>,
    polarity2: Option<ImplPolarity>,
    implied: Option<bool>,
)
    requires
        !features.specialization,
        !features.min_specialization,
        !impl1.exempt() || !impl2.exempt(),
    ensures
        specialization(features, impl1, impl2, polarity1, polarity2, implied)
            == Specialization::Decided(false),
{
}

/// One impl specializes another only if both have the same polarity and the
/// other applies wherever the one does.
pub proof fn law_specialization_is_a_subset(
    features: Features,
    impl1: ImplSite,
    impl2: ImplSite,
    polarity1: Option<ImplPolarity>,
    polarity2: Option<ImplPolarity>,
    implied: Option<bool>,
)
    ensures
        specialization(features, impl1, impl2, polarity1, polarity2, implied)
            == Specialization::Decided(true) <==> gate_open(features, impl1, impl2)
            && polarity1 is Some && polarity1 == polarity2 && implied == Some(true),
{
}

/// What is asked to decide on a specialization speaks of the first impl in
/// general: its trait for its own parameters, under its own predicates.
pub proof fn law_specialization_asks_in_general(
    features: Features,
    impl1: ImplSite,
    impl2: ImplSite,
    polarity1: Option<ImplPolarity>,
    polarity2: Option<ImplPolarity>,
    implied: Option<bool>,
)
    ensures
        specialization(features, impl1, impl2, polarity1, polarity2, implied)
            matches Specialization::Fulfill(asked) ==> {
            &&& asked.source_impl == impl1.def_id
            &&& asked.target_impl == impl2.def_id
            &&& asked.source_trait == SourceTrait::Identity
            &&& asked.environment == Environment::SourceImpl
            &&& asked.cause == Cause::Dummy
        },
{
}

/// The arguments of the target come through a translation whole and in front,
/// also where the item has no arguments of its own, and nothing follows them then.
pub proof fn law_base_is_kept(args: Seq<GenericArg>, count: nat, base: Seq<GenericArg>)
    ensures
        base.is_prefix_of(rebased(args, count, base)),
        count >= args.len() ==> rebased(args, count, base) == base,
        count <= args.len() ==> rebased(args, count, base).len() == base.len() + args.len() - count,
        count <= args.len() ==> args.skip(count as int).is_suffix_of(rebased(args, count, base)),
{
    let all = rebased(args, count, base);
    assert(all.subrange(0, base.len() as int) =~= base);
    if count >= args.len() {
        assert(all =~= base);
    }
    if count <= args.len() {
        let item = args.skip(count as int);
        assert(all.subrange(all.len() - item.len(), all.len() as int) =~= item);
    }
}

/// Rebasing puts the arguments of the target in front of those of the item, for
/// every number of either.
pub proof fn law_rebasing(
    args: &Vec<GenericArg>,
    count: usize,
    base: &Vec<GenericArg>,
    all: Vec<GenericArg>,
)
    requires
        call_ensures(rebase_onto, (args, count, base), all),
    ensures
        all@.len() >= base@.len(),
        forall|i: int| 0 <= i < base@.len() ==> #[trigger] all@[i] == base@[i],
        count >= args@.len() ==> all@ == base@,
        count <= args@.len() ==> all@.len() - base@.len() == args@.len() - count,
        forall|i: int|
            count <= i < args@.len() ==> all@[base@.len() + i - count] == #[trigger] args@[i],
{
    law_base_is_kept(args@, count as nat, base@);
    assert forall|i: int| count <= i < args@.len() implies all@[base@.len() + i - count]
        == #[trigger] args@[i] by {
        law_item_args_are_kept(args@, count as nat, base@, i);
    }
}

/// `args` is made of the arguments `front` of the target and those that the
/// selected impl has for the item itself.
pub open spec fn made_of(
    args: Seq<GenericArg>,
    front: Seq<GenericArg>,
    source: &SelectedImpl,
) -> bool {
    &&& front.is_prefix_of(args)
    &&& source.generics_count >= source.args@.len() ==> args.len() == front.len()
    &&& source.generics_count <= source.args@.len() ==> args.len() - front.len()
        == source.args@.len() - source.generics_count
    &&& forall|i: int|
        source.generics_count <= i < source.args@.len() ==> args[front.len() + i
            - source.generics_count] == #[trigger] source.args@[i]
}

proof fn lemma_made_of(front: Seq<GenericArg>, source: &SelectedImpl)
    ensures
        made_of(rebased(source.args@, source.generics_count as nat, front), front, source),
{
    let count = source.generics_count as nat;
    law_base_is_kept(source.args@, count, front);
    assert forall|i: int| count <= i < source.args@.len() implies rebased(
        source.args@,
        count,
        front,
    )[front.len() + i - count] == #[trigger] source.args@[i] by {
        law_item_args_are_kept(source.args@, count, front, i);
    }
}

/// A translation changes nothing for the impl that was selected. It asks what the
/// generics of any other impl are, once, and then has them in front of the
/// arguments of the item; the arguments of a trait are known without asking.
pub proof fn law_translation(
    source: &SelectedImpl,
    target_node: Node,
    cause: Cause,
    fulfilled: Option<&Result<Vec<GenericArg>, NotImplied>>,
    translation: Translation,
)
    requires
        call_ensures(
            translate_args_with_cause,
            (source, target_node, cause, fulfilled),
            translation,
        ),
        fulfilled matches Some(outcome) && outcome is Err ==> target_node is Trait || target_node
            == Node::Impl(source.def_id),
    ensures
        translation is Fulfill <==> (target_node matches Node::Impl(target) && target
            != source.def_id) && fulfilled is None,
        translation matches Translation::Fulfill(asked) ==> {
            &&& target_node == Node::Impl(asked.target_impl)
            &&& asked.source_impl == source.def_id
            &&& asked.source_trait == SourceTrait::Instantiated
            &&& asked.environment == Environment::Caller
            &&& asked.cause == cause
        },
        translation matches Translation::Done(args) ==> match target_node {
            Node::Trait(_) => made_of(args@, source.trait_args@, source),
            Node::Impl(target) => if target == source.def_id {
                args@ == source.args@
            } else {
                made_of(args@, fulfilled->0->Ok_0@, source)
            },
        },
{
    lemma_made_of(source.trait_args@, source);
    if let Some(outcome) = fulfilled {
        lemma_made_of(outcome->Ok_0@, source);
    }
}

/// A translation without a cause is one with a cause of no note.
pub proof fn law_translation_without_cause(
    source: &SelectedImpl,
    target_node: Node,
    fulfilled: Option<&Result<Vec<GenericArg>, NotImplied>>,
    translation: Translation,
)
    requires
        call_ensures(translate_args, (source, target_node, fulfilled), translation),
        fulfilled matches Some(outcome) && outcome is Err ==> target_node is Trait || target_node
            == Node::Impl(source.def_id),
    ensures
        translation is Fulfill <==> (target_node matches Node::Impl(target) && target
            != source.def_id) && fulfilled is None,
        translation matches Translation::Fulfill(asked) ==> {
            &&& target_node == Node::Impl(asked.target_impl)
            &&& asked.source_impl == source.def_id
            &&& asked.source_trait == SourceTrait::Instantiated
            &&& asked.environment == Environment::Caller
            &&& asked.cause == Cause::Dummy
        },
        translation matches Translation::Done(args) ==> match target_node {
            Node::Trait(_) => made_of(args@, source.trait_args@, source),
            Node::Impl(target) => if target == source.def_id {
                args@ == source.args@
            } else {
                made_of(args@, fulfilled->0->Ok_0@, source)
            },
        },
{
    lemma_made_of(source.trait_args@, source);
    if let Some(outcome) = fulfilled {
        lemma_made_of(outcome->Ok_0@, source);
    }
}

/// A translation can be asked for unless it is known that the parent impl does
/// not apply wherever the selected one does.
pub proof fn law_translation_is_possible(
    source: &SelectedImpl,
    target_node: Node,
    cause: Cause,
    fulfilled: Option<&Result<Vec<GenericArg>, NotImplied>>,
)
    requires
        fulfilled matches Some(outcome) && outcome is Err ==> target_node is Trait || target_node
            == Node::Impl(source.def_id),
    ensures
        call_requires(translate_args, (source, target_node, fulfilled)),
        call_requires(translate_args_with_cause, (source, target_node, cause, fulfilled)),
{
}

/// Whether one impl specializes another can be asked of any two impls whose
/// polarities are known.
pub proof fn law_specialization_can_be_asked(
    features: Features,
    impl1: ImplSite,
    impl2: ImplSite,
    polarity1: ImplPolarity,
    polarity2: ImplPolarity,
    fulfilled: Option<&Result<Vec<GenericArg>, NotImplied>>,
)
    ensures
        call_requires(specialization_allowed, (features, impl1, impl2)),
        call_requires(
            specializes,
            (features, impl1, impl2, Some(polarity1), Some(polarity2), fulfilled),
        ),
{
}

/// Where the crate enables one of the two features, every specialization is let
/// through, wherever the impls are defined. Where it enables neither, one is let
/// through exactly where each of the two impls is of another crate or stands where
/// one of the features may be used.
pub proof fn law_feature_gate(features: Features, impl1: ImplSite, impl2: ImplSite, allowed: bool)
    requires
        call_ensures(specialization_allowed, (features, impl1, impl2), allowed),
    ensures
        features.specialization ==> allowed,
        features.min_specialization ==> allowed,
        impl1.def_id.krate != LOCAL_CRATE && impl2.def_id.krate != LOCAL_CRATE ==> allowed,
        !features.specialization && !features.min_specialization ==> (allowed <==> {
            &&& impl1.def_id.krate == LOCAL_CRATE ==> impl1.allows_specialization
                || impl1.allows_min_specialization
            &&& impl2.def_id.krate == LOCAL_CRATE ==> impl2.allows_specialization
                || impl2.allows_min_specialization
        }),
{
}

/// The feature gate does not tell the two impls apart, nor the two features, and
/// enabling a feature shuts out nothing.
pub proof fn law_feature_gate_is_even_handed(
    features: Features,
    impl1: ImplSite,
    impl2: ImplSite,
    more: Features,
)
    requires
        features.specialization ==> more.specialization || more.min_specialization,
        features.min_specialization ==> more.specialization || more.min_specialization,
    ensures
        gate_open(features, impl1, impl2) == gate_open(features, impl2, impl1),
        gate_open(features, impl1, impl2) ==> gate_open(more, impl1, impl2),
        more.specialization || more.min_specialization ==> gate_open(more, impl1, impl2),
{
}

/// Where a feature is enabled, or neither impl is a local one that may not use it,
/// an impl specializes another of the same polarity exactly where that one was
/// found to apply wherever it does; as long as that is not known, it is asked, of
/// the first impl in general. In all other cases it does not specialize it.
pub proof fn law_specializes(
    features: Features,
    impl1: ImplSite,
    impl2: ImplSite,
    polarity1: Option<ImplPolarity>,
    polarity2: Option<ImplPolarity>,
    fulfilled: Option<&Result<Vec<GenericArg>, NotImplied>>,
    decision: Specialization,
)
    requires
        call_ensures(
            specializes,
            (features, impl1, impl2, polarity1, polarity2, fulfilled),
            decision,
        ),
    ensures
        !features.specialization && !features.min_specialization && impl1.def_id.krate
            == LOCAL_CRATE && !impl1.allows_specialization && !impl1.allows_min_specialization
            ==> decision == Specialization::Decided(false),
        !features.specialization && !features.min_specialization && impl2.def_id.krate
            == LOCAL_CRATE && !impl2.allows_specialization && !impl2.allows_min_specialization
            ==> decision == Specialization::Decided(false),
        polarity1 != polarity2 ==> decision == Specialization::Decided(false),
        polarity1 is Some && polarity1 == polarity2 && (features.specialization
            || features.min_specialization || ((impl1.def_id.krate != LOCAL_CRATE
            || impl1.allows_specialization || impl1.allows_min_specialization) && (
        impl2.def_id.krate != LOCAL_CRATE || impl2.allows_specialization
            || impl2.allows_min_specialization))) ==> match fulfilled {
            Some(outcome) => decision == Specialization::Decided(outcome is Ok),
            None => {
                &&& decision matches Specialization::Fulfill(asked)
                &&& asked.source_impl == impl1.def_id
                &&& asked.target_impl == impl2.def_id
                &&& asked.source_trait == SourceTrait::Identity
                &&& asked.environment == Environment::SourceImpl
                &&& asked.cause == Cause::Dummy
            },
        },
        decision is Fulfill ==> fulfilled is None,
{
}

} // verus!
