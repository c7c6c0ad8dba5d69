use rustc_parts::specialize::def_id::DefId;
use rustc_parts::specialize::report::ImplPolarity;
use rustc_parts::specialize::translate::{
    rebase_onto, specialization_allowed, specializes, translate_args, translate_args_with_cause,
    Cause, Environment, Features, GenericArg, ImplSite, Implication, Node, NotImplied,
    SelectedImpl, SourceTrait, Specialization, Translation,
};

const SOURCE: DefId = DefId { krate: 0, index: 2 };
const PARENT: DefId = DefId { krate: 0, index: 1 };
const TRAIT: DefId = DefId { krate: 3, index: 1 };
const UPSTREAM: DefId = DefId { krate: 3, index: 5 };

const OFF: Features = Features { specialization: false, min_specialization: false };

fn args(ids: &[u64]) -> Vec<GenericArg> {
    ids.iter().map(|id| GenericArg { id: *id }).collect()
}

fn ids(translation: Translation) -> Vec<u64> {
    match translation {
        Translation::Done(args) => args.iter().map(|arg| arg.id).collect(),
        other => panic!("{:?}", other),
    }
}

/// `impl<V> Foo for (V, V)` with `V` instantiated, and one parameter of a method.
fn selected() -> SelectedImpl {
    SelectedImpl {
        def_id: SOURCE,
        args: args(&[32, 100]),
        generics_count: 1,
        trait_args: args(&[77]),
    }
}

fn site(def_id: DefId) -> ImplSite {
    ImplSite { def_id, allows_specialization: false, allows_min_specialization: false }
}

#[test]
fn parent_impl_gets_its_own_parameters() {
    let translation = translate_args(&selected(), Node::Impl(PARENT), None);
    match translation {
        Translation::Fulfill(implication) => assert_eq!(
            implication,
            Implication {
                source_impl: SOURCE,
                source_trait: SourceTrait::Instantiated,
                environment: Environment::Caller,
                target_impl: PARENT,
                cause: Cause::Dummy,
            }
        ),
        other => panic!("{:?}", other),
    }
    let both = Ok(args(&[32, 32]));
    let translation = translate_args(&selected(), Node::Impl(PARENT), Some(&both));
    assert_eq!(ids(translation), [32, 32, 100]);
}

#[test]
fn same_impl_needs_no_translation() {
    assert_eq!(ids(translate_args(&selected(), Node::Impl(SOURCE), None)), [32, 100]);
    for ignored in [Ok(args(&[1])), Err(NotImplied)] {
        let translation = translate_args(&selected(), Node::Impl(SOURCE), Some(&ignored));
        assert_eq!(ids(translation), [32, 100]);
    }
}

#[test]
fn trait_gets_the_parameters_of_the_trait() {
    assert_eq!(ids(translate_args(&selected(), Node::Trait(TRAIT), None)), [77, 100]);
}

#[test]
fn cause_is_passed_on() {
    let translation =
        translate_args_with_cause(&selected(), Node::Impl(PARENT), Cause::Given(6), None);
    match translation {
        Translation::Fulfill(implication) => assert_eq!(implication.cause, Cause::Given(6)),
        other => panic!("{:?}", other),
    }
}

#[test]
fn rebasing_twice_is_rebasing_once() {
    let start = args(&[1, 2, 3, 4]);
    let through = args(&[8, 9, 10]);
    let base = args(&[5]);
    let twice = rebase_onto(&rebase_onto(&start, 2, &through), 3, &base);
    assert_eq!(twice, args(&[5, 3, 4]));
    assert_eq!(rebase_onto(&start, 2, &base), twice);
    assert_eq!(rebase_onto(&start, 9, &base), base);
}

#[test]
fn feature_gate_stops_local_impls() {
    for (one, other) in [(SOURCE, PARENT), (SOURCE, UPSTREAM), (UPSTREAM, SOURCE)] {
        let decision = specializes(OFF, site(one), site(other), None, None, Some(&Ok(vec![])));
        assert_eq!(decision, Specialization::Decided(false));
        assert!(!specialization_allowed(OFF, site(one), site(other)));
    }
}

#[test]
fn feature_gate_lets_upstream_impls_pass() {
    let positive = ImplPolarity::Positive;
    let other = DefId { krate: 9, index: 9 };
    let decision = specializes(
        OFF,
        site(UPSTREAM),
        site(other),
        Some(positive),
        Some(positive),
        Some(&Ok(vec![])),
    );
    assert_eq!(decision, Specialization::Decided(true));
}

#[test]
fn either_feature_opens_the_gate() {
    let positive = ImplPolarity::Positive;
    for features in [
        Features { specialization: true, min_specialization: false },
        Features { specialization: false, min_specialization: true },
    ] {
        let decision = specializes(
            features,
            site(SOURCE),
            site(PARENT),
            Some(positive),
            Some(positive),
            Some(&Ok(vec![])),
        );
        assert_eq!(decision, Specialization::Decided(true));
    }
}

#[test]
fn location_may_allow_the_feature() {
    let positive = ImplPolarity::Positive;
    let full = ImplSite { allows_specialization: true, ..site(SOURCE) };
    let min = ImplSite { allows_min_specialization: true, ..site(PARENT) };
    let decision = specializes(OFF, full, min, Some(positive), Some(positive), Some(&Ok(vec![])));
    assert_eq!(decision, Specialization::Decided(true));
    let decision = specializes(OFF, full, site(PARENT), None, None, Some(&Ok(vec![])));
    assert_eq!(decision, Specialization::Decided(false));
}

#[test]
fn polarities_have_to_agree() {
    let on = Features { specialization: true, min_specialization: false };
    let decision = specializes(
        on,
        site(SOURCE),
        site(PARENT),
        Some(ImplPolarity::Negative),
        Some(ImplPolarity::Positive),
        Some(&Ok(vec![])),
    );
    assert_eq!(decision, Specialization::Decided(false));
    let decision = specializes(
        on,
        site(SOURCE),
        site(PARENT),
        Some(ImplPolarity::Negative),
        Some(ImplPolarity::Negative),
        Some(&Ok(vec![])),
    );
    assert_eq!(decision, Specialization::Decided(true));
}

#[test]
fn subset_has_to_be_proved() {
    let on = Features { specialization: true, min_specialization: false };
    let positive = ImplPolarity::Positive;
    let ask = |fulfilled: Option<&Result<Vec<GenericArg>, NotImplied>>| {
        specializes(on, site(SOURCE), site(PARENT), Some(positive), Some(positive), fulfilled)
    };
    assert_eq!(
        ask(None),
        Specialization::Fulfill(Implication {
            source_impl: SOURCE,
            source_trait: SourceTrait::Identity,
            environment: Environment::SourceImpl,
            target_impl: PARENT,
            cause: Cause::Dummy,
        })
    );
    assert_eq!(ask(Some(&Err(NotImplied))), Specialization::Decided(false));
    assert_eq!(ask(Some(&Ok(vec![]))), Specialization::Decided(true));
}
