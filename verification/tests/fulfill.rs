use rustc_parts::specialize::def_id::DefId;
use rustc_parts::specialize::fulfill::{
    fulfill_implication, FulfillAction, FulfillEvent, Fulfillment, TraitRefId,
};
use rustc_parts::specialize::translate::{
    Cause, Environment, GenericArg, Implication, NotImplied, SourceTrait,
};

const SOURCE: DefId = DefId { krate: 0, index: 2 };
const TARGET: DefId = DefId { krate: 0, index: 1 };

fn start_in(environment: Environment) -> Fulfillment {
    let implication = Implication {
        source_impl: SOURCE,
        source_trait: SourceTrait::Instantiated,
        environment,
        target_impl: TARGET,
        cause: Cause::Given(4),
    };
    let (attempt, action) = fulfill_implication(implication, TraitRefId { id: 10 });
    match action {
        FulfillAction::Normalize { trait_ref, environment: given } => {
            assert_eq!((trait_ref, given), (TraitRefId { id: 10 }, environment));
        }
        other => panic!("{:?}", other),
    }
    attempt
}

fn start() -> Fulfillment {
    start_in(Environment::Caller)
}

fn instantiated() -> FulfillEvent {
    FulfillEvent::Instantiated {
        args: vec![GenericArg { id: 1 }],
        target: TraitRefId { id: 20 },
    }
}

#[test]
fn implication_that_holds() {
    let (attempt, action) =
        start().step(FulfillEvent::Normalized(Ok(TraitRefId { id: 11 })));
    match action {
        FulfillAction::Instantiate { target_impl, environment, cause } => {
            assert_eq!((target_impl, cause), (TARGET, Cause::Given(4)));
            assert_eq!(environment, Environment::Caller);
        }
        other => panic!("{:?}", other),
    }
    let (attempt, action) = attempt.step(instantiated());
    match action {
        FulfillAction::Unify { source, target, environment } => {
            assert_eq!((source, target), (TraitRefId { id: 11 }, TraitRefId { id: 20 }));
            assert_eq!(environment, Environment::Caller);
        }
        other => panic!("{:?}", other),
    }
    let (attempt, action) = attempt.step(FulfillEvent::Unified(Some(vec![7])));
    assert!(matches!(action, FulfillAction::TakeObligations));
    let (attempt, action) = attempt.step(FulfillEvent::ObligationsTaken(vec![5, 6]));
    match action {
        FulfillAction::Select(obligations) => assert_eq!(obligations, [5, 6, 7]),
        other => panic!("{:?}", other),
    }
    let (attempt, action) = attempt.step(FulfillEvent::Selected(0));
    match action {
        FulfillAction::Resolve(args) => assert_eq!(args, [GenericArg { id: 1 }]),
        other => panic!("{:?}", other),
    }
    let (_, action) = attempt.step(FulfillEvent::Resolved(vec![GenericArg { id: 99 }]));
    match action {
        FulfillAction::Finish(result) => assert_eq!(result, Ok(vec![GenericArg { id: 99 }])),
        other => panic!("{:?}", other),
    }
}

#[test]
fn trait_without_a_normal_form_is_used_as_it_is() {
    let (attempt, action) = start().step(FulfillEvent::Normalized(Err("<T as Foo>".to_string())));
    match action {
        FulfillAction::DelayBug { at, message } => {
            assert_eq!(at, SOURCE);
            assert_eq!(message, "failed to fully normalize <T as Foo>");
        }
        other => panic!("{:?}", other),
    }
    let (attempt, action) = attempt.step(FulfillEvent::BugDelayed);
    assert!(matches!(action, FulfillAction::Instantiate { .. }));
    let (_, action) = attempt.step(instantiated());
    assert!(matches!(action, FulfillAction::Unify { source: TraitRefId { id: 10 }, .. }));
}

#[test]
fn traits_that_do_not_unify_imply_nothing() {
    let (attempt, _) = start().step(FulfillEvent::Normalized(Ok(TraitRefId { id: 11 })));
    let (attempt, _) = attempt.step(instantiated());
    let (_, action) = attempt.step(FulfillEvent::Unified(None));
    assert!(matches!(action, FulfillAction::Finish(Err(NotImplied))));
}

#[test]
fn obligation_that_cannot_be_proved_ends_the_attempt() {
    let (attempt, _) = start().step(FulfillEvent::Normalized(Ok(TraitRefId { id: 11 })));
    let (attempt, _) = attempt.step(instantiated());
    let (attempt, _) = attempt.step(FulfillEvent::Unified(Some(vec![])));
    let (attempt, _) = attempt.step(FulfillEvent::ObligationsTaken(vec![3]));
    let (_, action) = attempt.step(FulfillEvent::Selected(1));
    assert!(matches!(action, FulfillAction::Finish(Err(NotImplied))));
}

#[test]
fn environment_of_the_implication_is_kept() {
    let not_normalized = FulfillEvent::Normalized(Err("<T as Foo>".to_string()));
    let (attempt, _) = start_in(Environment::SourceImpl).step(not_normalized);
    let (attempt, action) = attempt.step(FulfillEvent::BugDelayed);
    match action {
        FulfillAction::Instantiate { environment, .. } => {
            assert_eq!(environment, Environment::SourceImpl);
        }
        other => panic!("{:?}", other),
    }
    let (_, action) = attempt.step(instantiated());
    match action {
        FulfillAction::Unify { environment, .. } => {
            assert_eq!(environment, Environment::SourceImpl);
        }
        other => panic!("{:?}", other),
    }
}
