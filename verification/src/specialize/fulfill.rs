//! Whether one impl applies wherever another does.
//!
//! Types are normalized and unified, and obligations are proved, by the compiler.
//! This module says what is asked of it, in which order, and what the answers
//! amount to.
use vstd::prelude::*;

use crate::specialize::def_id::DefId;
use crate::specialize::report::ImplPolarity;
use crate::specialize::translate::{
    found_implied, gate_open, specialization, specializes, Cause, Environment, Features, GenericArg, ImplSite,
    Implication, NotImplied, Specialization,
};

verus! {

/// A trait applied to its arguments, by the number under which the compiler
/// keeps it.
#[derive(Clone, Copy, PartialEq, Eq, Hash, Debug, Structural)]
pub struct TraitRefId {
    pub id: u32,
}

/// What is to be done next. Obligations are given by the numbers under which the
/// compiler keeps them.
#[derive(Debug)]
pub enum FulfillAction {
    /// Fully normalize the trait of the source impl.
    Normalize { trait_ref: TraitRefId, environment: Environment },
    /// See to it that there is an error later, at the given impl.
    DelayBug { at: DefId, message: String },
    /// Instantiate the target impl with fresh arguments.
    Instantiate { target_impl: DefId, environment: Environment, cause: Cause },
    /// Unify the traits of the two impls.
    Unify { source: TraitRefId, target: TraitRefId, environment: Environment },
    /// Take the obligations that come with the target impl as it was instantiated.
    TakeObligations,
    /// Prove the obligations.
    Select(Vec<u64>),
    /// Replace what was inferred of these arguments.
    Resolve(Vec<GenericArg>),
    /// Return the arguments of the target impl, or say that it is not implied.
    Finish(Result<Vec<GenericArg>, NotImplied>),
}

/// The answer to what was to be done.
#[derive(Debug)]
pub enum FulfillEvent {
    /// The normal form; where there is none, the trait as it prints.
    Normalized(Result<TraitRefId, String>),
    BugDelayed,
    /// The fresh arguments of the target impl, and its trait under them.
    Instantiated { args: Vec<GenericArg>, target: TraitRefId },
    /// The further obligations under which the traits unify, where they do.
    Unified(Option<Vec<u64>>),
    /// The obligations of the target impl.
    ObligationsTaken(Vec<u64>),
    /// The number of obligations that could not be proved.
    Selected(usize),
    /// The arguments after inference.
    Resolved(Vec<GenericArg>),
}

/// The answer that is waited for, and what has to be kept until it comes.
#[derive(Debug)]
pub enum FulfillStage {
    Normalizing,
    DelayingBug,
    Instantiating(TraitRefId),
    Unifying { args: Vec<GenericArg> },
    TakingObligations { args: Vec<GenericArg>, more: Vec<u64> },
    Selecting { args: Vec<GenericArg> },
    Resolving,
    Finished,
}

/// The attempt to fulfill all obligations of the target impl of `implication`
/// after unification with `source`, which is the trait of the source impl.
#[derive(Debug)]
pub struct Fulfillment {
    pub implication: Implication,
    pub source: TraitRefId,
    pub stage: FulfillStage,
}

impl Fulfillment {
    /// Whether `event` is an answer that is waited for.
    pub open spec fn expects(&self, event: FulfillEvent) -> bool {
        match event {
            FulfillEvent::Normalized(_) => self.stage is Normalizing,
            FulfillEvent::BugDelayed => self.stage is DelayingBug,
            FulfillEvent::Instantiated { .. } => self.stage is Instantiating,
            FulfillEvent::Unified(_) => self.stage is Unifying,
            FulfillEvent::ObligationsTaken(_) => self.stage is TakingObligations,
            FulfillEvent::Selected(_) => self.stage is Selecting,
            FulfillEvent::Resolved(_) => self.stage is Resolving,
        }
    }

    /// The target impl is instantiated next, and will be unified with `source`.
    pub open spec fn instantiates(
        &self,
        source: TraitRefId,
        after: &Fulfillment,
        action: FulfillAction,
    ) -> bool {
        &&& after.stage == FulfillStage::Instantiating(source)
        &&& action == FulfillAction::Instantiate {
            target_impl: self.implication.target_impl,
            environment: self.implication.environment,
            cause: self.implication.cause,
        }
    }

    /// It is over: the target impl is not implied.
    pub open spec fn gives_up(after: &Fulfillment, action: FulfillAction) -> bool {
        &&& after.stage is Finished
        &&& action == FulfillAction::Finish(Err(NotImplied))
    }

    /// What the answer `event` leads to.
    ///
    /// A trait that has no normal form is used as it is, and an error follows
    /// later. Where the traits do not unify there is no specialization, nor where
    /// an obligation cannot be proved. The obligations of the target impl are
    /// looked at only where the traits unify, and come before those of the
    /// unification. All of it happens in the environment of the implication.
    pub open spec fn follows(
        &self,
        event: FulfillEvent,
        after: &Fulfillment,
        action: FulfillAction,
    ) -> bool {
        &&& after.implication == self.implication
        &&& after.source == self.source
        &&& match (event, self.stage) {
            (FulfillEvent::Normalized(normal_form), _) => match normal_form {
                Ok(source) => self.instantiates(source, after, action),
                Err(source_text) => {
                    &&& after.stage is DelayingBug
                    &&& action matches FulfillAction::DelayBug { at, message }
                    &&& at == self.implication.source_impl
                    &&& message@ == "failed to fully normalize "@ + source_text@
                },
            },
            (FulfillEvent::BugDelayed, _) => self.instantiates(self.source, after, action),
            (
                FulfillEvent::Instantiated { args, target },
                FulfillStage::Instantiating(source),
            ) => {
                &&& after.stage == FulfillStage::Unifying { args }
                &&& action == FulfillAction::Unify {
                    source,
                    target,
                    environment: self.implication.environment,
                }
            },
            (FulfillEvent::Unified(unified), FulfillStage::Unifying { args }) => match unified {
                Some(more) => {
                    &&& after.stage == FulfillStage::TakingObligations { args, more }
                    &&& action is TakeObligations
                },
                None => Self::gives_up(after, action),
            },
            (
                FulfillEvent::ObligationsTaken(obligations),
                FulfillStage::TakingObligations { args, more },
            ) => {
                &&& after.stage == FulfillStage::Selecting { args }
                &&& action matches FulfillAction::Select(all)
                &&& all@ == obligations@ + more@
            },
            (FulfillEvent::Selected(errors), FulfillStage::Selecting { args }) => if errors == 0 {
                &&& after.stage is Resolving
                &&& action == FulfillAction::Resolve(args)
            } else {
                Self::gives_up(after, action)
            },
            (FulfillEvent::Resolved(args), _) => {
                &&& after.stage is Finished
                &&& action == FulfillAction::Finish(Ok(args))
            },
            _ => false,
        }
    }

    /// Takes in an answer and says what is to be done next.
    pub fn step(self, event: FulfillEvent) -> (step: (Fulfillment, FulfillAction))
        requires
            self.expects(event),
        ensures
            self.follows(event, &step.0, step.1),
    {
        let Fulfillment { implication, source, stage } = self;
        let (stage, action): (FulfillStage, FulfillAction) = match (event, stage) {
            (FulfillEvent::Normalized(Ok(source)), _) => (
                FulfillStage::Instantiating(source),
                FulfillAction::Instantiate {
                    target_impl: implication.target_impl,
                    environment: implication.environment,
                    cause: implication.cause,
                },
            ),
            (FulfillEvent::Normalized(Err(source_text)), _) => {
                let mut message: String = String::from_str("failed to fully normalize ");
                message.append(source_text.as_str());
                (
                    FulfillStage::DelayingBug,
                    FulfillAction::DelayBug { at: implication.source_impl, message },
                )
            },
            (FulfillEvent::BugDelayed, _) => (
                FulfillStage::Instantiating(source),
                FulfillAction::Instantiate {
                    target_impl: implication.target_impl,
                    environment: implication.environment,
                    cause: implication.cause,
                },
            ),
            (
                FulfillEvent::Instantiated { args, target },
                FulfillStage::Instantiating(source),
            ) => (
                FulfillStage::Unifying { args },
                FulfillAction::Unify { source, target, environment: implication.environment },
            ),
            (FulfillEvent::Unified(Some(more)), FulfillStage::Unifying { args }) => (
                FulfillStage::TakingObligations { args, more },
                FulfillAction::TakeObligations,
            ),
            // attempt to prove all of the predicates for impl2 given those for impl1
            (
                FulfillEvent::ObligationsTaken(mut obligations),
                FulfillStage::TakingObligations { args, mut more },
            ) => {
                obligations.append(&mut more);
                (FulfillStage::Selecting { args }, FulfillAction::Select(obligations))
            },
            (FulfillEvent::Selected(0), FulfillStage::Selecting { args }) => (
                FulfillStage::Resolving,
                FulfillAction::Resolve(args),
            ),
            (FulfillEvent::Resolved(args), _) => (
                FulfillStage::Finished,
                FulfillAction::Finish(Ok(args)),
            ),
            // do the impls unify, and can the obligations be proved? If not, no specialization.
            _ => (FulfillStage::Finished, FulfillAction::Finish(Err(NotImplied))),
        };
        (Fulfillment { implication, source, stage }, action)
    }
}

/// What an attempt begins with.
pub open spec fn first_action(implication: Implication, source: TraitRefId) -> FulfillAction {
    FulfillAction::Normalize { trait_ref: source, environment: implication.environment }
}

/// Begins the attempt to fulfill all obligations of the target impl after
/// unification with the trait of the source impl. If successful, it ends with
/// the generic parameters for *all* the generics of the target impl, including
/// both those needed to unify with the trait and those whose identity is
/// determined via a where clause in the impl.
pub fn fulfill_implication(implication: Implication, source: TraitRefId) -> (step: (
    Fulfillment,
    FulfillAction,
))
    ensures
        step.0.implication == implication,
        step.0.source == source,
        step.0.stage is Normalizing,
        step.1 == first_action(implication, source),
{
    (
        Fulfillment { implication, source, stage: FulfillStage::Normalizing },
        FulfillAction::Normalize { trait_ref: source, environment: implication.environment },
    )
}

/// An attempt from its beginning on: every event answers the action before it.
pub open spec fn is_attempt(
    attempts: Seq<Fulfillment>,
    events: Seq<FulfillEvent>,
    actions: Seq<FulfillAction>,
) -> bool {
    &&& attempts.len() == events.len() + 1
    &&& actions.len() == events.len() + 1
    &&& attempts[0].stage is Normalizing
    &&& actions[0] == first_action(attempts[0].implication, attempts[0].source)
    &&& forall|i: int|
        0 <= i < events.len() ==> {
            &&& attempts[i].expects(#[trigger] events[i])
            &&& attempts[i].follows(events[i], &attempts[i + 1], actions[i + 1])
        }
}

/// The traits of the two impls were found to unify.
pub open spec fn has_unified(events: Seq<FulfillEvent>) -> bool {
    exists|i: int|
        0 <= i < events.len() && (#[trigger] events[i] matches FulfillEvent::Unified(more)
            && more is Some)
}

/// All obligations were proved.
pub open spec fn has_proved(events: Seq<FulfillEvent>) -> bool {
    exists|i: int| 0 <= i < events.len() && #[trigger] events[i] == FulfillEvent::Selected(0)
}

proof fn lemma_attempt(
    attempts: Seq<Fulfillment>,
    events: Seq<FulfillEvent>,
    actions: Seq<FulfillAction>,
    n: int,
)
    requires
        is_attempt(attempts, events, actions),
        0 <= n <= events.len(),
    ensures
        ({
            let seen = events.take(n);
            match attempts[n].stage {
                FulfillStage::TakingObligations { .. } | FulfillStage::Selecting { .. } => {
                    &&& has_unified(seen) && !has_proved(seen)
                    &&& !(actions[n] is Finish)
                },
                FulfillStage::Resolving => {
                    &&& has_unified(seen) && has_proved(seen)
                    &&& !(actions[n] is Finish)
                },
                FulfillStage::Finished => {
                    &&& actions[n] is Finish
                    &&& actions[n] == FulfillAction::Finish(Err(NotImplied)) ==> !(has_unified(seen)
                        && has_proved(seen))
                    &&& actions[n] != FulfillAction::Finish(Err(NotImplied)) ==> {
                        &&& has_unified(seen) && has_proved(seen)
                        &&& n > 0
                        &&& events[n - 1] matches FulfillEvent::Resolved(args)
                        &&& actions[n] == FulfillAction::Finish(Ok(args))
                    }
                },
                _ => !has_unified(seen) && !has_proved(seen) && !(actions[n] is Finish),
            }
        }),
    decreases n,
{
    if n > 0 {
        lemma_attempt(attempts, events, actions, n - 1);
        let event = events[n - 1];
        assert(attempts[n - 1].expects(event));
        assert(attempts[n - 1].follows(event, &attempts[n], actions[n]));
        let before = events.take(n - 1);
        let seen = events.take(n);
        assert(seen =~= before.push(event));
        assert(seen[n - 1] == event);
        assert(forall|i: int| 0 <= i < n - 1 ==> seen[i] == before[i]);
        if has_unified(before) {
            let i = choose|i: int|
                0 <= i < before.len() && (#[trigger] before[i] matches FulfillEvent::Unified(more)
                    && more is Some);
            assert(seen[i] == before[i]);
        }
        if has_proved(before) {
            let i = choose|i: int|
                0 <= i < before.len() && #[trigger] before[i] == FulfillEvent::Selected(0);
            assert(seen[i] == before[i]);
        }
        assert(has_unified(seen) <==> has_unified(before) || (event matches FulfillEvent::Unified(
            more,
        ) && more is Some));
        assert(has_proved(seen) <==> has_proved(before) || event == FulfillEvent::Selected(0));
    }
}

/// An attempt that comes to its end has found the target impl to be implied
/// exactly where the traits unify and all obligations were proved, and then ends
/// with the arguments that inference came up with.
pub proof fn law_implied_iff_unified_and_proved(
    attempts: Seq<Fulfillment>,
    events: Seq<FulfillEvent>,
    actions: Seq<FulfillAction>,
)
    requires
        is_attempt(attempts, events, actions),
        actions.last() is Finish,
    ensures
        actions.last()->Finish_0 is Ok <==> has_unified(events) && has_proved(events),
        actions.last()->Finish_0 matches Ok(args) ==> events.len() > 0 && events.last()
            == FulfillEvent::Resolved(args),
{
    lemma_attempt(attempts, events, actions, events.len() as int);
    assert(events.take(events.len() as int) =~= events);
}

/// One impl specializes another exactly where the feature gate lets it, both have
/// the same polarity, their traits unify, and the obligations of the other impl
/// were proved in the attempt to relate the two in general.
pub proof fn law_specializes_iff_unified_and_proved(
    features: Features,
    impl1: ImplSite,
    impl2: ImplSite,
    polarity1: Option<ImplPolarity>,
    polarity2: Option<ImplPolarity>,
    attempts: Seq<Fulfillment>,
    events: Seq<FulfillEvent>,
    actions: Seq<FulfillAction>,
)
    requires
        is_attempt(attempts, events, actions),
        attempts[0].implication == Implication::in_general(impl1.def_id, impl2.def_id),
        actions.last() is Finish,
    ensures
        specialization(
            features,
            impl1,
            impl2,
            polarity1,
            polarity2,
            found_implied(Some(&actions.last()->Finish_0)),
        ) == Specialization::Decided(true) <==> {
            &&& gate_open(features, impl1, impl2)
            &&& polarity1 is Some && polarity1 == polarity2
            &&& has_unified(events)
            &&& has_proved(events)
        },
{
    law_implied_iff_unified_and_proved(attempts, events, actions);
}

/// How far an attempt has got at most.
pub open spec fn stage_rank(stage: FulfillStage) -> nat {
    match stage {
        FulfillStage::Normalizing => 0,
        FulfillStage::DelayingBug => 1,
        FulfillStage::Instantiating(_) => 2,
        FulfillStage::Unifying { .. } => 3,
        FulfillStage::TakingObligations { .. } => 4,
        FulfillStage::Selecting { .. } => 5,
        FulfillStage::Resolving => 6,
        FulfillStage::Finished => 7,
    }
}

proof fn lemma_attempt_advances(
    attempts: Seq<Fulfillment>,
    events: Seq<FulfillEvent>,
    actions: Seq<FulfillAction>,
    n: int,
)
    requires
        is_attempt(attempts, events, actions),
        0 <= n <= events.len(),
    ensures
        n <= stage_rank(attempts[n].stage),
    decreases n,
{
    if n > 0 {
        lemma_attempt_advances(attempts, events, actions, n - 1);
        assert(attempts[n - 1].expects(events[n - 1]));
        assert(attempts[n - 1].follows(events[n - 1], &attempts[n], actions[n]));
    }
}

/// An attempt is over after at most seven answers.
pub proof fn law_attempt_ends(
    attempts: Seq<Fulfillment>,
    events: Seq<FulfillEvent>,
    actions: Seq<FulfillAction>,
)
    requires
        is_attempt(attempts, events, actions),
    ensures
        events.len() <= 7,
{
    lemma_attempt_advances(attempts, events, actions, events.len() as int);
}

/// The environment in which a step of an attempt is taken, where it matters.
pub open spec fn environment_of(action: FulfillAction) -> Option<Environment> {
    match action {
        FulfillAction::Normalize { environment, .. } => Some(environment),
        FulfillAction::Instantiate { environment, .. } => Some(environment),
        FulfillAction::Unify { environment, .. } => Some(environment),
        _ => None,
    }
}

proof fn lemma_attempt_keeps_question(
    attempts: Seq<Fulfillment>,
    events: Seq<FulfillEvent>,
    actions: Seq<FulfillAction>,
    n: int,
)
    requires
        is_attempt(attempts, events, actions),
        0 <= n <= events.len(),
    ensures
        attempts[n].implication == attempts[0].implication,
        attempts[n].source == attempts[0].source,
    decreases n,
{
    if n > 0 {
        lemma_attempt_keeps_question(attempts, events, actions, n - 1);
        assert(attempts[n - 1].follows(events[n - 1], &attempts[n], actions[n]));
    }
}

/// Throughout an attempt the environment is that of the implication it is about,
/// and so are the impl that is instantiated and the cause of its obligations.
pub proof fn law_attempt_keeps_environment(
    attempts: Seq<Fulfillment>,
    events: Seq<FulfillEvent>,
    actions: Seq<FulfillAction>,
    n: int,
)
    requires
        is_attempt(attempts, events, actions),
        0 <= n < actions.len(),
    ensures
        environment_of(actions[n]) matches Some(environment) ==> environment
            == attempts[0].implication.environment,
        actions[n] matches FulfillAction::Instantiate { target_impl, cause, .. } ==> target_impl
            == attempts[0].implication.target_impl && cause == attempts[0].implication.cause,
{
    if n > 0 {
        lemma_attempt_keeps_question(attempts, events, actions, n - 1);
        assert(attempts[n - 1].follows(events[n - 1], &attempts[n], actions[n]));
    }
}

/// The obligations of the target impl are taken only once the traits are known to
/// unify.
pub proof fn law_obligations_after_unification(
    attempts: Seq<Fulfillment>,
    events: Seq<FulfillEvent>,
    actions: Seq<FulfillAction>,
    n: int,
)
    requires
        is_attempt(attempts, events, actions),
        0 <= n < actions.len(),
        actions[n] is TakeObligations,
    ensures
        n > 0,
        events[n - 1] matches FulfillEvent::Unified(more) && more is Some,
{
    if n > 0 {
        assert(attempts[n - 1].follows(events[n - 1], &attempts[n], actions[n]));
    }
}

/// An attempt begins with the trait of the source impl, which is to be normalized
/// in the environment of the implication.
pub proof fn law_attempt_begins(
    implication: Implication,
    source: TraitRefId,
    attempt: Fulfillment,
    action: FulfillAction,
)
    requires
        call_ensures(fulfill_implication, (implication, source), (attempt, action)),
    ensures
        attempt.implication == implication,
        attempt.source == source,
        action matches FulfillAction::Normalize { trait_ref, environment } && trait_ref == source
            && environment == implication.environment,
        forall|event: FulfillEvent| #[trigger]
            attempt.expects(event) <==> event is Normalized,
        is_attempt(seq![attempt], Seq::<FulfillEvent>::empty(), seq![action]),
{
}

/// A run of the machine, step by step, is an attempt.
pub proof fn law_steps_make_an_attempt(
    attempts: Seq<Fulfillment>,
    events: Seq<FulfillEvent>,
    actions: Seq<FulfillAction>,
    event: FulfillEvent,
    after: Fulfillment,
    action: FulfillAction,
)
    requires
        is_attempt(attempts, events, actions),
        attempts.last().expects(event),
        call_ensures(Fulfillment::step, (attempts.last(), event), (after, action)),
    ensures
        is_attempt(attempts.push(after), events.push(event), actions.push(action)),
{
    let longer = attempts.push(after);
    let all = events.push(event);
    let done = actions.push(action);
    assert forall|i: int| 0 <= i < all.len() implies {
        &&& longer[i].expects(#[trigger] all[i])
        &&& longer[i].follows(all[i], &longer[i + 1], done[i + 1])
    } by {
        if i < events.len() {
            assert(attempts[i].expects(events[i]));
        } else {
            assert(longer[i] == attempts.last());
        }
    }
}

proof fn lemma_history(
    attempts: Seq<Fulfillment>,
    events: Seq<FulfillEvent>,
    actions: Seq<FulfillAction>,
    n: int,
)
    requires
        is_attempt(attempts, events, actions),
        0 <= n <= events.len(),
    ensures
        attempts[n].implication == attempts[0].implication,
        attempts[n].source == attempts[0].source,
        match attempts[n].stage {
            FulfillStage::Normalizing => n == 0 && actions[n] is Normalize,
            FulfillStage::DelayingBug => {
                &&& n == 1
                &&& events[0] matches FulfillEvent::Normalized(form)
                &&& form is Err
                &&& actions[n] is DelayBug
            },
            FulfillStage::Instantiating(source) => {
                &&& actions[n] is Instantiate
                &&& n == 1 || n == 2
                &&& n == 1 ==> events[0] == FulfillEvent::Normalized(Ok(source))
                &&& n == 2 ==> source == attempts[0].source && (
                events[0] matches FulfillEvent::Normalized(form) && form is Err)
            },
            FulfillStage::Unifying { args } => {
                &&& n >= 2
                &&& attempts[n - 1].stage is Instantiating
                &&& events[n - 1] matches FulfillEvent::Instantiated { args: fresh, target }
                &&& fresh == args
                &&& actions[n] matches FulfillAction::Unify { target: unified, source, .. }
                &&& unified == target
                &&& attempts[n - 1].stage == FulfillStage::Instantiating(source)
            },
            FulfillStage::TakingObligations { args, more } => {
                &&& n >= 3
                &&& attempts[n - 1].stage == FulfillStage::Unifying { args }
                &&& events[n - 1] == FulfillEvent::Unified(Some(more))
                &&& actions[n] is TakeObligations
            },
            FulfillStage::Selecting { args } => {
                &&& n >= 4
                &&& attempts[n - 1].stage matches FulfillStage::TakingObligations {
                    args: fresh,
                    more,
                }
                &&& fresh == args
                &&& events[n - 1] matches FulfillEvent::ObligationsTaken(obligations)
                &&& actions[n] matches FulfillAction::Select(all)
                &&& all@ =~= obligations@.add(more@)
            },
            FulfillStage::Resolving => {
                &&& n >= 5
                &&& attempts[n - 1].stage matches FulfillStage::Selecting { args }
                &&& events[n - 1] == FulfillEvent::Selected(0)
                &&& actions[n] == FulfillAction::Resolve(args)
            },
            FulfillStage::Finished => n >= 1 && actions[n] is Finish,
        },
    decreases n,
{
    if n > 0 {
        lemma_history(attempts, events, actions, n - 1);
        assert(attempts[n - 1].expects(events[n - 1]));
        assert(attempts[n - 1].follows(events[n - 1], &attempts[n], actions[n]));
    }
}

/// All obligations are proved together: what is handed to selection is every
/// obligation of the target impl, and behind them every one that the unification
/// has come up with, however many there are of either.
pub proof fn law_all_obligations_are_selected(
    attempts: Seq<Fulfillment>,
    events: Seq<FulfillEvent>,
    actions: Seq<FulfillAction>,
    n: int,
)
    requires
        is_attempt(attempts, events, actions),
        0 <= n < actions.len(),
        actions[n] is Select,
    ensures
        n >= 2,
        events[n - 1] matches FulfillEvent::ObligationsTaken(obligations) && obligations@ == (
        actions[n]->Select_0)@.take(obligations@.len() as int) && forall|o: u64|
            obligations@.contains(o) ==> #[trigger] (actions[n]->Select_0)@.contains(o),
        events[n - 2] matches FulfillEvent::Unified(Some(more)) && more@ == (
        actions[n]->Select_0)@.skip((events[n - 1]->ObligationsTaken_0)@.len() as int) && forall|
            o: u64,
        |
            more@.contains(o) ==> #[trigger] (actions[n]->Select_0)@.contains(o),
{
    lemma_history(attempts, events, actions, n);
    lemma_history(attempts, events, actions, n - 1);
    let all = (actions[n]->Select_0)@;
    let obligations = (events[n - 1]->ObligationsTaken_0)@;
    let more = attempts[n - 1].stage->TakingObligations_more@;
    assert(all == obligations + more);
    assert(all.take(obligations.len() as int) =~= obligations);
    assert(all.skip(obligations.len() as int) =~= more);
    assert forall|o: u64| obligations.contains(o) implies #[trigger] all.contains(o) by {
        let i = obligations.index_of(o);
        assert(all[i] == o);
    }
    assert forall|o: u64| more.contains(o) implies #[trigger] all.contains(o) by {
        let i = more.index_of(o);
        assert(all[obligations.len() + i] == o);
    }
}

/// Where the target impl is found to be implied, the traits were unified, every
/// obligation of the target impl and of the unification was handed to selection,
/// selection found no error, and the fresh arguments of the target impl were then
/// resolved to what is returned.
pub proof fn law_implied_means_everything_was_proved(
    attempts: Seq<Fulfillment>,
    events: Seq<FulfillEvent>,
    actions: Seq<FulfillAction>,
)
    requires
        is_attempt(attempts, events, actions),
        actions.last() matches FulfillAction::Finish(result) && result is Ok,
    ensures
        ({
            let n = events.len() as int;
            &&& n >= 6
            &&& events[n - 1] == FulfillEvent::Resolved(actions[n]->Finish_0->Ok_0)
            &&& events[n - 2] == FulfillEvent::Selected(0)
            &&& events[n - 3] matches FulfillEvent::ObligationsTaken(obligations)
            &&& events[n - 4] matches FulfillEvent::Unified(Some(more))
            &&& events[n - 5] matches FulfillEvent::Instantiated { args, .. }
            &&& actions[n - 1] == FulfillAction::Resolve(args)
            &&& actions[n - 2] matches FulfillAction::Select(all)
            &&& all@ == obligations@ + more@
        }),
{
    let n = events.len() as int;
    lemma_history(attempts, events, actions, n);
    lemma_history(attempts, events, actions, n - 1);
    assert(attempts[n - 1].expects(events[n - 1]));
    assert(attempts[n - 1].follows(events[n - 1], &attempts[n], actions[n]));
    assert(attempts[n - 1].stage is Resolving);
    lemma_history(attempts, events, actions, n - 2);
    lemma_history(attempts, events, actions, n - 3);
    lemma_history(attempts, events, actions, n - 4);
    lemma_history(attempts, events, actions, n - 5);
}

/// What is unified is the trait of the target impl under its fresh arguments and
/// the normal form of the trait of the source impl; where that has none, the trait
/// as it is.
pub proof fn law_what_is_unified(
    attempts: Seq<Fulfillment>,
    events: Seq<FulfillEvent>,
    actions: Seq<FulfillAction>,
    n: int,
)
    requires
        is_attempt(attempts, events, actions),
        0 <= n < actions.len(),
        actions[n] is Unify,
    ensures
        n >= 2,
        events[n - 1] matches FulfillEvent::Instantiated { target, .. } && target
            == actions[n]->Unify_target,
        events[0] matches FulfillEvent::Normalized(form) && actions[n]->Unify_source == (
        match form {
            Ok(normal_form) => normal_form,
            Err(_) => attempts[0].source,
        }),
{
    lemma_history(attempts, events, actions, n);
    lemma_history(attempts, events, actions, n - 1);
}

/// What is resolved is the fresh arguments of the target impl, once all of its
/// obligations were proved.
pub proof fn law_what_is_resolved(
    attempts: Seq<Fulfillment>,
    events: Seq<FulfillEvent>,
    actions: Seq<FulfillAction>,
    n: int,
)
    requires
        is_attempt(attempts, events, actions),
        0 <= n < actions.len(),
        actions[n] is Resolve,
    ensures
        n >= 4,
        events[n - 1] == FulfillEvent::Selected(0),
        events[n - 4] matches FulfillEvent::Instantiated { args, .. } && args
            == actions[n]->Resolve_0,
{
    lemma_history(attempts, events, actions, n);
    lemma_history(attempts, events, actions, n - 1);
    lemma_history(attempts, events, actions, n - 2);
    lemma_history(attempts, events, actions, n - 3);
}

/// What every answer leads to. A failure to normalize is a bug at the source impl
/// and stops nothing; traits that do not unify and obligations that cannot be
/// proved end the attempt without success; nothing else does.
pub proof fn law_what_answers_lead_to(
    attempts: Seq<Fulfillment>,
    events: Seq<FulfillEvent>,
    actions: Seq<FulfillAction>,
    n: int,
)
    requires
        is_attempt(attempts, events, actions),
        0 <= n < events.len(),
    ensures
        events[n] matches FulfillEvent::Normalized(form) ==> (form is Ok <==> actions[n
            + 1] is Instantiate) && (form matches Err(text) ==> {
            &&& actions[n + 1] matches FulfillAction::DelayBug { at, message }
            &&& at == attempts[0].implication.source_impl
            &&& message@ == "failed to fully normalize "@ + text@
        }),
        events[n] is BugDelayed ==> actions[n + 1] is Instantiate,
        events[n] is Instantiated ==> actions[n + 1] is Unify,
        events[n] is ObligationsTaken ==> actions[n + 1] is Select,
        events[n] matches FulfillEvent::Unified(unified) ==> (if unified is Some {
            actions[n + 1] is TakeObligations
        } else {
            actions[n + 1] == FulfillAction::Finish(Err(NotImplied))
        }),
        events[n] matches FulfillEvent::Selected(errors) ==> (if errors == 0 {
            actions[n + 1] is Resolve
        } else {
            actions[n + 1] == FulfillAction::Finish(Err(NotImplied))
        }),
        events[n] matches FulfillEvent::Resolved(args) ==> actions[n + 1] == FulfillAction::Finish(
            Ok(args),
        ),
{
    lemma_history(attempts, events, actions, n);
    assert(attempts[n].expects(events[n]));
    assert(attempts[n].follows(events[n], &attempts[n + 1], actions[n + 1]));
}

/// The answers that are waited for are those to what was to be done, all of them
/// and no others. Nothing is waited for at the end.
pub proof fn law_answers_fit_questions(
    attempts: Seq<Fulfillment>,
    events: Seq<FulfillEvent>,
    actions: Seq<FulfillAction>,
    n: int,
    event: FulfillEvent,
)
    requires
        is_attempt(attempts, events, actions),
        0 <= n < actions.len(),
    ensures
        attempts[n].expects(event) <==> match actions[n] {
            FulfillAction::Normalize { .. } => event is Normalized,
            FulfillAction::DelayBug { .. } => event is BugDelayed,
            FulfillAction::Instantiate { .. } => event is Instantiated,
            FulfillAction::Unify { .. } => event is Unified,
            FulfillAction::TakeObligations => event is ObligationsTaken,
            FulfillAction::Select(_) => event is Selected,
            FulfillAction::Resolve(_) => event is Resolved,
            FulfillAction::Finish(_) => false,
        },
        attempts[n].expects(event) ==> call_requires(Fulfillment::step, (attempts[n], event)),
{
    lemma_history(attempts, events, actions, n);
}

/// Where one of the features is enabled, an impl specializes another of the same
/// polarity exactly where selection found no error in the attempt to relate them.
pub proof fn law_specializes_iff_attempt_succeeds(
    features: Features,
    impl1: ImplSite,
    impl2: ImplSite,
    polarity: ImplPolarity,
    attempts: Seq<Fulfillment>,
    events: Seq<FulfillEvent>,
    actions: Seq<FulfillAction>,
    decision: Specialization,
)
    requires
        features.specialization || features.min_specialization,
        is_attempt(attempts, events, actions),
        actions.last() is Finish,
        call_ensures(
            specializes,
            (
                features,
                impl1,
                impl2,
                Some(polarity),
                Some(polarity),
                Some(&actions.last()->Finish_0),
            ),
            decision,
        ),
    ensures
        decision == Specialization::Decided(
            exists|i: int|
                0 <= i < events.len() && #[trigger] events[i] == FulfillEvent::Selected(0),
        ),
{
    law_implied_iff_unified_and_proved(attempts, events, actions);
    assert(has_proved(events) ==> has_unified(events)) by {
        if has_proved(events) {
            let i = choose|i: int|
                0 <= i < events.len() && #[trigger] events[i] == FulfillEvent::Selected(0);
            assert(attempts[i].expects(events[i]));
            lemma_history(attempts, events, actions, i);
            lemma_history(attempts, events, actions, i - 1);
            assert(events[i - 2] is Unified);
        }
    }
}

} // verus!
