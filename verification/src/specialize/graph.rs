//! Building the specialization graph of a trait, impl by impl.
//!
//! The graph itself is kept by the compiler. This module says in which order the
//! impls enter it, what is done with the answers, and whether the graph can be
//! used in the end.
use vstd::prelude::*;

use crate::specialize::def_id::{law_local_round_trip, DefId, LocalDefId, LOCAL_CRATE};
use crate::specialize::order::{
    in_visit_order, law_same_impls, law_visits_by_crate_then_index, same_impls, sort_impls,
    visit_order,
};
use crate::specialize::report::{
    can_lead_to, law_conflicts_do_not_pass, ErrorGuaranteed, FutureCompatOverlapErrorKind,
    OverlapError,
};

verus! {

/// An overlap that used to be allowed.
#[derive(Debug)]
pub struct FutureCompatOverlapError {
    pub error: OverlapError,
    pub kind: FutureCompatOverlapErrorKind,
}

/// What keeps two impls of a trait from overlapping.
#[derive(Clone, Copy, PartialEq, Eq, Hash, Debug, Structural)]
pub enum OverlapMode {
    /// An obligation that cannot hold of what both would apply to.
    Stable,
    /// Such an obligation, or a negative impl that contradicts one.
    WithNegative,
    /// A negative impl that contradicts an obligation, and nothing else.
    Strict,
}

/// What is to be done next.
#[derive(Debug)]
pub enum GraphAction {
    /// Insert the impl into the graph; this is where overlaps are found.
    Insert { impl_def_id: LocalDefId, overlap_mode: OverlapMode },
    /// Report an overlap that the insertion of the impl has found.
    Report {
        overlap: OverlapError,
        impl_def_id: LocalDefId,
        used_to_be_allowed: Option<FutureCompatOverlapErrorKind>,
    },
    /// Look up the parent of a remote impl.
    AskParent(DefId),
    /// Record a remote impl below its parent.
    RecordFromCstore { parent: DefId, child: DefId },
    /// Hand out the graph, or the error.
    Finish(Result<(), ErrorGuaranteed>),
}

/// The answer to what was to be done.
#[derive(Debug)]
pub enum GraphEvent {
    /// The outcome of an insertion: an overlap that is an error, one that used to
    /// be allowed, or none.
    Inserted(Result<Option<FutureCompatOverlapError>, OverlapError>),
    /// The outcome of a report.
    Reported(Result<(), ErrorGuaranteed>),
    /// The parent of a remote impl, where it has one.
    Parent(Option<DefId>),
    /// A remote impl was recorded.
    Recorded,
}

/// The answer that is waited for.
#[derive(Clone, Copy, PartialEq, Eq, Debug, Structural)]
pub enum GraphStage {
    Inserting(LocalDefId),
    Reporting(LocalDefId),
    AskingParent(DefId),
    Recording(DefId),
    Finished,
}

/// A specialization graph under construction.
pub struct GraphBuild {
    trait_id: DefId,
    overlap_mode: OverlapMode,
    queue: Vec<DefId>,
    next: usize,
    stage: GraphStage,
    errored: Result<(), ErrorGuaranteed>,
    reports: Ghost<Seq<Result<(), ErrorGuaranteed>>>,
}

/// The first error among the outcomes, where there is one.
pub open spec fn first_error(outcomes: Seq<Result<(), ErrorGuaranteed>>) -> Result<
    (),
    ErrorGuaranteed,
>
    decreases outcomes.len(),
{
    if outcomes.len() == 0 {
        Ok(())
    } else {
        match first_error(outcomes.drop_last()) {
            Err(error) => Err(error),
            Ok(_) => outcomes.last(),
        }
    }
}

/// The answer that is waited for when the impl at `at` is taken up.
pub open spec fn stage_at(queue: Seq<DefId>, at: int) -> GraphStage {
    if at < queue.len() {
        match queue[at].local_def_id() {
            Some(local) => GraphStage::Inserting(local),
            None => GraphStage::AskingParent(queue[at]),
        }
    } else {
        GraphStage::Finished
    }
}

/// What is done when the impl at `at` is taken up: a local impl is inserted, in
/// the given mode; for a remote one the parent is looked up. After the last one the graph is done.
pub open spec fn action_at(
    overlap_mode: OverlapMode,
    queue: Seq<DefId>,
    at: int,
    errored: Result<(), ErrorGuaranteed>,
) -> GraphAction {
    if at < queue.len() {
        match queue[at].local_def_id() {
            Some(impl_def_id) => GraphAction::Insert { impl_def_id, overlap_mode },
            None => GraphAction::AskParent(queue[at]),
        }
    } else {
        GraphAction::Finish(errored)
    }
}

/// The overlap that an insertion has found, and why it used to be allowed, where
/// it was.
pub open spec fn found_overlap(
    outcome: Result<Option<FutureCompatOverlapError>, OverlapError>,
) -> Option<(OverlapError, Option<FutureCompatOverlapErrorKind>)> {
    match outcome {
        Err(overlap) => Some((overlap, None)),
        Ok(Some(overlap)) => Some((overlap.error, Some(overlap.kind))),
        Ok(None) => None,
    }
}

impl GraphBuild {
    /// The trait whose graph is built.
    pub closed spec fn trait_id(&self) -> DefId {
        self.trait_id
    }

    /// The mode in which impls are inserted.
    pub closed spec fn overlap_mode(&self) -> OverlapMode {
        self.overlap_mode
    }

    /// The impls of the trait, in the order of visits.
    pub closed spec fn queue(&self) -> Seq<DefId> {
        self.queue@
    }

    /// The number of impls that are done with.
    pub closed spec fn position(&self) -> int {
        self.next as int
    }

    /// The answer that is waited for.
    pub closed spec fn stage(&self) -> GraphStage {
        self.stage
    }

    /// The outcomes of the reports so far.
    pub closed spec fn reports(&self) -> Seq<Result<(), ErrorGuaranteed>> {
        self.reports@
    }

    #[verifier::type_invariant]
    spec fn consistent(self) -> bool {
        &&& in_visit_order(self.queue@)
        &&& self.errored == first_error(self.reports@)
        &&& self.next <= self.queue@.len()
        &&& match self.stage {
            GraphStage::Finished => self.next == self.queue@.len(),
            GraphStage::Inserting(local) | GraphStage::Reporting(local) => {
                &&& self.next < self.queue@.len()
                &&& self.queue@[self.next as int].local_def_id() == Some(local)
            },
            GraphStage::AskingParent(remote) | GraphStage::Recording(remote) => {
                &&& self.next < self.queue@.len()
                &&& self.queue@[self.next as int] == remote
                &&& !remote.local()
            },
        }
    }

    /// Whether `event` is an answer that is waited for.
    pub open spec fn expects(&self, event: GraphEvent) -> bool {
        match event {
            GraphEvent::Inserted(_) => self.stage() is Inserting,
            GraphEvent::Reported(_) => self.stage() is Reporting,
            GraphEvent::Parent(_) => self.stage() is AskingParent,
            GraphEvent::Recorded => self.stage() is Recording,
        }
    }

    /// The impl at hand is done with: `after` has taken up the next one.
    pub open spec fn moves_on(
        &self,
        after: &GraphBuild,
        action: GraphAction,
        reports: Seq<Result<(), ErrorGuaranteed>>,
    ) -> bool {
        &&& after.position() == self.position() + 1
        &&& after.reports() == reports
        &&& after.stage() == stage_at(self.queue(), self.position() + 1)
        &&& action == action_at(
            self.overlap_mode(),
            self.queue(),
            self.position() + 1,
            first_error(reports),
        )
    }

    /// What the answer `event` leads to.
    ///
    /// An overlap that an insertion has found is reported, and the build goes on
    /// whatever the outcome; the first error is kept. A remote impl without a
    /// parent is recorded below the trait.
    pub open spec fn follows(
        &self,
        event: GraphEvent,
        after: &GraphBuild,
        action: GraphAction,
    ) -> bool {
        &&& after.trait_id() == self.trait_id()
        &&& after.overlap_mode() == self.overlap_mode()
        &&& after.queue() == self.queue()
        &&& match event {
            GraphEvent::Inserted(outcome) => match found_overlap(outcome) {
                Some((overlap, used_to_be_allowed)) => {
                    let impl_def_id = self.stage()->Inserting_0;
                    &&& after.position() == self.position()
                    &&& after.reports() == self.reports()
                    &&& after.stage() == GraphStage::Reporting(impl_def_id)
                    &&& action == GraphAction::Report { overlap, impl_def_id, used_to_be_allowed }
                },
                None => self.moves_on(after, action, self.reports()),
            },
            GraphEvent::Reported(outcome) => self.moves_on(
                after,
                action,
                self.reports().push(outcome),
            ),
            GraphEvent::Parent(parent) => {
                let child = self.stage()->AskingParent_0;
                &&& after.position() == self.position()
                &&& after.reports() == self.reports()
                &&& after.stage() == GraphStage::Recording(child)
                &&& action == GraphAction::RecordFromCstore {
                    parent: (match parent {
                        Some(parent) => parent,
                        None => self.trait_id(),
                    }),
                    child,
                }
            },
            GraphEvent::Recorded => self.moves_on(after, action, self.reports()),
        }
    }

    /// Takes up the impl at `next`.
    fn visit(
        trait_id: DefId,
        overlap_mode: OverlapMode,
        queue: Vec<DefId>,
        next: usize,
        errored: Result<(), ErrorGuaranteed>,
        reports: Ghost<Seq<Result<(), ErrorGuaranteed>>>,
    ) -> (step: (GraphBuild, GraphAction))
        requires
            in_visit_order(queue@),
            next <= queue@.len(),
            errored == first_error(reports@),
        ensures
            step.0.trait_id() == trait_id,
            step.0.overlap_mode() == overlap_mode,
            step.0.queue() == queue@,
            step.0.position() == next,
            step.0.reports() == reports@,
            step.0.stage() == stage_at(queue@, next as int),
            step.1 == action_at(overlap_mode, queue@, next as int, first_error(reports@)),
    {
        if next < queue.len() {
            let impl_def_id: DefId = queue[next];
            match impl_def_id.as_local() {
                Some(local) => (
                    GraphBuild {
                        trait_id,
                        overlap_mode,
                        queue,
                        next,
                        stage: GraphStage::Inserting(local),
                        errored,
                        reports,
                    },
                    GraphAction::Insert { impl_def_id: local, overlap_mode },
                ),
                None => (
                    GraphBuild {
                        trait_id,
                        overlap_mode,
                        queue,
                        next,
                        stage: GraphStage::AskingParent(impl_def_id),
                        errored,
                        reports,
                    },
                    GraphAction::AskParent(impl_def_id),
                ),
            }
        } else {
            (
                GraphBuild {
                    trait_id,
                    overlap_mode,
                    queue,
                    next,
                    stage: GraphStage::Finished,
                    errored,
                    reports,
                },
                GraphAction::Finish(errored),
            )
        }
    }

    /// Takes in an answer and says what is to be done next.
    pub fn step(self, event: GraphEvent) -> (step: (GraphBuild, GraphAction))
        requires
            self.expects(event),
        ensures
            self.follows(event, &step.0, step.1),
    {
        proof {
            use_type_invariant(&self);
        }
        let GraphBuild { trait_id, overlap_mode, queue, next, stage, errored, reports } = self;
        assert(next <= queue.len());
        match event {
            GraphEvent::Inserted(outcome) => {
                let (overlap, used_to_be_allowed) = match outcome {
                    Err(overlap) => (Some(overlap), None),
                    Ok(Some(overlap)) => (Some(overlap.error), Some(overlap.kind)),
                    Ok(None) => (None, None),
                };
                match (overlap, stage) {
                    (Some(overlap), GraphStage::Inserting(impl_def_id)) => (
                        GraphBuild {
                            trait_id,
                            overlap_mode,
                            queue,
                            next,
                            stage: GraphStage::Reporting(impl_def_id),
                            errored,
                            reports,
                        },
                        GraphAction::Report { overlap, impl_def_id, used_to_be_allowed },
                    ),
                    _ => GraphBuild::visit(trait_id, overlap_mode, queue, next + 1, errored, reports),
                }
            },
            GraphEvent::Reported(outcome) => {
                let ghost outcomes = reports@.push(outcome);
                assert(outcomes.drop_last() =~= reports@);
                let errored: Result<(), ErrorGuaranteed> = match errored {
                    Ok(_) => outcome,
                    Err(error) => Err(error),
                };
                GraphBuild::visit(trait_id, overlap_mode, queue, next + 1, errored, Ghost(outcomes))
            },
            GraphEvent::Parent(parent) => {
                let child: DefId = queue[next];
                let parent: DefId = match parent {
                    Some(parent) => parent,
                    None => trait_id,
                };
                (
                    GraphBuild {
                        trait_id,
                        overlap_mode,
                        queue,
                        next,
                        stage: GraphStage::Recording(child),
                        errored,
                        reports,
                    },
                    GraphAction::RecordFromCstore { parent, child },
                )
            },
            GraphEvent::Recorded => GraphBuild::visit(trait_id, overlap_mode, queue, next + 1, errored, reports),
        }
    }
}

/// Begins the specialization graph of `trait_id`, which has the given impls and
/// overlap mode, and says what is to be done first.
pub fn specialization_graph_provider(
    trait_id: DefId,
    overlap_mode: OverlapMode,
    trait_impls: &Vec<DefId>,
) -> (step: (GraphBuild, GraphAction))
    ensures
        step.0.trait_id() == trait_id,
        step.0.overlap_mode() == overlap_mode,
        in_visit_order(step.0.queue()),
        same_impls(step.0.queue(), trait_impls@),
        step.0.position() == 0,
        step.0.reports() == Seq::<Result<(), ErrorGuaranteed>>::empty(),
        step.0.stage() == stage_at(step.0.queue(), 0),
        step.1 == action_at(overlap_mode, step.0.queue(), 0, Ok(())),
{
    let queue: Vec<DefId> = sort_impls(trait_impls);
    GraphBuild::visit(trait_id, overlap_mode, queue, 0, Ok(()), Ghost(Seq::empty()))
}

/// The graph is handed out exactly where no report was an error; otherwise the
/// outcome is the earliest error.
pub proof fn law_first_error(outcomes: Seq<Result<(), ErrorGuaranteed>>)
    ensures
        first_error(outcomes) is Ok <==> forall|i: int|
            0 <= i < outcomes.len() ==> (#[trigger] outcomes[i]) is Ok,
        first_error(outcomes) is Err ==> exists|i: int|
            0 <= i < outcomes.len() && #[trigger] outcomes[i] == first_error(outcomes)
                && forall|j: int| 0 <= j < i ==> (#[trigger] outcomes[j]) is Ok,
    decreases outcomes.len(),
{
    if outcomes.len() > 0 {
        let front = outcomes.drop_last();
        law_first_error(front);
        let last = outcomes.len() - 1;
        if first_error(front) is Err {
            let i = choose|i: int|
                0 <= i < front.len() && #[trigger] front[i] == first_error(front) && forall|j: int|
                    0 <= j < i ==> (#[trigger] front[j]) is Ok;
            assert(outcomes[i] == front[i]);
            assert forall|j: int| 0 <= j < i implies (#[trigger] outcomes[j]) is Ok by {
                assert(front[j] == outcomes[j]);
            }
        } else {
            assert forall|j: int| 0 <= j < last implies (#[trigger] outcomes[j]) is Ok by {
                assert(front[j] == outcomes[j]);
            }
            assert(outcomes[last] == outcomes.last());
        }
    }
}

/// The impls that the actions take up, in their order.
pub open spec fn taken_up(actions: Seq<GraphAction>) -> Seq<DefId>
    decreases actions.len(),
{
    if actions.len() == 0 {
        Seq::empty()
    } else {
        let before = taken_up(actions.drop_last());
        match actions.last() {
            GraphAction::Insert { impl_def_id, .. } => before.push(impl_def_id.def_id()),
            GraphAction::AskParent(remote) => before.push(remote),
            _ => before,
        }
    }
}

/// The outcomes of the reports among the events, in their order.
pub open spec fn report_outcomes(events: Seq<GraphEvent>) -> Seq<Result<(), ErrorGuaranteed>>
    decreases events.len(),
{
    if events.len() == 0 {
        Seq::empty()
    } else {
        let before = report_outcomes(events.drop_last());
        match events.last() {
            GraphEvent::Reported(outcome) => before.push(outcome),
            _ => before,
        }
    }
}

/// A build from its beginning on: every event answers the action before it.
pub open spec fn is_build(
    builds: Seq<GraphBuild>,
    events: Seq<GraphEvent>,
    actions: Seq<GraphAction>,
) -> bool {
    &&& builds.len() == events.len() + 1
    &&& actions.len() == events.len() + 1
    &&& builds[0].position() == 0
    &&& builds[0].reports() == Seq::<Result<(), ErrorGuaranteed>>::empty()
    &&& builds[0].stage() == stage_at(builds[0].queue(), 0)
    &&& actions[0] == action_at(builds[0].overlap_mode(), builds[0].queue(), 0, Ok(()))
    &&& forall|i: int|
        0 <= i < events.len() ==> {
            &&& builds[i].expects(#[trigger] events[i])
            &&& builds[i].follows(events[i], &builds[i + 1], actions[i + 1])
        }
}

proof fn lemma_build(
    builds: Seq<GraphBuild>,
    events: Seq<GraphEvent>,
    actions: Seq<GraphAction>,
    n: int,
)
    requires
        is_build(builds, events, actions),
        0 <= n <= events.len(),
    ensures
        ({
            let build = builds[n];
            let queue = builds[0].queue();
            let at = build.position();
            &&& build.trait_id() == builds[0].trait_id()
            &&& build.overlap_mode() == builds[0].overlap_mode()
            &&& build.queue() == queue
            &&& build.reports() == report_outcomes(events.take(n))
            &&& 0 <= at <= queue.len()
            &&& match build.stage() {
                GraphStage::Finished => {
                    &&& at == queue.len()
                    &&& actions[n] == GraphAction::Finish(first_error(build.reports()))
                },
                GraphStage::Inserting(local) => {
                    &&& at < queue.len()
                    &&& queue[at].local_def_id() == Some(local)
                    &&& actions[n] == action_at(build.overlap_mode(), queue, at, Ok(()))
                },
                GraphStage::Reporting(local) => {
                    &&& at < queue.len()
                    &&& queue[at].local_def_id() == Some(local)
                    &&& actions[n] is Report
                },
                GraphStage::AskingParent(remote) => {
                    &&& at < queue.len()
                    &&& queue[at] == remote
                    &&& actions[n] == action_at(build.overlap_mode(), queue, at, Ok(()))
                    &&& !remote.local()
                },
                GraphStage::Recording(remote) => {
                    &&& at < queue.len()
                    &&& queue[at] == remote
                    &&& actions[n] is RecordFromCstore
                    &&& !remote.local()
                },
            }
            &&& taken_up(actions.take(n + 1)) == (if at < queue.len() {
                queue.take(at + 1)
            } else {
                queue
            })
        }),
    decreases n,
{
    let queue = builds[0].queue();
    assert(actions.take(n + 1).drop_last() =~= actions.take(n));
    assert(actions.take(n + 1).last() == actions[n]);
    if n == 0 {
        assert(taken_up(actions.take(0)) =~= Seq::<DefId>::empty());
        assert(events.take(0) =~= Seq::<GraphEvent>::empty());
        if queue.len() > 0 {
            law_local_round_trip(LocalDefId { index: queue[0].index }, queue[0]);
            assert(queue.take(1) =~= Seq::<DefId>::empty().push(queue[0]));
        } else {
            assert(queue =~= Seq::<DefId>::empty());
        }
    } else {
        lemma_build(builds, events, actions, n - 1);
        let event = events[n - 1];
        assert(builds[n - 1].follows(event, &builds[n], actions[n]));
        assert(events.take(n).drop_last() =~= events.take(n - 1));
        assert(events.take(n).last() == event);
        let at = builds[n].position();
        if at < queue.len() {
            law_local_round_trip(LocalDefId { index: queue[at].index }, queue[at]);
            assert(queue.take(at + 1) =~= queue.take(at).push(queue[at]));
        }
        assert(queue.take(queue.len() as int) =~= queue);
    }
}

/// A build that comes to its end has taken up every impl of the trait, once and
/// in the order of visits, and its result is the first error that a report led
/// to.
pub proof fn law_every_impl_is_visited_once(
    builds: Seq<GraphBuild>,
    events: Seq<GraphEvent>,
    actions: Seq<GraphAction>,
)
    requires
        is_build(builds, events, actions),
        actions.last() is Finish,
    ensures
        taken_up(actions) == builds[0].queue(),
        actions.last() == GraphAction::Finish(first_error(report_outcomes(events))),
{
    lemma_build(builds, events, actions, events.len() as int);
    assert(actions.take(actions.len() as int) =~= actions);
    assert(events.take(events.len() as int) =~= events);
}

proof fn lemma_build_advances(
    builds: Seq<GraphBuild>,
    events: Seq<GraphEvent>,
    actions: Seq<GraphAction>,
    n: int,
)
    requires
        is_build(builds, events, actions),
        0 <= n <= events.len(),
    ensures
        n <= 2 * builds[n].position() + (if builds[n].stage() is Reporting
            || builds[n].stage() is Recording {
            1int
        } else {
            0int
        }),
    decreases n,
{
    if n > 0 {
        lemma_build_advances(builds, events, actions, n - 1);
        assert(builds[n - 1].expects(events[n - 1]));
        assert(builds[n - 1].follows(events[n - 1], &builds[n], actions[n]));
    }
}

/// A build is over after at most two answers for each impl.
pub proof fn law_build_ends(
    builds: Seq<GraphBuild>,
    events: Seq<GraphEvent>,
    actions: Seq<GraphAction>,
)
    requires
        is_build(builds, events, actions),
    ensures
        events.len() <= 2 * builds[0].queue().len(),
{
    lemma_build(builds, events, actions, events.len() as int);
    lemma_build_advances(builds, events, actions, events.len() as int);
}

/// The insertion of a local impl.
pub open spec fn inserts(impl_def_id: LocalDefId, overlap_mode: OverlapMode) -> GraphAction {
    GraphAction::Insert { impl_def_id, overlap_mode }
}

/// Local impls are inserted, in the overlap mode of the trait. An overlap is
/// reported of an impl whose insertion has just found it, so none is reported of
/// a remote impl; that one is recorded below its parent, or below the trait where
/// it has none.
pub proof fn law_impls_enter_the_graph(
    builds: Seq<GraphBuild>,
    events: Seq<GraphEvent>,
    actions: Seq<GraphAction>,
    n: int,
)
    requires
        is_build(builds, events, actions),
        0 <= n < actions.len(),
    ensures
        match actions[n] {
            GraphAction::Insert { impl_def_id, overlap_mode } => {
                &&& overlap_mode == builds[0].overlap_mode()
                &&& builds[0].queue().contains(impl_def_id.def_id())
            },
            GraphAction::Report { overlap, impl_def_id, used_to_be_allowed } => {
                &&& n > 0
                &&& actions[n - 1] == inserts(impl_def_id, builds[0].overlap_mode())
                &&& events[n - 1] matches GraphEvent::Inserted(outcome)
                &&& found_overlap(outcome) == Some((overlap, used_to_be_allowed))
            },
            GraphAction::AskParent(remote) => {
                &&& !remote.local()
                &&& builds[0].queue().contains(remote)
            },
            GraphAction::RecordFromCstore { parent, child } => {
                &&& n > 0
                &&& !child.local()
                &&& actions[n - 1] == GraphAction::AskParent(child)
                &&& events[n - 1] matches GraphEvent::Parent(found)
                &&& parent == (match found {
                    Some(found) => found,
                    None => builds[0].trait_id(),
                })
            },
            GraphAction::Finish(_) => n == events.len(),
        },
{
    let queue = builds[0].queue();
    lemma_build(builds, events, actions, n);
    if n < events.len() {
        assert(builds[n].expects(events[n]));
    }
    let at = builds[n].position();
    if at < queue.len() {
        law_local_round_trip(LocalDefId { index: queue[at].index }, queue[at]);
        assert(queue.contains(queue[at]));
    }
    if n > 0 {
        lemma_build(builds, events, actions, n - 1);
        assert(builds[n - 1].expects(events[n - 1]));
        assert(builds[n - 1].follows(events[n - 1], &builds[n], actions[n]));
    }
}

proof fn lemma_report_outcomes(events: Seq<GraphEvent>)
    ensures
        first_error(report_outcomes(events)) is Ok <==> forall|i: int|
            0 <= i < events.len() ==> (#[trigger] events[i] matches GraphEvent::Reported(outcome)
                ==> outcome is Ok),
    decreases events.len(),
{
    if events.len() > 0 {
        let front = events.drop_last();
        lemma_report_outcomes(front);
        assert(forall|i: int| 0 <= i < front.len() ==> #[trigger] events[i] == front[i]);
        assert(events[events.len() - 1] == events.last());
        if let GraphEvent::Reported(outcome) = events.last() {
            assert(report_outcomes(events).drop_last() =~= report_outcomes(front));
        }
        if first_error(report_outcomes(events)) is Ok {
            assert forall|i: int| 0 <= i < events.len() implies (
            #[trigger] events[i] matches GraphEvent::Reported(outcome) ==> outcome is Ok) by {
                if i < front.len() {
                    assert(front[i] == events[i]);
                }
            }
        } else if first_error(report_outcomes(front)) is Err {
            let i = choose|i: int|
                0 <= i < front.len() && !(
                #[trigger] front[i] matches GraphEvent::Reported(outcome) ==> outcome is Ok);
            assert(events[i] == front[i]);
        }
    }
}

/// A graph is handed out exactly where every report passed, and every overlap
/// that an insertion finds is reported.
pub proof fn law_graph_only_where_reports_pass(
    builds: Seq<GraphBuild>,
    events: Seq<GraphEvent>,
    actions: Seq<GraphAction>,
)
    requires
        is_build(builds, events, actions),
        actions.last() is Finish,
    ensures
        actions.last()->Finish_0 is Ok <==> forall|i: int|
            0 <= i < events.len() ==> (#[trigger] events[i] matches GraphEvent::Reported(outcome)
                ==> outcome is Ok),
        forall|i: int|
            0 <= i < events.len() ==> (#[trigger] events[i] matches GraphEvent::Inserted(outcome)
                ==> (found_overlap(outcome) is Some ==> reports_overlap(
                outcome,
                actions[i + 1],
            ))),
{
    law_every_impl_is_visited_once(builds, events, actions);
    lemma_report_outcomes(events);
    assert forall|i: int| 0 <= i < events.len() implies (
    #[trigger] events[i] matches GraphEvent::Inserted(outcome) ==> (found_overlap(outcome) is Some
        ==> reports_overlap(outcome, actions[i + 1]))) by {
        assert(builds[i].follows(events[i], &builds[i + 1], actions[i + 1]));
    }
}

/// Whether `action` reports the overlap that an insertion has found.
pub open spec fn reports_overlap(
    outcome: Result<Option<FutureCompatOverlapError>, OverlapError>,
    action: GraphAction,
) -> bool {
    &&& action matches GraphAction::Report { overlap, impl_def_id, used_to_be_allowed }
    &&& found_overlap(outcome) == Some((overlap, used_to_be_allowed))
}

/// Every report led to something that it can lead to.
pub open spec fn reports_conclude(events: Seq<GraphEvent>, actions: Seq<GraphAction>) -> bool {
    forall|i: int|
        0 <= i < events.len() ==> (
        #[trigger] actions[i] matches GraphAction::Report {
            overlap,
            impl_def_id,
            used_to_be_allowed,
        } ==> (events[i] matches GraphEvent::Reported(outcome) ==> can_lead_to(
            &overlap,
            impl_def_id,
            used_to_be_allowed,
            outcome,
        )))
}

/// Where a graph is handed out, no insertion has found an overlap but those that
/// used to be allowed.
pub proof fn law_graph_only_without_conflicts(
    builds: Seq<GraphBuild>,
    events: Seq<GraphEvent>,
    actions: Seq<GraphAction>,
    n: int,
)
    requires
        is_build(builds, events, actions),
        actions.last() == GraphAction::Finish(Ok(())),
        reports_conclude(events, actions),
        0 <= n < events.len(),
    ensures
        events[n] matches GraphEvent::Inserted(outcome) ==> (found_overlap(outcome) matches Some(
            found,
        ) ==> found.1 is Some),
{
    law_graph_only_where_reports_pass(builds, events, actions);
    if let GraphEvent::Inserted(outcome) = events[n] {
        if let Some((overlap, used_to_be_allowed)) = found_overlap(outcome) {
            let impl_def_id = builds[n].stage()->Inserting_0;
            assert(builds[n].expects(events[n]));
            assert(builds[n].follows(events[n], &builds[n + 1], actions[n + 1]));
            assert(actions[n + 1] is Report);
            assert(n + 1 < events.len());
            assert(builds[n + 1].expects(events[n + 1]));
            let passed = events[n + 1]->Reported_0;
            if used_to_be_allowed is None {
                law_conflicts_do_not_pass(&overlap, impl_def_id, used_to_be_allowed, passed);
            }
        }
    }
}

/// Two impls break the chain rule where they overlap and it does not hold of
/// exactly one of them that it specializes the other.
pub open spec fn breaks_chain_rule(
    overlaps: spec_fn(DefId, DefId) -> bool,
    specializes: spec_fn(DefId, DefId) -> bool,
    one: DefId,
    other: DefId,
) -> bool {
    overlaps(one, other) && specializes(one, other) == specializes(other, one)
}

/// The insertion of an impl finds an overlap that never was allowed wherever the
/// impl breaks the chain rule with one that was taken up before.
pub open spec fn insertions_find_conflicts(
    overlaps: spec_fn(DefId, DefId) -> bool,
    specializes: spec_fn(DefId, DefId) -> bool,
    events: Seq<GraphEvent>,
    actions: Seq<GraphAction>,
) -> bool {
    forall|i: int, other: DefId|
        #![trigger actions[i], taken_up(actions.take(i)).contains(other)]
        0 <= i < events.len() && taken_up(actions.take(i)).contains(other) ==> (
        actions[i] matches GraphAction::Insert { impl_def_id, .. } ==> (breaks_chain_rule(
            overlaps,
            specializes,
            impl_def_id.def_id(),
            other,
        ) ==> finds_conflict(events[i])))
}

/// Whether an insertion has found an overlap that never was allowed.
pub open spec fn finds_conflict(event: GraphEvent) -> bool {
    &&& event matches GraphEvent::Inserted(outcome)
    &&& found_overlap(outcome) matches Some(found)
    &&& found.1 is None
}

proof fn lemma_taken_up_at(
    builds: Seq<GraphBuild>,
    events: Seq<GraphEvent>,
    actions: Seq<GraphAction>,
    n: int,
    at: int,
) -> (m: int)
    requires
        is_build(builds, events, actions),
        0 <= n <= events.len(),
        0 <= at <= builds[n].position(),
        at < builds[0].queue().len(),
    ensures
        0 <= m <= n,
        builds[m].position() == at,
        builds[m].stage() == stage_at(builds[0].queue(), at),
    decreases n,
{
    lemma_build(builds, events, actions, n);
    if n == 0 {
        0
    } else {
        lemma_build(builds, events, actions, n - 1);
        assert(builds[n - 1].follows(events[n - 1], &builds[n], actions[n]));
        if at <= builds[n - 1].position() {
            lemma_taken_up_at(builds, events, actions, n - 1, at)
        } else {
            n
        }
    }
}

proof fn lemma_local_impl_is_inserted(
    builds: Seq<GraphBuild>,
    events: Seq<GraphEvent>,
    actions: Seq<GraphAction>,
    at: int,
) -> (n: int)
    requires
        is_build(builds, events, actions),
        actions.last() is Finish,
        0 <= at < builds[0].queue().len(),
        builds[0].queue()[at].local(),
    ensures
        0 <= n < events.len(),
        actions[n] matches GraphAction::Insert { impl_def_id, .. } && impl_def_id.def_id()
            == builds[0].queue()[at],
        taken_up(actions.take(n)) == builds[0].queue().take(at),
{
    let queue = builds[0].queue();
    let last = events.len() as int;
    lemma_build(builds, events, actions, last);
    let n = lemma_taken_up_at(builds, events, actions, last, at);
    lemma_build(builds, events, actions, n);
    law_local_round_trip(LocalDefId { index: queue[at].index }, queue[at]);
    assert(actions.take(n + 1).drop_last() =~= actions.take(n));
    let earlier = taken_up(actions.take(n));
    assert(taken_up(actions.take(n + 1)) == earlier.push(queue[at]));
    assert(earlier.push(queue[at]).drop_last() =~= earlier);
    assert(queue.take(at + 1).drop_last() =~= queue.take(at));
    n
}

proof fn lemma_chain_rule(
    overlaps: spec_fn(DefId, DefId) -> bool,
    specializes: spec_fn(DefId, DefId) -> bool,
    builds: Seq<GraphBuild>,
    events: Seq<GraphEvent>,
    actions: Seq<GraphAction>,
    before: int,
    at: int,
)
    requires
        is_build(builds, events, actions),
        actions.last() == GraphAction::Finish(Ok(())),
        reports_conclude(events, actions),
        insertions_find_conflicts(overlaps, specializes, events, actions),
        0 <= before < at < builds[0].queue().len(),
        builds[0].queue()[at].local(),
    ensures
        !breaks_chain_rule(
            overlaps,
            specializes,
            builds[0].queue()[at],
            builds[0].queue()[before],
        ),
{
    let queue = builds[0].queue();
    let n = lemma_local_impl_is_inserted(builds, events, actions, at);
    assert(queue.take(at)[before] == queue[before]);
    assert(taken_up(actions.take(n)).contains(queue[before]));
    law_graph_only_without_conflicts(builds, events, actions, n);
    assert(!finds_conflict(events[n]));
}

/// The chain rule: where a graph is handed out, and insertions find what breaks
/// the rule, then of any two overlapping impls of the trait of which one is local
/// exactly one specializes the other. Each such pair is looked at, since remote
/// impls are taken up first.
///
/// Which impls overlap, and which specialize which, is for the compiler to say;
/// that its insertions find what breaks the rule is taken for granted here.
pub proof fn law_chain_rule(
    overlaps: spec_fn(DefId, DefId) -> bool,
    specializes: spec_fn(DefId, DefId) -> bool,
    builds: Seq<GraphBuild>,
    events: Seq<GraphEvent>,
    actions: Seq<GraphAction>,
    one: DefId,
    other: DefId,
)
    requires
        is_build(builds, events, actions),
        in_visit_order(builds[0].queue()),
        actions.last() == GraphAction::Finish(Ok(())),
        reports_conclude(events, actions),
        insertions_find_conflicts(overlaps, specializes, events, actions),
        forall|a: DefId, b: DefId| #[trigger] overlaps(a, b) ==> overlaps(b, a),
        builds[0].queue().contains(one),
        builds[0].queue().contains(other),
        one != other,
        one.local() || other.local(),
    ensures
        overlaps(one, other) ==> specializes(one, other) != specializes(other, one),
{
    let queue = builds[0].queue();
    let p = choose|p: int| 0 <= p < queue.len() && queue[p] == one;
    let q = choose|q: int| 0 <= q < queue.len() && queue[q] == other;
    if p < q {
        assert(visit_order()(queue[p], queue[q]));
        lemma_chain_rule(overlaps, specializes, builds, events, actions, p, q);
    } else {
        assert(visit_order()(queue[q], queue[p]));
        lemma_chain_rule(overlaps, specializes, builds, events, actions, q, p);
    }
}

/// Every overlap that an insertion finds is reported at once, whatever it is: as
/// an error where it is one, and otherwise with the reason why it used to be
/// allowed. It is reported of the impl that was inserted. Where none is found,
/// nothing is reported.
pub proof fn law_overlaps_are_reported(
    builds: Seq<GraphBuild>,
    events: Seq<GraphEvent>,
    actions: Seq<GraphAction>,
    n: int,
)
    requires
        is_build(builds, events, actions),
        0 <= n < events.len(),
        events[n] is Inserted,
    ensures
        actions[n] is Insert,
        match events[n]->Inserted_0 {
            Err(found) => {
                &&& actions[n + 1] matches GraphAction::Report {
                    overlap,
                    impl_def_id,
                    used_to_be_allowed,
                }
                &&& overlap == found
                &&& used_to_be_allowed is None
                &&& impl_def_id == actions[n]->Insert_impl_def_id
            },
            Ok(Some(found)) => {
                &&& actions[n + 1] matches GraphAction::Report {
                    overlap,
                    impl_def_id,
                    used_to_be_allowed,
                }
                &&& overlap == found.error
                &&& used_to_be_allowed == Some(found.kind)
                &&& impl_def_id == actions[n]->Insert_impl_def_id
            },
            Ok(None) => !(actions[n + 1] is Report),
        },
{
    lemma_build(builds, events, actions, n);
    assert(builds[n].expects(events[n]));
    assert(builds[n].follows(events[n], &builds[n + 1], actions[n + 1]));
}

/// A remote impl is recorded as soon as its parent is known, below that parent, or
/// below the trait where there is none.
pub proof fn law_remote_impls_are_recorded(
    builds: Seq<GraphBuild>,
    events: Seq<GraphEvent>,
    actions: Seq<GraphAction>,
    n: int,
)
    requires
        is_build(builds, events, actions),
        0 <= n < events.len(),
        events[n] is Parent,
    ensures
        actions[n] matches GraphAction::AskParent(asked) && actions[n
            + 1] matches GraphAction::RecordFromCstore { parent, child } && child == asked
            && parent == events[n]->Parent_0.unwrap_or(builds[0].trait_id()),
{
    lemma_build(builds, events, actions, n);
    assert(builds[n].expects(events[n]));
    assert(builds[n].follows(events[n], &builds[n + 1], actions[n + 1]));
}

/// The answers that are waited for are those to what was to be done, all of them
/// and no others. Nothing is waited for at the end.
pub proof fn law_graph_answers_fit_questions(
    builds: Seq<GraphBuild>,
    events: Seq<GraphEvent>,
    actions: Seq<GraphAction>,
    n: int,
    event: GraphEvent,
)
    requires
        is_build(builds, events, actions),
        0 <= n < actions.len(),
    ensures
        builds[n].expects(event) <==> match actions[n] {
            GraphAction::Insert { .. } => event is Inserted,
            GraphAction::Report { .. } => event is Reported,
            GraphAction::AskParent(_) => event is Parent,
            GraphAction::RecordFromCstore { .. } => event is Recorded,
            GraphAction::Finish(_) => false,
        },
        builds[n].expects(event) ==> call_requires(GraphBuild::step, (builds[n], event)),
{
    lemma_build(builds, events, actions, n);
}

proof fn lemma_first_reported_error(events: Seq<GraphEvent>)
    ensures
        first_error(report_outcomes(events)) matches Err(error) ==> exists|i: int|
            0 <= i < events.len() && #[trigger] events[i] == GraphEvent::Reported(Err(error))
                && forall|j: int|
                0 <= j < i ==> (#[trigger] events[j] matches GraphEvent::Reported(outcome)
                    ==> outcome is Ok),
    decreases events.len(),
{
    if events.len() > 0 {
        let front = events.drop_last();
        lemma_first_reported_error(front);
        lemma_report_outcomes(front);
        if let GraphEvent::Reported(outcome) = events.last() {
            assert(report_outcomes(events).drop_last() =~= report_outcomes(front));
        }
        if let Err(error) = first_error(report_outcomes(events)) {
            if first_error(report_outcomes(front)) is Err {
                let i = choose|i: int|
                    0 <= i < front.len() && #[trigger] front[i] == GraphEvent::Reported(Err(error))
                        && forall|j: int|
                        0 <= j < i ==> (#[trigger] front[j] matches GraphEvent::Reported(outcome)
                            ==> outcome is Ok);
                assert(events[i] == front[i]);
                assert forall|j: int| 0 <= j < i implies (
                #[trigger] events[j] matches GraphEvent::Reported(outcome) ==> outcome is Ok) by {
                    assert(events[j] == front[j]);
                }
            } else {
                let last = events.len() - 1;
                assert(events[last] == GraphEvent::Reported(Err(error)));
                assert forall|j: int| 0 <= j < last implies (
                #[trigger] events[j] matches GraphEvent::Reported(outcome) ==> outcome is Ok) by {
                    assert(events[j] == front[j]);
                }
            }
        }
    }
}

/// A build that fails does so with the error of the first report that was one.
pub proof fn law_first_reported_error_is_kept(
    builds: Seq<GraphBuild>,
    events: Seq<GraphEvent>,
    actions: Seq<GraphAction>,
)
    requires
        is_build(builds, events, actions),
        actions.last() matches GraphAction::Finish(result) && result is Err,
    ensures
        exists|i: int|
            0 <= i < events.len() && #[trigger] events[i] == GraphEvent::Reported(
                actions.last()->Finish_0,
            ) && forall|j: int|
                0 <= j < i ==> (#[trigger] events[j] matches GraphEvent::Reported(outcome)
                    ==> outcome is Ok),
{
    law_every_impl_is_visited_once(builds, events, actions);
    lemma_first_reported_error(events);
}

/// Where overlaps that never were allowed are errors, a graph is handed out only
/// where no insertion has failed.
pub proof fn law_no_failed_insertion_passes(
    builds: Seq<GraphBuild>,
    events: Seq<GraphEvent>,
    actions: Seq<GraphAction>,
    n: int,
)
    requires
        is_build(builds, events, actions),
        actions.last() == GraphAction::Finish(Ok(())),
        forall|i: int|
            0 <= i < events.len() ==> (
            #[trigger] events[i] matches GraphEvent::Reported(outcome) ==> (
            actions[i] matches GraphAction::Report { used_to_be_allowed, .. }
                && used_to_be_allowed is None ==> outcome is Err)),
        0 <= n < events.len(),
    ensures
        !(events[n] matches GraphEvent::Inserted(outcome) && outcome is Err),
{
    if events[n] matches GraphEvent::Inserted(outcome) && outcome is Err {
        law_overlaps_are_reported(builds, events, actions, n);
        law_graph_only_where_reports_pass(builds, events, actions);
        assert(n + 1 < events.len());
        assert(builds[n + 1].expects(events[n + 1]));
        law_graph_answers_fit_questions(builds, events, actions, n + 1, events[n + 1]);
        assert(events[n + 1] is Reported);
    }
}

/// Whether an impl is taken up by the action.
pub open spec fn takes_up(action: GraphAction) -> bool {
    action is Insert || action is AskParent
}

/// The impl that is taken up by the action.
pub open spec fn impl_of(action: GraphAction) -> DefId {
    match action {
        GraphAction::Insert { impl_def_id, .. } => DefId {
            krate: LOCAL_CRATE,
            index: impl_def_id.index,
        },
        GraphAction::AskParent(remote) => remote,
        _ => arbitrary(),
    }
}

proof fn lemma_taken_up(actions: Seq<GraphAction>)
    ensures
        taken_up(actions) == actions.filter(|a: GraphAction| takes_up(a)).map_values(
            |a: GraphAction| impl_of(a),
        ),
    decreases actions.len(),
{
    let wanted = |a: GraphAction| takes_up(a);
    let found = |a: GraphAction| impl_of(a);
    let kept = actions.filter(wanted);
    if actions.len() == 0 {
        assert(kept =~= Seq::<GraphAction>::empty()) by {
            reveal(Seq::filter);
        }
        assert(kept.map_values(found) =~= Seq::<DefId>::empty());
    } else {
        let front = actions.drop_last();
        let last = actions.last();
        lemma_taken_up(front);
        let before = front.filter(wanted);
        assert(kept == (if takes_up(last) {
            before.push(last)
        } else {
            before
        })) by {
            reveal(Seq::filter);
        }
        assert(before.push(last).map_values(found) =~= before.map_values(found).push(
            impl_of(last),
        ));
    }
}

/// The impls that a finished build has taken up are those of the trait, in the
/// order of visits, each as often as it was given: a local one to be inserted, a
/// remote one to be recorded.
pub proof fn law_taken_up_in_order(
    builds: Seq<GraphBuild>,
    events: Seq<GraphEvent>,
    actions: Seq<GraphAction>,
)
    requires
        is_build(builds, events, actions),
        actions.last() is Finish,
    ensures
        actions.filter(|a: GraphAction| takes_up(a)).map_values(|a: GraphAction| impl_of(a))
            == builds[0].queue(),
        forall|i: int|
            0 <= i < actions.len() ==> (#[trigger] actions[i] is AskParent ==> impl_of(
                actions[i],
            ).krate != LOCAL_CRATE),
{
    law_every_impl_is_visited_once(builds, events, actions);
    lemma_taken_up(actions);
    assert forall|i: int|
        0 <= i < actions.len() && #[trigger] actions[i] is AskParent implies impl_of(
        actions[i],
    ).krate != LOCAL_CRATE by {
        law_impls_enter_the_graph(builds, events, actions, i);
    }
}

/// A build begins with the impls that were given, by falling crate number and then
/// by rising index, and takes up the first of them.
pub proof fn law_build_begins(
    trait_id: DefId,
    overlap_mode: OverlapMode,
    trait_impls: &Vec<DefId>,
    build: GraphBuild,
    action: GraphAction,
    impl_def_id: DefId,
    i: int,
    j: int,
)
    requires
        call_ensures(
            specialization_graph_provider,
            (trait_id, overlap_mode, trait_impls),
            (build, action),
        ),
        0 <= i <= j < trait_impls@.len(),
    ensures
        build.trait_id() == trait_id,
        build.overlap_mode() == overlap_mode,
        build.queue().len() == trait_impls@.len(),
        build.queue().to_multiset().count(impl_def_id) == trait_impls@.to_multiset().count(
            impl_def_id,
        ),
        build.queue()[i].krate >= build.queue()[j].krate,
        build.queue()[i].krate == build.queue()[j].krate ==> build.queue()[i].index
            <= build.queue()[j].index,
        takes_up(action),
        impl_of(action) == build.queue()[0],
        action is Insert <==> build.queue()[0].krate == LOCAL_CRATE,
        action matches GraphAction::Insert { overlap_mode: mode, .. } ==> mode == overlap_mode,
        is_build(seq![build], Seq::<GraphEvent>::empty(), seq![action]),
{
    law_same_impls(build.queue(), trait_impls@, impl_def_id);
    law_visits_by_crate_then_index(build.queue(), i, j);
}

/// A trait without impls has its graph at once.
pub proof fn law_nothing_to_build(
    trait_id: DefId,
    overlap_mode: OverlapMode,
    trait_impls: &Vec<DefId>,
    build: GraphBuild,
    action: GraphAction,
)
    requires
        call_ensures(
            specialization_graph_provider,
            (trait_id, overlap_mode, trait_impls),
            (build, action),
        ),
        trait_impls@.len() == 0,
    ensures
        action == GraphAction::Finish(Ok(())),
{
    law_same_impls(build.queue(), trait_impls@, trait_id);
}

/// A run of the machine, step by step, is a build.
pub proof fn law_steps_make_a_build(
    builds: Seq<GraphBuild>,
    events: Seq<GraphEvent>,
    actions: Seq<GraphAction>,
    event: GraphEvent,
    after: GraphBuild,
    action: GraphAction,
)
    requires
        is_build(builds, events, actions),
        builds.last().expects(event),
        call_ensures(GraphBuild::step, (builds.last(), event), (after, action)),
    ensures
        is_build(builds.push(after), events.push(event), actions.push(action)),
{
    let longer = builds.push(after);
    let all = events.push(event);
    let done = actions.push(action);
    assert forall|i: int| 0 <= i < all.len() implies {
        &&& longer[i].expects(#[trigger] all[i])
        &&& longer[i].follows(all[i], &longer[i + 1], done[i + 1])
    } by {
        if i < events.len() {
            assert(builds[i].expects(events[i]));
        } else {
            assert(longer[i] == builds.last());
        }
    }
}

/// Every trait has a graph to be built, whatever its impls.
pub proof fn law_every_trait_can_be_built(
    trait_id: DefId,
    overlap_mode: OverlapMode,
    trait_impls: &Vec<DefId>,
)
    ensures
        call_requires(specialization_graph_provider, (trait_id, overlap_mode, trait_impls)),
{
}

} // verus!
