use rustc_data_structures::fx::FxIndexSet;
use rustc_parts::specialize::def_id::{DefId, LocalDefId};
use rustc_parts::specialize::fulfill::TraitRefId;
use rustc_parts::specialize::graph::{
    specialization_graph_provider, FutureCompatOverlapError, GraphAction, GraphEvent, OverlapMode,
};
use rustc_parts::specialize::order::sort_impls;
use rustc_parts::specialize::report::{
    ErrorGuaranteed, FutureCompatOverlapErrorKind, OverlapError,
};

const TRAIT: DefId = DefId { krate: 4, index: 0 };

fn def_id(krate: u32, index: u32) -> DefId {
    DefId { krate, index }
}

fn inserted(action: GraphAction) -> (LocalDefId, OverlapMode) {
    match action {
        GraphAction::Insert { impl_def_id, overlap_mode } => (impl_def_id, overlap_mode),
        other => panic!("{:?}", other),
    }
}

fn overlap(with_impl: DefId) -> OverlapError {
    OverlapError {
        with_impl,
        trait_ref: TraitRefId { id: 0 },
        self_ty: None,
        intercrate_ambiguity_causes: FxIndexSet::default(),
        involves_placeholder: false,
        overflowing_predicates: vec![],
    }
}

#[test]
fn remote_impls_are_visited_first() {
    let found = vec![def_id(0, 5), def_id(2, 9), def_id(0, 1), def_id(7, 3), def_id(2, 4)];
    let order = [def_id(7, 3), def_id(2, 4), def_id(2, 9), def_id(0, 1), def_id(0, 5)];
    assert_eq!(sort_impls(&found), order);
    let mut other = found.clone();
    other.reverse();
    assert_eq!(sort_impls(&other), order);
}

#[test]
fn sorting_agrees_with_the_sort_key() {
    let mut found = vec![];
    for i in 0..97u32 {
        found.push(def_id((i * 31) % 5, (i * 57) % 13));
    }
    let sorted = sort_impls(&found);
    found.sort_by_key(|id| (-(id.krate as i64), id.index));
    assert_eq!(sorted, found);
    assert!(sort_impls(&vec![]).is_empty());
}

#[test]
fn local_definitions_have_local_names() {
    assert!(def_id(0, 3).is_local());
    assert!(!def_id(1, 3).is_local());
    assert_eq!(def_id(0, 3).as_local(), Some(LocalDefId { index: 3 }));
    assert_eq!(def_id(1, 3).as_local(), None);
    assert_eq!(LocalDefId { index: 3 }.to_def_id(), def_id(0, 3));
}

#[test]
fn trait_without_impls_is_done_at_once() {
    let (_, action) = specialization_graph_provider(TRAIT, OverlapMode::Stable, &vec![]);
    assert!(matches!(action, GraphAction::Finish(Ok(()))));
}

#[test]
fn remote_impl_is_recorded_below_its_parent() {
    let impls = vec![def_id(3, 1), def_id(3, 2)];
    let (build, action) = specialization_graph_provider(TRAIT, OverlapMode::Stable, &impls);
    assert!(matches!(action, GraphAction::AskParent(DefId { krate: 3, index: 1 })));
    let (build, action) = build.step(GraphEvent::Parent(None));
    match action {
        GraphAction::RecordFromCstore { parent, child } => {
            assert_eq!((parent, child), (TRAIT, def_id(3, 1)));
        }
        other => panic!("{:?}", other),
    }
    let (build, action) = build.step(GraphEvent::Recorded);
    assert!(matches!(action, GraphAction::AskParent(DefId { krate: 3, index: 2 })));
    let (build, action) = build.step(GraphEvent::Parent(Some(def_id(3, 1))));
    match action {
        GraphAction::RecordFromCstore { parent, child } => {
            assert_eq!((parent, child), (def_id(3, 1), def_id(3, 2)));
        }
        other => panic!("{:?}", other),
    }
    let (_, action) = build.step(GraphEvent::Recorded);
    assert!(matches!(action, GraphAction::Finish(Ok(()))));
}

#[test]
fn overlaps_are_reported_and_the_first_error_is_kept() {
    let impls = vec![def_id(0, 1), def_id(0, 2), def_id(0, 3), def_id(0, 4)];
    let (build, action) = specialization_graph_provider(TRAIT, OverlapMode::Stable, &impls);
    assert_eq!(inserted(action), (LocalDefId { index: 1 }, OverlapMode::Stable));
    let (build, action) = build.step(GraphEvent::Inserted(Ok(None)));
    assert_eq!(inserted(action), (LocalDefId { index: 2 }, OverlapMode::Stable));

    let allowed = FutureCompatOverlapError {
        error: overlap(def_id(0, 1)),
        kind: FutureCompatOverlapErrorKind::LeakCheck,
    };
    let (build, action) = build.step(GraphEvent::Inserted(Ok(Some(allowed))));
    match action {
        GraphAction::Report { overlap, impl_def_id, used_to_be_allowed } => {
            assert_eq!(overlap.with_impl, def_id(0, 1));
            assert_eq!(impl_def_id, LocalDefId { index: 2 });
            assert_eq!(used_to_be_allowed, Some(FutureCompatOverlapErrorKind::LeakCheck));
        }
        other => panic!("{:?}", other),
    }
    let (build, action) = build.step(GraphEvent::Reported(Ok(())));
    assert_eq!(inserted(action), (LocalDefId { index: 3 }, OverlapMode::Stable));

    let (build, action) = build.step(GraphEvent::Inserted(Err(overlap(def_id(0, 2)))));
    match action {
        GraphAction::Report { overlap, impl_def_id, used_to_be_allowed } => {
            assert_eq!(overlap.with_impl, def_id(0, 2));
            assert_eq!(impl_def_id, LocalDefId { index: 3 });
            assert_eq!(used_to_be_allowed, None);
        }
        other => panic!("{:?}", other),
    }
    let (build, action) = build.step(GraphEvent::Reported(Err(ErrorGuaranteed { id: 8 })));
    assert_eq!(inserted(action), (LocalDefId { index: 4 }, OverlapMode::Stable));
    let (build, _) = build.step(GraphEvent::Inserted(Err(overlap(def_id(0, 2)))));
    let (_, action) = build.step(GraphEvent::Reported(Err(ErrorGuaranteed { id: 9 })));
    assert!(matches!(action, GraphAction::Finish(Err(ErrorGuaranteed { id: 8 }))));
}

#[test]
fn every_impl_is_taken_up_once() {
    let impls = vec![def_id(0, 8), def_id(6, 2), def_id(0, 4), def_id(1, 1)];
    let (mut build, mut action) = specialization_graph_provider(TRAIT, OverlapMode::Stable, &impls);
    let mut taken = vec![];
    let mut answers = 0;
    loop {
        let event = match action {
            GraphAction::Insert { impl_def_id, .. } => {
                taken.push(impl_def_id.to_def_id());
                GraphEvent::Inserted(Ok(None))
            }
            GraphAction::AskParent(remote) => {
                taken.push(remote);
                GraphEvent::Parent(None)
            }
            GraphAction::RecordFromCstore { .. } => GraphEvent::Recorded,
            GraphAction::Report { .. } => unreachable!(),
            GraphAction::Finish(result) => {
                assert_eq!(result, Ok(()));
                break;
            }
        };
        answers += 1;
        (build, action) = build.step(event);
    }
    assert_eq!(taken, sort_impls(&impls));
    assert_eq!(answers, 6);
}

#[test]
fn impls_are_inserted_in_the_mode_of_the_trait() {
    for mode in [OverlapMode::Stable, OverlapMode::WithNegative, OverlapMode::Strict] {
        let impls = vec![def_id(0, 1), def_id(0, 2), def_id(5, 3)];
        let (build, action) = specialization_graph_provider(TRAIT, mode, &impls);
        assert!(matches!(action, GraphAction::AskParent(DefId { krate: 5, index: 3 })));
        let (build, _) = build.step(GraphEvent::Parent(None));
        let (build, action) = build.step(GraphEvent::Recorded);
        assert_eq!(inserted(action), (LocalDefId { index: 1 }, mode));
        let (build, _) = build.step(GraphEvent::Inserted(Err(overlap(def_id(5, 3)))));
        let (_, action) = build.step(GraphEvent::Reported(Ok(())));
        assert_eq!(inserted(action), (LocalDefId { index: 2 }, mode));
    }
}

#[test]
fn graph_is_handed_out_where_every_report_passes() {
    let impls = vec![def_id(0, 1), def_id(0, 2)];
    for (first, second, expected) in [
        (Ok(()), Ok(()), Ok(())),
        (Ok(()), Err(ErrorGuaranteed { id: 3 }), Err(ErrorGuaranteed { id: 3 })),
        (Err(ErrorGuaranteed { id: 2 }), Ok(()), Err(ErrorGuaranteed { id: 2 })),
    ] {
        let (build, _) = specialization_graph_provider(TRAIT, OverlapMode::Stable, &impls);
        let (build, action) = build.step(GraphEvent::Inserted(Err(overlap(def_id(9, 1)))));
        assert!(matches!(action, GraphAction::Report { .. }));
        let (build, _) = build.step(GraphEvent::Reported(first));
        let (build, action) = build.step(GraphEvent::Inserted(Err(overlap(def_id(9, 1)))));
        assert!(matches!(action, GraphAction::Report { .. }));
        let (_, action) = build.step(GraphEvent::Reported(second));
        match action {
            GraphAction::Finish(result) => assert_eq!(result, expected),
            other => panic!("{:?}", other),
        }
    }
}

#[test]
fn of_two_impls_the_local_one_is_inserted_last() {
    let impls = vec![def_id(0, 1), def_id(0, 2), def_id(4, 9)];
    let (mut build, mut action) =
        specialization_graph_provider(TRAIT, OverlapMode::Stable, &impls);
    let mut known = vec![];
    let mut pairs = vec![];
    loop {
        let event = match action {
            GraphAction::Insert { impl_def_id, .. } => {
                let inserted = impl_def_id.to_def_id();
                pairs.extend(known.iter().map(|other: &DefId| (inserted, *other)));
                known.push(inserted);
                GraphEvent::Inserted(Ok(None))
            }
            GraphAction::AskParent(remote) => {
                known.push(remote);
                GraphEvent::Parent(None)
            }
            GraphAction::RecordFromCstore { .. } => GraphEvent::Recorded,
            GraphAction::Report { .. } => unreachable!(),
            GraphAction::Finish(_) => break,
        };
        (build, action) = build.step(event);
    }
    assert_eq!(
        pairs,
        [
            (def_id(0, 1), def_id(4, 9)),
            (def_id(0, 2), def_id(4, 9)),
            (def_id(0, 2), def_id(0, 1)),
        ]
    );
}
