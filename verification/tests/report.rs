use rustc_data_structures::fx::FxIndexSet;
use rustc_parts::specialize::def_id::{DefId, LocalDefId};
use rustc_parts::specialize::fulfill::TraitRefId;
use rustc_parts::specialize::header::ImplHeader;
use rustc_parts::specialize::report::{
    conclude_conflict, conclude_report, report_conflicting_impls, report_negative_positive_conflict,
    report_overlap_conflict, Conflict, ConflictDescription, ConflictFacts, ConflictReport,
    Diagnostic, DiagnosticPart, ErrorGuaranteed, FutureCompatOverlapErrorKind, ImplPolarity, Lint,
    OverlapError, Reported, Span, Ty, E0119,
};

const HERE: LocalDefId = LocalDefId { index: 7 };
const LOCAL: DefId = DefId { krate: 0, index: 3 };
const REMOTE: DefId = DefId { krate: 5, index: 3 };
const ERROR: ErrorGuaranteed = ErrorGuaranteed { id: 1 };

fn overlap(with_impl: DefId) -> OverlapError {
    OverlapError {
        with_impl,
        trait_ref: TraitRefId { id: 12 },
        self_ty: Some(Ty { id: 13 }),
        intercrate_ambiguity_causes: FxIndexSet::default(),
        involves_placeholder: false,
        overflowing_predicates: vec![],
    }
}

fn facts() -> ConflictFacts {
    ConflictFacts { impl_span: Span { id: 40 }, error_reported: Ok(()) }
}

fn description(
    self_ty: Option<&str>,
    with_impl_span: Result<Span, String>,
) -> ConflictDescription {
    ConflictDescription {
        trait_ref: "Foo<()>".to_string(),
        self_ty: self_ty.map(|ty| ty.to_string()),
        with_impl_span,
        with_impl_header: None,
    }
}

fn parts(diagnostic: &Diagnostic) -> Vec<String> {
    diagnostic.parts.iter().map(|part| format!("{:?}", part)).collect()
}

fn error(report: ConflictReport) -> Diagnostic {
    match report {
        ConflictReport::Error(diagnostic) => diagnostic,
        other => panic!("{:?}", other),
    }
}

#[test]
fn opposite_polarities_contradict_each_other() {
    let overlap = overlap(REMOTE);
    let negative_here = report_overlap_conflict(
        ImplPolarity::Negative,
        ImplPolarity::Positive,
        &overlap,
        HERE,
        Some(FutureCompatOverlapErrorKind::LeakCheck),
    );
    assert_eq!(
        negative_here,
        Conflict::NegativePositive {
            local_impl: HERE,
            negative_impl: HERE.to_def_id(),
            positive_impl: REMOTE,
        }
    );
    let negative_there = report_overlap_conflict(
        ImplPolarity::Positive,
        ImplPolarity::Negative,
        &overlap,
        HERE,
        Some(FutureCompatOverlapErrorKind::LeakCheck),
    );
    assert_eq!(
        negative_there,
        Conflict::NegativePositive {
            local_impl: HERE,
            negative_impl: REMOTE,
            positive_impl: HERE.to_def_id(),
        }
    );
    assert_eq!(
        conclude_conflict(negative_there, Reported::NegativePositive(ERROR)),
        Err(ERROR)
    );
}

#[test]
fn other_polarities_overlap() {
    let overlap = overlap(REMOTE);
    for (one, other) in [
        (ImplPolarity::Positive, ImplPolarity::Positive),
        (ImplPolarity::Negative, ImplPolarity::Negative),
        (ImplPolarity::Reservation, ImplPolarity::Reservation),
        (ImplPolarity::Reservation, ImplPolarity::Positive),
        (ImplPolarity::Positive, ImplPolarity::Reservation),
        (ImplPolarity::Reservation, ImplPolarity::Negative),
        (ImplPolarity::Negative, ImplPolarity::Reservation),
    ] {
        for used_to_be_allowed in [None, Some(FutureCompatOverlapErrorKind::Issue33140)] {
            let conflict =
                report_overlap_conflict(one, other, &overlap, HERE, used_to_be_allowed);
            assert_eq!(conflict, Conflict::Overlapping { used_to_be_allowed });
            for outcome in [Ok(()), Err(ERROR)] {
                assert_eq!(
                    conclude_conflict(conflict, Reported::Overlapping(outcome)),
                    outcome
                );
            }
        }
    }
}

#[test]
fn contradiction_names_both_impls() {
    let conflict = report_negative_positive_conflict(
        &overlap(REMOTE),
        Span { id: 1 },
        Ok(Span { id: 2 }),
        Err("core".to_string()),
    );
    assert_eq!(conflict.impl_span, Span { id: 1 });
    assert_eq!(conflict.trait_desc, TraitRefId { id: 12 });
    assert_eq!(conflict.self_ty, Some(Ty { id: 13 }));
    assert_eq!(conflict.negative_impl_span, Ok(Span { id: 2 }));
    assert_eq!(conflict.positive_impl_span, Err("core".to_string()));
}

#[test]
fn local_overlap_is_an_error_without_an_orphan_check() {
    let overlap = overlap(LOCAL);
    let report = report_conflicting_impls(&overlap, HERE, None, &facts(), None, None);
    assert!(matches!(report, ConflictReport::DescribeError));
    let described = description(Some("u8"), Ok(Span { id: 41 }));
    let report =
        report_conflicting_impls(&overlap, HERE, None, &facts(), None, Some(&described));
    assert_eq!(conclude_report(&report, Some(ERROR)), Err(ERROR));
    let diagnostic = error(report);
    assert_eq!(diagnostic.span, Span { id: 40 });
    assert_eq!(diagnostic.code, Some(E0119));
    assert_eq!(
        diagnostic.message,
        "conflicting implementations of trait `Foo<()>` for type `u8`"
    );
    match &diagnostic.parts[..] {
        [DiagnosticPart::SpanLabel(first, a), DiagnosticPart::SpanLabel(second, b)] => {
            assert_eq!((*first, a.as_str()), (Span { id: 41 }, "first implementation here"));
            assert_eq!(
                (*second, b.as_str()),
                (Span { id: 40 }, "conflicting implementation for `u8`")
            );
        }
        other => panic!("{:?}", other),
    }
}

#[test]
fn type_is_left_out_where_it_is_not_known() {
    let described = description(None, Ok(Span { id: 41 }));
    let report =
        report_conflicting_impls(&overlap(LOCAL), HERE, None, &facts(), None, Some(&described));
    let diagnostic = error(report);
    assert_eq!(diagnostic.message, "conflicting implementations of trait `Foo<()>`");
    assert_eq!(
        parts(&diagnostic)[1],
        "SpanLabel(Span { id: 40 }, \"conflicting implementation\")"
    );
}

#[test]
fn remote_overlap_waits_for_the_orphan_check() {
    let overlap = overlap(REMOTE);
    let described = description(None, Err("core".to_string()));
    let ask = |orphan_check, description| {
        report_conflicting_impls(&overlap, HERE, None, &facts(), orphan_check, description)
    };
    let report = ask(None, None);
    assert!(matches!(report, ConflictReport::CheckOrphan(HERE)));

    assert!(matches!(ask(Some(true), None), ConflictReport::DescribeError));
    let diagnostic = error(ask(Some(true), Some(&described)));
    assert_eq!(parts(&diagnostic), ["Note(\"conflicting implementation in crate `core`\")"]);

    let report = ask(Some(false), None);
    assert_eq!(conclude_report(&report, Some(ERROR)), Err(ERROR));
    match report {
        ConflictReport::DelayedBug { span, message } => {
            assert_eq!(span, Span { id: 40 });
            assert_eq!(message, "impl should have failed the orphan check");
        }
        other => panic!("{:?}", other),
    }
}

#[test]
fn remote_impl_is_shown_with_its_header() {
    let mut described = description(None, Err("core".to_string()));
    described.with_impl_header = Some(ImplHeader {
        args: vec![],
        trait_path: "Foo".to_string(),
        self_ty: "u8".to_string(),
        sized_trait: None,
        predicates: vec![],
    });
    let report = report_conflicting_impls(
        &overlap(REMOTE),
        HERE,
        None,
        &facts(),
        Some(true),
        Some(&described),
    );
    match &error(report).parts[..] {
        [DiagnosticPart::Note(note)] => {
            assert_eq!(note, "conflicting implementation in crate `core`:\n- impl Foo for u8;");
        }
        other => panic!("{:?}", other),
    }
}

#[test]
fn further_pieces_come_in_order() {
    let mut overlap = overlap(LOCAL);
    overlap.intercrate_ambiguity_causes.insert(9);
    overlap.intercrate_ambiguity_causes.insert(2);
    overlap.intercrate_ambiguity_causes.insert(9);
    overlap.involves_placeholder = true;
    overlap.overflowing_predicates = vec![5, 6];
    let described = description(None, Ok(Span { id: 41 }));
    let report =
        report_conflicting_impls(&overlap, HERE, None, &facts(), None, Some(&described));
    assert_eq!(
        parts(&error(report))[2..],
        [
            "AmbiguityHint(9)",
            "AmbiguityHint(2)",
            "PlaceholderNote",
            "RaiseRecursionLimit([5, 6])",
        ]
    );
}

#[test]
fn error_in_the_header_silences_the_report() {
    let mut facts = facts();
    facts.error_reported = Err(ERROR);
    for used_to_be_allowed in [None, Some(FutureCompatOverlapErrorKind::LeakCheck)] {
        let report = report_conflicting_impls(
            &overlap(REMOTE),
            HERE,
            used_to_be_allowed,
            &facts,
            None,
            None,
        );
        assert!(matches!(report, ConflictReport::AlreadyReported(ERROR)));
        assert_eq!(conclude_report(&report, None), Err(ERROR));
    }
}

#[test]
fn overlap_that_used_to_be_allowed_is_linted() {
    let kinds = [
        (
            FutureCompatOverlapErrorKind::Issue33140,
            Lint::OrderDependentTraitObjects,
            "conflicting implementations of trait `Foo<()>` for type `u8`: (E0119)",
        ),
        (
            FutureCompatOverlapErrorKind::LeakCheck,
            Lint::CoherenceLeakCheck,
            "conflicting implementations of trait `Foo<()>` for type `u8`",
        ),
    ];
    for (kind, expected, message) in kinds {
        let overlap = overlap(REMOTE);
        let report = report_conflicting_impls(&overlap, HERE, Some(kind), &facts(), None, None);
        assert_eq!(conclude_report(&report, None), Ok(()));
        match report {
            ConflictReport::DescribeLint { lint, at, span } => {
                assert_eq!((lint, at, span), (expected, HERE, Span { id: 40 }));
            }
            other => panic!("{:?}", other),
        }
        let described = description(Some("u8"), Ok(Span { id: 41 }));
        let report = report_conflicting_impls(
            &overlap,
            HERE,
            Some(kind),
            &facts(),
            None,
            Some(&described),
        );
        assert_eq!(conclude_report(&report, None), Ok(()));
        match report {
            ConflictReport::Lint { lint, at, diagnostic } => {
                assert_eq!(lint, expected);
                assert_eq!(at, HERE);
                assert_eq!(diagnostic.code, None);
                assert_eq!(diagnostic.message, message);
                assert_eq!(diagnostic.parts.len(), 2);
            }
            other => panic!("{:?}", other),
        }
    }
}
