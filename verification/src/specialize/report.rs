//! What is reported where two impls overlap and neither specializes the other.
use rustc_data_structures::fx::FxIndexSet;
use vstd::prelude::*;

use crate::fx::{index_set_items, index_set_to_vec};
use crate::specialize::def_id::{DefId, LocalDefId, LOCAL_CRATE};
use crate::specialize::fulfill::TraitRefId;
use crate::specialize::header::{to_pretty_impl_header, ImplHeader};

verus! {

/// The error code of conflicting impls.
pub const E0119: u32 = 119;

/// A place in the source, by the number under which the compiler keeps it.
#[derive(Clone, Copy, PartialEq, Eq, Hash, Debug, Structural)]
pub struct Span {
    pub id: u32,
}

/// Evidence that an error was emitted, by the number under which the compiler
/// keeps it.
#[derive(Clone, Copy, PartialEq, Eq, Hash, Debug, Structural)]
pub struct ErrorGuaranteed {
    pub id: u32,
}

/// Whether an impl says that a type has a trait, says that it has not, or only
/// reserves the right to say so.
#[derive(Clone, Copy, PartialEq, Eq, Hash, Debug, Structural)]
pub enum ImplPolarity {
    Positive,
    Negative,
    Reservation,
}

/// Why an overlap that was accepted once is still let through with a warning.
#[derive(Clone, Copy, PartialEq, Eq, Hash, Debug, Structural)]
pub enum FutureCompatOverlapErrorKind {
    Issue33140,
    LeakCheck,
}

/// A type, by the number under which the compiler keeps it.
#[derive(Clone, Copy, PartialEq, Eq, Hash, Debug, Structural)]
pub struct Ty {
    pub id: u32,
}

/// Information pertinent to an overlapping impl error. Ambiguity causes and
/// predicates are given by the numbers under which the compiler keeps them.
#[derive(Debug)]
pub struct OverlapError {
    pub with_impl: DefId,
    pub trait_ref: TraitRefId,
    pub self_ty: Option<Ty>,
    pub intercrate_ambiguity_causes: FxIndexSet<u64>,
    pub involves_placeholder: bool,
    pub overflowing_predicates: Vec<u64>,
}

/// Which report an overlap calls for.
#[derive(Clone, Copy, PartialEq, Eq, Debug, Structural)]
pub enum Conflict {
    /// One impl denies what the other says: an error in any case.
    NegativePositive { local_impl: LocalDefId, negative_impl: DefId, positive_impl: DefId },
    /// Two impls overlap, which may have been allowed.
    Overlapping { used_to_be_allowed: Option<FutureCompatOverlapErrorKind> },
}

/// What was reported for a conflict.
#[derive(Clone, Copy, PartialEq, Eq, Debug)]
pub enum Reported {
    /// The error for a positive and a negative impl was emitted.
    NegativePositive(ErrorGuaranteed),
    /// The report on two overlapping impls led to this.
    Overlapping(Result<(), ErrorGuaranteed>),
}

/// The error for a positive and a negative impl of one trait for one type. An
/// impl of another crate has the name of that crate in place of its span.
#[derive(Debug)]
pub struct NegativePositiveConflict {
    pub impl_span: Span,
    pub trait_desc: TraitRefId,
    pub self_ty: Option<Ty>,
    pub negative_impl_span: Result<Span, String>,
    pub positive_impl_span: Result<Span, String>,
}

/// The lint under which an overlap is let through.
#[derive(Clone, Copy, PartialEq, Eq, Debug, Structural)]
pub enum Lint {
    OrderDependentTraitObjects,
    CoherenceLeakCheck,
}

/// A piece that is added to a diagnostic.
#[derive(Debug)]
pub enum DiagnosticPart {
    SpanLabel(Span, String),
    Note(String),
    /// The hint for the ambiguity cause with this number.
    AmbiguityHint(u64),
    /// The note that a placeholder was involved.
    PlaceholderNote,
    /// The advice to raise the recursion limit, for these predicates.
    RaiseRecursionLimit(Vec<u64>),
}

/// A piece of a diagnostic, as a mathematical value.
pub enum PartView {
    SpanLabel(Span, Seq<char>),
    Note(Seq<char>),
    AmbiguityHint(u64),
    PlaceholderNote,
    RaiseRecursionLimit(Seq<u64>),
}

impl View for DiagnosticPart {
    type V = PartView;

    open spec fn view(&self) -> PartView {
        match *self {
            DiagnosticPart::SpanLabel(span, text) => PartView::SpanLabel(span, text@),
            DiagnosticPart::Note(text) => PartView::Note(text@),
            DiagnosticPart::AmbiguityHint(cause) => PartView::AmbiguityHint(cause),
            DiagnosticPart::PlaceholderNote => PartView::PlaceholderNote,
            DiagnosticPart::RaiseRecursionLimit(predicates) => PartView::RaiseRecursionLimit(
                predicates@,
            ),
        }
    }
}

/// The pieces, as mathematical values.
pub open spec fn part_views(parts: Seq<DiagnosticPart>) -> Seq<PartView> {
    parts.map_values(|part: DiagnosticPart| part@)
}

/// A diagnostic that is ready to be emitted.
#[derive(Debug)]
pub struct Diagnostic {
    pub span: Span,
    pub code: Option<u32>,
    pub message: String,
    pub parts: Vec<DiagnosticPart>,
}

/// What the compiler knows of an impl that overlaps with another: where it
/// stands, and whether an error was reported for its header already.
#[derive(Debug)]
pub struct ConflictFacts {
    pub impl_span: Span,
    pub error_reported: Result<(), ErrorGuaranteed>,
}

/// What a diagnostic on two overlapping impls is made of: how the trait prints in
/// sugared form, and the type where it is known; where the other impl stands (or
/// the name of its crate), and the header of that one.
pub struct ConflictDescription {
    pub trait_ref: String,
    pub self_ty: Option<String>,
    pub with_impl_span: Result<Span, String>,
    pub with_impl_header: Option<ImplHeader>,
}

/// What is done about two overlapping impls.
#[derive(Debug)]
pub enum ConflictReport {
    /// Nothing: the header is in error, and that was reported.
    AlreadyReported(ErrorGuaranteed),
    /// The orphan rules have to be checked first.
    CheckOrphan(LocalDefId),
    /// An error is due, and has to be described first.
    DescribeError,
    /// An error is emitted.
    Error(Diagnostic),
    /// The impl breaks the orphan rules, so there has to be an error later.
    DelayedBug { span: Span, message: String },
    /// A lint is due at the impl. Where it is not silenced, it has to be described
    /// first.
    DescribeLint { lint: Lint, at: LocalDefId, span: Span },
    /// A lint is emitted at the impl.
    Lint { lint: Lint, at: LocalDefId, diagnostic: Diagnostic },
}

/// The kinds of reports.
#[derive(Clone, Copy, PartialEq, Eq, Debug, Structural)]
pub enum ReportKind {
    AlreadyReported,
    CheckOrphan,
    DescribeError,
    Error,
    DelayedBug,
    DescribeLint,
    Lint,
}

impl ConflictReport {
    /// Which of the reports this is.
    pub open spec fn kind(&self) -> ReportKind {
        match self {
            ConflictReport::AlreadyReported(_) => ReportKind::AlreadyReported,
            ConflictReport::CheckOrphan(_) => ReportKind::CheckOrphan,
            ConflictReport::DescribeError => ReportKind::DescribeError,
            ConflictReport::Error(_) => ReportKind::Error,
            ConflictReport::DelayedBug { .. } => ReportKind::DelayedBug,
            ConflictReport::DescribeLint { .. } => ReportKind::DescribeLint,
            ConflictReport::Lint { .. } => ReportKind::Lint,
        }
    }

    /// Whether nothing has to be found out any more to know what the report leads
    /// to. A lint lets the overlap pass, also where it is silenced.
    pub open spec fn is_final(&self) -> bool {
        self.kind() != ReportKind::CheckOrphan && self.kind() != ReportKind::DescribeError
    }
}

/// Which report two overlapping impls call for. `orphan_check` is the outcome of
/// the orphan check of the impl, once it is known, and `described` says whether
/// there is a description.
pub open spec fn report_kind(
    overlap: &OverlapError,
    used_to_be_allowed: Option<FutureCompatOverlapErrorKind>,
    facts: &ConflictFacts,
    orphan_check: Option<bool>,
    described: bool,
) -> ReportKind {
    let error = if described {
        ReportKind::Error
    } else {
        ReportKind::DescribeError
    };
    if facts.error_reported is Err {
        ReportKind::AlreadyReported
    } else if used_to_be_allowed is Some {
        if described {
            ReportKind::Lint
        } else {
            ReportKind::DescribeLint
        }
    } else if overlap.with_impl.local() {
        error
    } else {
        match orphan_check {
            None => ReportKind::CheckOrphan,
            Some(true) => error,
            Some(false) => ReportKind::DelayedBug,
        }
    }
}

/// The suffix that names the type, between the two given pieces of text.
pub open spec fn for_type(before: Seq<char>, self_ty: Option<String>, after: Seq<char>) -> Seq<
    char,
> {
    match self_ty {
        Some(ty) => before + ty@ + after,
        None => Seq::empty(),
    }
}

/// The message for two overlapping impls.
pub open spec fn conflict_message(
    description: &ConflictDescription,
    used_to_be_allowed: Option<FutureCompatOverlapErrorKind>,
) -> Seq<char> {
    "conflicting implementations of trait `"@ + description.trait_ref@ + "`"@ + for_type(
        " for type `"@,
        description.self_ty,
        "`"@,
    ) + (if used_to_be_allowed == Some(FutureCompatOverlapErrorKind::Issue33140) {
        ": (E0119)"@
    } else {
        Seq::empty()
    })
}

/// The pieces that say where the other impl stands.
pub open spec fn location_parts(
    impl_span: Span,
    description: &ConflictDescription,
) -> Seq<PartView> {
    match description.with_impl_span {
        Ok(span) => seq![
            PartView::SpanLabel(span, "first implementation here"@),
            PartView::SpanLabel(
                impl_span,
                "conflicting implementation"@ + for_type(" for `"@, description.self_ty, "`"@),
            ),
        ],
        Err(cname) => seq![
            PartView::Note(
                "conflicting implementation in crate `"@ + cname@ + "`"@ + (
                match description.with_impl_header {
                    Some(header) => ":\n- "@ + header.pretty(),
                    None => Seq::empty(),
                }),
            ),
        ],
    }
}

/// The hints for the ambiguity causes, in their order.
pub open spec fn hint_parts(causes: Seq<u64>) -> Seq<PartView> {
    causes.map_values(|cause: u64| PartView::AmbiguityHint(cause))
}

/// All pieces of the diagnostic for two overlapping impls.
pub open spec fn conflict_parts(
    overlap: &OverlapError,
    impl_span: Span,
    description: &ConflictDescription,
) -> Seq<PartView> {
    location_parts(impl_span, description) + hint_parts(
        index_set_items(overlap.intercrate_ambiguity_causes),
    ) + (if overlap.involves_placeholder {
        seq![PartView::PlaceholderNote]
    } else {
        Seq::empty()
    }) + (if overlap.overflowing_predicates@.len() > 0 {
        seq![PartView::RaiseRecursionLimit(overlap.overflowing_predicates@)]
    } else {
        Seq::empty()
    })
}

/// Which lint lets an overlap of this kind through.
pub open spec fn lint_of(kind: FutureCompatOverlapErrorKind) -> Lint {
    match kind {
        FutureCompatOverlapErrorKind::Issue33140 => Lint::OrderDependentTraitObjects,
        FutureCompatOverlapErrorKind::LeakCheck => Lint::CoherenceLeakCheck,
    }
}

/// Which report the overlap of the impl `impl_def_id` with `overlap.with_impl`
/// calls for: a positive and a negative impl contradict each other, all other
/// pairs merely overlap.
pub fn report_overlap_conflict(
    impl_polarity: ImplPolarity,
    other_polarity: ImplPolarity,
    overlap: &OverlapError,
    impl_def_id: LocalDefId,
    used_to_be_allowed: Option<FutureCompatOverlapErrorKind>,
) -> (conflict: Conflict)
    ensures
        conflict == overlap_conflict(
            impl_polarity,
            other_polarity,
            impl_def_id,
            overlap.with_impl,
            used_to_be_allowed,
        ),
{
    match (impl_polarity, other_polarity) {
        (ImplPolarity::Negative, ImplPolarity::Positive) => Conflict::NegativePositive {
            local_impl: impl_def_id,
            negative_impl: impl_def_id.to_def_id(),
            positive_impl: overlap.with_impl,
        },
        (ImplPolarity::Positive, ImplPolarity::Negative) => Conflict::NegativePositive {
            local_impl: impl_def_id,
            negative_impl: overlap.with_impl,
            positive_impl: impl_def_id.to_def_id(),
        },
        _ => Conflict::Overlapping { used_to_be_allowed },
    }
}

/// Which report an overlap calls for.
pub open spec fn overlap_conflict(
    impl_polarity: ImplPolarity,
    other_polarity: ImplPolarity,
    impl_def_id: LocalDefId,
    with_impl: DefId,
    used_to_be_allowed: Option<FutureCompatOverlapErrorKind>,
) -> Conflict {
    match (impl_polarity, other_polarity) {
        (ImplPolarity::Negative, ImplPolarity::Positive) => Conflict::NegativePositive {
            local_impl: impl_def_id,
            negative_impl: impl_def_id.def_id(),
            positive_impl: with_impl,
        },
        (ImplPolarity::Positive, ImplPolarity::Negative) => Conflict::NegativePositive {
            local_impl: impl_def_id,
            negative_impl: with_impl,
            positive_impl: impl_def_id.def_id(),
        },
        _ => Conflict::Overlapping { used_to_be_allowed },
    }
}

/// The error for a positive and a negative impl: it stands at the impl at hand
/// and names both.
pub fn report_negative_positive_conflict(
    overlap: &OverlapError,
    impl_span: Span,
    negative_impl_span: Result<Span, String>,
    positive_impl_span: Result<Span, String>,
) -> (conflict: NegativePositiveConflict)
    ensures
        conflict.impl_span == impl_span,
        conflict.trait_desc == overlap.trait_ref,
        conflict.self_ty == overlap.self_ty,
        conflict.negative_impl_span == negative_impl_span,
        conflict.positive_impl_span == positive_impl_span,
{
    NegativePositiveConflict {
        impl_span,
        trait_desc: overlap.trait_ref,
        self_ty: overlap.self_ty,
        negative_impl_span,
        positive_impl_span,
    }
}

fn append_for_type(w: &mut String, before: &str, self_ty: &Option<String>, after: &str)
    ensures
        final(w)@ == old(w)@ + for_type(before@, *self_ty, after@),
{
    match self_ty {
        Some(ty) => {
            w.append(before);
            w.append(ty.as_str());
            w.append(after);
        },
        None => {},
    }
    assert(w@ =~= old(w)@ + for_type(before@, *self_ty, after@));
}

/// The message for two overlapping impls.
pub fn conflict_text(
    description: &ConflictDescription,
    used_to_be_allowed: Option<FutureCompatOverlapErrorKind>,
) -> (message: String)
    ensures
        message@ == conflict_message(description, used_to_be_allowed),
{
    let mut message: String = String::from_str("conflicting implementations of trait `");
    message.append(description.trait_ref.as_str());
    message.append("`");
    append_for_type(&mut message, " for type `", &description.self_ty, "`");
    match used_to_be_allowed {
        Some(FutureCompatOverlapErrorKind::Issue33140) => {
            message.append(": (E0119)");
        },
        _ => {},
    }
    assert(message@ =~= conflict_message(description, used_to_be_allowed));
    message
}

/// The pieces that are added to the diagnostic for two overlapping impls.
pub fn decorate(
    overlap: &OverlapError,
    impl_span: Span,
    description: &ConflictDescription,
) -> (parts: Vec<DiagnosticPart>)
    ensures
        part_views(parts@) == conflict_parts(overlap, impl_span, description),
{
    let mut parts: Vec<DiagnosticPart> = Vec::new();
    match &description.with_impl_span {
        Ok(span) => {
            parts.push(
                DiagnosticPart::SpanLabel(*span, String::from_str("first implementation here")),
            );
            let mut label: String = String::from_str("conflicting implementation");
            append_for_type(&mut label, " for `", &description.self_ty, "`");
            parts.push(DiagnosticPart::SpanLabel(impl_span, label));
        },
        Err(cname) => {
            let mut note: String = String::from_str("conflicting implementation in crate `");
            note.append(cname.as_str());
            note.append("`");
            match to_pretty_impl_header(description.with_impl_header.as_ref()) {
                Some(header) => {
                    note.append(":\n- ");
                    note.append(header.as_str());
                },
                None => {},
            }
            assert(note@ =~= location_parts(impl_span, description)[0]->Note_0);
            parts.push(DiagnosticPart::Note(note));
        },
    }
    assert(part_views(parts@) =~= location_parts(impl_span, description));

    let causes: Vec<u64> = index_set_to_vec(&overlap.intercrate_ambiguity_causes);
    let mut i: usize = 0;
    while i < causes.len()
        invariant
            i <= causes@.len(),
            part_views(parts@) =~= location_parts(impl_span, description) + hint_parts(
                causes@.take(i as int),
            ),
        decreases causes@.len() - i,
    {
        let ghost before = parts@;
        parts.push(DiagnosticPart::AmbiguityHint(causes[i]));
        assert(part_views(parts@) =~= part_views(before).push(
            PartView::AmbiguityHint(causes@[i as int]),
        ));
        i += 1;
    }
    assert(causes@.take(i as int) =~= causes@);

    if overlap.involves_placeholder {
        parts.push(DiagnosticPart::PlaceholderNote);
    }
    if !overlap.overflowing_predicates.is_empty() {
        parts.push(
            DiagnosticPart::RaiseRecursionLimit(copy_numbers(&overlap.overflowing_predicates)),
        );
    }
    assert(part_views(parts@) =~= conflict_parts(overlap, impl_span, description));
    parts
}

fn copy_numbers(numbers: &Vec<u64>) -> (copy: Vec<u64>)
    ensures
        copy@ == numbers@,
{
    let mut copy: Vec<u64> = Vec::new();
    let mut i: usize = 0;
    while i < numbers.len()
        invariant
            i <= numbers@.len(),
            copy@ =~= numbers@.take(i as int),
        decreases numbers@.len() - i,
    {
        copy.push(numbers[i]);
        i += 1;
    }
    copy
}

/// What is done about the overlap of the impl `impl_def_id` with
/// `overlap.with_impl`.
///
/// Where the header of the impl is in error already, nothing is. Overlaps that
/// used to be allowed are linted. Any other is an error, unless the impl breaks
/// the orphan rules: these are checked where the other impl stands in another
/// crate, and `orphan_check` says whether that check passed, once it is known.
/// What is printed is asked for only where it is needed; `description` has it then.
pub fn report_conflicting_impls(
    overlap: &OverlapError,
    impl_def_id: LocalDefId,
    used_to_be_allowed: Option<FutureCompatOverlapErrorKind>,
    facts: &ConflictFacts,
    orphan_check: Option<bool>,
    description: Option<&ConflictDescription>,
) -> (report: ConflictReport)
    ensures
        report.kind() == report_kind(
            overlap,
            used_to_be_allowed,
            facts,
            orphan_check,
            description is Some,
        ),
        match report {
            ConflictReport::AlreadyReported(error) => facts.error_reported == Err::<
                (),
                ErrorGuaranteed,
            >(error),
            ConflictReport::CheckOrphan(checked) => checked == impl_def_id,
            ConflictReport::DescribeError => true,
            ConflictReport::Error(diagnostic) => {
                &&& diagnostic.span == facts.impl_span
                &&& diagnostic.code == Some(E0119)
                &&& diagnostic.message@ == conflict_message(description->0, used_to_be_allowed)
                &&& part_views(diagnostic.parts@) == conflict_parts(
                    overlap,
                    facts.impl_span,
                    description->0,
                )
            },
            ConflictReport::DelayedBug { span, message } => {
                &&& span == facts.impl_span
                &&& message@ == "impl should have failed the orphan check"@
            },
            ConflictReport::DescribeLint { lint, at, span } => {
                &&& lint == lint_of(used_to_be_allowed->0)
                &&& at == impl_def_id
                &&& span == facts.impl_span
            },
            ConflictReport::Lint { lint, at, diagnostic } => {
                &&& lint == lint_of(used_to_be_allowed->0)
                &&& at == impl_def_id
                &&& diagnostic.span == facts.impl_span
                &&& diagnostic.code is None
                &&& diagnostic.message@ == conflict_message(description->0, used_to_be_allowed)
                &&& part_views(diagnostic.parts@) == conflict_parts(
                    overlap,
                    facts.impl_span,
                    description->0,
                )
            },
        },
{
    // Don't report overlap errors if the header references error
    if let Err(error) = facts.error_reported {
        return ConflictReport::AlreadyReported(error);
    }
    match used_to_be_allowed {
        None => {
            let orphan_check_ok: bool = if overlap.with_impl.is_local() {
                true
            } else {
                match orphan_check {
                    Some(ok) => ok,
                    None => {
                        return ConflictReport::CheckOrphan(impl_def_id);
                    },
                }
            };
            if orphan_check_ok {
                match description {
                    Some(description) => ConflictReport::Error(
                        Diagnostic {
                            span: facts.impl_span,
                            code: Some(E0119),
                            message: conflict_text(description, used_to_be_allowed),
                            parts: decorate(overlap, facts.impl_span, description),
                        },
                    ),
                    None => ConflictReport::DescribeError,
                }
            } else {
                ConflictReport::DelayedBug {
                    span: facts.impl_span,
                    message: String::from_str("impl should have failed the orphan check"),
                }
            }
        },
        Some(kind) => {
            let lint: Lint = match kind {
                FutureCompatOverlapErrorKind::Issue33140 => Lint::OrderDependentTraitObjects,
                FutureCompatOverlapErrorKind::LeakCheck => Lint::CoherenceLeakCheck,
            };
            match description {
                Some(description) => ConflictReport::Lint {
                    lint,
                    at: impl_def_id,
                    diagnostic: Diagnostic {
                        span: facts.impl_span,
                        code: None,
                        message: conflict_text(description, used_to_be_allowed),
                        parts: decorate(overlap, facts.impl_span, description),
                    },
                },
                None => ConflictReport::DescribeLint {
                    lint,
                    at: impl_def_id,
                    span: facts.impl_span,
                },
            }
        },
    }
}

/// What a report leads to, `emitted` being the evidence for the error where one
/// was emitted.
pub open spec fn report_outcome(report: &ConflictReport, emitted: ErrorGuaranteed) -> Result<
    (),
    ErrorGuaranteed,
> {
    match report {
        ConflictReport::AlreadyReported(error) => Err(*error),
        ConflictReport::DescribeLint { .. } | ConflictReport::Lint { .. } => Ok(()),
        _ => Err(emitted),
    }
}

/// What a report leads to. `emitted` is the evidence for the error; there is
/// none for a lint, nor where an error was reported before.
pub fn conclude_report(report: &ConflictReport, emitted: Option<ErrorGuaranteed>) -> (outcome: Result<
    (),
    ErrorGuaranteed,
>)
    requires
        report.is_final(),
        report.kind() == ReportKind::Error || report.kind() == ReportKind::DelayedBug ==> emitted
            is Some,
    ensures
        outcome == report_outcome(report, emitted->0),
{
    match report {
        ConflictReport::AlreadyReported(error) => Err(*error),
        ConflictReport::DescribeLint { .. } | ConflictReport::Lint { .. } => Ok(()),
        _ => match emitted {
            Some(error) => Err(error),
            None => Ok(()),
        },
    }
}

/// What the report of a conflict leads to.
pub open spec fn conflict_outcome(reported: Reported) -> Result<(), ErrorGuaranteed> {
    match reported {
        Reported::NegativePositive(error) => Err(error),
        Reported::Overlapping(outcome) => outcome,
    }
}

/// What the report of a conflict leads to: a positive and a negative impl are an
/// error in any case.
pub fn conclude_conflict(conflict: Conflict, reported: Reported) -> (outcome: Result<
    (),
    ErrorGuaranteed,
>)
    requires
        conflict is NegativePositive <==> reported is NegativePositive,
    ensures
        outcome == conflict_outcome(reported),
{
    match reported {
        Reported::NegativePositive(error) => Err(error),
        Reported::Overlapping(outcome) => outcome,
    }
}

/// A positive and a negative impl that overlap are an error, also where overlaps
/// used to be allowed.
pub proof fn law_contradiction_is_an_error(
    impl_polarity: ImplPolarity,
    other_polarity: ImplPolarity,
    impl_def_id: LocalDefId,
    with_impl: DefId,
    used_to_be_allowed: Option<FutureCompatOverlapErrorKind>,
    reported: Reported,
)
    requires
        (impl_polarity == ImplPolarity::Positive && other_polarity == ImplPolarity::Negative) || (
        impl_polarity == ImplPolarity::Negative && other_polarity == ImplPolarity::Positive),
        overlap_conflict(
            impl_polarity,
            other_polarity,
            impl_def_id,
            with_impl,
            used_to_be_allowed,
        ) is NegativePositive <==> reported is NegativePositive,
    ensures
        conflict_outcome(reported) is Err,
{
}

/// An impl is blamed as the negative one exactly where it is negative, whichever
/// of the two impls was seen first.
pub proof fn law_blame_is_symmetric(
    impl_polarity: ImplPolarity,
    other_polarity: ImplPolarity,
    one: LocalDefId,
    other: LocalDefId,
    used_to_be_allowed: Option<FutureCompatOverlapErrorKind>,
)
    requires
        one != other,
    ensures
        match (
            overlap_conflict(
                impl_polarity,
                other_polarity,
                one,
                other.def_id(),
                used_to_be_allowed,
            ),
            overlap_conflict(
                other_polarity,
                impl_polarity,
                other,
                one.def_id(),
                used_to_be_allowed,
            ),
        ) {
            (
                Conflict::NegativePositive {
                    local_impl: here,
                    negative_impl: negative,
                    positive_impl: positive,
                },
                Conflict::NegativePositive {
                    local_impl: there,
                    negative_impl: same_negative,
                    positive_impl: same_positive,
                },
            ) => {
                &&& here == one && there == other
                &&& negative == same_negative && positive == same_positive
                &&& negative == one.def_id() <==> impl_polarity == ImplPolarity::Negative
            },
            (Conflict::Overlapping { .. }, Conflict::Overlapping { .. }) => true,
            _ => false,
        },
{
}

/// Compilation goes on after an overlap only where the overlap used to be
/// allowed and the header of the impl is not in error.
pub proof fn law_only_lints_pass(
    overlap: &OverlapError,
    used_to_be_allowed: Option<FutureCompatOverlapErrorKind>,
    facts: &ConflictFacts,
    orphan_check: Option<bool>,
    described: bool,
    report: &ConflictReport,
    emitted: ErrorGuaranteed,
)
    requires
        report.kind() == report_kind(overlap, used_to_be_allowed, facts, orphan_check, described),
        report.is_final(),
    ensures
        report_outcome(report, emitted) is Ok <==> used_to_be_allowed is Some
            && facts.error_reported is Ok,
{
}

/// Once the outcome of the orphan check is known it is not asked for again, and
/// it plays no part where the other impl is local. Nor is a description asked for
/// twice, and having one changes nothing but that.
pub proof fn law_questions_are_asked_once(
    overlap: &OverlapError,
    used_to_be_allowed: Option<FutureCompatOverlapErrorKind>,
    facts: &ConflictFacts,
    orphan_check: Option<bool>,
    passed: bool,
    described: bool,
)
    ensures
        report_kind(overlap, used_to_be_allowed, facts, Some(passed), described)
            != ReportKind::CheckOrphan,
        overlap.with_impl.local() ==> report_kind(
            overlap,
            used_to_be_allowed,
            facts,
            None,
            described,
        ) == report_kind(overlap, used_to_be_allowed, facts, Some(passed), described),
        report_kind(overlap, used_to_be_allowed, facts, orphan_check, true) == (match report_kind(
            overlap,
            used_to_be_allowed,
            facts,
            orphan_check,
            false,
        ) {
            ReportKind::DescribeError => ReportKind::Error,
            ReportKind::DescribeLint => ReportKind::Lint,
            kind => kind,
        }),
{
}

/// What the report on two overlapping impls leads to, where the compiler answers
/// as given.
pub open spec fn overlap_leads_to(
    overlap: &OverlapError,
    used_to_be_allowed: Option<FutureCompatOverlapErrorKind>,
    facts: &ConflictFacts,
    orphan_check: Option<bool>,
    described: bool,
    report: &ConflictReport,
    emitted: ErrorGuaranteed,
    outcome: Result<(), ErrorGuaranteed>,
) -> bool {
    &&& report.kind() == report_kind(overlap, used_to_be_allowed, facts, orphan_check, described)
    &&& report.is_final()
    &&& outcome == report_outcome(report, emitted)
}

/// What the report of a conflict leads to, where the two impls have the given
/// polarities.
pub open spec fn conflict_leads_to(
    impl_polarity: ImplPolarity,
    other_polarity: ImplPolarity,
    overlap: &OverlapError,
    impl_def_id: LocalDefId,
    used_to_be_allowed: Option<FutureCompatOverlapErrorKind>,
    reported: Reported,
    outcome: Result<(), ErrorGuaranteed>,
) -> bool {
    let conflict = overlap_conflict(
        impl_polarity,
        other_polarity,
        impl_def_id,
        overlap.with_impl,
        used_to_be_allowed,
    );
    &&& conflict is NegativePositive <==> reported is NegativePositive
    &&& outcome == conflict_outcome(reported)
    &&& reported matches Reported::Overlapping(passed) ==> exists|
        facts: ConflictFacts,
        orphan_check: Option<bool>,
        described: bool,
        report: ConflictReport,
        emitted: ErrorGuaranteed,
    | #[trigger]
        overlap_leads_to(
            overlap,
            used_to_be_allowed,
            &facts,
            orphan_check,
            described,
            &report,
            emitted,
            passed,
        )
}

/// Whether the report of an overlap can lead to `outcome`, whatever the compiler
/// knows of the two impls.
pub open spec fn can_lead_to(
    overlap: &OverlapError,
    impl_def_id: LocalDefId,
    used_to_be_allowed: Option<FutureCompatOverlapErrorKind>,
    outcome: Result<(), ErrorGuaranteed>,
) -> bool {
    exists|impl_polarity: ImplPolarity, other_polarity: ImplPolarity, reported: Reported| #[trigger]
        conflict_leads_to(
            impl_polarity,
            other_polarity,
            overlap,
            impl_def_id,
            used_to_be_allowed,
            reported,
            outcome,
        )
}

/// An overlap that never was allowed is an error, whatever the compiler knows of
/// the two impls.
pub proof fn law_conflicts_do_not_pass(
    overlap: &OverlapError,
    impl_def_id: LocalDefId,
    used_to_be_allowed: Option<FutureCompatOverlapErrorKind>,
    outcome: Result<(), ErrorGuaranteed>,
)
    requires
        can_lead_to(overlap, impl_def_id, used_to_be_allowed, outcome),
        used_to_be_allowed is None,
    ensures
        outcome is Err,
{
    let (impl_polarity, other_polarity, reported) = choose|
        impl_polarity: ImplPolarity,
        other_polarity: ImplPolarity,
        reported: Reported,
    | #[trigger]
        conflict_leads_to(
            impl_polarity,
            other_polarity,
            overlap,
            impl_def_id,
            used_to_be_allowed,
            reported,
            outcome,
        );
    assert(reported matches Reported::Overlapping(passed) ==> passed is Err);
}

/// A contradiction is reported exactly where one impl is positive and the other
/// negative: of the impl at hand, naming as the negative one the one that is
/// negative. Any other overlap is reported as one, and whether it used to be
/// allowed is passed on as it was given, wherever the other impl is defined.
pub proof fn law_which_conflict(
    impl_polarity: ImplPolarity,
    other_polarity: ImplPolarity,
    overlap: &OverlapError,
    impl_def_id: LocalDefId,
    used_to_be_allowed: Option<FutureCompatOverlapErrorKind>,
    conflict: Conflict,
)
    requires
        call_ensures(
            report_overlap_conflict,
            (impl_polarity, other_polarity, overlap, impl_def_id, used_to_be_allowed),
            conflict,
        ),
    ensures
        conflict matches Conflict::Overlapping { used_to_be_allowed: passed_on } ==> passed_on
            == used_to_be_allowed,
        conflict is Overlapping <==> impl_polarity == other_polarity || impl_polarity
            == ImplPolarity::Reservation || other_polarity == ImplPolarity::Reservation,
        conflict matches Conflict::NegativePositive { local_impl, negative_impl, positive_impl }
            ==> {
            let (here, there) = if impl_polarity == ImplPolarity::Negative {
                (negative_impl, positive_impl)
            } else {
                (positive_impl, negative_impl)
            };
            &&& local_impl == impl_def_id
            &&& here.krate == LOCAL_CRATE && here.index == impl_def_id.index
            &&& there == overlap.with_impl
        },
{
}

/// What came of the report of a conflict is what is handed on.
pub proof fn law_conflict_outcome(
    conflict: Conflict,
    reported: Reported,
    outcome: Result<(), ErrorGuaranteed>,
)
    requires
        call_ensures(conclude_conflict, (conflict, reported), outcome),
    ensures
        reported matches Reported::NegativePositive(error) ==> outcome
            == Err::<(), ErrorGuaranteed>(error),
        reported matches Reported::Overlapping(passed) ==> outcome == passed,
{
}

/// The error on a contradiction hands on what it was given.
pub proof fn law_contradiction_names_both(
    overlap: &OverlapError,
    impl_span: Span,
    negative_impl_span: Result<Span, String>,
    positive_impl_span: Result<Span, String>,
    conflict: NegativePositiveConflict,
)
    requires
        call_ensures(
            report_negative_positive_conflict,
            (overlap, impl_span, negative_impl_span, positive_impl_span),
            conflict,
        ),
    ensures
        conflict.impl_span == impl_span,
        conflict.trait_desc == overlap.trait_ref,
        conflict.self_ty == overlap.self_ty,
        conflict.negative_impl_span == negative_impl_span,
        conflict.positive_impl_span == positive_impl_span,
{
}

/// What is done about two overlapping impls. A header in error silences the
/// report, whatever else is known. An overlap that used to be allowed is linted,
/// and nothing has to be checked for that. Any other is an error; before that the
/// orphan rules are checked where the other impl is of another crate, and an impl
/// that breaks them gets an error later instead.
pub proof fn law_which_report(
    overlap: &OverlapError,
    impl_def_id: LocalDefId,
    used_to_be_allowed: Option<FutureCompatOverlapErrorKind>,
    facts: &ConflictFacts,
    orphan_check: Option<bool>,
    description: Option<&ConflictDescription>,
    report: ConflictReport,
)
    requires
        call_ensures(
            report_conflicting_impls,
            (overlap, impl_def_id, used_to_be_allowed, facts, orphan_check, description),
            report,
        ),
    ensures
        facts.error_reported matches Err(error) ==> (
        report matches ConflictReport::AlreadyReported(silent) && silent == error),
        facts.error_reported is Ok && used_to_be_allowed is Some ==> (if description is Some {
            report is Lint
        } else {
            report is DescribeLint
        }),
        facts.error_reported is Ok && used_to_be_allowed is None && (overlap.with_impl.krate
            == LOCAL_CRATE || orphan_check == Some(true)) ==> (if description is Some {
            report is Error
        } else {
            report is DescribeError
        }),
        facts.error_reported is Ok && used_to_be_allowed is None && overlap.with_impl.krate
            != LOCAL_CRATE && orphan_check is None ==> (
        report matches ConflictReport::CheckOrphan(checked) && checked == impl_def_id),
        facts.error_reported is Ok && used_to_be_allowed is None && overlap.with_impl.krate
            != LOCAL_CRATE && orphan_check == Some(false)
            ==> (report matches ConflictReport::DelayedBug { span, message } && span
            == facts.impl_span && message@ == "impl should have failed the orphan check"@),
{
}

/// Each of the two kinds of overlaps that used to be allowed has its own lint, at
/// the impl at hand, before and after it is described.
pub proof fn law_which_lint(
    overlap: &OverlapError,
    impl_def_id: LocalDefId,
    used_to_be_allowed: Option<FutureCompatOverlapErrorKind>,
    facts: &ConflictFacts,
    orphan_check: Option<bool>,
    description: Option<&ConflictDescription>,
    report: ConflictReport,
)
    requires
        call_ensures(
            report_conflicting_impls,
            (overlap, impl_def_id, used_to_be_allowed, facts, orphan_check, description),
            report,
        ),
    ensures
        report matches ConflictReport::DescribeLint { lint, at, span } ==> {
            &&& at == impl_def_id
            &&& span == facts.impl_span
            &&& lint == Lint::OrderDependentTraitObjects <==> used_to_be_allowed == Some(
                FutureCompatOverlapErrorKind::Issue33140,
            )
            &&& lint == Lint::CoherenceLeakCheck <==> used_to_be_allowed == Some(
                FutureCompatOverlapErrorKind::LeakCheck,
            )
        },
        report matches ConflictReport::Lint { lint, at, diagnostic } ==> {
            &&& at == impl_def_id
            &&& diagnostic.span == facts.impl_span
            &&& diagnostic.code is None
            &&& lint == Lint::OrderDependentTraitObjects <==> used_to_be_allowed == Some(
                FutureCompatOverlapErrorKind::Issue33140,
            )
            &&& lint == Lint::CoherenceLeakCheck <==> used_to_be_allowed == Some(
                FutureCompatOverlapErrorKind::LeakCheck,
            )
        },
        report matches ConflictReport::Error(diagnostic) ==> {
            &&& diagnostic.span == facts.impl_span
            &&& diagnostic.code == Some(119u32)
        },
{
}

/// An error and a lint are made of the same message and the same pieces, which
/// come from the description.
pub proof fn law_diagnostics_are_made_of_the_description(
    overlap: &OverlapError,
    impl_def_id: LocalDefId,
    used_to_be_allowed: Option<FutureCompatOverlapErrorKind>,
    facts: &ConflictFacts,
    orphan_check: Option<bool>,
    description: &ConflictDescription,
    report: ConflictReport,
    message: String,
    parts: Vec<DiagnosticPart>,
)
    requires
        call_ensures(
            report_conflicting_impls,
            (overlap, impl_def_id, used_to_be_allowed, facts, orphan_check, Some(description)),
            report,
        ),
        call_ensures(conflict_text, (description, used_to_be_allowed), message),
        call_ensures(decorate, (overlap, facts.impl_span, description), parts),
    ensures
        report matches ConflictReport::Error(diagnostic) ==> diagnostic.message@ == message@
            && diagnostic.parts@.len() == parts@.len() && part_views(diagnostic.parts@)
            == part_views(parts@),
        report matches ConflictReport::Lint { diagnostic, .. } ==> diagnostic.message@ == message@
            && diagnostic.parts@.len() == parts@.len() && part_views(diagnostic.parts@)
            == part_views(parts@),
{
    if let ConflictReport::Error(diagnostic) = report {
        assert(part_views(diagnostic.parts@).len() == diagnostic.parts@.len());
        assert(part_views(parts@).len() == parts@.len());
    }
    if let ConflictReport::Lint { diagnostic, .. } = report {
        assert(part_views(diagnostic.parts@).len() == diagnostic.parts@.len());
        assert(part_views(parts@).len() == parts@.len());
    }
}

/// What is seen of the pieces of a diagnostic is all that they hold.
pub proof fn law_part_views(parts: Seq<DiagnosticPart>, i: int)
    requires
        0 <= i < parts.len(),
    ensures
        part_views(parts).len() == parts.len(),
        match part_views(parts)[i] {
            PartView::SpanLabel(span, text) => parts[i] matches DiagnosticPart::SpanLabel(at, label)
                && at == span && label@ == text,
            PartView::Note(text) => parts[i] matches DiagnosticPart::Note(note) && note@ == text,
            PartView::AmbiguityHint(cause) => parts[i] == DiagnosticPart::AmbiguityHint(cause),
            PartView::PlaceholderNote => parts[i] == DiagnosticPart::PlaceholderNote,
            PartView::RaiseRecursionLimit(
                numbers,
            ) => parts[i] matches DiagnosticPart::RaiseRecursionLimit(predicates) && predicates@
                == numbers,
        },
{
}

/// What a report leads to: the error that was reported before, the one that was
/// emitted, or nothing.
pub proof fn law_report_outcome(
    report: &ConflictReport,
    emitted: Option<ErrorGuaranteed>,
    outcome: Result<(), ErrorGuaranteed>,
)
    requires
        call_ensures(conclude_report, (report, emitted), outcome),
    ensures
        report matches ConflictReport::AlreadyReported(error) ==> outcome
            == Err::<(), ErrorGuaranteed>(*error),
        report is Error || report is DelayedBug ==> outcome == Err::<(), ErrorGuaranteed>(
            emitted->0,
        ),
        report is Lint || report is DescribeLint ==> outcome == Ok::<(), ErrorGuaranteed>(()),
{
}

/// A report leads to something unless it is a question.
pub proof fn law_final_reports(report: &ConflictReport)
    ensures
        report.is_final() <==> !(report is CheckOrphan) && !(report is DescribeError),
        report.kind() == ReportKind::Error <==> report is Error,
        report.kind() == ReportKind::DelayedBug <==> report is DelayedBug,
{
}

/// The message names the trait, and behind it the type where it is known. It ends
/// with the error code exactly for the kind of overlaps that is older than the
/// other.
pub proof fn law_message(
    description: &ConflictDescription,
    plain: String,
    leak_check: String,
    issue_33140: String,
)
    requires
        call_ensures(conflict_text, (description, None), plain),
        call_ensures(
            conflict_text,
            (description, Some(FutureCompatOverlapErrorKind::LeakCheck)),
            leak_check,
        ),
        call_ensures(
            conflict_text,
            (description, Some(FutureCompatOverlapErrorKind::Issue33140)),
            issue_33140,
        ),
    ensures
        leak_check@ == plain@,
        issue_33140@ == plain@ + ": (E0119)"@,
        ("conflicting implementations of trait `"@ + description.trait_ref@
            + "`"@).is_prefix_of(plain@),
        description.self_ty is None ==> plain@ == "conflicting implementations of trait `"@
            + description.trait_ref@ + "`"@,
        description.self_ty matches Some(ty) ==> (" for type `"@ + ty@ + "`"@).is_suffix_of(plain@)
            && plain@.len() == ("conflicting implementations of trait `"@
            + description.trait_ref@ + "`"@).len() + (" for type `"@ + ty@ + "`"@).len(),
{
    let front = "conflicting implementations of trait `"@ + description.trait_ref@ + "`"@;
    assert(leak_check@ =~= plain@);
    assert(issue_33140@ =~= plain@ + ": (E0119)"@);
    assert(plain@.subrange(0, front.len() as int) =~= front);
    match description.self_ty {
        None => {
            assert(plain@ =~= front);
        },
        Some(ty) => {
            let back = " for type `"@ + ty@ + "`"@;
            assert(plain@ =~= front + back);
            assert(plain@.subrange(plain@.len() - back.len(), plain@.len() as int) =~= back);
        },
    }
}

/// The first pieces of a diagnostic say where the impls stand: a label at each
/// of the two, or a note with the name of the other crate and the header of the
/// impl there, where it has one.
pub proof fn law_locations(
    overlap: &OverlapError,
    impl_span: Span,
    description: &ConflictDescription,
    parts: Vec<DiagnosticPart>,
)
    requires
        call_ensures(decorate, (overlap, impl_span, description), parts),
    ensures
        description.with_impl_span matches Ok(span) ==> {
            &&& parts@.len() >= 2
            &&& parts@[0] matches DiagnosticPart::SpanLabel(at, label)
            &&& at == span && label@ == "first implementation here"@
            &&& parts@[1] matches DiagnosticPart::SpanLabel(here, text)
            &&& here == impl_span
            &&& text@ == (match description.self_ty {
                Some(ty) => "conflicting implementation for `"@ + ty@ + "`"@,
                None => "conflicting implementation"@,
            })
        },
        description.with_impl_span matches Err(cname) ==> {
            &&& parts@.len() >= 1
            &&& parts@[0] matches DiagnosticPart::Note(note)
            &&& note@ == (match description.with_impl_header {
                Some(header) => "conflicting implementation in crate `"@ + cname@ + "`:\n- "@
                    + header.pretty(),
                None => "conflicting implementation in crate `"@ + cname@ + "`"@,
            })
        },
{
    let views = part_views(parts@);
    let located = location_parts(impl_span, description);
    assert(views.len() == parts@.len());
    assert(views.take(located.len() as int) =~= located);
    assert(forall|i: int| 0 <= i < located.len() ==> #[trigger] views[i] == located[i]);
    assert(views[0] == parts@[0]@);
    match description.with_impl_span {
        Ok(span) => {
            assert(located[0] == views[0]);
            assert(located[1] == views[1]);
            assert(views[1] == parts@[1]@);
            reveal_strlit("conflicting implementation");
            reveal_strlit(" for `");
            reveal_strlit("conflicting implementation for `");
            assert("conflicting implementation"@ + " for `"@
                =~= "conflicting implementation for `"@);
            match description.self_ty {
                Some(ty) => {
                    assert("conflicting implementation"@ + (" for `"@ + ty@ + "`"@) =~= (
                    "conflicting implementation"@ + " for `"@) + ty@ + "`"@);
                },
                None => {
                    assert("conflicting implementation"@ + Seq::<char>::empty()
                        =~= "conflicting implementation"@);
                },
            }
        },
        Err(cname) => {
            assert(located[0] == views[0]);
            reveal_strlit("`");
            reveal_strlit(":\n- ");
            reveal_strlit("`:\n- ");
            assert("`"@ + ":\n- "@ =~= "`:\n- "@);
            let front = "conflicting implementation in crate `"@ + cname@;
            match description.with_impl_header {
                Some(header) => {
                    assert(front + "`"@ + (":\n- "@ + header.pretty()) =~= front + ("`"@
                        + ":\n- "@) + header.pretty());
                },
                None => {
                    assert(front + "`"@ + Seq::<char>::empty() =~= front + "`"@);
                },
            }
        },
    }
}

/// Behind that come a hint for each ambiguity cause, in the order of the set; the
/// note on placeholders exactly where one is involved; and the advice to raise the
/// recursion limit, for all the predicates that overflow, exactly where there are
/// any. There is nothing else.
pub proof fn law_further_pieces(
    overlap: &OverlapError,
    impl_span: Span,
    description: &ConflictDescription,
    parts: Vec<DiagnosticPart>,
)
    requires
        call_ensures(decorate, (overlap, impl_span, description), parts),
    ensures
        ({
            let causes = index_set_items(overlap.intercrate_ambiguity_causes);
            let first: int = if description.with_impl_span is Ok {
                2
            } else {
                1
            };
            let placeholder = first + causes.len();
            let advice = if overlap.involves_placeholder {
                placeholder + 1
            } else {
                placeholder
            };
            &&& forall|i: int|
                0 <= i < causes.len() ==> parts@[first + i] == DiagnosticPart::AmbiguityHint(
                    #[trigger] causes[i],
                )
            &&& overlap.involves_placeholder ==> parts@[placeholder]
                == DiagnosticPart::PlaceholderNote
            &&& overlap.overflowing_predicates@.len() == 0 ==> parts@.len() == advice
            &&& overlap.overflowing_predicates@.len() > 0 ==> parts@.len() == advice + 1 && (
            parts@[advice] matches DiagnosticPart::RaiseRecursionLimit(predicates) && predicates@
                == overlap.overflowing_predicates@)
        }),
{
    let causes = index_set_items(overlap.intercrate_ambiguity_causes);
    let located = location_parts(impl_span, description);
    let views = part_views(parts@);
    let first = located.len() as int;
    let placeholder = first + causes.len();
    let advice = if overlap.involves_placeholder {
        placeholder + 1
    } else {
        placeholder
    };
    assert(views.len() == parts@.len());
    assert forall|i: int| 0 <= i < causes.len() implies parts@[first + i]
        == DiagnosticPart::AmbiguityHint(#[trigger] causes[i]) by {
        assert(views[first + i] == hint_parts(causes)[i]);
        law_part_views(parts@, first + i);
    }
    if overlap.involves_placeholder {
        assert(views[placeholder] == PartView::PlaceholderNote);
        law_part_views(parts@, placeholder);
    }
    if overlap.overflowing_predicates@.len() > 0 {
        assert(views[advice] == PartView::RaiseRecursionLimit(overlap.overflowing_predicates@));
        law_part_views(parts@, advice);
    }
}

/// Every overlap can be reported, and every report that is not a question has an
/// outcome, with the error that was emitted where one was.
pub proof fn law_every_overlap_can_be_reported(
    impl_polarity: ImplPolarity,
    other_polarity: ImplPolarity,
    overlap: &OverlapError,
    impl_def_id: LocalDefId,
    used_to_be_allowed: Option<FutureCompatOverlapErrorKind>,
    facts: &ConflictFacts,
    orphan_check: Option<bool>,
    description: Option<&ConflictDescription>,
    report: &ConflictReport,
    emitted: ErrorGuaranteed,
)
    ensures
        call_requires(
            report_overlap_conflict,
            (impl_polarity, other_polarity, overlap, impl_def_id, used_to_be_allowed),
        ),
        call_requires(
            report_conflicting_impls,
            (overlap, impl_def_id, used_to_be_allowed, facts, orphan_check, description),
        ),
        !(report is CheckOrphan) && !(report is DescribeError) ==> call_requires(
            conclude_report,
            (report, Some(emitted)),
        ),
        report is AlreadyReported || report is Lint || report is DescribeLint ==> call_requires(
            conclude_report,
            (report, None::<ErrorGuaranteed>),
        ),
{
}

} // verus!
