//! What a GCC code generation backend decides for itself: the processor and its
//! features, the optimization level, and what becomes of link-time optimization.
use std::sync::Arc;
use vstd::prelude::*;

use crate::text::views;

verus! {

/// `gccjit::TargetInfo`, which Verus treats as opaque.
#[verifier::external_type_specification]
#[verifier::external_body]
pub struct ExTargetInfo(gccjit::TargetInfo);

/// `gccjit::OptimizationLevel`, an enumeration without fields.
#[verifier::external_type_specification]
pub struct ExOptimizationLevel(gccjit::OptimizationLevel);

/// A message for the case that the thread panics while this value is alive.
pub struct PrintOnPanic<F: Fn() -> String>(pub F);

impl<F: Fn() -> String> PrintOnPanic<F> {
    /// What is printed when the value is dropped: the message while the thread is
    /// panicking, and nothing otherwise. The message is computed only then.
    pub fn on_drop(&self, panicking: bool) -> (printed: Option<String>)
        requires
            panicking ==> self.0.requires(()),
        ensures
            match printed {
                Some(message) => panicking && self.0.ensures((), message),
                None => !panicking,
            },
    {
        if panicking {
            Some((self.0)())
        } else {
            None
        }
    }
}

/// The buffer of a module, of which this backend makes no use.
pub struct ModuleBuffer;

/// The buffer of a module for thin link-time optimization, of which this backend
/// makes no use.
pub struct ThinBuffer;

/// How the whole program is optimized when it is linked.
#[derive(Clone, Copy, PartialEq, Eq, Debug, Structural)]
pub enum Lto {
    No,
    Thin,
    ThinLocal,
    Fat,
}

/// The warning that link-time optimization is not supported.
#[derive(Clone, Copy, PartialEq, Eq, Debug, Structural)]
pub struct LTONotSupported;

/// An optimization level of the compiler.
#[derive(Clone, Copy, PartialEq, Eq, Debug, Structural)]
pub enum OptLevel {
    No,
    Less,
    Default,
    Aggressive,
    Size,
    SizeMin,
}

/// A feature of the target, and the name of the language feature that it needs
/// while it is unstable.
#[derive(Debug)]
pub struct TargetFeature {
    pub name: String,
    pub gate: Option<String>,
}

/// The settings of a compilation that the backend reads: the processor that was
/// asked for, the one that the target has by default, the features that the
/// compiler knows for the target, whether this is a nightly build, and the kind
/// of link-time optimization.
#[derive(Debug)]
pub struct Session {
    pub target_cpu: Option<String>,
    pub default_cpu: String,
    pub supported_target_features: Vec<TargetFeature>,
    pub nightly_build: bool,
    pub lto: Lto,
}

/// The outcome where compilation cannot go on.
#[derive(Clone, Copy, PartialEq, Eq, Debug, Structural)]
pub struct FatalError;

/// A module that takes part in fat link-time optimization.
#[derive(Debug)]
pub enum FatLtoInput<M> {
    Serialized { name: String, buffer: Vec<u8> },
    InMemory(M),
}

/// What link-time optimization works on.
#[derive(Debug)]
pub enum LtoModuleCodegen<M> {
    Fat { module: M, serialized_bitcode: Vec<Vec<u8>> },
}

/// The GCC level for an optimization level of the compiler, where one was given.
pub open spec fn gcc_opt_level(optlevel: Option<OptLevel>) -> gccjit::OptimizationLevel {
    match optlevel {
        None => gccjit::OptimizationLevel::None,
        Some(level) => match level {
            OptLevel::No => gccjit::OptimizationLevel::None,
            OptLevel::Less => gccjit::OptimizationLevel::Limited,
            OptLevel::Default => gccjit::OptimizationLevel::Standard,
            OptLevel::Aggressive => gccjit::OptimizationLevel::Aggressive,
            OptLevel::Size | OptLevel::SizeMin => gccjit::OptimizationLevel::Limited,
        },
    }
}

/// The GCC level for an optimization level of the compiler. Optimizing for size
/// is done at the limited level.
pub fn to_gcc_opt_level(optlevel: Option<OptLevel>) -> (level: gccjit::OptimizationLevel)
    ensures
        level == gcc_opt_level(optlevel),
{
    match optlevel {
        None => gccjit::OptimizationLevel::None,
        Some(level) => match level {
            OptLevel::No => gccjit::OptimizationLevel::None,
            OptLevel::Less => gccjit::OptimizationLevel::Limited,
            OptLevel::Default => gccjit::OptimizationLevel::Standard,
            OptLevel::Aggressive => gccjit::OptimizationLevel::Aggressive,
            OptLevel::Size | OptLevel::SizeMin => gccjit::OptimizationLevel::Limited,
        },
    }
}

/// The name of a processor. The processor that the compiler runs on is not
/// looked up, so it must not be asked for by the name `native`.
pub fn handle_native(name: &str) -> (cpu: &str)
    requires
        name@ != "native"@,
    ensures
        cpu == name,
{
    name
}

impl Session {
    /// The processor that code is generated for: the one that was asked for, or
    /// else the default one of the target.
    pub open spec fn cpu(&self) -> Seq<char> {
        match self.target_cpu {
            Some(name) => name@,
            None => self.default_cpu@,
        }
    }
}

/// The processor that code is generated for.
pub fn target_cpu(sess: &Session) -> (cpu: &str)
    requires
        sess.cpu() != "native"@,
    ensures
        cpu@ == sess.cpu(),
{
    match &sess.target_cpu {
        Some(name) => handle_native(name.as_str()),
        None => handle_native(sess.default_cpu.as_str()),
    }
}

/// Calls `gccjit::TargetInfo::cpu_supports`, which asks libgccjit whether the
/// processor has a feature. A name with a NUL character in it is not passed on:
/// there is no such feature. What libgccjit answers otherwise depends on the
/// machine, and nothing is said of it.
#[verifier::external_body]
fn cpu_supports(target_info: &gccjit::TargetInfo, feature: &str) -> (supported: bool)
    ensures
        feature@.contains('\0') ==> !supported,
{
    target_info.cpu_supports(feature)
}

impl TargetFeature {
    /// Whether the feature may be used: it is stable, or unstable ones are
    /// allowed.
    pub open spec fn passes_gate(&self, unstable: bool) -> bool {
        unstable || self.gate is None
    }
}

/// The names of the features that may be used and that the processor has, in the
/// order of `features`. The processor has the features for which `supported`
/// holds.
pub open spec fn selected_features(
    features: Seq<TargetFeature>,
    unstable: bool,
    supported: Seq<bool>,
) -> Seq<Seq<char>>
    recommends
        features.len() == supported.len(),
    decreases features.len(),
{
    if features.len() == 0 {
        Seq::empty()
    } else {
        let before = selected_features(features.drop_last(), unstable, supported.drop_last());
        if features.last().passes_gate(unstable) && supported.last() {
            before.push(features.last().name@)
        } else {
            before
        }
    }
}

/// Whether libgccjit gave this answer when it was asked whether the processor has
/// the feature of the given name.
pub closed spec fn was_answered(
    target_info: &gccjit::TargetInfo,
    name: Seq<char>,
    answer: bool,
) -> bool {
    exists|asked: &str|
        asked@ == name && #[trigger] call_ensures(cpu_supports, (target_info, asked), answer)
}

/// Answers that libgccjit gave: it was asked about each of the features that may
/// be used.
pub open spec fn answers(
    target_info: &gccjit::TargetInfo,
    features: Seq<TargetFeature>,
    unstable: bool,
    supported: Seq<bool>,
) -> bool {
    forall|i: int|
        0 <= i < features.len() && (#[trigger] features[i]).passes_gate(unstable) ==> was_answered(
            target_info,
            features[i].name@,
            supported[i],
        )
}

/// Answers that the processor may have given: it has no feature with a NUL
/// character in its name.
pub open spec fn possible_answers(features: Seq<TargetFeature>, supported: Seq<bool>) -> bool {
    &&& supported.len() == features.len()
    &&& forall|i: int|
        0 <= i < features.len() && (#[trigger] features[i]).name@.contains('\0') ==> !supported[i]
}

impl Session {
    /// The names of the features that can be used, where `supported` says which
    /// ones the processor has. Unstable ones can in a nightly build, or where
    /// they are allowed.
    pub open spec fn usable_features(&self, allow_unstable: bool, supported: Seq<bool>) -> Seq<
        Seq<char>,
    > {
        selected_features(
            self.supported_target_features@,
            self.nightly_build || allow_unstable,
            supported,
        )
    }
}

/// The names of the features that may be used and that the processor has, where
/// `supported` says which ones it has.
pub fn select_features(
    features: &Vec<TargetFeature>,
    unstable: bool,
    supported: &Vec<bool>,
) -> (names: Vec<String>)
    requires
        supported@.len() == features@.len(),
    ensures
        views(names@) == selected_features(features@, unstable, supported@),
{
    let mut names: Vec<String> = Vec::new();
    let mut i: usize = 0;
    while i < features.len()
        invariant
            i <= features@.len(),
            supported@.len() == features@.len(),
            views(names@) =~= selected_features(
                features@.take(i as int),
                unstable,
                supported@.take(i as int),
            ),
        decreases features@.len() - i,
    {
        assert(features@.take(i + 1).drop_last() =~= features@.take(i as int));
        assert(supported@.take(i + 1).drop_last() =~= supported@.take(i as int));
        let ghost before = names@;
        if (unstable || features[i].gate.is_none()) && supported[i] {
            names.push(features[i].name.clone());
            assert(views(names@) =~= views(before).push(features@[i as int].name@));
        }
        i += 1;
    }
    assert(features@.take(i as int) =~= features@);
    assert(supported@.take(i as int) =~= supported@);
    names
}

/// The names of the features that can be used, where `supported` says which ones
/// the processor has. Unstable ones can in a nightly build, or where they are
/// allowed.
pub fn usable_features(sess: &Session, allow_unstable: bool, supported: &Vec<bool>) -> (names: Vec<
    String,
>)
    requires
        supported@.len() == sess.supported_target_features@.len(),
    ensures
        views(names@) == sess.usable_features(allow_unstable, supported@),
{
    select_features(
        &sess.supported_target_features,
        sess.nightly_build || allow_unstable,
        supported,
    )
}

/// Asks the processor about the features that may be used.
fn ask_support(
    features: &Vec<TargetFeature>,
    unstable: bool,
    target_info: &gccjit::TargetInfo,
) -> (supported: Vec<bool>)
    ensures
        possible_answers(features@, supported@),
        answers(target_info, features@, unstable, supported@),
{
    let mut supported: Vec<bool> = Vec::new();
    let mut i: usize = 0;
    while i < features.len()
        invariant
            i <= features@.len(),
            supported@.len() == i,
            forall|k: int|
                0 <= k < i && (#[trigger] features@[k]).name@.contains('\0') ==> !supported@[k],
            forall|k: int|
                0 <= k < i && (#[trigger] features@[k]).passes_gate(unstable) ==> was_answered(
                    target_info,
                    features@[k].name@,
                    supported@[k],
                ),
        decreases features@.len() - i,
    {
        let answer: bool = (unstable || features[i].gate.is_none()) && cpu_supports(
            target_info,
            features[i].name.as_str(),
        );
        supported.push(answer);
        i += 1;
    }
    supported
}

/// The features of the target that can be used: those that the compiler knows,
/// without the unstable ones unless this is a nightly build or they are allowed,
/// as far as the processor has them. Which ones it has is for libgccjit to say: it
/// is asked about each of them by its name, and its answers decide.
pub fn target_features(
    sess: &Session,
    allow_unstable: bool,
    target_info: &Arc<gccjit::TargetInfo>,
) -> (names: Vec<String>)
    ensures
        exists|supported: Seq<bool>| #[trigger]
            possible_answers(sess.supported_target_features@, supported) && answers(
                &**target_info,
                sess.supported_target_features@,
                sess.nightly_build || allow_unstable,
                supported,
            ) && views(names@) == sess.usable_features(allow_unstable, supported),
{
    let unstable: bool = sess.nightly_build || allow_unstable;
    let supported: Vec<bool> = ask_support(&sess.supported_target_features, unstable, target_info);
    usable_features(sess, allow_unstable, &supported)
}

/// The backend, with what libgccjit knows of the target.
#[derive(Clone)]
pub struct GccCodegenBackend {
    pub target_info: Arc<gccjit::TargetInfo>,
}

impl GccCodegenBackend {
    /// The warning that is due at the start of a compilation: link-time
    /// optimization was asked for, and there is none.
    pub fn init(sess: &Session) -> (warning: Option<LTONotSupported>)
        ensures
            warning is Some <==> sess.lto != Lto::No,
    {
        if sess.lto != Lto::No {
            Some(LTONotSupported)
        } else {
            None
        }
    }

    /// The features that the backend turns on for every function: none.
    pub fn global_backend_features() -> (features: Vec<String>)
        ensures
            features@.len() == 0,
    {
        Vec::new()
    }

    /// The features of the target that can be used; see [target_features].
    pub fn target_features(&self, sess: &Session, allow_unstable: bool) -> (names: Vec<String>)
        ensures
            exists|supported: Seq<bool>| #[trigger]
                possible_answers(sess.supported_target_features@, supported) && answers(
                    &*self.target_info,
                    sess.supported_target_features@,
                    sess.nightly_build || allow_unstable,
                    supported,
                ) && views(names@) == sess.usable_features(allow_unstable, supported),
    {
        target_features(sess, allow_unstable, &self.target_info)
    }

    /// Fat link-time optimization: the first module is passed on alone, without
    /// any bitcode. It has to be in memory.
    pub fn run_fat_lto<M>(modules: Vec<FatLtoInput<M>>) -> (lto: Result<
        LtoModuleCodegen<M>,
        FatalError,
    >)
        requires
            modules@.len() > 0,
            modules@[0] is InMemory,
        ensures
            lto matches Ok(LtoModuleCodegen::Fat { module, serialized_bitcode })
                && modules@[0] == FatLtoInput::InMemory(module) && serialized_bitcode@.len() == 0,
    {
        let mut modules = modules;
        match modules.remove(0) {
            FatLtoInput::InMemory(module) => Ok(
                LtoModuleCodegen::Fat { module, serialized_bitcode: Vec::new() },
            ),
            FatLtoInput::Serialized { .. } => Err(FatalError),
        }
    }
}

/// The driver option that makes libgccjit generate code for `arch`.
pub fn march_option(arch: &str) -> (option: String)
    ensures
        option@ == "-march="@ + arch@,
{
    let mut option: String = String::from_str("-march=");
    option.append(arch);
    option
}

/// A feature is selected exactly where it may be used and the processor has it.
pub proof fn law_selected_features(
    features: Seq<TargetFeature>,
    unstable: bool,
    supported: Seq<bool>,
    name: Seq<char>,
)
    requires
        features.len() == supported.len(),
    ensures
        selected_features(features, unstable, supported).contains(name) <==> exists|i: int|
            0 <= i < features.len() && (#[trigger] features[i]).passes_gate(unstable)
                && supported[i] && features[i].name@ == name,
    decreases features.len(),
{
    if features.len() > 0 {
        let last = features.len() - 1;
        let front = features.drop_last();
        let known = supported.drop_last();
        law_selected_features(front, unstable, known, name);
        let before = selected_features(front, unstable, known);
        let after = selected_features(features, unstable, supported);
        if before.contains(name) {
            let i = choose|i: int|
                0 <= i < front.len() && (#[trigger] front[i]).passes_gate(unstable) && known[i]
                    && front[i].name@ == name;
            assert(features[i] == front[i]);
            let k = before.index_of(name);
            assert(after[k] == name);
        }
        if features[last].passes_gate(unstable) && supported[last] && features[last].name@ == name {
            assert(after.last() == name);
        }
        if exists|i: int|
            0 <= i < features.len() && (#[trigger] features[i]).passes_gate(unstable)
                && supported[i] && features[i].name@ == name {
            let i = choose|i: int|
                0 <= i < features.len() && (#[trigger] features[i]).passes_gate(unstable)
                    && supported[i] && features[i].name@ == name;
            if i < last {
                assert(front[i] == features[i]);
            }
        }
        if after.contains(name) && !before.contains(name) {
            let k = after.index_of(name);
            if k < before.len() {
                assert(before[k] == name);
            }
        }
    }
}

/// The features that may be used and that the processor has, in their order.
pub open spec fn kept_features(
    features: Seq<TargetFeature>,
    unstable: bool,
    supported: Seq<bool>,
) -> Seq<TargetFeature>
    recommends
        features.len() == supported.len(),
    decreases features.len(),
{
    if features.len() == 0 {
        Seq::empty()
    } else {
        let before = kept_features(features.drop_last(), unstable, supported.drop_last());
        if features.last().passes_gate(unstable) && supported.last() {
            before.push(features.last())
        } else {
            before
        }
    }
}

/// The names of the features.
pub open spec fn names_of(features: Seq<TargetFeature>) -> Seq<Seq<char>> {
    features.map_values(|feature: TargetFeature| feature.name@)
}

proof fn lemma_kept_features(features: Seq<TargetFeature>, unstable: bool, supported: Seq<bool>)
    requires
        features.len() == supported.len(),
    ensures
        selected_features(features, unstable, supported) == names_of(
            kept_features(features, unstable, supported),
        ),
    decreases features.len(),
{
    let kept = kept_features(features, unstable, supported);
    if features.len() > 0 {
        let front = features.drop_last();
        let known = supported.drop_last();
        lemma_kept_features(front, unstable, known);
        let before = kept_features(front, unstable, known);
        assert(names_of(before.push(features.last())) =~= names_of(before).push(
            features.last().name@,
        ));
    }
    assert(selected_features(features, unstable, supported) =~= names_of(kept));
}

/// What is selected without unstable features is what is selected with them, in
/// the same order, but for the unstable ones.
pub proof fn law_unstable_features_are_gated(features: Seq<TargetFeature>, supported: Seq<bool>)
    requires
        features.len() == supported.len(),
    ensures
        selected_features(features, true, supported) == names_of(
            kept_features(features, true, supported),
        ),
        selected_features(features, false, supported) == names_of(
            kept_features(features, true, supported).filter(|f: TargetFeature| f.gate is None),
        ),
    decreases features.len(),
{
    let stable = |f: TargetFeature| f.gate is None;
    lemma_kept_features(features, true, supported);
    let all = kept_features(features, true, supported);
    if features.len() == 0 {
        assert(all.filter(stable) =~= Seq::<TargetFeature>::empty()) by {
            reveal(Seq::filter);
        }
        assert(names_of(all.filter(stable)) =~= Seq::<Seq<char>>::empty());
    } else {
        let front = features.drop_last();
        let known = supported.drop_last();
        law_unstable_features_are_gated(front, known);
        let before = kept_features(front, true, known);
        let last = features.last();
        if supported.last() {
            assert(all.drop_last() =~= before);
            assert(all.last() == last);
            assert(all.filter(stable) == (if stable(last) {
                before.filter(stable).push(last)
            } else {
                before.filter(stable)
            })) by {
                reveal(Seq::filter);
            }
            assert(names_of(before.filter(stable).push(last)) =~= names_of(
                before.filter(stable),
            ).push(last.name@));
        }
    }
}

/// A feature can be used exactly where the processor has it and it is stable,
/// this is a nightly build, or unstable features are allowed.
pub proof fn law_usable_features(
    sess: &Session,
    allow_unstable: bool,
    supported: Seq<bool>,
    name: Seq<char>,
)
    requires
        supported.len() == sess.supported_target_features@.len(),
    ensures
        sess.usable_features(allow_unstable, supported).contains(name) <==> exists|i: int|
            {
                let feature = #[trigger] sess.supported_target_features@[i];
                &&& 0 <= i < sess.supported_target_features@.len()
                &&& feature.name@ == name
                &&& supported[i]
                &&& sess.nightly_build || allow_unstable || feature.gate is None
            },
{
    let features = sess.supported_target_features@;
    let unstable = sess.nightly_build || allow_unstable;
    law_selected_features(features, unstable, supported, name);
    if sess.usable_features(allow_unstable, supported).contains(name) {
        let i = choose|i: int|
            0 <= i < features.len() && (#[trigger] features[i]).passes_gate(unstable)
                && supported[i] && features[i].name@ == name;
        assert(features[i].name@ == name);
    }
    if exists|i: int|
        {
            let feature = #[trigger] features[i];
            &&& 0 <= i < features.len()
            &&& feature.name@ == name
            &&& supported[i]
            &&& sess.nightly_build || allow_unstable || feature.gate is None
        } {
        let i = choose|i: int|
            {
                let feature = #[trigger] features[i];
                &&& 0 <= i < features.len()
                &&& feature.name@ == name
                &&& supported[i]
                &&& sess.nightly_build || allow_unstable || feature.gate is None
            };
        assert(features[i].passes_gate(unstable));
    }
}

/// Where nothing is known of the processor, no feature is selected.
pub proof fn law_no_support_no_features(
    features: Seq<TargetFeature>,
    unstable: bool,
    supported: Seq<bool>,
)
    requires
        features.len() == supported.len(),
        forall|i: int| 0 <= i < supported.len() ==> !#[trigger] supported[i],
    ensures
        selected_features(features, unstable, supported) == Seq::<Seq<char>>::empty(),
    decreases features.len(),
{
    if features.len() > 0 {
        assert(!supported[supported.len() - 1]);
        law_no_support_no_features(features.drop_last(), unstable, supported.drop_last());
    }
}

/// The level at which GCC optimizes: not at all where no level was given or none
/// is asked for, and the more the more is asked for. Optimizing for size is like
/// optimizing a little.
pub proof fn law_optimization_levels(
    none: gccjit::OptimizationLevel,
    level: OptLevel,
    given: gccjit::OptimizationLevel,
)
    requires
        call_ensures(to_gcc_opt_level, (None::<OptLevel>,), none),
        call_ensures(to_gcc_opt_level, (Some(level),), given),
    ensures
        none is None,
        given is None <==> level == OptLevel::No,
        given is Limited <==> level == OptLevel::Less || level == OptLevel::Size || level
            == OptLevel::SizeMin,
        given is Standard <==> level == OptLevel::Default,
        given is Aggressive <==> level == OptLevel::Aggressive,
{
}

/// The processor that was asked for is the one that code is generated for,
/// whatever the target has by default; that one counts only where none was asked
/// for.
pub proof fn law_target_cpu(sess: &Session, cpu: &str)
    requires
        call_ensures(target_cpu, (sess,), cpu),
    ensures
        (match sess.target_cpu {
            Some(name) => name@ != "native"@,
            None => sess.default_cpu@ != "native"@,
        }) ==> call_requires(target_cpu, (sess,)),
        sess.target_cpu matches Some(name) ==> cpu@ == name@,
        sess.target_cpu is None ==> cpu@ == sess.default_cpu@,
{
}

/// The name of a processor stands for itself.
pub proof fn law_processor_names(name: &str, cpu: &str)
    requires
        call_ensures(handle_native, (name,), cpu),
    ensures
        cpu@ == name@,
{
}

/// The driver option is the name of the architecture behind a fixed prefix.
pub proof fn law_march_option(arch: &str, option: String)
    requires
        call_ensures(march_option, (arch,), option),
    ensures
        option@ == "-march="@ + arch@,
{
}

/// A warning is due for every kind of link-time optimization.
pub proof fn law_lto_is_warned_about(sess: &Session, warning: Option<LTONotSupported>)
    requires
        call_ensures(GccCodegenBackend::init, (sess,), warning),
    ensures
        sess.lto == Lto::No ==> warning is None,
        sess.lto == Lto::Thin || sess.lto == Lto::ThinLocal || sess.lto == Lto::Fat
            ==> warning is Some,
{
}

/// No feature is turned on for every function.
pub proof fn law_no_global_features(features: Vec<String>)
    requires
        call_ensures(GccCodegenBackend::global_backend_features, (), features),
    ensures
        features@.len() == 0,
{
}

/// Fat link-time optimization passes the first module on as it is, without any
/// bitcode, whatever the others are.
pub proof fn law_fat_lto<M>(
    modules: Vec<FatLtoInput<M>>,
    first: M,
    lto: Result<LtoModuleCodegen<M>, FatalError>,
)
    requires
        call_ensures(GccCodegenBackend::run_fat_lto::<M>, (modules,), lto),
        modules@.len() > 0,
        modules@[0] == FatLtoInput::InMemory(first),
    ensures
        lto matches Ok(LtoModuleCodegen::Fat { module, serialized_bitcode }) && module == first
            && serialized_bitcode@.len() == 0,
{
}

/// The message is printed exactly in a panic, and is the one that was prepared.
pub proof fn law_message_on_panic<F: Fn() -> String>(
    guard: PrintOnPanic<F>,
    panicking: bool,
    printed: Option<String>,
)
    requires
        call_ensures(PrintOnPanic::<F>::on_drop, (&guard, panicking), printed),
    ensures
        printed is Some <==> panicking,
        printed matches Some(message) ==> call_ensures(guard.0, (), message),
{
}

proof fn lemma_selected_indices(
    features: Seq<TargetFeature>,
    unstable: bool,
    supported: Seq<bool>,
    n: nat,
)
    requires
        features.len() == supported.len(),
        n <= features.len(),
    ensures
        selected_features(features.take(n as int), unstable, supported.take(n as int)) == Seq::new(
            n,
            |i: int| i,
        ).filter(
            |i: int| (unstable || features[i].gate is None) && supported[i],
        ).map_values(|i: int| features[i].name@),
    decreases n,
{
    let chosen = |i: int| (unstable || features[i].gate is None) && supported[i];
    let name = |i: int| features[i].name@;
    let indices = Seq::new(n, |i: int| i);
    let kept = indices.filter(chosen);
    if n == 0 {
        assert(kept =~= Seq::<int>::empty()) by {
            reveal(Seq::filter);
        }
        assert(kept.map_values(name) =~= Seq::<Seq<char>>::empty());
    } else {
        let m = (n - 1) as nat;
        lemma_selected_indices(features, unstable, supported, m);
        let before = Seq::new(m, |i: int| i).filter(chosen);
        assert(indices.drop_last() =~= Seq::new(m, |i: int| i));
        assert(indices.last() == m as int);
        assert(kept == (if chosen(m as int) {
            before.push(m as int)
        } else {
            before
        })) by {
            reveal(Seq::filter);
        }
        assert(features.take(n as int).drop_last() =~= features.take(m as int));
        assert(supported.take(n as int).drop_last() =~= supported.take(m as int));
        assert(before.push(m as int).map_values(name) =~= before.map_values(name).push(
            features[m as int].name@,
        ));
    }
}

/// Selecting features keeps the order and the number of those that are selected:
/// each that is stable, or may be unstable, and that the processor has.
pub proof fn law_selection(
    features: &Vec<TargetFeature>,
    unstable: bool,
    supported: &Vec<bool>,
    names: Vec<String>,
)
    requires
        call_ensures(select_features, (features, unstable, supported), names),
        supported@.len() == features@.len(),
    ensures
        views(names@) == Seq::new(features@.len(), |i: int| i).filter(
            |i: int| (unstable || features@[i].gate is None) && supported@[i],
        ).map_values(|i: int| features@[i].name@),
{
    lemma_selected_indices(features@, unstable, supported@, features@.len());
    assert(features@.take(features@.len() as int) =~= features@);
    assert(supported@.take(features@.len() as int) =~= supported@);
}

/// The usable features are those that are selected, unstable ones in a nightly
/// build or where they are allowed.
pub proof fn law_usable_selection(
    sess: &Session,
    allow_unstable: bool,
    supported: &Vec<bool>,
    names: Vec<String>,
)
    requires
        call_ensures(usable_features, (sess, allow_unstable, supported), names),
        supported@.len() == sess.supported_target_features@.len(),
    ensures
        views(names@) == Seq::new(sess.supported_target_features@.len(), |i: int| i).filter(
            |i: int|
                (sess.nightly_build || allow_unstable
                    || sess.supported_target_features@[i].gate is None) && supported@[i],
        ).map_values(|i: int| sess.supported_target_features@[i].name@),
{
    let features = sess.supported_target_features@;
    let unstable = sess.nightly_build || allow_unstable;
    lemma_selected_indices(features, unstable, supported@, features.len());
    assert(features.take(features.len() as int) =~= features);
    assert(supported@.take(features.len() as int) =~= supported@);
    let indices = Seq::new(features.len(), |i: int| i);
    let one = |i: int| (unstable || features[i].gate is None) && supported@[i];
    let other = |i: int|
        (sess.nightly_build || allow_unstable
            || sess.supported_target_features@[i].gate is None) && supported@[i];
    assert(one =~= other);
}

/// libgccjit is never said to have answered that there is a feature with a NUL
/// character in its name.
pub proof fn law_answers_are_from_libgccjit(
    target_info: &gccjit::TargetInfo,
    name: Seq<char>,
    answer: bool,
)
    requires
        was_answered(target_info, name, answer),
    ensures
        name.contains('\0') ==> !answer,
{
}

/// Every name that is returned is that of a feature of the session that is
/// stable, or that may be unstable, and libgccjit answered that the processor has
/// it. Of every other such feature it answered that the processor does not have
/// it.
pub proof fn law_target_features(
    sess: &Session,
    allow_unstable: bool,
    target_info: &Arc<gccjit::TargetInfo>,
    names: Vec<String>,
)
    requires
        call_ensures(target_features, (sess, allow_unstable, target_info), names),
    ensures
        forall|name: Seq<char>| #[trigger]
            views(names@).contains(name) ==> exists|i: int|
                {
                    let feature = #[trigger] sess.supported_target_features@[i];
                    &&& 0 <= i < sess.supported_target_features@.len()
                    &&& feature.name@ == name
                    &&& sess.nightly_build || allow_unstable || feature.gate is None
                    &&& was_answered(&**target_info, name, true)
                },
        forall|i: int|
            {
                let feature = #[trigger] sess.supported_target_features@[i];
                &&& 0 <= i < sess.supported_target_features@.len()
                &&& sess.nightly_build || allow_unstable || feature.gate is None
                &&& !views(names@).contains(feature.name@)
            } ==> was_answered(
                &**target_info,
                sess.supported_target_features@[i].name@,
                false,
            ),
{
    let features = sess.supported_target_features@;
    let unstable = sess.nightly_build || allow_unstable;
    let supported = choose|supported: Seq<bool>| #[trigger]
        possible_answers(features, supported) && answers(
            &**target_info,
            features,
            unstable,
            supported,
        ) && views(names@) == sess.usable_features(allow_unstable, supported);
    assert forall|name: Seq<char>| #[trigger] views(names@).contains(name) implies exists|i: int|
        {
            let feature = #[trigger] sess.supported_target_features@[i];
            &&& 0 <= i < sess.supported_target_features@.len()
            &&& feature.name@ == name
            &&& sess.nightly_build || allow_unstable || feature.gate is None
            &&& was_answered(&**target_info, name, true)
        } by {
        law_usable_features(sess, allow_unstable, supported, name);
        let i = choose|i: int|
            {
                let feature = #[trigger] features[i];
                &&& 0 <= i < features.len()
                &&& feature.name@ == name
                &&& supported[i]
                &&& sess.nightly_build || allow_unstable || feature.gate is None
            };
        assert(features[i].passes_gate(unstable));
    }
    assert forall|i: int|
        {
            let feature = #[trigger] sess.supported_target_features@[i];
            &&& 0 <= i < sess.supported_target_features@.len()
            &&& sess.nightly_build || allow_unstable || feature.gate is None
            &&& !views(names@).contains(feature.name@)
        } implies was_answered(
        &**target_info,
        sess.supported_target_features@[i].name@,
        false,
    ) by {
        let name = features[i].name@;
        law_usable_features(sess, allow_unstable, supported, name);
        assert(features[i].passes_gate(unstable));
        assert(!supported[i]);
    }
}

/// The method returns what the function can return for the target of the backend.
pub proof fn law_backend_target_features(
    backend: &GccCodegenBackend,
    sess: &Session,
    allow_unstable: bool,
    names: Vec<String>,
)
    requires
        call_ensures(GccCodegenBackend::target_features, (backend, sess, allow_unstable), names),
    ensures
        exists|supported: Seq<bool>| #[trigger]
            possible_answers(sess.supported_target_features@, supported) && answers(
                &*backend.target_info,
                sess.supported_target_features@,
                sess.nightly_build || allow_unstable,
                supported,
            ) && views(names@) == Seq::new(
                sess.supported_target_features@.len(),
                |i: int| i,
            ).filter(
                |i: int|
                    (sess.nightly_build || allow_unstable
                        || sess.supported_target_features@[i].gate is None) && supported[i],
            ).map_values(|i: int| sess.supported_target_features@[i].name@),
{
    let features = sess.supported_target_features@;
    let unstable = sess.nightly_build || allow_unstable;
    let supported = choose|supported: Seq<bool>| #[trigger]
        possible_answers(features, supported) && answers(
            &*backend.target_info,
            features,
            unstable,
            supported,
        ) && views(names@) == sess.usable_features(allow_unstable, supported);
    lemma_selected_indices(features, unstable, supported, features.len());
    assert(features.take(features.len() as int) =~= features);
    assert(supported.take(features.len() as int) =~= supported);
    let one = |i: int| (unstable || features[i].gate is None) && supported[i];
    let other = |i: int|
        (sess.nightly_build || allow_unstable
            || sess.supported_target_features@[i].gate is None) && supported[i];
    assert(one =~= other);
}

/// Where answers were given, each feature that is stable, or that may be unstable,
/// was asked about by its own name, and none with a NUL character in its name was
/// said to be there.
pub proof fn law_answers(
    target_info: &gccjit::TargetInfo,
    features: Seq<TargetFeature>,
    unstable: bool,
    supported: Seq<bool>,
    i: int,
)
    requires
        possible_answers(features, supported),
        answers(target_info, features, unstable, supported),
        0 <= i < features.len(),
    ensures
        supported.len() == features.len(),
        unstable || features[i].gate is None ==> was_answered(
            target_info,
            features[i].name@,
            supported[i],
        ),
        features[i].name@.contains('\0') ==> !supported[i],
{
    assert(features[i].passes_gate(unstable) == (unstable || features[i].gate is None));
}

} // verus!
