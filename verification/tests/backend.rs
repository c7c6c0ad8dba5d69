use gccjit::OptimizationLevel;
use rustc_parts::backend::{
    handle_native, march_option, select_features, target_cpu, to_gcc_opt_level, usable_features, FatLtoInput,
    GccCodegenBackend, LTONotSupported, LtoModuleCodegen, Lto, ModuleBuffer, OptLevel, PrintOnPanic, Session,
    TargetFeature, ThinBuffer,
};

fn session(target_cpu: Option<&str>) -> Session {
    Session {
        target_cpu: target_cpu.map(|name| name.to_string()),
        default_cpu: "x86-64".to_string(),
        supported_target_features: vec![],
        nightly_build: false,
        lto: Lto::No,
    }
}

fn features() -> Vec<TargetFeature> {
    let feature = |name: &str, gate: Option<&str>| TargetFeature {
        name: name.to_string(),
        gate: gate.map(|gate| gate.to_string()),
    };
    vec![
        feature("adx", None),
        feature("avx512f", Some("avx512_target_feature")),
        feature("sse2", None),
        feature("tbm", Some("tbm_target_feature")),
    ]
}

#[test]
fn message_is_printed_only_on_panic() {
    let guard = PrintOnPanic(|| "in module m".to_string());
    assert_eq!(guard.on_drop(false), None);
    assert_eq!(guard.on_drop(true), Some("in module m".to_string()));
}

#[test]
fn message_is_not_computed_without_a_panic() {
    let guard = PrintOnPanic(|| panic!("not to be called"));
    assert_eq!(guard.on_drop(false), None);
}

#[test]
fn buffers_hold_nothing() {
    assert_eq!(std::mem::size_of_val(&ModuleBuffer), 0);
    assert_eq!(std::mem::size_of_val(&ThinBuffer), 0);
}

#[test]
fn optimization_levels() {
    assert!(matches!(to_gcc_opt_level(None), OptimizationLevel::None));
    assert!(matches!(to_gcc_opt_level(Some(OptLevel::No)), OptimizationLevel::None));
    assert!(matches!(to_gcc_opt_level(Some(OptLevel::Less)), OptimizationLevel::Limited));
    assert!(matches!(to_gcc_opt_level(Some(OptLevel::Default)), OptimizationLevel::Standard));
    assert!(matches!(to_gcc_opt_level(Some(OptLevel::Aggressive)), OptimizationLevel::Aggressive));
    assert!(matches!(to_gcc_opt_level(Some(OptLevel::Size)), OptimizationLevel::Limited));
    assert!(matches!(to_gcc_opt_level(Some(OptLevel::SizeMin)), OptimizationLevel::Limited));
}

#[test]
fn processor_names_are_passed_on() {
    assert_eq!(handle_native("znver3"), "znver3");
    assert_eq!(handle_native(""), "");
}

#[test]
fn processor_that_was_asked_for_comes_first() {
    assert_eq!(target_cpu(&session(Some("znver3"))), "znver3");
    assert_eq!(target_cpu(&session(None)), "x86-64");
}

#[test]
fn stable_features_only() {
    let names = select_features(&features(), false, &vec![true, true, true, true]);
    assert_eq!(names, ["adx", "sse2"]);
}

#[test]
fn unstable_features_where_they_are_allowed() {
    let names = select_features(&features(), true, &vec![true, true, true, true]);
    assert_eq!(names, ["adx", "avx512f", "sse2", "tbm"]);
}

#[test]
fn allowing_unstable_features_adds_them_in_place() {
    let supported = vec![true, true, false, true];
    let all = select_features(&features(), true, &supported);
    let stable = select_features(&features(), false, &supported);
    let gated = ["avx512f", "tbm"];
    let kept: Vec<String> =
        all.into_iter().filter(|name| !gated.contains(&name.as_str())).collect();
    assert_eq!(stable, kept);
    assert_eq!(stable, ["adx"]);
}

#[test]
fn features_that_the_processor_lacks_are_left_out() {
    let names = select_features(&features(), true, &vec![false, true, true, false]);
    assert_eq!(names, ["avx512f", "sse2"]);
    let names = select_features(&features(), false, &vec![false, true, false, false]);
    assert!(names.is_empty());
}

#[test]
fn unstable_features_in_a_nightly_build() {
    let mut sess = session(None);
    sess.supported_target_features = features();
    let supported = vec![true, true, false, true];
    assert_eq!(usable_features(&sess, false, &supported), ["adx"]);
    assert_eq!(usable_features(&sess, true, &supported), ["adx", "avx512f", "tbm"]);
    sess.nightly_build = true;
    assert_eq!(usable_features(&sess, false, &supported), ["adx", "avx512f", "tbm"]);
    assert_eq!(usable_features(&sess, true, &supported), ["adx", "avx512f", "tbm"]);
}

#[test]
fn no_feature_is_usable_where_none_is_supported() {
    let mut sess = session(None);
    sess.supported_target_features = features();
    sess.nightly_build = true;
    assert!(usable_features(&sess, true, &vec![false; 4]).is_empty());
}

#[test]
fn fat_lto_passes_the_first_module_on() {
    let modules = vec![FatLtoInput::InMemory(3), FatLtoInput::InMemory(4)];
    match GccCodegenBackend::run_fat_lto(modules) {
        Ok(LtoModuleCodegen::Fat { module, serialized_bitcode }) => {
            assert_eq!(module, 3);
            assert!(serialized_bitcode.is_empty());
        }
        Err(_) => panic!("the first module is in memory"),
    }
}

#[test]
fn fat_lto_does_not_look_at_later_modules() {
    let later = FatLtoInput::Serialized { name: "m".to_string(), buffer: vec![1] };
    let lto = GccCodegenBackend::run_fat_lto(vec![FatLtoInput::InMemory("a"), later]);
    assert!(matches!(lto, Ok(LtoModuleCodegen::Fat { module: "a", .. })));
}

#[test]
fn lto_is_warned_about() {
    let mut sess = session(None);
    assert_eq!(GccCodegenBackend::init(&sess), None);
    for lto in [Lto::Thin, Lto::ThinLocal, Lto::Fat] {
        sess.lto = lto;
        assert_eq!(GccCodegenBackend::init(&sess), Some(LTONotSupported));
    }
}

#[test]
fn no_features_are_turned_on_everywhere() {
    assert!(GccCodegenBackend::global_backend_features().is_empty());
}

#[test]
fn march_option_names_the_architecture() {
    assert_eq!(march_option("skylake"), "-march=skylake");
}
