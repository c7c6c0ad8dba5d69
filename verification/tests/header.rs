use rustc_parts::specialize::def_id::DefId;
use rustc_parts::specialize::header::{
    to_pretty_impl_header, GenericArgKind, HeaderArg, HeaderPredicate, ImplHeader, TraitClause,
};

const SIZED: DefId = DefId { krate: 2, index: 11 };
const CLONE: DefId = DefId { krate: 2, index: 12 };

fn arg(kind: GenericArgKind, id: u64, text: &str) -> HeaderArg {
    HeaderArg { kind, id, text: text.to_string() }
}

fn bound(def_id: DefId, self_ty: u64, text: &str) -> HeaderPredicate {
    HeaderPredicate {
        trait_clause: Some(TraitClause { def_id, self_ty }),
        text: text.to_string(),
    }
}

fn header(args: Vec<HeaderArg>, predicates: Vec<HeaderPredicate>) -> ImplHeader {
    ImplHeader {
        args,
        trait_path: "Foo".to_string(),
        self_ty: "Bar".to_string(),
        sized_trait: Some(SIZED),
        predicates,
    }
}

fn pretty(header: &ImplHeader) -> String {
    to_pretty_impl_header(Some(header)).unwrap()
}

#[test]
fn inherent_impl_has_no_header() {
    assert_eq!(to_pretty_impl_header(None), None);
}

#[test]
fn impl_without_generics() {
    assert_eq!(pretty(&header(vec![], vec![])), "impl Foo for Bar;");
}

#[test]
fn default_bounds_are_removed() {
    let args = vec![
        arg(GenericArgKind::Lifetime, 0, "'a"),
        arg(GenericArgKind::Type, 1, "T"),
        arg(GenericArgKind::Const, 2, "N"),
    ];
    let predicates = vec![bound(SIZED, 1, "T: Sized"), bound(CLONE, 1, "T: Clone")];
    assert_eq!(
        pretty(&header(args, predicates)),
        "impl<'a, T, N> Foo for Bar\n  where T: Clone;"
    );
}

#[test]
fn missing_default_bounds_are_shown() {
    let args = vec![arg(GenericArgKind::Type, 1, "T")];
    assert_eq!(pretty(&header(args, vec![])), "impl<T> Foo for Bar\n  where T: ?Sized;");
}

#[test]
fn all_bounds_removed_leaves_no_where_clause() {
    let args = vec![arg(GenericArgKind::Type, 1, "T")];
    let predicates = vec![bound(SIZED, 1, "T: Sized")];
    assert_eq!(pretty(&header(args, predicates)), "impl<T> Foo for Bar;");
}

#[test]
fn anonymous_lifetimes_are_not_shown() {
    let args = vec![arg(GenericArgKind::Lifetime, 0, "'_")];
    assert_eq!(pretty(&header(args, vec![])), "impl Foo for Bar;");
    let args =
        vec![arg(GenericArgKind::Lifetime, 0, "'_"), arg(GenericArgKind::Type, 1, "T")];
    assert_eq!(pretty(&header(args, vec![])), "impl<T> Foo for Bar\n  where T: ?Sized;");
}

#[test]
fn last_parameter_takes_the_place_of_a_sized_one() {
    let args = vec![
        arg(GenericArgKind::Type, 1, "A"),
        arg(GenericArgKind::Type, 2, "B"),
        arg(GenericArgKind::Type, 3, "C"),
        arg(GenericArgKind::Type, 4, "D"),
    ];
    let predicates = vec![bound(SIZED, 1, "A: Sized")];
    assert_eq!(
        pretty(&header(args, predicates)),
        "impl<A, B, C, D> Foo for Bar\n  where D: ?Sized, B: ?Sized, C: ?Sized;"
    );
}

#[test]
fn relaxed_bounds_follow_the_written_ones() {
    let args = vec![arg(GenericArgKind::Type, 1, "T"), arg(GenericArgKind::Type, 2, "U")];
    let predicates = vec![
        bound(SIZED, 2, "U: Sized"),
        HeaderPredicate { trait_clause: None, text: "T: 'static".to_string() },
        bound(CLONE, 2, "U: Clone"),
    ];
    assert_eq!(
        pretty(&header(args, predicates)),
        "impl<T, U> Foo for Bar\n  where T: 'static, U: Clone, T: ?Sized;"
    );
}

#[test]
fn sized_bound_on_another_type_is_removed_too() {
    let args = vec![arg(GenericArgKind::Type, 1, "T")];
    let predicates = vec![bound(SIZED, 9, "<T as Iterator>::Item: Sized")];
    assert_eq!(pretty(&header(args, predicates)), "impl<T> Foo for Bar\n  where T: ?Sized;");
}

#[test]
fn without_a_sized_trait_every_bound_is_written() {
    let args = vec![arg(GenericArgKind::Type, 1, "T")];
    let mut header = header(args, vec![bound(SIZED, 1, "T: Sized")]);
    header.sized_trait = None;
    assert_eq!(pretty(&header), "impl<T> Foo for Bar\n  where T: Sized, T: ?Sized;");
}

#[test]
fn repeated_type_is_relaxed_once() {
    let args = vec![arg(GenericArgKind::Type, 1, "T"), arg(GenericArgKind::Type, 1, "T")];
    assert_eq!(pretty(&header(args, vec![])), "impl<T, T> Foo for Bar\n  where T: ?Sized;");
}
