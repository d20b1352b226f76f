//! Tests of the checker and the normalizer: the universe chain, beta
//! reduction, every error variant, idempotence and alpha-equivalence.

use pikelet_core::context::Context;
use pikelet_core::errors::{InternalError, TypeError};
use pikelet_core::semantics::{check, infer, normalize};
use pikelet_core::term::{LamParam, PiParam, Span, Term};
use pikelet_core::var::{Debruijn, Name, Named, Scope, Var};

fn sp() -> Span {
    Span { start: 0, end: 0 }
}

fn universe(n: u32) -> Term {
    Term::Universe(sp(), n)
}

fn free(name: &str) -> Term {
    Term::Var(sp(), Var::Free(Name::user(name.to_string())))
}

fn lam(param: &str, ann: Option<Term>, body: Term) -> Term {
    Term::Lam(
        sp(),
        Scope::<LamParam, Box<Term>>::bind(
            Named(Name::user(param.to_string()), ann.map(Box::new)),
            Box::new(body),
        ),
    )
}

fn pi(param: &str, dom: Term, body: Term) -> Term {
    Term::Pi(
        sp(),
        Scope::<PiParam, Box<Term>>::bind(Named(Name::user(param.to_string()), Box::new(dom)), Box::new(body)),
    )
}

fn app(f: Term, a: Term) -> Term {
    Term::App(sp(), Box::new(f), Box::new(a))
}

fn ann(e: Term, ty: Term) -> Term {
    Term::Ann(sp(), Box::new(e), Box::new(ty))
}

fn infer_type(ctx: &Context, t: &Term) -> Term {
    match infer(ctx, t) {
        Ok((_, ty)) => ty,
        Err(_) => panic!("inference failed unexpectedly"),
    }
}

#[test]
fn universe_zero_infers_universe_one() {
    let ctx = Context::new();
    let ty = infer_type(&ctx, &universe(0));
    assert!(ty.alpha_eq(&universe(1)));
}

#[test]
fn universe_chain_in_general() {
    let ctx = Context::new();
    for n in [1u32, 2, 5, 41] {
        let ty = infer_type(&ctx, &universe(n));
        assert!(ty.alpha_eq(&universe(n + 1)));
    }
}

#[test]
fn undefined_name_fails() {
    let ctx = Context::new();
    match infer(&ctx, &free("foo")) {
        Err(TypeError::UndefinedName { name, .. }) => {
            assert!(name == Name::user("foo".to_string()));
        },
        _ => panic!("expected UndefinedName"),
    }
}

#[test]
fn variable_found_in_context() {
    let mut ctx = Context::new();
    ctx.push(Name::user("y".to_string()), universe(0));
    let ty = infer_type(&ctx, &free("y"));
    assert!(ty.alpha_eq(&universe(0)));
}

#[test]
fn unannotated_lambda_cannot_be_inferred() {
    let ctx = Context::new();
    match infer(&ctx, &lam("x", None, free("x"))) {
        Err(TypeError::FunctionParamNeedsAnnotation { name, .. }) => {
            assert!(name == Name::user("x".to_string()));
        },
        _ => panic!("expected FunctionParamNeedsAnnotation"),
    }
}

#[test]
fn annotated_lambda_infers_a_pi_type() {
    let ctx = Context::new();
    let ty = infer_type(&ctx, &lam("x", Some(universe(0)), free("x")));
    assert!(ty.alpha_eq(&pi("x", universe(0), universe(0))));
}

#[test]
fn dependent_lambda_infers_a_dependent_pi() {
    // \(a : Universe 0). \(x : a). x : Pi (a : Universe 0). Pi (x : a). a
    let ctx = Context::new();
    let inner = lam("x", Some(free("a")), free("x"));
    let outer = lam("a", Some(universe(0)), inner);
    let ty = infer_type(&ctx, &outer);
    let expected = pi("a", universe(0), pi("x", free("a"), free("a")));
    assert!(ty.alpha_eq(&expected));
}

#[test]
fn pi_lives_in_the_larger_universe() {
    // The domain Universe 2 inhabits Universe 3, the codomain Universe 0
    // inhabits Universe 1; the Pi inhabits the larger, Universe 3.
    let ctx = Context::new();
    let ty = infer_type(&ctx, &pi("x", universe(2), universe(0)));
    assert!(ty.alpha_eq(&universe(3)));
}

#[test]
fn ascription_checks_and_returns_the_type() {
    let ctx = Context::new();
    let ty = infer_type(&ctx, &ann(universe(0), universe(1)));
    assert!(ty.alpha_eq(&universe(1)));
}

#[test]
fn ascription_by_a_non_type_fails() {
    let ctx = Context::new();
    let not_a_type = lam("x", Some(universe(0)), free("x"));
    match infer(&ctx, &ann(universe(0), not_a_type)) {
        Err(TypeError::ExpectedUniverse { .. }) => {},
        _ => panic!("expected ExpectedUniverse"),
    }
}

#[test]
fn applying_a_non_function_fails() {
    let ctx = Context::new();
    match infer(&ctx, &app(universe(0), universe(0))) {
        Err(TypeError::NotAFunctionType { .. }) => {},
        _ => panic!("expected NotAFunctionType"),
    }
}

#[test]
fn application_checks_and_normalizes() {
    // (\(x : Universe 1). x) applied to Universe 0 checks against
    // Universe 1 and evaluates to Universe 0.
    let ctx = Context::new();
    let redex = app(lam("x", Some(universe(1)), free("x")), universe(0));
    assert!(check(&ctx, &redex, &universe(1)).is_ok());
    let value = normalize(&ctx, &redex).unwrap();
    assert!(value.alpha_eq(&universe(0)));
}

#[test]
fn application_argument_level_mismatch() {
    // The domain annotation Universe 0 asks the argument Universe 0 to
    // inhabit Universe 0; it inhabits Universe 1, so checking fails.
    let ctx = Context::new();
    let redex = app(lam("x", Some(universe(0)), free("x")), universe(0));
    match check(&ctx, &redex, &universe(0)) {
        Err(TypeError::Mismatch { .. }) => {},
        _ => panic!("expected Mismatch"),
    }
}

#[test]
fn normalize_beta_redex() {
    // Evaluation does not check types: the reduction itself goes through
    // whatever the annotation says.
    let ctx = Context::new();
    let redex = app(lam("x", Some(universe(0)), free("x")), universe(0));
    let value = normalize(&ctx, &redex).unwrap();
    assert!(value.alpha_eq(&universe(0)));
}

#[test]
fn checking_a_universe_against_a_pi_mismatches() {
    let ctx = Context::new();
    let expected = pi("x", universe(0), universe(0));
    match check(&ctx, &universe(0), &expected) {
        Err(TypeError::Mismatch { .. }) => {},
        _ => panic!("expected Mismatch"),
    }
}

#[test]
fn checking_a_lambda_against_a_non_pi_is_unexpected_function() {
    let ctx = Context::new();
    match check(&ctx, &lam("x", None, free("x")), &universe(0)) {
        Err(TypeError::UnexpectedFunction { .. }) => {},
        _ => panic!("expected UnexpectedFunction"),
    }
}

#[test]
fn checking_an_unannotated_lambda_against_a_pi_succeeds() {
    let ctx = Context::new();
    let expected = pi("x", universe(0), universe(0));
    assert!(check(&ctx, &lam("x", None, free("x")), &expected).is_ok());
}

#[test]
fn lambda_annotation_must_match_the_domain() {
    let ctx = Context::new();
    let expected = pi("x", universe(0), universe(0));
    match check(&ctx, &lam("x", Some(universe(1)), free("x")), &expected) {
        Err(TypeError::Mismatch { .. }) => {},
        _ => panic!("expected Mismatch"),
    }
}

#[test]
fn unsubstituted_index_is_an_internal_error() {
    let ctx = Context::new();
    let dangling = Term::Var(sp(), Var::Bound(Named(Name::user("x".to_string()), Debruijn(0))));
    match normalize(&ctx, &dangling) {
        Err(TypeError::Internal(InternalError::UnsubstitutedDebruijnIndex { index, .. })) => {
            assert!(index == Debruijn(0));
        },
        _ => panic!("expected an internal error"),
    }
}

#[test]
fn annotations_are_erased_by_evaluation() {
    let ctx = Context::new();
    let value = normalize(&ctx, &ann(universe(0), universe(1))).unwrap();
    assert!(value.alpha_eq(&universe(0)));
}

#[test]
fn free_variables_are_neutral() {
    let mut ctx = Context::new();
    ctx.push(Name::user("y".to_string()), universe(0));
    let value = normalize(&ctx, &free("y")).unwrap();
    assert!(value.alpha_eq(&free("y")));
}

#[test]
fn evaluation_stops_at_a_stuck_application() {
    let mut ctx = Context::new();
    ctx.push(Name::user("f".to_string()), pi("x", universe(0), universe(0)));
    let stuck = app(free("f"), universe(0));
    let value = normalize(&ctx, &stuck).unwrap();
    assert!(value.alpha_eq(&stuck));
}

#[test]
fn evaluation_does_not_go_under_binders() {
    let ctx = Context::new();
    let body_redex = lam(
        "x",
        Some(universe(0)),
        app(lam("y", Some(universe(0)), free("y")), free("x")),
    );
    let value = normalize(&ctx, &body_redex).unwrap();
    assert!(value.alpha_eq(&body_redex));
}

#[test]
fn normalize_is_idempotent() {
    let ctx = Context::new();
    let term = app(
        lam("x", Some(universe(1)), app(lam("y", Some(universe(1)), free("y")), free("x"))),
        universe(0),
    );
    let once = normalize(&ctx, &term).unwrap();
    let twice = normalize(&ctx, &once).unwrap();
    assert!(twice.alpha_eq(&once));
    assert!(once.alpha_eq(&universe(0)));
}

#[test]
fn renaming_a_bound_parameter_changes_nothing() {
    let ctx = Context::new();
    let with_x = lam("x", Some(universe(0)), free("x"));
    let with_y = lam("y", Some(universe(0)), free("y"));
    let ty_x = infer_type(&ctx, &with_x);
    let ty_y = infer_type(&ctx, &with_y);
    assert!(ty_x.alpha_eq(&ty_y));
    let vx = normalize(&ctx, &with_x).unwrap();
    let vy = normalize(&ctx, &with_y).unwrap();
    assert!(vx.alpha_eq(&vy));
}

#[test]
fn elaboration_returns_the_term_as_written() {
    let ctx = Context::new();
    let term = universe(0);
    match infer(&ctx, &term) {
        Ok((elaborated, _)) => assert!(elaborated.alpha_eq(&term)),
        Err(_) => panic!("inference failed unexpectedly"),
    }
}
