//! Tests of the binding core: names, indices, closing and opening.

use pikelet_core::term::{LamParam, Span, Term};
use pikelet_core::var::{Debruijn, FreshGen, LocallyNameless, Name, Named, Pattern, Scope, Var};

fn sp() -> Span {
    Span { start: 0, end: 0 }
}

fn free(name: &str) -> Term {
    Term::Var(sp(), Var::Free(Name::user(name.to_string())))
}

fn universe(n: u32) -> Term {
    Term::Universe(sp(), n)
}

fn lam(param: &str, body: Term) -> Term {
    Term::Lam(
        sp(),
        Scope::<LamParam, Box<Term>>::bind(Named(Name::user(param.to_string()), None), Box::new(body)),
    )
}

#[test]
fn name_user_equality() {
    assert!(Name::user("x".to_string()) == Name::user("x".to_string()));
    assert!(Name::user("x".to_string()) != Name::user("y".to_string()));
}

#[test]
fn abstract_names_never_equal() {
    assert!(Name::Abstract != Name::Abstract);
    assert!(Name::Abstract != Name::user("_".to_string()));
}

#[test]
fn freshgen_monotonic() {
    let mut gen = FreshGen::new();
    let a = gen.next_gen();
    let b = gen.next_gen();
    let c = gen.next_gen();
    assert!(a == pikelet_core::var::GenId(0));
    assert!(b == pikelet_core::var::GenId(1));
    assert!(c == pikelet_core::var::GenId(2));
}

#[test]
fn debruijn_succ_and_pred() {
    let zero = Debruijn(0);
    let one = zero.succ();
    assert!(one == Debruijn(1));
    assert!(one.pred() == Some(Debruijn(0)));
    assert!(zero.pred() == None);
}

#[test]
fn var_open_matches_level() {
    let bound = Var::Bound(Named(Name::user("x".to_string()), Debruijn(1)));
    assert!(bound.open(Debruijn(1)));
    assert!(!bound.open(Debruijn(0)));
    let free_var = Var::Free(Name::user("x".to_string()));
    assert!(!free_var.open(Debruijn(0)));
}

#[test]
fn bound_vars_compare_by_index_not_name() {
    let a = Term::Var(sp(), Var::Bound(Named(Name::user("x".to_string()), Debruijn(0))));
    let b = Term::Var(sp(), Var::Bound(Named(Name::user("y".to_string()), Debruijn(0))));
    let c = Term::Var(sp(), Var::Bound(Named(Name::user("x".to_string()), Debruijn(1))));
    assert!(a.alpha_eq(&b));
    assert!(!a.alpha_eq(&c));
}

#[test]
fn close0_binds_the_name_at_level_zero() {
    let identity = lam("x", free("x"));
    match identity {
        Term::Lam(_, scope) => match *scope.scope_body {
            Term::Var(_, Var::Bound(Named(_, idx))) => assert!(idx == Debruijn(0)),
            other => panic!("body did not close: {:?}", term_kind(&other)),
        },
        _ => unreachable!(),
    }
}

#[test]
fn close_increments_level_under_nested_binder() {
    // \x. \y. x — the occurrence of x sits one binder in, so it closes at
    // level 1, not 0.
    let inner = lam("y", free("x"));
    let outer = lam("x", inner);
    match outer {
        Term::Lam(_, outer_scope) => match *outer_scope.scope_body {
            Term::Lam(_, inner_scope) => match *inner_scope.scope_body {
                Term::Var(_, Var::Bound(Named(_, idx))) => assert!(idx == Debruijn(1)),
                other => panic!("inner body did not close: {:?}", term_kind(&other)),
            },
            _ => unreachable!(),
        },
        _ => unreachable!(),
    }
}

#[test]
fn close_is_a_no_op_for_other_names() {
    let body = lam("y", free("x"));
    match body {
        Term::Lam(_, scope) => match *scope.scope_body {
            Term::Var(_, Var::Free(name)) => assert!(name == Name::user("x".to_string())),
            _ => panic!("free variable of another name was captured"),
        },
        _ => unreachable!(),
    }
}

#[test]
fn abstract_pattern_binds_nothing() {
    // A wildcard name matches no free variable, itself included.
    let scope = Scope::<LamParam, Box<Term>>::bind(
        Named(Name::Abstract, None),
        Box::new(Term::Var(sp(), Var::Free(Name::Abstract))),
    );
    match *scope.scope_body {
        Term::Var(_, Var::Free(_)) => {},
        _ => panic!("an Abstract name must capture nothing"),
    }
}

#[test]
fn named_pattern_binds_its_own_name() {
    let pattern = Named(Name::user("x".to_string()), ());
    assert!(pattern.handle_free(Debruijn(2), &Name::user("x".to_string())) == Some(Debruijn(2)));
    assert!(pattern.handle_free(Debruijn(2), &Name::user("y".to_string())) == None);
    let wildcard = Named(Name::Abstract, ());
    assert!(wildcard.handle_free(Debruijn(0), &Name::Abstract) == None);
}

#[test]
fn close_then_open_round_trips() {
    let name = Name::user("x".to_string());
    let original = Term::App(sp(), Box::new(free("x")), Box::new(universe(0)));
    let closed = original.close0(&name);
    let reopened = closed.open0(&free("x"));
    assert!(reopened.alpha_eq(&original));
}

#[test]
fn open_substitutes_and_shifts() {
    // Opening (Bound 0) (Bound 1) with U0 gives U0 (Bound 0): the bound
    // occurrence at the removed binder becomes the argument, deeper indices
    // shift down.
    let body = Term::App(
        sp(),
        Box::new(Term::Var(sp(), Var::Bound(Named(Name::user("a".to_string()), Debruijn(0))))),
        Box::new(Term::Var(sp(), Var::Bound(Named(Name::user("b".to_string()), Debruijn(1))))),
    );
    let opened = body.open0(&universe(0));
    let expected = Term::App(
        sp(),
        Box::new(universe(0)),
        Box::new(Term::Var(sp(), Var::Bound(Named(Name::user("b".to_string()), Debruijn(0))))),
    );
    assert!(opened.alpha_eq(&expected));
}

#[test]
fn spans_and_display_names_do_not_affect_alpha_eq() {
    let a = Term::Lam(
        Span { start: 3, end: 9 },
        Scope::<LamParam, Box<Term>>::bind(
            Named(Name::user("x".to_string()), None),
            Box::new(Term::Var(Span { start: 5, end: 6 }, Var::Free(Name::user("x".to_string())))),
        ),
    );
    let b = lam("y", free("y"));
    assert!(a.alpha_eq(&b));
}

fn term_kind(t: &Term) -> &'static str {
    match t {
        Term::Universe(_, _) => "universe",
        Term::Var(_, _) => "var",
        Term::Lam(_, _) => "lam",
        Term::Pi(_, _) => "pi",
        Term::App(_, _, _) => "app",
        Term::Ann(_, _, _) => "ann",
    }
}
