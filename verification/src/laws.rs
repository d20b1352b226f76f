//! Laws of the binding core and of the engine, stated and proved once and
//! for all terms: alpha-equivalence congruence, the close/open round trip,
//! idempotence of evaluation, and the universe chain.

use vstd::prelude::*;

use crate::context::lookup;
use crate::errors::{InternalError, TypeError};
use crate::semantics::{as_universe_spec, check_spec, eval_spec, fresh_name, fresh_var, infer_spec, Partial, EVAL_FUEL};
use crate::term::{
    alpha_eq, close_at, lemma_open_size_one, open_at, opt_alpha_eq, span_of, term_size, Span,
    Term,
};
use crate::var::{name_eq, Name, Named, Var};

verus! {

/// A universe inhabits the next universe: the type of `Universe(n)` is
/// `Universe(n + 1)`, under any context.
pub proof fn lemma_universe_chain(ctx: Seq<(Name, Term)>, sp: Span, n: u32)
    requires
        n < u32::MAX,
    ensures
        infer_spec(ctx, Term::Universe(sp, n), EVAL_FUEL as nat)
            == Partial::<Term, TypeError>::Done(Term::Universe(sp, (n + 1) as u32)),
{
}

/// No `Abstract` name stands as a free variable; terms built from user
/// input keep this, since a wildcard can be neither mentioned nor captured.
pub open spec fn no_abstract_free(t: Term) -> bool
    decreases t,
{
    match t {
        Term::Universe(_, _) => true,
        Term::Var(_, v) => match v {
            Var::Free(n) => !(n is Abstract),
            Var::Bound(_) => true,
        },
        Term::Lam(_, s) => (match s.scope_param.1 {
            Some(a) => no_abstract_free(*a),
            None => true,
        }) && no_abstract_free(*s.scope_body),
        Term::Pi(_, s) => no_abstract_free(*s.scope_param.1) && no_abstract_free(*s.scope_body),
        Term::App(_, f, a) => no_abstract_free(*f) && no_abstract_free(*a),
        Term::Ann(_, e, ty) => no_abstract_free(*e) && no_abstract_free(*ty),
    }
}

/// Alpha-equivalence is reflexive on terms whose free variables all have
/// comparable names (an `Abstract` name is never equal, even to itself).
pub proof fn lemma_alpha_eq_refl(t: Term)
    requires
        no_abstract_free(t),
    ensures
        alpha_eq(t, t),
    decreases t,
{
    match t {
        Term::Universe(_, _) => {},
        Term::Var(_, _) => {},
        Term::Lam(_, s) => {
            match s.scope_param.1 {
                Some(a) => lemma_alpha_eq_refl(*a),
                None => {},
            }
            assert(opt_alpha_eq(s.scope_param.1, s.scope_param.1));
            lemma_alpha_eq_refl(*s.scope_body);
        },
        Term::Pi(_, s) => {
            lemma_alpha_eq_refl(*s.scope_param.1);
            lemma_alpha_eq_refl(*s.scope_body);
        },
        Term::App(_, f, a) => {
            lemma_alpha_eq_refl(*f);
            lemma_alpha_eq_refl(*a);
        },
        Term::Ann(_, e, ty) => {
            lemma_alpha_eq_refl(*e);
            lemma_alpha_eq_refl(*ty);
        },
    }
}

/// Every bound variable points at an enclosing binder, counting from `k`
/// binders already around the term.
pub open spec fn lc_at(t: Term, k: nat) -> bool
    decreases t,
{
    match t {
        Term::Universe(_, _) => true,
        Term::Var(_, v) => match v {
            Var::Free(_) => true,
            Var::Bound(Named(_, i)) => (i.0 as nat) < k,
        },
        Term::Lam(_, s) => (match s.scope_param.1 {
            Some(a) => lc_at(*a, k),
            None => true,
        }) && lc_at(*s.scope_body, k + 1),
        Term::Pi(_, s) => lc_at(*s.scope_param.1, k) && lc_at(*s.scope_body, k + 1),
        Term::App(_, f, a) => lc_at(*f, k) && lc_at(*a, k),
        Term::Ann(_, e, ty) => lc_at(*e, k) && lc_at(*ty, k),
    }
}

/// How deeply binders nest in a term.
pub open spec fn scope_depth(t: Term) -> nat
    decreases t,
{
    match t {
        Term::Universe(_, _) => 0,
        Term::Var(_, _) => 0,
        Term::Lam(_, s) => {
            let ann = match s.scope_param.1 {
                Some(a) => scope_depth(*a),
                None => 0,
            };
            let body = 1 + scope_depth(*s.scope_body);
            if ann >= body { ann } else { body }
        },
        Term::Pi(_, s) => {
            let ann = scope_depth(*s.scope_param.1);
            let body = 1 + scope_depth(*s.scope_body);
            if ann >= body { ann } else { body }
        },
        Term::App(_, f, a) => {
            let l = scope_depth(*f);
            let r = scope_depth(*a);
            if l >= r { l } else { r }
        },
        Term::Ann(_, e, ty) => {
            let l = scope_depth(*e);
            let r = scope_depth(*ty);
            if l >= r { l } else { r }
        },
    }
}

/// Round trip: closing a term over a free name and then opening the result
/// with a free variable of that same name reproduces the term, up to
/// alpha-equivalence (the reopened occurrences carry the opening variable's
/// span and spelling of the name). Holds of any term whose bound variables
/// all have a binder among the `k` enclosing ones, whose binders fit the
/// representable depth, and which mentions no `Abstract` free variable.
pub proof fn lemma_close_open_round_trip(t: Term, name: Name, sp: Span, k: nat)
    requires
        lc_at(t, k),
        no_abstract_free(t),
        k + scope_depth(t) <= u32::MAX,
    ensures
        alpha_eq(open_at(close_at(t, name, k), k, Term::Var(sp, Var::Free(name))), t),
    decreases t,
{
    let arg = Term::Var(sp, Var::Free(name));
    match t {
        Term::Universe(_, _) => {},
        Term::Var(_, v) => match v {
            Var::Free(n) => {
                if name_eq(n, name) {
                    assert(close_at(t, name, k) == Term::Var(span_of(t), Var::Bound(Named(n, crate::var::Debruijn(k as u32)))));
                    assert(open_at(close_at(t, name, k), k, arg) == arg);
                    assert(name_eq(name, n));
                } else {
                    assert(close_at(t, name, k) == t);
                    assert(open_at(t, k, arg) == t);
                }
            },
            Var::Bound(_) => {},
        },
        Term::Lam(_, s) => {
            match s.scope_param.1 {
                Some(a) => lemma_close_open_round_trip(*a, name, sp, k),
                None => {},
            }
            lemma_close_open_round_trip(*s.scope_body, name, sp, k + 1);
            assert(opt_alpha_eq(
                crate::term::opt_open_at(crate::term::opt_close_at(s.scope_param.1, name, k), k, arg),
                s.scope_param.1,
            ));
            assert(alpha_eq(open_at(close_at(t, name, k), k, arg), t));
        },
        Term::Pi(_, s) => {
            lemma_close_open_round_trip(*s.scope_param.1, name, sp, k);
            lemma_close_open_round_trip(*s.scope_body, name, sp, k + 1);
            assert(alpha_eq(open_at(close_at(t, name, k), k, arg), t));
        },
        Term::App(_, f, a) => {
            lemma_close_open_round_trip(*f, name, sp, k);
            lemma_close_open_round_trip(*a, name, sp, k);
            assert(alpha_eq(open_at(close_at(t, name, k), k, arg), t));
        },
        Term::Ann(_, e, ty) => {
            lemma_close_open_round_trip(*e, name, sp, k);
            lemma_close_open_round_trip(*ty, name, sp, k);
            assert(alpha_eq(open_at(close_at(t, name, k), k, arg), t));
        },
    }
}

/// A canonical value: what evaluation returns. Bodies under binders are
/// arbitrary (evaluation does not go under binders); annotations of binders
/// are values; an application is a value only when stuck, its function part
/// a value that is not a lambda.
pub open spec fn is_value(t: Term) -> bool
    decreases t,
{
    match t {
        Term::Universe(_, _) => true,
        Term::Var(_, v) => v is Free,
        Term::Lam(_, s) => match s.scope_param.1 {
            Some(a) => is_value(*a),
            None => true,
        },
        Term::Pi(_, s) => is_value(*s.scope_param.1),
        Term::App(_, f, a) => is_value(*f) && !(*f is Lam) && is_value(*a),
        Term::Ann(_, _, _) => false,
    }
}

/// Whatever evaluation finishes with is a value.
pub proof fn lemma_eval_value(t: Term, fuel: nat, v: Term)
    requires
        eval_spec(t, fuel) == Partial::<Term, InternalError>::Done(v),
    ensures
        is_value(v),
    decreases fuel, term_size(t),
{
    match t {
        Term::Universe(_, _) => {},
        Term::Var(_, _) => {},
        Term::Ann(_, e, _) => {
            lemma_eval_value(*e, fuel, v);
        },
        Term::Lam(sp, s) => {
            match s.scope_param.1 {
                Some(ann) => {
                    assert(crate::term::opt_term_size(s.scope_param.1) == term_size(*ann));
                    match eval_spec(*ann, fuel) {
                        Partial::Done(av) => {
                            lemma_eval_value(*ann, fuel, av);
                        },
                        _ => {},
                    }
                },
                None => {},
            }
        },
        Term::Pi(_, s) => {
            match eval_spec(*s.scope_param.1, fuel) {
                Partial::Done(dv) => {
                    lemma_eval_value(*s.scope_param.1, fuel, dv);
                },
                _ => {},
            }
        },
        Term::App(_, f, a) => {
            match eval_spec(*f, fuel) {
                Partial::Done(fv) => {
                    lemma_eval_value(*f, fuel, fv);
                    match eval_spec(*a, fuel) {
                        Partial::Done(av) => {
                            lemma_eval_value(*a, fuel, av);
                            match fv {
                                Term::Lam(_, lam) => {
                                    if fuel > 0 {
                                        lemma_eval_value(
                                            open_at(*lam.scope_body, 0, av),
                                            (fuel - 1) as nat,
                                            v,
                                        );
                                    }
                                },
                                _ => {},
                            }
                        },
                        _ => {},
                    }
                },
                _ => {},
            }
        },
    }
}

/// A value evaluates to itself, with any budget: no beta step is left in it
/// outside a binder.
pub proof fn lemma_value_eval_self(v: Term, fuel: nat)
    requires
        is_value(v),
    ensures
        eval_spec(v, fuel) == Partial::<Term, InternalError>::Done(v),
    decreases term_size(v),
{
    match v {
        Term::Universe(_, _) => {},
        Term::Var(_, _) => {},
        Term::Ann(_, _, _) => {},
        Term::Lam(sp, s) => {
            match s.scope_param.1 {
                Some(ann) => {
                    assert(crate::term::opt_term_size(s.scope_param.1) == term_size(*ann));
                    lemma_value_eval_self(*ann, fuel);
                    assert(eval_spec(v, fuel) == Partial::<Term, InternalError>::Done(v));
                },
                None => {},
            }
        },
        Term::Pi(sp, s) => {
            lemma_value_eval_self(*s.scope_param.1, fuel);
            assert(eval_spec(v, fuel) == Partial::<Term, InternalError>::Done(v));
        },
        Term::App(sp, f, a) => {
            lemma_value_eval_self(*f, fuel);
            lemma_value_eval_self(*a, fuel);
            assert(eval_spec(v, fuel) == Partial::<Term, InternalError>::Done(v));
        },
    }
}

/// Idempotence: evaluation of what evaluation produced gives it back
/// unchanged, with any budget. With the engine's own budget on both calls,
/// this is `normalize(normalize(t)) == normalize(t)`.
pub proof fn lemma_normalize_idempotent(t: Term, fuel: nat, fuel2: nat, v: Term)
    requires
        eval_spec(t, fuel) == Partial::<Term, InternalError>::Done(v),
    ensures
        eval_spec(v, fuel2) == Partial::<Term, InternalError>::Done(v),
{
    lemma_eval_value(t, fuel, v);
    lemma_value_eval_self(v, fuel2);
}

/// Equality of names is symmetric.
pub proof fn lemma_name_eq_sym(a: Name, b: Name)
    ensures
        name_eq(a, b) == name_eq(b, a),
{
}

/// Equality of names is transitive.
pub proof fn lemma_name_eq_trans(a: Name, b: Name, c: Name)
    requires
        name_eq(a, b),
        name_eq(b, c),
    ensures
        name_eq(a, c),
{
}

/// Alpha-equivalence is symmetric.
pub proof fn lemma_alpha_eq_sym(a: Term, b: Term)
    requires
        alpha_eq(a, b),
    ensures
        alpha_eq(b, a),
    decreases a,
{
    match (a, b) {
        (Term::Universe(_, _), Term::Universe(_, _)) => {},
        (Term::Var(_, _), Term::Var(_, _)) => {},
        (Term::Lam(_, s1), Term::Lam(_, s2)) => {
            assert(opt_alpha_eq(s1.scope_param.1, s2.scope_param.1));
            match (s1.scope_param.1, s2.scope_param.1) {
                (Some(x), Some(y)) => lemma_alpha_eq_sym(*x, *y),
                _ => {},
            }
            lemma_alpha_eq_sym(*s1.scope_body, *s2.scope_body);
            assert(opt_alpha_eq(s2.scope_param.1, s1.scope_param.1));
        },
        (Term::Pi(_, s1), Term::Pi(_, s2)) => {
            lemma_alpha_eq_sym(*s1.scope_param.1, *s2.scope_param.1);
            lemma_alpha_eq_sym(*s1.scope_body, *s2.scope_body);
        },
        (Term::App(_, f1, a1), Term::App(_, f2, a2)) => {
            lemma_alpha_eq_sym(*f1, *f2);
            lemma_alpha_eq_sym(*a1, *a2);
        },
        (Term::Ann(_, e1, y1), Term::Ann(_, e2, y2)) => {
            lemma_alpha_eq_sym(*e1, *e2);
            lemma_alpha_eq_sym(*y1, *y2);
        },
        _ => {},
    }
}

/// Alpha-equivalence is transitive.
pub proof fn lemma_alpha_eq_trans(a: Term, b: Term, c: Term)
    requires
        alpha_eq(a, b),
        alpha_eq(b, c),
    ensures
        alpha_eq(a, c),
    decreases a,
{
    match (a, b) {
        (Term::Universe(_, _), Term::Universe(_, _)) => {},
        (Term::Var(_, _), Term::Var(_, _)) => {},
        (Term::Lam(_, s1), Term::Lam(_, s2)) => {
            match c {
                Term::Lam(_, s3) => {
                    assert(opt_alpha_eq(s1.scope_param.1, s2.scope_param.1));
                    assert(opt_alpha_eq(s2.scope_param.1, s3.scope_param.1));
                    match (s1.scope_param.1, s2.scope_param.1, s3.scope_param.1) {
                        (Some(x), Some(y), Some(z)) => lemma_alpha_eq_trans(*x, *y, *z),
                        _ => {},
                    }
                    lemma_alpha_eq_trans(*s1.scope_body, *s2.scope_body, *s3.scope_body);
                    assert(opt_alpha_eq(s1.scope_param.1, s3.scope_param.1));
                },
                _ => {},
            }
        },
        (Term::Pi(_, s1), Term::Pi(_, s2)) => {
            match c {
                Term::Pi(_, s3) => {
                    lemma_alpha_eq_trans(*s1.scope_param.1, *s2.scope_param.1, *s3.scope_param.1);
                    lemma_alpha_eq_trans(*s1.scope_body, *s2.scope_body, *s3.scope_body);
                },
                _ => {},
            }
        },
        (Term::App(_, f1, a1), Term::App(_, f2, a2)) => {
            match c {
                Term::App(_, f3, a3) => {
                    lemma_alpha_eq_trans(*f1, *f2, *f3);
                    lemma_alpha_eq_trans(*a1, *a2, *a3);
                },
                _ => {},
            }
        },
        (Term::Ann(_, e1, y1), Term::Ann(_, e2, y2)) => {
            match c {
                Term::Ann(_, e3, y3) => {
                    lemma_alpha_eq_trans(*e1, *e2, *e3);
                    lemma_alpha_eq_trans(*y1, *y2, *y3);
                },
                _ => {},
            }
        },
        _ => {},
    }
}

/// Opening respects alpha-equivalence: equivalent bodies opened with
/// equivalent arguments stay equivalent.
pub proof fn lemma_open_alpha(b1: Term, b2: Term, k: nat, a1: Term, a2: Term)
    requires
        alpha_eq(b1, b2),
        alpha_eq(a1, a2),
    ensures
        alpha_eq(open_at(b1, k, a1), open_at(b2, k, a2)),
    decreases b1,
{
    match (b1, b2) {
        (Term::Universe(_, _), Term::Universe(_, _)) => {},
        (Term::Var(_, _), Term::Var(_, _)) => {},
        (Term::Lam(_, s1), Term::Lam(_, s2)) => {
            assert(opt_alpha_eq(s1.scope_param.1, s2.scope_param.1));
            match (s1.scope_param.1, s2.scope_param.1) {
                (Some(x), Some(y)) => lemma_open_alpha(*x, *y, k, a1, a2),
                _ => {},
            }
            lemma_open_alpha(*s1.scope_body, *s2.scope_body, k + 1, a1, a2);
            assert(opt_alpha_eq(
                crate::term::opt_open_at(s1.scope_param.1, k, a1),
                crate::term::opt_open_at(s2.scope_param.1, k, a2),
            ));
            assert(alpha_eq(open_at(b1, k, a1), open_at(b2, k, a2)));
        },
        (Term::Pi(_, s1), Term::Pi(_, s2)) => {
            lemma_open_alpha(*s1.scope_param.1, *s2.scope_param.1, k, a1, a2);
            lemma_open_alpha(*s1.scope_body, *s2.scope_body, k + 1, a1, a2);
            assert(alpha_eq(open_at(b1, k, a1), open_at(b2, k, a2)));
        },
        (Term::App(_, f1, x1), Term::App(_, f2, x2)) => {
            lemma_open_alpha(*f1, *f2, k, a1, a2);
            lemma_open_alpha(*x1, *x2, k, a1, a2);
            assert(alpha_eq(open_at(b1, k, a1), open_at(b2, k, a2)));
        },
        (Term::Ann(_, e1, y1), Term::Ann(_, e2, y2)) => {
            lemma_open_alpha(*e1, *e2, k, a1, a2);
            lemma_open_alpha(*y1, *y2, k, a1, a2);
            assert(alpha_eq(open_at(b1, k, a1), open_at(b2, k, a2)));
        },
        _ => {},
    }
}

/// Closing respects alpha-equivalence.
pub proof fn lemma_close_alpha(t1: Term, t2: Term, name: Name, k: nat)
    requires
        alpha_eq(t1, t2),
    ensures
        alpha_eq(close_at(t1, name, k), close_at(t2, name, k)),
    decreases t1,
{
    match (t1, t2) {
        (Term::Universe(_, _), Term::Universe(_, _)) => {},
        (Term::Var(_, v1), Term::Var(_, v2)) => {
            match (v1, v2) {
                (Var::Free(n1), Var::Free(n2)) => {
                    lemma_name_eq_sym(n1, n2);
                    if name_eq(n1, name) {
                        lemma_name_eq_trans(n2, n1, name);
                    }
                    if name_eq(n2, name) {
                        lemma_name_eq_trans(n1, n2, name);
                    }
                },
                _ => {},
            }
        },
        (Term::Lam(_, s1), Term::Lam(_, s2)) => {
            assert(opt_alpha_eq(s1.scope_param.1, s2.scope_param.1));
            match (s1.scope_param.1, s2.scope_param.1) {
                (Some(x), Some(y)) => lemma_close_alpha(*x, *y, name, k),
                _ => {},
            }
            lemma_close_alpha(*s1.scope_body, *s2.scope_body, name, k + 1);
            assert(opt_alpha_eq(
                crate::term::opt_close_at(s1.scope_param.1, name, k),
                crate::term::opt_close_at(s2.scope_param.1, name, k),
            ));
            assert(alpha_eq(close_at(t1, name, k), close_at(t2, name, k)));
        },
        (Term::Pi(_, s1), Term::Pi(_, s2)) => {
            lemma_close_alpha(*s1.scope_param.1, *s2.scope_param.1, name, k);
            lemma_close_alpha(*s1.scope_body, *s2.scope_body, name, k + 1);
            assert(alpha_eq(close_at(t1, name, k), close_at(t2, name, k)));
        },
        (Term::App(_, f1, x1), Term::App(_, f2, x2)) => {
            lemma_close_alpha(*f1, *f2, name, k);
            lemma_close_alpha(*x1, *x2, name, k);
            assert(alpha_eq(close_at(t1, name, k), close_at(t2, name, k)));
        },
        (Term::Ann(_, e1, y1), Term::Ann(_, e2, y2)) => {
            lemma_close_alpha(*e1, *e2, name, k);
            lemma_close_alpha(*y1, *y2, name, k);
            assert(alpha_eq(close_at(t1, name, k), close_at(t2, name, k)));
        },
        _ => {},
    }
}

/// Evaluation respects alpha-equivalence: equivalent terms use the same
/// budget, fail together, and evaluate to equivalent values. In particular,
/// renaming a binder's display name does not change a term's normal form
/// beyond that name.
pub proof fn lemma_eval_alpha(t1: Term, t2: Term, fuel: nat)
    requires
        alpha_eq(t1, t2),
    ensures
        eval_spec(t1, fuel) is More <==> eval_spec(t2, fuel) is More,
        eval_spec(t1, fuel) is Fail <==> eval_spec(t2, fuel) is Fail,
        eval_spec(t1, fuel) matches Partial::Done(v1) ==> eval_spec(t2, fuel) matches Partial::Done(
            v2,
        ) && alpha_eq(v1, v2),
    decreases fuel, term_size(t1),
{
    match (t1, t2) {
        (Term::Universe(_, _), Term::Universe(_, _)) => {},
        (Term::Var(_, _), Term::Var(_, _)) => {},
        (Term::Ann(_, e1, _), Term::Ann(_, e2, _)) => {
            lemma_eval_alpha(*e1, *e2, fuel);
        },
        (Term::Lam(sp1, s1), Term::Lam(sp2, s2)) => {
            assert(opt_alpha_eq(s1.scope_param.1, s2.scope_param.1));
            match (s1.scope_param.1, s2.scope_param.1) {
                (Some(x), Some(y)) => {
                    assert(crate::term::opt_term_size(s1.scope_param.1) == term_size(*x));
                    lemma_eval_alpha(*x, *y, fuel);
                    match (eval_spec(*x, fuel), eval_spec(*y, fuel)) {
                        (Partial::Done(xv), Partial::Done(yv)) => {
                            let v1 = Term::Lam(
                                sp1,
                                crate::var::Scope {
                                    scope_param: Named(s1.scope_param.0, Some(Box::new(xv))),
                                    scope_body: s1.scope_body,
                                },
                            );
                            let v2 = Term::Lam(
                                sp2,
                                crate::var::Scope {
                                    scope_param: Named(s2.scope_param.0, Some(Box::new(yv))),
                                    scope_body: s2.scope_body,
                                },
                            );
                            assert(eval_spec(t1, fuel) == Partial::<Term, InternalError>::Done(v1));
                            assert(eval_spec(t2, fuel) == Partial::<Term, InternalError>::Done(v2));
                            assert(opt_alpha_eq(Some(Box::new(xv)), Some(Box::new(yv))));
                            assert(alpha_eq(v1, v2));
                        },
                        _ => {},
                    }
                },
                _ => {},
            }
        },
        (Term::Pi(_, s1), Term::Pi(_, s2)) => {
            lemma_eval_alpha(*s1.scope_param.1, *s2.scope_param.1, fuel);
            match (eval_spec(*s1.scope_param.1, fuel), eval_spec(*s2.scope_param.1, fuel)) {
                (Partial::Done(xv), Partial::Done(yv)) => {
                    assert(eval_spec(t1, fuel) matches Partial::Done(v1) ==> eval_spec(t2, fuel)
                        matches Partial::Done(v2) && alpha_eq(v1, v2));
                },
                _ => {},
            }
        },
        (Term::App(_, f1, a1), Term::App(_, f2, a2)) => {
            lemma_eval_alpha(*f1, *f2, fuel);
            match (eval_spec(*f1, fuel), eval_spec(*f2, fuel)) {
                (Partial::Done(fv1), Partial::Done(fv2)) => {
                    lemma_eval_alpha(*a1, *a2, fuel);
                    match (eval_spec(*a1, fuel), eval_spec(*a2, fuel)) {
                        (Partial::Done(av1), Partial::Done(av2)) => {
                            match (fv1, fv2) {
                                (Term::Lam(_, l1), Term::Lam(_, l2)) => {
                                    if fuel > 0 {
                                        lemma_open_alpha(
                                            *l1.scope_body,
                                            *l2.scope_body,
                                            0,
                                            av1,
                                            av2,
                                        );
                                        lemma_eval_alpha(
                                            open_at(*l1.scope_body, 0, av1),
                                            open_at(*l2.scope_body, 0, av2),
                                            (fuel - 1) as nat,
                                        );
                                    }
                                },
                                _ => {
                                    assert(eval_spec(t1, fuel) matches Partial::Done(v1)
                                        ==> eval_spec(t2, fuel) matches Partial::Done(v2)
                                        && alpha_eq(v1, v2));
                                },
                            }
                        },
                        _ => {},
                    }
                },
                _ => {},
            }
        },
        _ => {},
    }
}

/// Pointwise relation of contexts: the same names, in the same order, bound
/// to alpha-equivalent types.
pub open spec fn ctx_alpha_eq(c1: Seq<(Name, Term)>, c2: Seq<(Name, Term)>) -> bool {
    c1.len() == c2.len() && forall|i: int|
        0 <= i < c1.len() ==> (#[trigger] c1[i]).0 == (#[trigger] c2[i]).0 && alpha_eq(
            c1[i].1,
            c2[i].1,
        )
}

/// A context whose types mention no `Abstract` free variable relates to
/// itself; with this, the congruence laws below apply to two terms checked
/// under one and the same context.
pub proof fn lemma_ctx_alpha_eq_refl(c: Seq<(Name, Term)>)
    requires
        forall|i: int| 0 <= i < c.len() ==> no_abstract_free((#[trigger] c[i]).1),
    ensures
        ctx_alpha_eq(c, c),
{
    assert forall|i: int| 0 <= i < c.len() implies (#[trigger] c[i]).0 == (#[trigger] c[i]).0
        && alpha_eq(c[i].1, c[i].1) by {
        lemma_alpha_eq_refl(c[i].1);
    }
}

/// Lookup respects the context relation and name equality.
pub proof fn lemma_lookup_alpha(c1: Seq<(Name, Term)>, c2: Seq<(Name, Term)>, n1: Name, n2: Name)
    requires
        ctx_alpha_eq(c1, c2),
        name_eq(n1, n2),
    ensures
        lookup(c1, n1) is None <==> lookup(c2, n2) is None,
        lookup(c1, n1) matches Some(t1) ==> lookup(c2, n2) matches Some(t2) && alpha_eq(t1, t2),
    decreases c1.len(),
{
    if c1.len() > 0 {
        let e1 = c1.last();
        let e2 = c2.last();
        assert(e1.0 == e2.0 && alpha_eq(e1.1, e2.1));
        lemma_name_eq_sym(n1, n2);
        if name_eq(e1.0, n1) {
            lemma_name_eq_trans(e1.0, n1, n2);
        }
        if name_eq(e2.0, n2) {
            lemma_name_eq_trans(e2.0, n2, n1);
        }
        if !name_eq(e1.0, n1) {
            assert(ctx_alpha_eq(c1.drop_last(), c2.drop_last()));
            lemma_lookup_alpha(c1.drop_last(), c2.drop_last(), n1, n2);
        }
    }
}

/// Inference respects alpha-equivalence of the term and of the context's
/// types: both sides use the same budget, fail together, and synthesize
/// alpha-equivalent types. With `lemma_check_alpha` and `lemma_eval_alpha`,
/// this is the law that renaming a bound parameter's surface name changes
/// neither a term's inferred type nor its normal form.
pub proof fn lemma_infer_alpha(
    c1: Seq<(Name, Term)>,
    c2: Seq<(Name, Term)>,
    t1: Term,
    t2: Term,
    fuel: nat,
)
    requires
        ctx_alpha_eq(c1, c2),
        alpha_eq(t1, t2),
    ensures
        infer_spec(c1, t1, fuel) is More <==> infer_spec(c2, t2, fuel) is More,
        infer_spec(c1, t1, fuel) is Fail <==> infer_spec(c2, t2, fuel) is Fail,
        infer_spec(c1, t1, fuel) matches Partial::Done(ty1) ==> infer_spec(c2, t2, fuel)
            matches Partial::Done(ty2) && alpha_eq(ty1, ty2),
    decreases term_size(t1), 0int,
{
    match (t1, t2) {
        (Term::Universe(_, _), Term::Universe(_, _)) => {},
        (Term::Var(_, v1), Term::Var(_, v2)) => {
            match (v1, v2) {
                (Var::Free(n1), Var::Free(n2)) => {
                    lemma_lookup_alpha(c1, c2, n1, n2);
                },
                _ => {},
            }
        },
        (Term::Ann(_, e1, y1), Term::Ann(_, e2, y2)) => {
            lemma_as_universe_alpha(c1, c2, *y1, *y2, fuel);
            match (as_universe_spec(c1, *y1, fuel), as_universe_spec(c2, *y2, fuel)) {
                (Partial::Done(_), Partial::Done(_)) => {
                    lemma_eval_alpha(*y1, *y2, fuel);
                    match (eval_spec(*y1, fuel), eval_spec(*y2, fuel)) {
                        (Partial::Done(x1), Partial::Done(x2)) => {
                            lemma_check_alpha(c1, c2, *e1, *e2, x1, x2, fuel);
                        },
                        _ => {},
                    }
                },
                _ => {},
            }
        },
        (Term::App(_, f1, a1), Term::App(_, f2, a2)) => {
            lemma_infer_alpha(c1, c2, *f1, *f2, fuel);
            match (infer_spec(c1, *f1, fuel), infer_spec(c2, *f2, fuel)) {
                (Partial::Done(fty1), Partial::Done(fty2)) => {
                    lemma_eval_alpha(fty1, fty2, fuel);
                    match (eval_spec(fty1, fuel), eval_spec(fty2, fuel)) {
                        (Partial::Done(ftyv1), Partial::Done(ftyv2)) => {
                            match (ftyv1, ftyv2) {
                                (Term::Pi(_, p1), Term::Pi(_, p2)) => {
                                    lemma_check_alpha(
                                        c1,
                                        c2,
                                        *a1,
                                        *a2,
                                        *p1.scope_param.1,
                                        *p2.scope_param.1,
                                        fuel,
                                    );
                                    lemma_open_alpha(
                                        *p1.scope_body,
                                        *p2.scope_body,
                                        0,
                                        *a1,
                                        *a2,
                                    );
                                },
                                _ => {},
                            }
                        },
                        _ => {},
                    }
                },
                _ => {},
            }
        },
        (Term::Pi(_, s1), Term::Pi(_, s2)) => {
            lemma_as_universe_alpha(c1, c2, *s1.scope_param.1, *s2.scope_param.1, fuel);
            match (
                as_universe_spec(c1, *s1.scope_param.1, fuel),
                as_universe_spec(c2, *s2.scope_param.1, fuel),
            ) {
                (Partial::Done(_), Partial::Done(_)) => {
                    if c1.len() <= u32::MAX {
                        let g1 = fresh_var(c1, span_of(*s1.scope_body));
                        let g2 = fresh_var(c2, span_of(*s2.scope_body));
                        assert(alpha_eq(g1, g2));
                        lemma_open_alpha(*s1.scope_body, *s2.scope_body, 0, g1, g2);
                        let d1 = c1.push((fresh_name(c1), *s1.scope_param.1));
                        let d2 = c2.push((fresh_name(c2), *s2.scope_param.1));
                        assert(ctx_alpha_eq(d1, d2));
                        lemma_open_size_one(*s1.scope_body, 0, g1);
                        lemma_as_universe_alpha(
                            d1,
                            d2,
                            open_at(*s1.scope_body, 0, g1),
                            open_at(*s2.scope_body, 0, g2),
                            fuel,
                        );
                    }
                },
                _ => {},
            }
        },
        (Term::Lam(_, s1), Term::Lam(_, s2)) => {
            assert(opt_alpha_eq(s1.scope_param.1, s2.scope_param.1));
            match (s1.scope_param.1, s2.scope_param.1) {
                (Some(x1), Some(x2)) => {
                    assert(crate::term::opt_term_size(s1.scope_param.1) == term_size(*x1));
                    lemma_as_universe_alpha(c1, c2, *x1, *x2, fuel);
                    match (as_universe_spec(c1, *x1, fuel), as_universe_spec(c2, *x2, fuel)) {
                        (Partial::Done(_), Partial::Done(_)) => {
                            if c1.len() <= u32::MAX {
                                let g1 = fresh_var(c1, span_of(*s1.scope_body));
                                let g2 = fresh_var(c2, span_of(*s2.scope_body));
                                assert(alpha_eq(g1, g2));
                                lemma_open_alpha(*s1.scope_body, *s2.scope_body, 0, g1, g2);
                                let d1 = c1.push((fresh_name(c1), *x1));
                                let d2 = c2.push((fresh_name(c2), *x2));
                                assert(ctx_alpha_eq(d1, d2));
                                lemma_open_size_one(*s1.scope_body, 0, g1);
                                lemma_infer_alpha(
                                    d1,
                                    d2,
                                    open_at(*s1.scope_body, 0, g1),
                                    open_at(*s2.scope_body, 0, g2),
                                    fuel,
                                );
                                match (
                                    infer_spec(d1, open_at(*s1.scope_body, 0, g1), fuel),
                                    infer_spec(d2, open_at(*s2.scope_body, 0, g2), fuel),
                                ) {
                                    (Partial::Done(b1), Partial::Done(b2)) => {
                                        lemma_close_alpha(b1, b2, fresh_name(c1), 0);
                                        assert(opt_alpha_eq(
                                            Some(Box::new(*x1)),
                                            Some(Box::new(*x2)),
                                        ));
                                        assert(infer_spec(c1, t1, fuel)
                                            matches Partial::Done(ty1) ==> infer_spec(c2, t2, fuel)
                                            matches Partial::Done(ty2) && alpha_eq(ty1, ty2));
                                    },
                                    _ => {},
                                }
                            }
                        },
                        _ => {},
                    }
                },
                _ => {},
            }
        },
        _ => {},
    }
}

/// The type-hood check respects alpha-equivalence; equivalent types sit in
/// the same universe level.
pub proof fn lemma_as_universe_alpha(
    c1: Seq<(Name, Term)>,
    c2: Seq<(Name, Term)>,
    t1: Term,
    t2: Term,
    fuel: nat,
)
    requires
        ctx_alpha_eq(c1, c2),
        alpha_eq(t1, t2),
    ensures
        as_universe_spec(c1, t1, fuel) is More <==> as_universe_spec(c2, t2, fuel) is More,
        as_universe_spec(c1, t1, fuel) is Fail <==> as_universe_spec(c2, t2, fuel) is Fail,
        as_universe_spec(c1, t1, fuel) matches Partial::Done(l1) ==> as_universe_spec(
            c2,
            t2,
            fuel,
        ) matches Partial::Done(l2) && l1 == l2,
    decreases term_size(t1), 1int,
{
    lemma_infer_alpha(c1, c2, t1, t2, fuel);
    match (infer_spec(c1, t1, fuel), infer_spec(c2, t2, fuel)) {
        (Partial::Done(ty1), Partial::Done(ty2)) => {
            lemma_eval_alpha(ty1, ty2, fuel);
        },
        _ => {},
    }
}

/// Checking respects alpha-equivalence of the term, the expected type and
/// the context's types: both sides succeed or fail together.
pub proof fn lemma_check_alpha(
    c1: Seq<(Name, Term)>,
    c2: Seq<(Name, Term)>,
    t1: Term,
    t2: Term,
    x1: Term,
    x2: Term,
    fuel: nat,
)
    requires
        ctx_alpha_eq(c1, c2),
        alpha_eq(t1, t2),
        alpha_eq(x1, x2),
    ensures
        check_spec(c1, t1, x1, fuel) is More <==> check_spec(c2, t2, x2, fuel) is More,
        check_spec(c1, t1, x1, fuel) is Fail <==> check_spec(c2, t2, x2, fuel) is Fail,
        check_spec(c1, t1, x1, fuel) is Done <==> check_spec(c2, t2, x2, fuel) is Done,
    decreases term_size(t1), 2int,
{
    lemma_eval_alpha(x1, x2, fuel);
    match (eval_spec(x1, fuel), eval_spec(x2, fuel)) {
        (Partial::Done(xv1), Partial::Done(xv2)) => {
            match (t1, t2) {
                (Term::Lam(_, s1), Term::Lam(_, s2)) => {
                    assert(opt_alpha_eq(s1.scope_param.1, s2.scope_param.1));
                    match (xv1, xv2) {
                        (Term::Pi(_, p1), Term::Pi(_, p2)) => {
                            match (s1.scope_param.1, s2.scope_param.1) {
                                (Some(a1), Some(a2)) => {
                                    assert(crate::term::opt_term_size(s1.scope_param.1)
                                        == term_size(*a1));
                                    lemma_eval_alpha(*a1, *a2, fuel);
                                    match (eval_spec(*a1, fuel), eval_spec(*a2, fuel)) {
                                        (Partial::Done(av1), Partial::Done(av2)) => {
                                            if alpha_eq(av1, *p1.scope_param.1) {
                                                lemma_alpha_eq_sym(av1, av2);
                                                lemma_alpha_eq_trans(av2, av1, *p1.scope_param.1);
                                                lemma_alpha_eq_trans(
                                                    av2,
                                                    *p1.scope_param.1,
                                                    *p2.scope_param.1,
                                                );
                                            }
                                            if alpha_eq(av2, *p2.scope_param.1) {
                                                lemma_alpha_eq_sym(*p1.scope_param.1, *p2.scope_param.1);
                                                lemma_alpha_eq_trans(av1, av2, *p2.scope_param.1);
                                                lemma_alpha_eq_trans(
                                                    av1,
                                                    *p2.scope_param.1,
                                                    *p1.scope_param.1,
                                                );
                                            }
                                        },
                                        _ => {},
                                    }
                                },
                                _ => {},
                            }
                            if c1.len() <= u32::MAX {
                                let g1 = fresh_var(c1, span_of(*s1.scope_body));
                                let g2 = fresh_var(c2, span_of(*s2.scope_body));
                                assert(alpha_eq(g1, g2));
                                lemma_open_alpha(*s1.scope_body, *s2.scope_body, 0, g1, g2);
                                lemma_open_alpha(*p1.scope_body, *p2.scope_body, 0, g1, g2);
                                let d1 = c1.push((fresh_name(c1), *p1.scope_param.1));
                                let d2 = c2.push((fresh_name(c2), *p2.scope_param.1));
                                assert(ctx_alpha_eq(d1, d2));
                                lemma_open_size_one(*s1.scope_body, 0, g1);
                                lemma_check_alpha(
                                    d1,
                                    d2,
                                    open_at(*s1.scope_body, 0, g1),
                                    open_at(*s2.scope_body, 0, g2),
                                    open_at(*p1.scope_body, 0, g1),
                                    open_at(*p2.scope_body, 0, g2),
                                    fuel,
                                );
                            }
                        },
                        _ => {},
                    }
                },
                _ => {
                    lemma_infer_alpha(c1, c2, t1, t2, fuel);
                    match (infer_spec(c1, t1, fuel), infer_spec(c2, t2, fuel)) {
                        (Partial::Done(ty1), Partial::Done(ty2)) => {
                            lemma_eval_alpha(ty1, ty2, fuel);
                            match (eval_spec(ty1, fuel), eval_spec(ty2, fuel)) {
                                (Partial::Done(tyv1), Partial::Done(tyv2)) => {
                                    if alpha_eq(tyv1, xv1) {
                                        lemma_alpha_eq_sym(tyv1, tyv2);
                                        lemma_alpha_eq_trans(tyv2, tyv1, xv1);
                                        lemma_alpha_eq_trans(tyv2, xv1, xv2);
                                    }
                                    if alpha_eq(tyv2, xv2) {
                                        lemma_alpha_eq_sym(xv1, xv2);
                                        lemma_alpha_eq_trans(tyv1, tyv2, xv2);
                                        lemma_alpha_eq_trans(tyv1, xv2, xv1);
                                    }
                                },
                                _ => {},
                            }
                        },
                        _ => {},
                    }
                },
            }
        },
        _ => {},
    }
}

/// A budget large enough to finish is as good as any larger one: the
/// outcome of evaluation does not depend on the fuel, only whether it
/// finishes does.
pub proof fn lemma_eval_monotonic(t: Term, f1: nat, f2: nat)
    requires
        f1 <= f2,
        !(eval_spec(t, f1) is More),
    ensures
        eval_spec(t, f2) == eval_spec(t, f1),
    decreases f1, term_size(t),
{
    match t {
        Term::Universe(_, _) => {},
        Term::Var(_, _) => {},
        Term::Ann(_, e, _) => {
            lemma_eval_monotonic(*e, f1, f2);
        },
        Term::Lam(_, s) => {
            match s.scope_param.1 {
                Some(ann) => {
                    assert(crate::term::opt_term_size(s.scope_param.1) == term_size(*ann));
                    lemma_eval_monotonic(*ann, f1, f2);
                },
                None => {},
            }
        },
        Term::Pi(_, s) => {
            lemma_eval_monotonic(*s.scope_param.1, f1, f2);
        },
        Term::App(_, f, a) => {
            lemma_eval_monotonic(*f, f1, f2);
            match eval_spec(*f, f1) {
                Partial::Done(fv) => {
                    lemma_eval_monotonic(*a, f1, f2);
                    match eval_spec(*a, f1) {
                        Partial::Done(av) => {
                            match fv {
                                Term::Lam(_, lam) => {
                                    lemma_eval_monotonic(
                                        open_at(*lam.scope_body, 0, av),
                                        (f1 - 1) as nat,
                                        (f2 - 1) as nat,
                                    );
                                },
                                _ => {},
                            }
                        },
                        _ => {},
                    }
                },
                _ => {},
            }
        },
    }
}

/// Inference, too, gives the same answer under any budget large enough to
/// finish: the budget is a technicality, never a policy.
pub proof fn lemma_infer_monotonic(ctx: Seq<(Name, Term)>, t: Term, f1: nat, f2: nat)
    requires
        f1 <= f2,
        !(infer_spec(ctx, t, f1) is More),
    ensures
        infer_spec(ctx, t, f2) == infer_spec(ctx, t, f1),
    decreases term_size(t), 0int,
{
    match t {
        Term::Universe(_, _) => {},
        Term::Var(_, _) => {},
        Term::Ann(_, e, ty) => {
            lemma_as_universe_monotonic(ctx, *ty, f1, f2);
            match as_universe_spec(ctx, *ty, f1) {
                Partial::Done(_) => {
                    lemma_eval_monotonic(*ty, f1, f2);
                    match eval_spec(*ty, f1) {
                        Partial::Done(expected) => {
                            lemma_check_monotonic(ctx, *e, expected, f1, f2);
                        },
                        _ => {},
                    }
                },
                _ => {},
            }
        },
        Term::App(_, f, a) => {
            lemma_infer_monotonic(ctx, *f, f1, f2);
            match infer_spec(ctx, *f, f1) {
                Partial::Done(fty) => {
                    lemma_eval_monotonic(fty, f1, f2);
                    match eval_spec(fty, f1) {
                        Partial::Done(ftyv) => match ftyv {
                            Term::Pi(_, ps) => {
                                lemma_check_monotonic(ctx, *a, *ps.scope_param.1, f1, f2);
                            },
                            _ => {},
                        },
                        _ => {},
                    }
                },
                _ => {},
            }
        },
        Term::Pi(_, s) => {
            lemma_as_universe_monotonic(ctx, *s.scope_param.1, f1, f2);
            match as_universe_spec(ctx, *s.scope_param.1, f1) {
                Partial::Done(_) => {
                    if ctx.len() <= u32::MAX {
                        let g = fresh_var(ctx, span_of(*s.scope_body));
                        lemma_open_size_one(*s.scope_body, 0, g);
                        lemma_as_universe_monotonic(
                            ctx.push((fresh_name(ctx), *s.scope_param.1)),
                            open_at(*s.scope_body, 0, g),
                            f1,
                            f2,
                        );
                    }
                },
                _ => {},
            }
        },
        Term::Lam(_, s) => {
            match s.scope_param.1 {
                Some(ann) => {
                    assert(crate::term::opt_term_size(s.scope_param.1) == term_size(*ann));
                    lemma_as_universe_monotonic(ctx, *ann, f1, f2);
                    match as_universe_spec(ctx, *ann, f1) {
                        Partial::Done(_) => {
                            if ctx.len() <= u32::MAX {
                                let g = fresh_var(ctx, span_of(*s.scope_body));
                                lemma_open_size_one(*s.scope_body, 0, g);
                                lemma_infer_monotonic(
                                    ctx.push((fresh_name(ctx), *ann)),
                                    open_at(*s.scope_body, 0, g),
                                    f1,
                                    f2,
                                );
                            }
                        },
                        _ => {},
                    }
                },
                None => {},
            }
        },
    }
}

/// The type-hood check gives the same answer under any budget large enough
/// to finish.
pub proof fn lemma_as_universe_monotonic(ctx: Seq<(Name, Term)>, ty: Term, f1: nat, f2: nat)
    requires
        f1 <= f2,
        !(as_universe_spec(ctx, ty, f1) is More),
    ensures
        as_universe_spec(ctx, ty, f2) == as_universe_spec(ctx, ty, f1),
    decreases term_size(ty), 1int,
{
    lemma_infer_monotonic(ctx, ty, f1, f2);
    match infer_spec(ctx, ty, f1) {
        Partial::Done(tyty) => {
            lemma_eval_monotonic(tyty, f1, f2);
        },
        _ => {},
    }
}

/// Checking gives the same answer under any budget large enough to finish.
pub proof fn lemma_check_monotonic(
    ctx: Seq<(Name, Term)>,
    t: Term,
    expected: Term,
    f1: nat,
    f2: nat,
)
    requires
        f1 <= f2,
        !(check_spec(ctx, t, expected, f1) is More),
    ensures
        check_spec(ctx, t, expected, f2) == check_spec(ctx, t, expected, f1),
    decreases term_size(t), 2int,
{
    lemma_eval_monotonic(expected, f1, f2);
    match eval_spec(expected, f1) {
        Partial::Done(expv) => {
            match t {
                Term::Lam(_, s) => {
                    match expv {
                        Term::Pi(_, ps) => {
                            let ann_ok = match s.scope_param.1 {
                                Some(ann) => match eval_spec(*ann, f1) {
                                    Partial::Done(annv) => alpha_eq(annv, *ps.scope_param.1),
                                    _ => false,
                                },
                                None => true,
                            };
                            match s.scope_param.1 {
                                Some(ann) => {
                                    assert(crate::term::opt_term_size(s.scope_param.1)
                                        == term_size(*ann));
                                    lemma_eval_monotonic(*ann, f1, f2);
                                },
                                None => {},
                            }
                            if ann_ok && ctx.len() <= u32::MAX {
                                let g = fresh_var(ctx, span_of(*s.scope_body));
                                lemma_open_size_one(*s.scope_body, 0, g);
                                lemma_check_monotonic(
                                    ctx.push((fresh_name(ctx), *ps.scope_param.1)),
                                    open_at(*s.scope_body, 0, g),
                                    open_at(*ps.scope_body, 0, g),
                                    f1,
                                    f2,
                                );
                            }
                        },
                        _ => {},
                    }
                },
                _ => {
                    lemma_infer_monotonic(ctx, t, f1, f2);
                    match infer_spec(ctx, t, f1) {
                        Partial::Done(ty) => {
                            lemma_eval_monotonic(ty, f1, f2);
                        },
                        _ => {},
                    }
                },
            }
        },
        _ => {},
    }
}

} // verus!

