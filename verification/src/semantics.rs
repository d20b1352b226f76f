//! The normalizer and the bidirectional type checker.
//!
//! Evaluation of an ill-typed term need not terminate, while every function
//! here must. The specification therefore threads an explicit step budget —
//! fuel, consumed once per beta reduction — through evaluation, inference and
//! checking, and the executable engine runs with the largest budget the
//! machine can represent, `u64::MAX` steps. A computation that would exceed
//! that budget (or a universe level that would leave `u32`) is answered with
//! [`Partial::More`]; the public entry points require, as a machine limit,
//! that the budget suffices, which holds of every term a program of this
//! world can denote.

use vstd::prelude::*;

use crate::context::{lookup, Context};
use crate::errors::{InternalError, TypeError};
use crate::term::{
    alpha_eq, close_at, lemma_open_size_one, open_at, span_of, term_size, Span, Term,
};
use crate::var::{GenId, LocallyNameless, Name, Named, Scope, Var};

verus! {

/// The outcome of a budgeted computation: a result, an error, or an
/// exhausted budget.
pub enum Partial<T, E> {
    /// The computation finished with this value.
    Done(T),
    /// The computation failed with this error.
    Fail(E),
    /// The budget was exhausted before the computation finished.
    More,
}

/// The step budget the executable engine runs with.
pub const EVAL_FUEL: u64 = u64::MAX;

/// Evaluation to a canonical value, consuming one unit of fuel per beta
/// reduction.
///
/// Free variables are neutral: the context binds names to types, never to
/// definitions, so nothing is substituted for them. A surviving bound
/// variable is an internal error. Annotations are erased. The parameter
/// annotations of lambda and Pi binders are evaluated structurally; bodies
/// under a binder are left untouched until the binder is applied.
pub open spec fn eval_spec(t: Term, fuel: nat) -> Partial<Term, InternalError>
    decreases fuel, term_size(t),
        via eval_spec_dec
{
    match t {
        Term::Universe(_, _) => Partial::Done(t),
        Term::Var(sp, v) => match v {
            Var::Free(_) => Partial::Done(t),
            Var::Bound(Named(n, i)) => Partial::Fail(
                InternalError::UnsubstitutedDebruijnIndex { span: sp, name: n, index: i },
            ),
        },
        Term::Ann(_, e, _) => eval_spec(*e, fuel),
        Term::Lam(sp, s) => match s.scope_param.1 {
            Some(ann) => match eval_spec(*ann, fuel) {
                Partial::Done(v) => Partial::Done(
                    Term::Lam(
                        sp,
                        Scope {
                            scope_param: Named(s.scope_param.0, Some(Box::new(v))),
                            scope_body: s.scope_body,
                        },
                    ),
                ),
                Partial::Fail(e) => Partial::Fail(e),
                Partial::More => Partial::More,
            },
            None => Partial::Done(t),
        },
        Term::Pi(sp, s) => match eval_spec(*s.scope_param.1, fuel) {
            Partial::Done(v) => Partial::Done(
                Term::Pi(
                    sp,
                    Scope {
                        scope_param: Named(s.scope_param.0, Box::new(v)),
                        scope_body: s.scope_body,
                    },
                ),
            ),
            Partial::Fail(e) => Partial::Fail(e),
            Partial::More => Partial::More,
        },
        Term::App(sp, f, a) => match eval_spec(*f, fuel) {
            Partial::Done(fv) => match eval_spec(*a, fuel) {
                Partial::Done(av) => match fv {
                    Term::Lam(_, lam) => if fuel == 0 {
                        Partial::More
                    } else {
                        eval_spec(open_at(*lam.scope_body, 0, av), (fuel - 1) as nat)
                    },
                    _ => Partial::Done(Term::App(sp, Box::new(fv), Box::new(av))),
                },
                Partial::Fail(e) => Partial::Fail(e),
                Partial::More => Partial::More,
            },
            Partial::Fail(e) => Partial::Fail(e),
            Partial::More => Partial::More,
        },
    }
}

#[via_fn]
proof fn eval_spec_dec(t: Term, fuel: nat) {
    match t {
        Term::Lam(_, s) => match s.scope_param.1 {
            Some(ann) => {
                assert(crate::term::opt_term_size(s.scope_param.1) == term_size(*ann));
            },
            None => {},
        },
        _ => {},
    }
}

/// Evaluation with an explicit budget; the executable mirror of
/// [`eval_spec`].
fn normalize_fuel(term: &Term, fuel: u64) -> (r: Partial<Term, InternalError>)
    ensures
        r == eval_spec(*term, fuel as nat),
    decreases fuel, term_size(*term),
{
    match term {
        Term::Universe(_, _) => Partial::Done(term.clone()),
        Term::Var(sp, v) => match v {
            Var::Free(_) => Partial::Done(term.clone()),
            Var::Bound(Named(n, i)) => Partial::Fail(
                InternalError::UnsubstitutedDebruijnIndex { span: *sp, name: n.clone(), index: *i },
            ),
        },
        Term::Ann(_, e, _) => normalize_fuel(e, fuel),
        Term::Lam(sp, s) => match &s.scope_param.1 {
            Some(ann) => match {
                proof {
                    assert(crate::term::opt_term_size(s.scope_param.1) == term_size(**ann));
                }
                normalize_fuel(ann, fuel)
            } {
                Partial::Done(v) => {
                    let r = Term::Lam(
                        *sp,
                        Scope {
                            scope_param: Named(s.scope_param.0.clone(), Some(Box::new(v))),
                            scope_body: Box::new((*s.scope_body).clone()),
                        },
                    );
                    proof {
                        assert(eval_spec(*term, fuel as nat) == Partial::<Term, InternalError>::Done(r));
                    }
                    Partial::Done(r)
                },
                Partial::Fail(e) => Partial::Fail(e),
                Partial::More => Partial::More,
            },
            None => Partial::Done(term.clone()),
        },
        Term::Pi(sp, s) => match normalize_fuel(&s.scope_param.1, fuel) {
            Partial::Done(v) => {
                let r = Term::Pi(
                    *sp,
                    Scope {
                        scope_param: Named(s.scope_param.0.clone(), Box::new(v)),
                        scope_body: Box::new((*s.scope_body).clone()),
                    },
                );
                proof {
                    assert(eval_spec(*term, fuel as nat) == Partial::<Term, InternalError>::Done(r));
                }
                Partial::Done(r)
            },
            Partial::Fail(e) => Partial::Fail(e),
            Partial::More => Partial::More,
        },
        Term::App(sp, f, a) => match normalize_fuel(f, fuel) {
            Partial::Done(fv) => match normalize_fuel(a, fuel) {
                Partial::Done(av) => match fv {
                    Term::Lam(_, lam) => if fuel == 0 {
                        Partial::More
                    } else {
                        let opened = lam.scope_body.open0(&av);
                        normalize_fuel(&opened, fuel - 1)
                    },
                    _ => {
                        let r = Term::App(*sp, Box::new(fv), Box::new(av));
                        proof {
                            assert(eval_spec(*term, fuel as nat)
                                == Partial::<Term, InternalError>::Done(r));
                        }
                        Partial::Done(r)
                    },
                },
                Partial::Fail(e) => Partial::Fail(e),
                Partial::More => Partial::More,
            },
            Partial::Fail(e) => Partial::Fail(e),
            Partial::More => Partial::More,
        },
    }
}

/// Whether a term evaluates — to a value or to an internal error — within
/// the engine's budget. Every term a program of this machine can denote
/// does, unless its evaluation diverges (which only an ill-typed term can).
pub open spec fn evaluates(t: Term) -> bool {
    !(eval_spec(t, EVAL_FUEL as nat) is More)
}

/// Evaluate `term` to a canonical value.
///
/// The context binds names to types, never to definitions, so free
/// variables are neutral and the context takes no part in evaluation; the
/// parameter documents where evaluation happens in the data flow. A bound
/// variable with no enclosing binder is an internal error, never a
/// user-facing type error.
#[allow(unused_variables)]
pub fn normalize(context: &Context, term: &Term) -> (r: Result<Term, TypeError>)
    requires
        evaluates(*term),
    ensures
        match r {
            Ok(v) => eval_spec(*term, EVAL_FUEL as nat) == Partial::<Term, InternalError>::Done(v),
            Err(e) => (match e {
                TypeError::Internal(ie) => eval_spec(*term, EVAL_FUEL as nat)
                    == Partial::<Term, InternalError>::Fail(ie),
                _ => false,
            }),
        },
{
    match normalize_fuel(term, EVAL_FUEL) {
        Partial::Done(v) => Ok(v),
        Partial::Fail(e) => Err(TypeError::Internal(e)),
        Partial::More => vstd::pervasive::unreached(),
    }
}

/// The name the engine opens a binder with: deterministic, one per context
/// depth, so two nested binders never collide and neither do the same
/// binders of two alpha-equivalent terms.
pub open spec fn fresh_name(ctx: Seq<(Name, Term)>) -> Name {
    Name::Gen(GenId(ctx.len() as u32))
}

/// The free-variable term the engine opens a binder with.
pub open spec fn fresh_var(ctx: Seq<(Name, Term)>, sp: Span) -> Term {
    Term::Var(sp, Var::Free(fresh_name(ctx)))
}

/// Check that `ty` is a type: its inferred type must evaluate to a universe.
/// `Done` carries that universe's level; a non-universe fails with
/// `ExpectedUniverse`.
pub open spec fn as_universe_spec(ctx: Seq<(Name, Term)>, ty: Term, fuel: nat) -> Partial<
    u32,
    TypeError,
>
    decreases term_size(ty), 1int,
{
    match infer_spec(ctx, ty, fuel) {
        Partial::Done(tyty) => match eval_spec(tyty, fuel) {
            Partial::Done(v) => match v {
                Term::Universe(_, lvl) => Partial::Done(lvl),
                _ => Partial::Fail(TypeError::ExpectedUniverse { span: span_of(ty), found: v }),
            },
            Partial::Fail(ie) => Partial::Fail(TypeError::Internal(ie)),
            Partial::More => Partial::More,
        },
        Partial::Fail(err) => Partial::Fail(err),
        Partial::More => Partial::More,
    }
}

/// Bidirectional inference: synthesize the type of `t` with no outside hint.
///
/// - A universe at level `n` inhabits the universe at level `n + 1`.
/// - A free variable's type is looked up in the context; a name not bound
///   there is an `UndefinedName` error, and a surviving bound variable an
///   internal error.
/// - An ascription `e : ty` checks that `ty` is a type, evaluates it, checks
///   `e` against the result, and returns it.
/// - An application's function part must infer a type that evaluates to a Pi
///   type; the argument is checked against the domain, and the result is the
///   codomain with the argument substituted for its parameter.
/// - A Pi type's domain must be a type; its body, opened with a fresh name
///   bound to the domain, must be a type as well. The Pi inhabits the
///   universe at the larger of the two levels (the predicative choice).
/// - A lambda with an annotated parameter infers a Pi type: the body is
///   inferred under the annotation and the fresh name is closed back into
///   the codomain. An unannotated lambda cannot be inferred and fails with
///   `FunctionParamNeedsAnnotation`; it needs checking mode.
pub open spec fn infer_spec(ctx: Seq<(Name, Term)>, t: Term, fuel: nat) -> Partial<Term, TypeError>
    decreases term_size(t), 0int,
        via infer_spec_dec
{
    match t {
        Term::Universe(sp, n) => if n < u32::MAX {
            Partial::Done(Term::Universe(sp, (n + 1) as u32))
        } else {
            Partial::More
        },
        Term::Var(sp, v) => match v {
            Var::Free(n) => match lookup(ctx, n) {
                Some(ty) => Partial::Done(ty),
                None => Partial::Fail(TypeError::UndefinedName { var_span: sp, name: n }),
            },
            Var::Bound(Named(n, i)) => Partial::Fail(
                TypeError::Internal(
                    InternalError::UnsubstitutedDebruijnIndex { span: sp, name: n, index: i },
                ),
            ),
        },
        Term::Ann(_, e, ty) => match as_universe_spec(ctx, *ty, fuel) {
            Partial::Done(_) => match eval_spec(*ty, fuel) {
                Partial::Done(expected) => match check_spec(ctx, *e, expected, fuel) {
                    Partial::Done(_) => Partial::Done(expected),
                    Partial::Fail(err) => Partial::Fail(err),
                    Partial::More => Partial::More,
                },
                Partial::Fail(ie) => Partial::Fail(TypeError::Internal(ie)),
                Partial::More => Partial::More,
            },
            Partial::Fail(err) => Partial::Fail(err),
            Partial::More => Partial::More,
        },
        Term::App(sp, f, a) => match infer_spec(ctx, *f, fuel) {
            Partial::Done(fty) => match eval_spec(fty, fuel) {
                Partial::Done(ftyv) => match ftyv {
                    Term::Pi(_, ps) => match check_spec(ctx, *a, *ps.scope_param.1, fuel) {
                        Partial::Done(_) => Partial::Done(open_at(*ps.scope_body, 0, *a)),
                        Partial::Fail(err) => Partial::Fail(err),
                        Partial::More => Partial::More,
                    },
                    _ => Partial::Fail(
                        TypeError::NotAFunctionType {
                            fn_span: span_of(*f),
                            arg_span: span_of(*a),
                            found: ftyv,
                        },
                    ),
                },
                Partial::Fail(ie) => Partial::Fail(TypeError::Internal(ie)),
                Partial::More => Partial::More,
            },
            Partial::Fail(err) => Partial::Fail(err),
            Partial::More => Partial::More,
        },
        Term::Pi(sp, s) => match as_universe_spec(ctx, *s.scope_param.1, fuel) {
            Partial::Done(i) => if ctx.len() > u32::MAX {
                Partial::More
            } else {
                match as_universe_spec(
                    ctx.push((fresh_name(ctx), *s.scope_param.1)),
                    open_at(*s.scope_body, 0, fresh_var(ctx, span_of(*s.scope_body))),
                    fuel,
                ) {
                    Partial::Done(j) => Partial::Done(
                        Term::Universe(sp, if i >= j { i } else { j }),
                    ),
                    Partial::Fail(err) => Partial::Fail(err),
                    Partial::More => Partial::More,
                }
            },
            Partial::Fail(err) => Partial::Fail(err),
            Partial::More => Partial::More,
        },
        Term::Lam(sp, s) => match s.scope_param.1 {
            None => Partial::Fail(
                TypeError::FunctionParamNeedsAnnotation {
                    param_span: sp,
                    var_span: None,
                    name: s.scope_param.0,
                },
            ),
            Some(ann) => match as_universe_spec(ctx, *ann, fuel) {
                Partial::Done(_) => if ctx.len() > u32::MAX {
                    Partial::More
                } else {
                    match infer_spec(
                        ctx.push((fresh_name(ctx), *ann)),
                        open_at(*s.scope_body, 0, fresh_var(ctx, span_of(*s.scope_body))),
                        fuel,
                    ) {
                        Partial::Done(bodyty) => Partial::Done(
                            Term::Pi(
                                sp,
                                Scope {
                                    scope_param: Named(s.scope_param.0, Box::new(*ann)),
                                    scope_body: Box::new(close_at(bodyty, fresh_name(ctx), 0)),
                                },
                            ),
                        ),
                        Partial::Fail(err) => Partial::Fail(err),
                        Partial::More => Partial::More,
                    }
                },
                Partial::Fail(err) => Partial::Fail(err),
                Partial::More => Partial::More,
            },
        },
    }
}

#[via_fn]
proof fn infer_spec_dec(ctx: Seq<(Name, Term)>, t: Term, fuel: nat) {
    match t {
        Term::Pi(_, s) => {
            lemma_open_size_one(*s.scope_body, 0, fresh_var(ctx, span_of(*s.scope_body)));
        },
        Term::Lam(_, s) => {
            match s.scope_param.1 {
                Some(ann) => {
                    assert(crate::term::opt_term_size(s.scope_param.1) == term_size(*ann));
                },
                None => {},
            }
            lemma_open_size_one(*s.scope_body, 0, fresh_var(ctx, span_of(*s.scope_body)));
        },
        _ => {},
    }
}

/// Bidirectional checking: verify `t` against the type `expected`.
///
/// The expected type is evaluated first. A lambda checked against a Pi type
/// has its body checked against the codomain, under the domain; an annotated
/// parameter must be definitionally equal to the domain. A lambda checked
/// against anything else is an `UnexpectedFunction` error. Every other term
/// falls back to inference, and the inferred type must be definitionally
/// equal — alpha-equivalent after evaluation — to the expected one, else the
/// check fails with `Mismatch`.
pub open spec fn check_spec(
    ctx: Seq<(Name, Term)>,
    t: Term,
    expected: Term,
    fuel: nat,
) -> Partial<(), TypeError>
    decreases term_size(t), 2int,
        via check_spec_dec
{
    match eval_spec(expected, fuel) {
        Partial::Done(expv) => match t {
            Term::Lam(sp, s) => match expv {
                Term::Pi(_, ps) => {
                    let ann_ok: Partial<(), TypeError> = match s.scope_param.1 {
                        Some(ann) => match eval_spec(*ann, fuel) {
                            Partial::Done(annv) => if alpha_eq(annv, *ps.scope_param.1) {
                                Partial::Done(())
                            } else {
                                Partial::Fail(
                                    TypeError::Mismatch {
                                        span: span_of(*ann),
                                        found: annv,
                                        expected: *ps.scope_param.1,
                                    },
                                )
                            },
                            Partial::Fail(ie) => Partial::Fail(TypeError::Internal(ie)),
                            Partial::More => Partial::More,
                        },
                        None => Partial::Done(()),
                    };
                    match ann_ok {
                        Partial::Done(_) => if ctx.len() > u32::MAX {
                            Partial::More
                        } else {
                            check_spec(
                                ctx.push((fresh_name(ctx), *ps.scope_param.1)),
                                open_at(*s.scope_body, 0, fresh_var(ctx, span_of(*s.scope_body))),
                                open_at(*ps.scope_body, 0, fresh_var(ctx, span_of(*s.scope_body))),
                                fuel,
                            )
                        },
                        Partial::Fail(err) => Partial::Fail(err),
                        Partial::More => Partial::More,
                    }
                },
                _ => Partial::Fail(TypeError::UnexpectedFunction { span: sp, expected: expv }),
            },
            _ => match infer_spec(ctx, t, fuel) {
                Partial::Done(ty) => match eval_spec(ty, fuel) {
                    Partial::Done(tyv) => if alpha_eq(tyv, expv) {
                        Partial::Done(())
                    } else {
                        Partial::Fail(
                            TypeError::Mismatch { span: span_of(t), found: tyv, expected: expv },
                        )
                    },
                    Partial::Fail(ie) => Partial::Fail(TypeError::Internal(ie)),
                    Partial::More => Partial::More,
                },
                Partial::Fail(err) => Partial::Fail(err),
                Partial::More => Partial::More,
            },
        },
        Partial::Fail(ie) => Partial::Fail(TypeError::Internal(ie)),
        Partial::More => Partial::More,
    }
}

#[via_fn]
proof fn check_spec_dec(ctx: Seq<(Name, Term)>, t: Term, expected: Term, fuel: nat) {
    match t {
        Term::Lam(_, s) => {
            lemma_open_size_one(*s.scope_body, 0, fresh_var(ctx, span_of(*s.scope_body)));
        },
        _ => {},
    }
}

/// The executable mirror of [`as_universe_spec`]: check that `ty` is a type
/// and hand back its universe level.
fn as_universe_fuel(context: &mut Context, ty: &Term, fuel: u64) -> (r: Partial<u32, TypeError>)
    ensures
        r == as_universe_spec(old(context)@, *ty, fuel as nat),
        final(context)@ == old(context)@,
    decreases term_size(*ty), 1int,
{
    match infer_fuel(context, ty, fuel) {
        Partial::Done(tyty) => match normalize_fuel(&tyty, fuel) {
            Partial::Done(v) => match v {
                Term::Universe(_, lvl) => Partial::Done(lvl),
                other => Partial::Fail(
                    TypeError::ExpectedUniverse { span: ty.span(), found: other },
                ),
            },
            Partial::Fail(ie) => Partial::Fail(TypeError::Internal(ie)),
            Partial::More => Partial::More,
        },
        Partial::Fail(err) => Partial::Fail(err),
        Partial::More => Partial::More,
    }
}

/// The executable mirror of [`infer_spec`]. The context is handed back as it
/// was given: entries pushed for a binder are popped on the way out.
fn infer_fuel(context: &mut Context, term: &Term, fuel: u64) -> (r: Partial<Term, TypeError>)
    ensures
        r == infer_spec(old(context)@, *term, fuel as nat),
        final(context)@ == old(context)@,
    decreases term_size(*term), 0int,
{
    let ghost ctx0 = context@;
    match term {
        Term::Universe(sp, n) => if *n < u32::MAX {
            Partial::Done(Term::Universe(*sp, *n + 1))
        } else {
            Partial::More
        },
        Term::Var(sp, v) => match v {
            Var::Free(n) => match context.lookup(n) {
                Some(ty) => Partial::Done(ty),
                None => Partial::Fail(
                    TypeError::UndefinedName { var_span: *sp, name: n.clone() },
                ),
            },
            Var::Bound(Named(n, i)) => Partial::Fail(
                TypeError::Internal(
                    InternalError::UnsubstitutedDebruijnIndex {
                        span: *sp,
                        name: n.clone(),
                        index: *i,
                    },
                ),
            ),
        },
        Term::Ann(_, e, ty) => match as_universe_fuel(context, ty, fuel) {
            Partial::Done(_) => match normalize_fuel(ty, fuel) {
                Partial::Done(expected) => match check_fuel(context, e, &expected, fuel) {
                    Partial::Done(_) => Partial::Done(expected),
                    Partial::Fail(err) => Partial::Fail(err),
                    Partial::More => Partial::More,
                },
                Partial::Fail(ie) => Partial::Fail(TypeError::Internal(ie)),
                Partial::More => Partial::More,
            },
            Partial::Fail(err) => Partial::Fail(err),
            Partial::More => Partial::More,
        },
        Term::App(sp, f, a) => match infer_fuel(context, f, fuel) {
            Partial::Done(fty) => match normalize_fuel(&fty, fuel) {
                Partial::Done(ftyv) => match ftyv {
                    Term::Pi(_, ps) => match check_fuel(context, a, &ps.scope_param.1, fuel) {
                        Partial::Done(_) => Partial::Done(ps.scope_body.open0(a)),
                        Partial::Fail(err) => Partial::Fail(err),
                        Partial::More => Partial::More,
                    },
                    other => Partial::Fail(
                        TypeError::NotAFunctionType {
                            fn_span: f.span(),
                            arg_span: a.span(),
                            found: other,
                        },
                    ),
                },
                Partial::Fail(ie) => Partial::Fail(TypeError::Internal(ie)),
                Partial::More => Partial::More,
            },
            Partial::Fail(err) => Partial::Fail(err),
            Partial::More => Partial::More,
        },
        Term::Pi(sp, s) => match as_universe_fuel(context, &s.scope_param.1, fuel) {
            Partial::Done(i) => if context.len() > u32::MAX as usize {
                Partial::More
            } else {
                let g_id: u32 = context.len() as u32;
                let fv = Term::Var(s.scope_body.span(), Var::Free(Name::Gen(GenId(g_id))));
                proof {
                    assert(fv == fresh_var(ctx0, span_of(*s.scope_body)));
                }
                let body_open = s.scope_body.open0(&fv);
                context.push(Name::Gen(GenId(g_id)), (*s.scope_param.1).clone());
                proof {
                    assert(context@ == ctx0.push((fresh_name(ctx0), *s.scope_param.1)));
                    lemma_open_size_one(*s.scope_body, 0, fv);
                }
                let r2 = as_universe_fuel(context, &body_open, fuel);
                context.pop();
                proof {
                    assert(context@ =~= ctx0);
                }
                match r2 {
                    Partial::Done(j) => {
                        let lvl: u32 = if i >= j { i } else { j };
                        Partial::Done(Term::Universe(*sp, lvl))
                    },
                    Partial::Fail(err) => Partial::Fail(err),
                    Partial::More => Partial::More,
                }
            },
            Partial::Fail(err) => Partial::Fail(err),
            Partial::More => Partial::More,
        },
        Term::Lam(sp, s) => match &s.scope_param.1 {
            None => Partial::Fail(
                TypeError::FunctionParamNeedsAnnotation {
                    param_span: *sp,
                    var_span: None,
                    name: s.scope_param.0.clone(),
                },
            ),
            Some(ann) => match {
                proof {
                    assert(crate::term::opt_term_size(s.scope_param.1) == term_size(**ann));
                }
                as_universe_fuel(context, ann, fuel)
            } {
                Partial::Done(_) => if context.len() > u32::MAX as usize {
                    Partial::More
                } else {
                    let g_id: u32 = context.len() as u32;
                    let fv = Term::Var(s.scope_body.span(), Var::Free(Name::Gen(GenId(g_id))));
                    proof {
                        assert(fv == fresh_var(ctx0, span_of(*s.scope_body)));
                    }
                    let body_open = s.scope_body.open0(&fv);
                    context.push(Name::Gen(GenId(g_id)), (**ann).clone());
                    proof {
                        assert(context@ == ctx0.push((fresh_name(ctx0), **ann)));
                        lemma_open_size_one(*s.scope_body, 0, fv);
                    }
                    let r2 = infer_fuel(context, &body_open, fuel);
                    context.pop();
                    proof {
                        assert(context@ =~= ctx0);
                    }
                    match r2 {
                        Partial::Done(bodyty) => {
                            let cod = bodyty.close0(&Name::Gen(GenId(g_id)));
                            let r = Term::Pi(
                                *sp,
                                Scope {
                                    scope_param: Named(
                                        s.scope_param.0.clone(),
                                        Box::new((**ann).clone()),
                                    ),
                                    scope_body: Box::new(cod),
                                },
                            );
                            proof {
                                assert(r == (match infer_spec(ctx0, *term, fuel as nat) {
                                    Partial::Done(ty) => ty,
                                    _ => r,
                                }));
                            }
                            Partial::Done(r)
                        },
                        Partial::Fail(err) => Partial::Fail(err),
                        Partial::More => Partial::More,
                    }
                },
                Partial::Fail(err) => Partial::Fail(err),
                Partial::More => Partial::More,
            },
        },
    }
}

/// The executable mirror of [`check_spec`]. The context is handed back as it
/// was given.
fn check_fuel(context: &mut Context, term: &Term, expected: &Term, fuel: u64) -> (r: Partial<
    (),
    TypeError,
>)
    ensures
        r == check_spec(old(context)@, *term, *expected, fuel as nat),
        final(context)@ == old(context)@,
    decreases term_size(*term), 2int,
{
    let ghost ctx0 = context@;
    match normalize_fuel(expected, fuel) {
        Partial::Done(expv) => match term {
            Term::Lam(sp, s) => match expv {
                Term::Pi(_, ps) => {
                    let ann_ok: Partial<(), TypeError> = match &s.scope_param.1 {
                        Some(ann) => match normalize_fuel(ann, fuel) {
                            Partial::Done(annv) => if annv.alpha_eq(&ps.scope_param.1) {
                                Partial::Done(())
                            } else {
                                Partial::Fail(
                                    TypeError::Mismatch {
                                        span: ann.span(),
                                        found: annv,
                                        expected: (*ps.scope_param.1).clone(),
                                    },
                                )
                            },
                            Partial::Fail(ie) => Partial::Fail(TypeError::Internal(ie)),
                            Partial::More => Partial::More,
                        },
                        None => Partial::Done(()),
                    };
                    match ann_ok {
                        Partial::Done(_) => if context.len() > u32::MAX as usize {
                            Partial::More
                        } else {
                            let g_id: u32 = context.len() as u32;
                            let fv = Term::Var(
                                s.scope_body.span(),
                                Var::Free(Name::Gen(GenId(g_id))),
                            );
                            proof {
                                assert(fv == fresh_var(ctx0, span_of(*s.scope_body)));
                            }
                            let body_open = s.scope_body.open0(&fv);
                            let cod_open = ps.scope_body.open0(&fv);
                            context.push(Name::Gen(GenId(g_id)), (*ps.scope_param.1).clone());
                            proof {
                                assert(context@ == ctx0.push((fresh_name(ctx0), *ps.scope_param.1)));
                                lemma_open_size_one(*s.scope_body, 0, fv);
                            }
                            let r2 = check_fuel(context, &body_open, &cod_open, fuel);
                            context.pop();
                            proof {
                                assert(context@ =~= ctx0);
                            }
                            r2
                        },
                        Partial::Fail(err) => Partial::Fail(err),
                        Partial::More => Partial::More,
                    }
                },
                other => Partial::Fail(
                    TypeError::UnexpectedFunction { span: *sp, expected: other },
                ),
            },
            _ => match infer_fuel(context, term, fuel) {
                Partial::Done(ty) => match normalize_fuel(&ty, fuel) {
                    Partial::Done(tyv) => if tyv.alpha_eq(&expv) {
                        Partial::Done(())
                    } else {
                        Partial::Fail(
                            TypeError::Mismatch { span: term.span(), found: tyv, expected: expv },
                        )
                    },
                    Partial::Fail(ie) => Partial::Fail(TypeError::Internal(ie)),
                    Partial::More => Partial::More,
                },
                Partial::Fail(err) => Partial::Fail(err),
                Partial::More => Partial::More,
            },
        },
        Partial::Fail(ie) => Partial::Fail(TypeError::Internal(ie)),
        Partial::More => Partial::More,
    }
}

/// Whether inference of `t` under `ctx` fits the engine's budget; it does
/// unless inference diverges, which only an ill-typed term can make it do.
pub open spec fn infers(ctx: Seq<(Name, Term)>, t: Term) -> bool {
    !(infer_spec(ctx, t, EVAL_FUEL as nat) is More)
}

/// Whether checking `t` against `expected` under `ctx` fits the engine's
/// budget.
pub open spec fn checks(ctx: Seq<(Name, Term)>, t: Term, expected: Term) -> bool {
    !(check_spec(ctx, t, expected, EVAL_FUEL as nat) is More)
}

/// Synthesize the type of `term` under `context` with no outside hint,
/// returning the elaborated term — the term as written — together with its
/// type, or the first error encountered.
pub fn infer(context: &Context, term: &Term) -> (r: Result<(Term, Term), TypeError>)
    requires
        infers(context@, *term),
    ensures
        match r {
            Ok(p) => p.0 == *term && infer_spec(context@, *term, EVAL_FUEL as nat)
                == Partial::<Term, TypeError>::Done(p.1),
            Err(e) => infer_spec(context@, *term, EVAL_FUEL as nat)
                == Partial::<Term, TypeError>::Fail(e),
        },
{
    let mut ctx = context.clone();
    match infer_fuel(&mut ctx, term, EVAL_FUEL) {
        Partial::Done(ty) => Ok((term.clone(), ty)),
        Partial::Fail(err) => Err(err),
        Partial::More => vstd::pervasive::unreached(),
    }
}

/// Verify `term` against the type `expected` under `context`, returning the
/// elaborated term — the term as written — or the first error encountered.
pub fn check(context: &Context, term: &Term, expected: &Term) -> (r: Result<Term, TypeError>)
    requires
        checks(context@, *term, *expected),
    ensures
        match r {
            Ok(e) => e == *term && check_spec(context@, *term, *expected, EVAL_FUEL as nat)
                == Partial::<(), TypeError>::Done(()),
            Err(err) => check_spec(context@, *term, *expected, EVAL_FUEL as nat)
                == Partial::<(), TypeError>::Fail(err),
        },
{
    let mut ctx = context.clone();
    match check_fuel(&mut ctx, term, expected, EVAL_FUEL) {
        Partial::Done(u) => {
            proof {
                assert(u == ());
                assert(check_spec(context@, *term, *expected, EVAL_FUEL as nat)
                    == Partial::<(), TypeError>::Done(u));
            }
            Ok(term.clone())
        },
        Partial::Fail(err) => Err(err),
        Partial::More => vstd::pervasive::unreached(),
    }
}

} // verus!
