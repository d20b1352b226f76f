//! The core term language: universes, variables, lambda abstraction,
//! dependent function (Pi) types, application and type ascription.
//!
//! Terms are immutable trees; every operation builds a new tree. A term used
//! as a type is just a term; the checker decides whether it is one.

use vstd::prelude::*;

use crate::var::{name_eq, Debruijn, LocallyNameless, Name, Named, Scope, Var};

verus! {

/// A byte range in the source text, carried for diagnostics. Spans take no
/// part in any equality used by the checker.
#[derive(Debug, Clone, Copy, PartialEq, Eq, Structural)]
pub struct Span {
    pub start: u32,
    pub end: u32,
}

/// The binder pattern of a lambda: a display name and an optional parameter
/// type annotation.
pub type LamParam = Named<Option<Box<Term>>>;

/// The binder pattern of a Pi type: a display name and the parameter's type.
pub type PiParam = Named<Box<Term>>;

/// A core term.
#[derive(Debug)]
pub enum Term {
    /// A universe, the type of types, at the given level.
    Universe(Span, u32),
    /// A variable, free or bound.
    Var(Span, Var),
    /// A lambda abstraction; the body lives under the binder.
    Lam(Span, Scope<LamParam, Box<Term>>),
    /// A dependent function type; the body lives under the binder.
    Pi(Span, Scope<PiParam, Box<Term>>),
    /// An application of a function term to an argument term.
    App(Span, Box<Term>, Box<Term>),
    /// A term ascribed with a type.
    Ann(Span, Box<Term>, Box<Term>),
}

/// The number of nodes in a term; the measure for structural recursion.
pub open spec fn term_size(t: Term) -> nat
    decreases t,
{
    match t {
        Term::Universe(_, _) => 1,
        Term::Var(_, _) => 1,
        Term::Lam(_, s) => 1 + opt_term_size(s.scope_param.1) + term_size(*s.scope_body),
        Term::Pi(_, s) => 1 + term_size(*s.scope_param.1) + term_size(*s.scope_body),
        Term::App(_, f, a) => 1 + term_size(*f) + term_size(*a),
        Term::Ann(_, e, ty) => 1 + term_size(*e) + term_size(*ty),
    }
}

/// The size of an optional annotation.
pub open spec fn opt_term_size(o: Option<Box<Term>>) -> nat
    decreases o,
{
    match o {
        Some(t) => term_size(*t),
        None => 0,
    }
}

/// Equality of variables: free variables compare by name, bound variables by
/// index alone — the display name is ignored.
pub open spec fn var_eq(a: Var, b: Var) -> bool {
    match (a, b) {
        (Var::Free(n1), Var::Free(n2)) => name_eq(n1, n2),
        (Var::Bound(Named(_, i1)), Var::Bound(Named(_, i2))) => i1 == i2,
        _ => false,
    }
}

/// Alpha-equivalence of annotations: both absent, or both present and
/// alpha-equivalent.
pub open spec fn opt_alpha_eq(a: Option<Box<Term>>, b: Option<Box<Term>>) -> bool
    decreases a,
{
    match (a, b) {
        (Some(x), Some(y)) => alpha_eq(*x, *y),
        (None, None) => true,
        _ => false,
    }
}

/// Alpha-equivalence: structural equality that ignores source spans and the
/// display names attached to binders and bound variables. Because bound
/// variables are de Bruijn indices, this is equality up to renaming of bound
/// variables, with no renaming needed.
pub open spec fn alpha_eq(a: Term, b: Term) -> bool
    decreases a,
{
    match (a, b) {
        (Term::Universe(_, n1), Term::Universe(_, n2)) => n1 == n2,
        (Term::Var(_, v1), Term::Var(_, v2)) => var_eq(v1, v2),
        (Term::Lam(_, s1), Term::Lam(_, s2)) => opt_alpha_eq(s1.scope_param.1, s2.scope_param.1)
            && alpha_eq(*s1.scope_body, *s2.scope_body),
        (Term::Pi(_, s1), Term::Pi(_, s2)) => alpha_eq(*s1.scope_param.1, *s2.scope_param.1)
            && alpha_eq(*s1.scope_body, *s2.scope_body),
        (Term::App(_, f1, a1), Term::App(_, f2, a2)) => alpha_eq(*f1, *f2) && alpha_eq(*a1, *a2),
        (Term::Ann(_, e1, t1), Term::Ann(_, e2, t2)) => alpha_eq(*e1, *e2) && alpha_eq(*t1, *t2),
        _ => false,
    }
}

/// The source span of a term.
pub open spec fn span_of(t: Term) -> Span {
    match t {
        Term::Universe(sp, _) => sp,
        Term::Var(sp, _) => sp,
        Term::Lam(sp, _) => sp,
        Term::Pi(sp, _) => sp,
        Term::App(sp, _, _) => sp,
        Term::Ann(sp, _, _) => sp,
    }
}

impl Term {
    /// The source span this term originated from.
    pub fn span(&self) -> (r: Span)
        ensures
            r == span_of(*self),
    {
        match self {
            Term::Universe(sp, _) => *sp,
            Term::Var(sp, _) => *sp,
            Term::Lam(sp, _) => *sp,
            Term::Pi(sp, _) => *sp,
            Term::App(sp, _, _) => *sp,
            Term::Ann(sp, _, _) => *sp,
        }
    }

    /// Structural equality up to display names and spans; the checker's
    /// notion of "the same term".
    pub fn alpha_eq(&self, other: &Term) -> (r: bool)
        ensures
            r == alpha_eq(*self, *other),
        decreases *self,
    {
        match (self, other) {
            (Term::Universe(_, n1), Term::Universe(_, n2)) => *n1 == *n2,
            (Term::Var(_, v1), Term::Var(_, v2)) => var_alpha_eq(v1, v2),
            (Term::Lam(_, s1), Term::Lam(_, s2)) => {
                let anns = match (&s1.scope_param.1, &s2.scope_param.1) {
                    (Some(x), Some(y)) => x.alpha_eq(y),
                    (None, None) => true,
                    _ => false,
                };
                let bodies = s1.scope_body.alpha_eq(&s2.scope_body);
                proof {
                    assert(anns == opt_alpha_eq(s1.scope_param.1, s2.scope_param.1));
                }
                anns && bodies
            },
            (Term::Pi(_, s1), Term::Pi(_, s2)) => {
                let params = s1.scope_param.1.alpha_eq(&s2.scope_param.1);
                let bodies = s1.scope_body.alpha_eq(&s2.scope_body);
                params && bodies
            },
            (Term::App(_, f1, a1), Term::App(_, f2, a2)) => {
                let fns = f1.alpha_eq(f2);
                let args = a1.alpha_eq(a2);
                fns && args
            },
            (Term::Ann(_, e1, t1), Term::Ann(_, e2, t2)) => {
                let exprs = e1.alpha_eq(e2);
                let tys = t1.alpha_eq(t2);
                exprs && tys
            },
            _ => false,
        }
    }
}

/// Equality of variables, ignoring display names.
pub fn var_alpha_eq(a: &Var, b: &Var) -> (r: bool)
    ensures
        r == var_eq(*a, *b),
{
    match (a, b) {
        (Var::Free(n1), Var::Free(n2)) => n1 == n2,
        (Var::Bound(Named(_, i1)), Var::Bound(Named(_, i2))) => *i1 == *i2,
        _ => false,
    }
}

impl Clone for Term {
    fn clone(&self) -> (r: Term)
        ensures
            r == *self,
        decreases *self,
    {
        match self {
            Term::Universe(sp, n) => Term::Universe(*sp, *n),
            Term::Var(sp, v) => Term::Var(*sp, v.clone()),
            Term::Lam(sp, s) => Term::Lam(
                *sp,
                Scope {
                    scope_param: Named(
                        s.scope_param.0.clone(),
                        match &s.scope_param.1 {
                            Some(a) => Some(Box::new((**a).clone())),
                            None => None,
                        },
                    ),
                    scope_body: Box::new((*s.scope_body).clone()),
                },
            ),
            Term::Pi(sp, s) => Term::Pi(
                *sp,
                Scope {
                    scope_param: Named(s.scope_param.0.clone(), Box::new((*s.scope_param.1).clone())),
                    scope_body: Box::new((*s.scope_body).clone()),
                },
            ),
            Term::App(sp, f, a) => Term::App(*sp, Box::new((**f).clone()), Box::new((**a).clone())),
            Term::Ann(sp, e, ty) => Term::Ann(*sp, Box::new((**e).clone()), Box::new((**ty).clone())),
        }
    }
}

/// Close the annotation of a lambda parameter.
pub open spec fn opt_close_at(o: Option<Box<Term>>, name: Name, k: nat) -> Option<Box<Term>>
    decreases o,
{
    match o {
        Some(a) => Some(Box::new(close_at(*a, name, k))),
        None => None,
    }
}

/// Capture free occurrences of `name` as bound references: an occurrence
/// under `d` further binders becomes a bound reference at level `k + d`.
/// Annotations stand outside their binder, so they are closed at the binder's
/// own level while the body is closed one level deeper. An occurrence deeper
/// than the largest representable index stays free.
pub open spec fn close_at(t: Term, name: Name, k: nat) -> Term
    decreases t,
{
    match t {
        Term::Universe(_, _) => t,
        Term::Var(sp, v) => match v {
            Var::Free(n) => if name_eq(n, name) && k <= u32::MAX {
                Term::Var(sp, Var::Bound(Named(n, Debruijn(k as u32))))
            } else {
                t
            },
            Var::Bound(_) => t,
        },
        Term::Lam(sp, s) => Term::Lam(
            sp,
            Scope {
                scope_param: Named(s.scope_param.0, opt_close_at(s.scope_param.1, name, k)),
                scope_body: Box::new(close_at(*s.scope_body, name, k + 1)),
            },
        ),
        Term::Pi(sp, s) => Term::Pi(
            sp,
            Scope {
                scope_param: Named(s.scope_param.0, Box::new(close_at(*s.scope_param.1, name, k))),
                scope_body: Box::new(close_at(*s.scope_body, name, k + 1)),
            },
        ),
        Term::App(sp, f, a) => Term::App(
            sp,
            Box::new(close_at(*f, name, k)),
            Box::new(close_at(*a, name, k)),
        ),
        Term::Ann(sp, e, ty) => Term::Ann(
            sp,
            Box::new(close_at(*e, name, k)),
            Box::new(close_at(*ty, name, k)),
        ),
    }
}

/// Open the annotation of a lambda parameter.
pub open spec fn opt_open_at(o: Option<Box<Term>>, k: nat, arg: Term) -> Option<Box<Term>>
    decreases o,
{
    match o {
        Some(a) => Some(Box::new(open_at(*a, k, arg))),
        None => None,
    }
}

/// Remove the binder at level `k`, substituting `arg` for the variables it
/// bound: a bound reference at `k` (adjusted for the binders in between)
/// becomes `arg`, and references to binders outside the removed one shift
/// down by one.
pub open spec fn open_at(t: Term, k: nat, arg: Term) -> Term
    decreases t,
{
    match t {
        Term::Universe(_, _) => t,
        Term::Var(sp, v) => match v {
            Var::Free(_) => t,
            Var::Bound(Named(n, i)) => if i.0 == k {
                arg
            } else if i.0 > k {
                Term::Var(sp, Var::Bound(Named(n, Debruijn((i.0 - 1) as u32))))
            } else {
                t
            },
        },
        Term::Lam(sp, s) => Term::Lam(
            sp,
            Scope {
                scope_param: Named(s.scope_param.0, opt_open_at(s.scope_param.1, k, arg)),
                scope_body: Box::new(open_at(*s.scope_body, k + 1, arg)),
            },
        ),
        Term::Pi(sp, s) => Term::Pi(
            sp,
            Scope {
                scope_param: Named(s.scope_param.0, Box::new(open_at(*s.scope_param.1, k, arg))),
                scope_body: Box::new(open_at(*s.scope_body, k + 1, arg)),
            },
        ),
        Term::App(sp, f, a) => Term::App(
            sp,
            Box::new(open_at(*f, k, arg)),
            Box::new(open_at(*a, k, arg)),
        ),
        Term::Ann(sp, e, ty) => Term::Ann(
            sp,
            Box::new(open_at(*e, k, arg)),
            Box::new(open_at(*ty, k, arg)),
        ),
    }
}

/// Beyond the largest representable index no bound variable can match, so
/// closing behaves the same at every such level.
proof fn lemma_close_at_deep(t: Term, name: Name, k1: nat, k2: nat)
    requires
        k1 > u32::MAX,
        k2 > u32::MAX,
    ensures
        close_at(t, name, k1) == close_at(t, name, k2),
    decreases t,
{
    match t {
        Term::Universe(_, _) => {},
        Term::Var(_, _) => {},
        Term::Lam(_, s) => {
            match s.scope_param.1 {
                Some(a) => lemma_close_at_deep(*a, name, k1, k2),
                None => {},
            }
            assert(opt_close_at(s.scope_param.1, name, k1) == opt_close_at(s.scope_param.1, name, k2));
            lemma_close_at_deep(*s.scope_body, name, k1 + 1, k2 + 1);
            assert(close_at(t, name, k1) == close_at(t, name, k2));
        },
        Term::Pi(_, s) => {
            lemma_close_at_deep(*s.scope_param.1, name, k1, k2);
            lemma_close_at_deep(*s.scope_body, name, k1 + 1, k2 + 1);
            assert(close_at(t, name, k1) == close_at(t, name, k2));
        },
        Term::App(_, f, a) => {
            lemma_close_at_deep(*f, name, k1, k2);
            lemma_close_at_deep(*a, name, k1, k2);
            assert(close_at(t, name, k1) == close_at(t, name, k2));
        },
        Term::Ann(_, e, ty) => {
            lemma_close_at_deep(*e, name, k1, k2);
            lemma_close_at_deep(*ty, name, k1, k2);
            assert(close_at(t, name, k1) == close_at(t, name, k2));
        },
    }
}

/// Beyond the largest representable index no bound variable can match, so
/// opening behaves the same at every such level.
proof fn lemma_open_at_deep(t: Term, arg: Term, k1: nat, k2: nat)
    requires
        k1 > u32::MAX,
        k2 > u32::MAX,
    ensures
        open_at(t, k1, arg) == open_at(t, k2, arg),
    decreases t,
{
    match t {
        Term::Universe(_, _) => {},
        Term::Var(_, _) => {},
        Term::Lam(_, s) => {
            match s.scope_param.1 {
                Some(a) => lemma_open_at_deep(*a, arg, k1, k2),
                None => {},
            }
            assert(opt_open_at(s.scope_param.1, k1, arg) == opt_open_at(s.scope_param.1, k2, arg));
            lemma_open_at_deep(*s.scope_body, arg, k1 + 1, k2 + 1);
            assert(open_at(t, k1, arg) == open_at(t, k2, arg));
        },
        Term::Pi(_, s) => {
            lemma_open_at_deep(*s.scope_param.1, arg, k1, k2);
            lemma_open_at_deep(*s.scope_body, arg, k1 + 1, k2 + 1);
            assert(open_at(t, k1, arg) == open_at(t, k2, arg));
        },
        Term::App(_, f, a) => {
            lemma_open_at_deep(*f, arg, k1, k2);
            lemma_open_at_deep(*a, arg, k1, k2);
            assert(open_at(t, k1, arg) == open_at(t, k2, arg));
        },
        Term::Ann(_, e, ty) => {
            lemma_open_at_deep(*e, arg, k1, k2);
            lemma_open_at_deep(*ty, arg, k1, k2);
            assert(open_at(t, k1, arg) == open_at(t, k2, arg));
        },
    }
}

/// One past the largest representable de Bruijn index, as a traversal level.
const LEVEL_CAP: u64 = 0x1_0000_0000;

impl Term {
    /// Capture free occurrences of `name` at `level`, one more for each
    /// binder descended into.
    fn close_level(&self, name: &Name, level: u64) -> (r: Term)
        requires
            level <= LEVEL_CAP,
        ensures
            r == close_at(*self, *name, level as nat),
        decreases *self,
    {
        match self {
            Term::Universe(_, _) => self.clone(),
            Term::Var(sp, v) => match v {
                Var::Free(n) => if n == name && level < LEVEL_CAP {
                    Term::Var(*sp, Var::Bound(Named(n.clone(), Debruijn(level as u32))))
                } else {
                    self.clone()
                },
                Var::Bound(_) => self.clone(),
            },
            Term::Lam(sp, s) => {
                let next = if level < LEVEL_CAP { level + 1 } else { level };
                proof {
                    if level == LEVEL_CAP {
                        lemma_close_at_deep(*s.scope_body, *name, level as nat, level as nat + 1);
                    }
                }
                let ann = match &s.scope_param.1 {
                    Some(a) => Some(Box::new(a.close_level(name, level))),
                    None => None,
                };
                let body = Box::new(s.scope_body.close_level(name, next));
                let r = Term::Lam(*sp, Scope { scope_param: Named(s.scope_param.0.clone(), ann), scope_body: body });
                proof {
                    assert(ann == opt_close_at(s.scope_param.1, *name, level as nat));
                    assert(r == close_at(*self, *name, level as nat));
                }
                r
            },
            Term::Pi(sp, s) => {
                let next = if level < LEVEL_CAP { level + 1 } else { level };
                proof {
                    if level == LEVEL_CAP {
                        lemma_close_at_deep(*s.scope_body, *name, level as nat, level as nat + 1);
                    }
                }
                let dom = Box::new(s.scope_param.1.close_level(name, level));
                let body = Box::new(s.scope_body.close_level(name, next));
                let r = Term::Pi(*sp, Scope { scope_param: Named(s.scope_param.0.clone(), dom), scope_body: body });
                proof {
                    assert(r == close_at(*self, *name, level as nat));
                }
                r
            },
            Term::App(sp, f, a) => {
                let cf = Box::new(f.close_level(name, level));
                let ca = Box::new(a.close_level(name, level));
                Term::App(*sp, cf, ca)
            },
            Term::Ann(sp, e, ty) => {
                let ce = Box::new(e.close_level(name, level));
                let cty = Box::new(ty.close_level(name, level));
                Term::Ann(*sp, ce, cty)
            },
        }
    }

    /// Substitute `arg` for the variables bound at `level`, one more for
    /// each binder descended into.
    fn open_level(&self, level: u64, arg: &Term) -> (r: Term)
        requires
            level <= LEVEL_CAP,
        ensures
            r == open_at(*self, level as nat, *arg),
        decreases *self,
    {
        match self {
            Term::Universe(_, _) => self.clone(),
            Term::Var(sp, v) => match v {
                Var::Free(_) => self.clone(),
                Var::Bound(Named(n, i)) => if i.0 as u64 == level {
                    arg.clone()
                } else if i.0 as u64 > level {
                    Term::Var(*sp, Var::Bound(Named(n.clone(), Debruijn(i.0 - 1))))
                } else {
                    self.clone()
                },
            },
            Term::Lam(sp, s) => {
                let next = if level < LEVEL_CAP { level + 1 } else { level };
                proof {
                    if level == LEVEL_CAP {
                        lemma_open_at_deep(*s.scope_body, *arg, level as nat, level as nat + 1);
                    }
                }
                let ann = match &s.scope_param.1 {
                    Some(a) => Some(Box::new(a.open_level(level, arg))),
                    None => None,
                };
                let body = Box::new(s.scope_body.open_level(next, arg));
                let r = Term::Lam(*sp, Scope { scope_param: Named(s.scope_param.0.clone(), ann), scope_body: body });
                proof {
                    assert(ann == opt_open_at(s.scope_param.1, level as nat, *arg));
                    assert(r == open_at(*self, level as nat, *arg));
                }
                r
            },
            Term::Pi(sp, s) => {
                let next = if level < LEVEL_CAP { level + 1 } else { level };
                proof {
                    if level == LEVEL_CAP {
                        lemma_open_at_deep(*s.scope_body, *arg, level as nat, level as nat + 1);
                    }
                }
                let dom = Box::new(s.scope_param.1.open_level(level, arg));
                let body = Box::new(s.scope_body.open_level(next, arg));
                let r = Term::Pi(*sp, Scope { scope_param: Named(s.scope_param.0.clone(), dom), scope_body: body });
                proof {
                    assert(r == open_at(*self, level as nat, *arg));
                }
                r
            },
            Term::App(sp, f, a) => {
                let of = Box::new(f.open_level(level, arg));
                let oa = Box::new(a.open_level(level, arg));
                Term::App(*sp, of, oa)
            },
            Term::Ann(sp, e, ty) => {
                let oe = Box::new(e.open_level(level, arg));
                let oty = Box::new(ty.open_level(level, arg));
                Term::Ann(*sp, oe, oty)
            },
        }
    }

    /// Remove the innermost binder, substituting `arg` for the variables it
    /// bound; the dual of [`Term::close0`], and the step of beta reduction.
    pub fn open0(&self, arg: &Term) -> (r: Term)
        ensures
            r == open_at(*self, 0, *arg),
    {
        self.open_level(0, arg)
    }
}

impl LocallyNameless for Term {
    /// Closing a term is [`close_at`].
    open spec fn closed_at(self, name: Name, level: nat) -> Term {
        close_at(self, name, level)
    }

    /// Capture free occurrences of `name` as references to an enclosing
    /// binder at level `0`; the first step of binding a scope.
    fn close0(&self, name: &Name) -> (r: Term) {
        self.close_level(name, 0)
    }
}

impl Scope<LamParam, Box<Term>> {
    /// Construct a lambda scope, closing `body` over the pattern's name at
    /// level `0`. An `Abstract` pattern name matches nothing, so it binds
    /// nothing.
    pub fn bind(param: LamParam, body: Box<Term>) -> (r: Self)
        ensures
            r.scope_param == param,
            *r.scope_body == close_at(*body, param.0, 0),
    {
        let closed = body.close0(&param.0);
        Scope { scope_param: param, scope_body: Box::new(closed) }
    }
}

impl Scope<PiParam, Box<Term>> {
    /// Construct a Pi scope, closing `body` over the pattern's name at level
    /// `0`. An `Abstract` pattern name matches nothing, so it binds nothing.
    pub fn bind(param: PiParam, body: Box<Term>) -> (r: Self)
        ensures
            r.scope_param == param,
            *r.scope_body == close_at(*body, param.0, 0),
    {
        let closed = body.close0(&param.0);
        Scope { scope_param: param, scope_body: Box::new(closed) }
    }
}

/// Opening with a one-node term preserves the node count: the substituted
/// occurrences and the shifted variables are one node each, like the bound
/// variables they replace.
pub proof fn lemma_open_size_one(t: Term, k: nat, arg: Term)
    requires
        term_size(arg) == 1,
    ensures
        term_size(open_at(t, k, arg)) == term_size(t),
    decreases t,
{
    match t {
        Term::Universe(_, _) => {},
        Term::Var(_, _) => {},
        Term::Lam(_, s) => {
            match s.scope_param.1 {
                Some(a) => lemma_open_size_one(*a, k, arg),
                None => {},
            }
            assert(opt_term_size(opt_open_at(s.scope_param.1, k, arg))
                == opt_term_size(s.scope_param.1));
            lemma_open_size_one(*s.scope_body, k + 1, arg);
            assert(term_size(open_at(t, k, arg)) == term_size(t));
        },
        Term::Pi(_, s) => {
            lemma_open_size_one(*s.scope_param.1, k, arg);
            lemma_open_size_one(*s.scope_body, k + 1, arg);
            assert(term_size(open_at(t, k, arg)) == term_size(t));
        },
        Term::App(_, f, a) => {
            lemma_open_size_one(*f, k, arg);
            lemma_open_size_one(*a, k, arg);
            assert(term_size(open_at(t, k, arg)) == term_size(t));
        },
        Term::Ann(_, e, ty) => {
            lemma_open_size_one(*e, k, arg);
            lemma_open_size_one(*ty, k, arg);
            assert(term_size(open_at(t, k, arg)) == term_size(t));
        },
    }
}

} // verus!
