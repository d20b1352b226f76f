//! Variable binding: names, de Bruijn indices, and binding scopes.
//!
//! Terms use a locally nameless representation: variables bound by an
//! enclosing binder are de Bruijn indices, while free variables are names.
//! Names attached to bound variables and binder patterns are kept purely for
//! display and are ignored by every equality used in the checker.

use vstd::prelude::*;

verus! {

/// An identifier handed out by [`FreshGen`].
#[derive(Debug, Clone, Copy, PartialEq, Eq, Structural)]
pub struct GenId(pub u32);

/// The name of a free variable.
#[derive(Debug)]
pub enum Name {
    /// A name originating from user input.
    User(String),
    /// A name generated from a fresh-name generator.
    Gen(GenId),
    /// The "don't care" name, used for the parameter of non-dependent
    /// function types. Two `Abstract` names never compare equal, not even to
    /// themselves, so a wildcard can never capture a variable.
    Abstract,
}

/// Equality of names. `User` names compare by their text, `Gen` names by
/// their identifier, and `Abstract` names are never equal to anything,
/// themselves included.
pub open spec fn name_eq(a: Name, b: Name) -> bool {
    match (a, b) {
        (Name::User(x), Name::User(y)) => x@ == y@,
        (Name::Gen(x), Name::Gen(y)) => x == y,
        _ => false,
    }
}

impl Name {
    /// Construct a user-facing name.
    pub fn user(name: String) -> (r: Name)
        ensures
            r == Name::User(name),
    {
        Name::User(name)
    }
}

impl Clone for Name {
    fn clone(&self) -> (r: Name)
        ensures
            r == *self,
    {
        match self {
            Name::User(s) => Name::User(s.clone()),
            Name::Gen(id) => Name::Gen(*id),
            Name::Abstract => Name::Abstract,
        }
    }
}

impl PartialEq for Name {
    fn eq(&self, other: &Name) -> (r: bool) {
        match (self, other) {
            (Name::User(x), Name::User(y)) => *x == *y,
            (Name::Gen(x), Name::Gen(y)) => *x == *y,
            _ => false,
        }
    }
}

impl vstd::std_specs::cmp::PartialEqSpecImpl for Name {
    open spec fn obeys_eq_spec() -> bool {
        true
    }

    open spec fn eq_spec(&self, other: &Name) -> bool {
        name_eq(*self, *other)
    }
}

/// Locally nameless terms: values in which free occurrences of a name can
/// be captured as bound references. The meaning of capture is the
/// implementor's [`LocallyNameless::closed_at`]; levels count enclosing
/// binders, starting at the binder being built.
pub trait LocallyNameless: Sized {
    /// What closing over `name` at `level` means for this type.
    spec fn closed_at(self, name: Name, level: nat) -> Self;

    /// Capture free occurrences of `name` as bound references at level
    /// zero; the common case, used when a scope is bound.
    fn close0(&self, name: &Name) -> (r: Self)
        ensures
            r == self.closed_at(*name, 0),
    ;
}

/// Locally nameless binder patterns: values that decide which free names
/// they bind.
pub trait Pattern: Sized {
    /// Whether this pattern binds the given name.
    spec fn binds(self, name: Name) -> bool;

    /// The level at which an occurrence of `name` closes under this
    /// pattern: the level handed in when the pattern binds the name,
    /// nothing otherwise.
    fn handle_free(&self, level: Debruijn, name: &Name) -> (r: Option<Debruijn>)
        ensures
            r == (if self.binds(*name) {
                Some(level)
            } else {
                None::<Debruijn>
            }),
    ;
}

/// A generator of fresh names, scoped to one session. Its identifiers are
/// strictly increasing from zero, so no two calls return the same `GenId`.
pub struct FreshGen {
    pub next_gen: u32,
}

impl FreshGen {
    /// A generator whose next identifier is `GenId(0)`.
    pub fn new() -> (r: FreshGen)
        ensures
            r.next_gen == 0,
    {
        FreshGen { next_gen: 0 }
    }

    /// Hand out the next identifier and advance the counter.
    pub fn next_gen(&mut self) -> (r: GenId)
        requires
            old(self).next_gen < u32::MAX,
        ensures
            r == GenId(old(self).next_gen),
            final(self).next_gen == old(self).next_gen + 1,
    {
        let next = self.next_gen;
        self.next_gen = self.next_gen + 1;
        GenId(next)
    }
}

/// A value paired with a name carried purely for display. Every comparison
/// in this crate ignores the name and looks only at the value.
#[derive(Debug)]
pub struct Named<T>(pub Name, pub T);

/// The de Bruijn index of the binder that introduced a variable: `0` denotes
/// the nearest enclosing binder.
#[derive(Debug, Clone, Copy, PartialEq, Eq, Structural)]
pub struct Debruijn(pub u32);

impl Debruijn {
    /// The index as seen from one binder further in.
    pub fn succ(self) -> (r: Debruijn)
        requires
            self.0 < u32::MAX,
        ensures
            r.0 == self.0 + 1,
    {
        Debruijn(self.0 + 1)
    }

    /// The index as seen from one binder further out; `None` at zero, where
    /// there is no such binder.
    pub fn pred(self) -> (r: Option<Debruijn>)
        ensures
            self.0 == 0 ==> r is None,
            self.0 > 0 ==> r == Some(Debruijn((self.0 - 1) as u32)),
    {
        if self.0 == 0 {
            None
        } else {
            Some(Debruijn(self.0 - 1))
        }
    }
}

/// A variable: either free, referred to by name, or bound, referred to by a
/// de Bruijn index (the attached name is display-only).
#[derive(Debug)]
pub enum Var {
    /// A free variable.
    Free(Name),
    /// A variable bound by an enclosing lambda or pi binder.
    Bound(Named<Debruijn>),
}

impl Var {
    /// Whether this variable is bound exactly at `level`; the variable that
    /// an opening at `level` would substitute.
    pub fn open(&self, level: Debruijn) -> (r: bool)
        ensures
            r == (match *self {
                Var::Bound(Named(_, b)) => b == level,
                Var::Free(_) => false,
            }),
    {
        match self {
            Var::Bound(Named(_, b)) => b.0 == level.0,
            Var::Free(_) => false,
        }
    }
}

impl Clone for Var {
    fn clone(&self) -> (r: Var)
        ensures
            r == *self,
    {
        match self {
            Var::Free(n) => Var::Free(n.clone()),
            Var::Bound(Named(n, b)) => Var::Bound(Named(n.clone(), *b)),
        }
    }
}

/// A binder: a pattern together with a body in which free occurrences of the
/// pattern's name have been closed into bound references, level `0` for the
/// binder itself and one more for each scope descended into.
#[derive(Debug)]
pub struct Scope<P, T> {
    /// The binder pattern; its name is display-only.
    pub scope_param: P,
    /// The body, with the pattern's name closed into bound references.
    pub scope_body: T,
}

impl<T> Pattern for Named<T> {
    open spec fn binds(self, name: Name) -> bool {
        name_eq(self.0, name)
    }

    fn handle_free(&self, level: Debruijn, name: &Name) -> (r: Option<Debruijn>) {
        if &self.0 == name {
            Some(level)
        } else {
            None
        }
    }
}

} // verus!
