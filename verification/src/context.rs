//! The typing context: an ordered, append-only sequence of name-to-type
//! bindings, extended by one entry for each binder entered. Lookup walks the
//! newest entries first, so an inner binder shadows an outer one.

use vstd::prelude::*;

use crate::term::Term;
use crate::var::{name_eq, Name};

verus! {

/// The typing environment consulted by the checker.
pub struct Context {
    pub entries: Vec<(Name, Term)>,
}

impl View for Context {
    type V = Seq<(Name, Term)>;

    open spec fn view(&self) -> Seq<(Name, Term)> {
        self.entries@
    }
}

/// The type bound to `name`, looking at the newest entries first; `None`
/// where no entry's name matches. An `Abstract` name matches no entry.
pub open spec fn lookup(entries: Seq<(Name, Term)>, name: Name) -> Option<Term>
    decreases entries.len(),
{
    if entries.len() == 0 {
        None
    } else if name_eq(entries.last().0, name) {
        Some(entries.last().1)
    } else {
        lookup(entries.drop_last(), name)
    }
}

impl Context {
    /// An empty context.
    pub fn new() -> (r: Context)
        ensures
            r@ == Seq::<(Name, Term)>::empty(),
    {
        Context { entries: Vec::new() }
    }

    /// The number of entries.
    pub fn len(&self) -> (r: usize)
        ensures
            r == self@.len(),
    {
        self.entries.len()
    }

    /// Bind `name` to the type `ty`, shadowing any older binding of the same
    /// name.
    pub fn push(&mut self, name: Name, ty: Term)
        ensures
            final(self)@ == old(self)@.push((name, ty)),
    {
        self.entries.push((name, ty));
    }

    /// The type bound to `name`, from the newest entry whose name matches.
    pub fn lookup(&self, name: &Name) -> (r: Option<Term>)
        ensures
            r == lookup(self@, *name),
    {
        let ghost all = self@;
        let mut i: usize = self.entries.len();
        proof {
            assert(all.subrange(0, i as int) =~= all);
        }
        while i > 0
            invariant
                i <= all.len(),
                all == self@,
                lookup(all, *name) == lookup(all.subrange(0, i as int), *name),
            decreases i,
        {
            i = i - 1;
            proof {
                assert(all.subrange(0, i as int + 1).drop_last() =~= all.subrange(0, i as int));
                assert(all.subrange(0, i as int + 1).last() == all[i as int]);
            }
            let entry = &self.entries[i];
            if &entry.0 == name {
                return Some(entry.1.clone());
            }
        }
        proof {
            assert(all.subrange(0, 0).len() == 0);
        }
        None
    }

    /// Remove the newest entry; the restore step when leaving a binder.
    pub fn pop(&mut self)
        requires
            old(self)@.len() > 0,
        ensures
            final(self)@ == old(self)@.drop_last(),
    {
        let _ = self.entries.pop();
    }
}

impl Clone for Context {
    fn clone(&self) -> (r: Context)
        ensures
            r@ == self@,
    {
        let mut entries: Vec<(Name, Term)> = Vec::new();
        let mut i: usize = 0;
        while i < self.entries.len()
            invariant
                i <= self.entries@.len(),
                entries@ == self.entries@.subrange(0, i as int),
            decreases self.entries@.len() - i,
        {
            let entry = &self.entries[i];
            entries.push((entry.0.clone(), entry.1.clone()));
            proof {
                assert(entries@ =~= self.entries@.subrange(0, i as int + 1));
            }
            i = i + 1;
        }
        proof {
            assert(entries@ =~= self.entries@);
        }
        Context { entries }
    }
}

} // verus!
