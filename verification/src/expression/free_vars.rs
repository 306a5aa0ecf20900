//! Free-variable analysis: the set of identifiers a term mentions without a
//! binder, used by substitution and by bracket abstraction.

use crate::expression::{Expr, Term};
use crate::identifier::{lemma_names_of_contains, names_of, Ident};
use vstd::prelude::*;

verus! {

/// The free variables of a term: a variable contributes its name, a symbol
/// nothing, an application both sides, an abstraction its body minus the
/// bound parameter.
pub open spec fn free_vars_of(t: Term) -> Set<Seq<char>>
    decreases t,
{
    match t {
        Term::Var { id } => Set::empty().insert(id),
        Term::Sym { .. } => Set::empty(),
        Term::App { lhs, rhs } => free_vars_of(*lhs).union(free_vars_of(*rhs)),
        Term::Lam { param, body } => free_vars_of(*body).remove(param),
    }
}

/// Every identifier occurring in a term, bound or free, binders included.
pub open spec fn term_vars_of(t: Term) -> Set<Seq<char>>
    decreases t,
{
    match t {
        Term::Var { id } => Set::empty().insert(id),
        Term::Sym { .. } => Set::empty(),
        Term::App { lhs, rhs } => term_vars_of(*lhs).union(term_vars_of(*rhs)),
        Term::Lam { param, body } => term_vars_of(*body).insert(param),
    }
}

/// The identifiers a term binds somewhere with an abstraction.
pub open spec fn binders_of(t: Term) -> Set<Seq<char>>
    decreases t,
{
    match t {
        Term::Var { .. } => Set::empty(),
        Term::Sym { .. } => Set::empty(),
        Term::App { lhs, rhs } => binders_of(*lhs).union(binders_of(*rhs)),
        Term::Lam { param, body } => binders_of(*body).insert(param),
    }
}

/// A computed set of free variables, held without duplicates.
#[derive(Debug)]
pub struct FreeVars {
    vars: Vec<Ident>,
}

impl View for FreeVars {
    type V = Set<Seq<char>>;

    closed spec fn view(&self) -> Set<Seq<char>> {
        names_of(self.vars@)
    }
}

impl FreeVars {
    /// The list behind the set holds each name once.
    pub closed spec fn wf(&self) -> bool {
        forall|i: int, j: int|
            0 <= i < j < self.vars@.len() ==> self.vars@[i]@ != self.vars@[j]@
    }

    fn empty() -> (r: FreeVars)
        ensures
            r@ == Set::<Seq<char>>::empty(),
            r.wf(),
    {
        let r = FreeVars { vars: Vec::new() };
        proof {
            assert(r@ =~= Set::<Seq<char>>::empty());
        }
        r
    }

    /// How many distinct free variables there are.
    pub fn count(&self) -> (r: usize)
        requires
            self.wf(),
        ensures
            r == self@.len(),
    {
        proof {
            lemma_distinct_names_len(self.vars@);
        }
        self.vars.len()
    }

    /// Whether `id` is one of the free variables.
    pub fn contains(&self, id: &Ident) -> (r: bool)
        ensures
            r == self@.contains(id@),
    {
        let mut k: usize = 0;
        while k < self.vars.len()
            invariant
                k <= self.vars.len(),
                forall|j: int| 0 <= j < k ==> self.vars@[j]@ != id@,
            decreases self.vars.len() - k,
        {
            if self.vars[k] == *id {
                proof {
                    lemma_names_of_contains(self.vars@, id@);
                    assert((k as int) < self.vars@.len() && self.vars@[k as int]@ == id@);
                }
                return true;
            }
            k += 1;
        }
        proof {
            lemma_names_of_contains(self.vars@, id@);
        }
        false
    }

    /// The free variables as a list of identifiers, each name once.
    pub fn to_idents(&self) -> (r: Vec<Ident>)
        ensures
            names_of(r@) == self@,
    {
        let mut r: Vec<Ident> = Vec::new();
        let mut k: usize = 0;
        while k < self.vars.len()
            invariant
                k <= self.vars.len(),
                r@ == self.vars@.take(k as int),
            decreases self.vars.len() - k,
        {
            r.push(self.vars[k].duplicate());
            proof {
                assert(r@ =~= self.vars@.take(k + 1));
            }
            k += 1;
        }
        proof {
            assert(self.vars@.take(self.vars@.len() as int) =~= self.vars@);
        }
        r
    }

    /// Adds a name, keeping the list duplicate-free.
    fn add(&mut self, id: Ident)
        requires
            old(self).wf(),
        ensures
            final(self).wf(),
            final(self)@ == old(self)@.insert(id@),
    {
        if self.contains(&id) {
            proof {
                assert(self@ =~= old(self)@.insert(id@));
            }
        } else {
            let ghost before = self.vars@;
            self.vars.push(id);
            proof {
                assert(self.vars@.drop_last() =~= before);
                assert(self@ =~= old(self)@.insert(id@));
                lemma_names_of_contains(before, id@);
            }
        }
    }

    /// Adds every name of `other`.
    fn add_all(&mut self, other: FreeVars)
        requires
            old(self).wf(),
        ensures
            final(self).wf(),
            final(self)@ == old(self)@.union(other@),
    {
        let FreeVars { vars } = other;
        let ghost given = vars@;
        let mut rest = vars;
        let ghost taken = Seq::<Ident>::empty();
        proof {
            assert(self@.union(names_of(Seq::<Ident>::empty())) =~= self@);
        }
        // Names are taken from the back so that the part already added is
        // always a suffix of the given list.
        while rest.len() > 0
            invariant
                self.wf(),
                given == rest@ + taken,
                self@ == old(self)@.union(names_of(taken)),
            decreases rest.len(),
        {
            let ghost rest_before = rest@;
            let ghost added_before = taken;
            let id = rest.pop().unwrap();
            proof {
                taken = seq![id] + taken;
                assert(rest@ =~= rest_before.drop_last());
                assert(given =~= rest@ + taken);
                lemma_names_of_prepend(id, added_before);
            }
            self.add(id);
            proof {
                assert(self@ =~= old(self)@.union(names_of(taken)));
            }
        }
        proof {
            assert(given =~= taken);
        }
    }

    /// Removes a name.
    fn remove(&mut self, id: &Ident)
        requires
            old(self).wf(),
        ensures
            final(self).wf(),
            final(self)@ == old(self)@.remove(id@),
    {
        let ghost given = self.vars@;
        let mut kept = FreeVars::empty();
        let mut k: usize = 0;
        proof {
            assert(Set::<Seq<char>>::empty() =~= names_of(given.take(0)).remove(id@));
        }
        while k < self.vars.len()
            invariant
                k <= self.vars.len(),
                given == self.vars@,
                old(self).wf(),
                kept.wf(),
                kept@ == names_of(given.take(k as int)).remove(id@),
            decreases self.vars.len() - k,
        {
            let ghost before = kept@;
            if !(self.vars[k] == *id) {
                let v = self.vars[k].duplicate();
                kept.add(v);
            }
            proof {
                assert(given.take(k + 1).drop_last() =~= given.take(k as int));
                assert(names_of(given.take(k + 1)) == names_of(given.take(k as int)).insert(
                    given[k as int]@,
                ));
                assert(kept@ =~= names_of(given.take(k + 1)).remove(id@));
            }
            k += 1;
        }
        proof {
            assert(given.take(given.len() as int) =~= given);
        }
        *self = kept;
    }
}

proof fn lemma_names_of_prepend(id: Ident, s: Seq<Ident>)
    ensures
        names_of(seq![id] + s) == names_of(s).insert(id@),
    decreases s.len(),
{
    if s.len() == 0 {
        assert((seq![id] + s).drop_last() =~= Seq::<Ident>::empty());
        assert((seq![id] + s).last() == id);
        assert(names_of(Seq::<Ident>::empty()) == Set::<Seq<char>>::empty());
        assert(names_of(s) == Set::<Seq<char>>::empty());
        assert(names_of(seq![id] + s) =~= names_of(s).insert(id@));
    } else {
        let x = seq![id] + s;
        assert(x.drop_last() =~= seq![id] + s.drop_last());
        assert(x.last() == s.last());
        lemma_names_of_prepend(id, s.drop_last());
        assert(names_of(x) == names_of(x.drop_last()).insert(x.last()@));
        assert(names_of(x.drop_last()) == names_of(s.drop_last()).insert(id@));
        assert(names_of(s) == names_of(s.drop_last()).insert(s.last()@));
        assert(names_of(seq![id] + s) =~= names_of(s).insert(id@));
    }
}

proof fn lemma_distinct_names_len(s: Seq<Ident>)
    requires
        forall|i: int, j: int| 0 <= i < j < s.len() ==> s[i]@ != s[j]@,
    ensures
        names_of(s).len() == s.len(),
        names_of(s).finite(),
    decreases s.len(),
{
    if s.len() > 0 {
        lemma_distinct_names_len(s.drop_last());
        lemma_names_of_contains(s.drop_last(), s.last()@);
    }
}

impl Expr {
    /// The set of free variables of this term.
    pub fn free_vars(&self) -> (r: FreeVars)
        ensures
            r@ == free_vars_of(self@),
            r.wf(),
        decreases self,
    {
        match self {
            Expr::Variable(id) => {
                let mut r = FreeVars::empty();
                r.add(id.duplicate());
                r
            },
            Expr::Symbol(_) => FreeVars::empty(),
            Expr::Apply { lhs, rhs } => {
                let mut r = lhs.free_vars();
                r.add_all(rhs.free_vars());
                r
            },
            Expr::Lambda { param, body } => {
                let mut r = body.free_vars();
                r.remove(param);
                r
            },
        }
    }
}

/// The set of free variables of `expr`.
pub fn free_vars(expr: &Expr) -> (r: FreeVars)
    ensures
        r@ == free_vars_of(expr@),
        r.wf(),
{
    expr.free_vars()
}

} // verus!
