//! Capture-avoiding substitution: replacing the free occurrences of one
//! identifier by a term, renaming bound variables where they would otherwise
//! capture a free variable of the inserted term.

use crate::expression::free_vars::{binders_of, free_vars_of, term_vars_of, FreeVars};
use crate::expression::{app, lam, term_size, Expr, Term};
use crate::identifier::{fresh_name_of, names_of, Ident};
use vstd::prelude::*;

verus! {

/// Renames the free occurrences of `from` to `to`: an abstraction that
/// rebinds `from` is left untouched, since no occurrence below it is free.
pub open spec fn rename_free(t: Term, from: Seq<char>, to: Seq<char>) -> Term
    decreases t,
{
    match t {
        Term::Var { id } => if id == from {
            Term::Var { id: to }
        } else {
            t
        },
        Term::Sym { .. } => t,
        Term::App { lhs, rhs } => app(
            rename_free(*lhs, from, to),
            rename_free(*rhs, from, to),
        ),
        Term::Lam { param, body } => if param == from {
            t
        } else {
            lam(param, rename_free(*body, from, to))
        },
    }
}

pub proof fn lemma_rename_free_size(t: Term, from: Seq<char>, to: Seq<char>)
    ensures
        term_size(rename_free(t, from, to)) == term_size(t),
    decreases t,
{
    match t {
        Term::App { lhs, rhs } => {
            lemma_rename_free_size(*lhs, from, to);
            lemma_rename_free_size(*rhs, from, to);
        },
        Term::Lam { param, body } => {
            if param != from {
                lemma_rename_free_size(*body, from, to);
            }
        },
        _ => {},
    }
}

/// One descent of capture-avoiding substitution. `afv` is the set of free
/// variables of the inserted term `a`; `bound` is the set of binders already
/// passed on the way down. A colliding binder's fresh name is chosen against
/// both sets, so that it can capture neither an enclosing binder nor a free
/// variable of the argument.
pub open spec fn subst_rec(
    t: Term,
    x: Seq<char>,
    a: Term,
    afv: Set<Seq<char>>,
    bound: Set<Seq<char>>,
) -> Term
    decreases term_size(t),
        via subst_rec_decreases
{
    match t {
        Term::Var { id } => if id == x {
            a
        } else {
            t
        },
        Term::Sym { .. } => t,
        Term::App { lhs, rhs } => app(
            subst_rec(*lhs, x, a, afv, bound),
            subst_rec(*rhs, x, a, afv, bound),
        ),
        Term::Lam { param, body } => {
            if param == x {
                t
            } else if afv.contains(param) {
                let renamed = fresh_name_of(param, bound.union(afv));
                lam(
                    renamed,
                    subst_rec(
                        rename_free(*body, param, renamed),
                        x,
                        a,
                        afv,
                        bound.insert(renamed),
                    ),
                )
            } else {
                lam(param, subst_rec(*body, x, a, afv, bound.insert(param)))
            }
        },
    }
}

#[via_fn]
proof fn subst_rec_decreases(
    t: Term,
    x: Seq<char>,
    a: Term,
    afv: Set<Seq<char>>,
    bound: Set<Seq<char>>,
) {
    match t {
        Term::Lam { param, body } => {
            if param != x && afv.contains(param) {
                lemma_rename_free_size(*body, param, fresh_name_of(param, bound.union(afv)));
            }
        },
        _ => {},
    }
}

/// Capture-avoiding substitution of `a` for the free occurrences of `x` in
/// `t`, starting with no binders passed.
pub open spec fn subst(t: Term, x: Seq<char>, a: Term) -> Term {
    subst_rec(t, x, a, free_vars_of(a), Set::empty())
}

/// A structural copy of a list of identifiers.
fn duplicate_names(v: &Vec<Ident>) -> (r: Vec<Ident>)
    ensures
        r@ == v@,
{
    let mut r: Vec<Ident> = Vec::new();
    let mut k: usize = 0;
    while k < v.len()
        invariant
            k <= v.len(),
            r@ == v@.take(k as int),
        decreases v.len() - k,
    {
        r.push(v[k].duplicate());
        proof {
            assert(r@ =~= v@.take(k + 1));
        }
        k += 1;
    }
    proof {
        assert(v@.take(v@.len() as int) =~= v@);
    }
    r
}

impl Expr {
    /// Renames the free occurrences of `from` in this term to `to`.
    pub fn rename_var(&mut self, from: &Ident, to: &Ident)
        ensures
            final(self)@ == rename_free(old(self)@, from@, to@),
    {
        let mut inner = Expr::Variable(Ident::new(""));
        core::mem::swap(self, &mut inner);
        *self = inner.rename_apply(from, to);
    }

    fn rename_apply(self, from: &Ident, to: &Ident) -> (r: Expr)
        ensures
            r@ == rename_free(self@, from@, to@),
        decreases self,
    {
        match self {
            Expr::Variable(id) => if id == *from {
                Expr::Variable(to.duplicate())
            } else {
                Expr::Variable(id)
            },
            Expr::Symbol(id) => Expr::Symbol(id),
            Expr::Apply { lhs, rhs } => Expr::Apply {
                lhs: Box::new((*lhs).rename_apply(from, to)),
                rhs: Box::new((*rhs).rename_apply(from, to)),
            },
            Expr::Lambda { param, body } => if param == *from {
                Expr::Lambda { param, body }
            } else {
                Expr::Lambda { param, body: Box::new((*body).rename_apply(from, to)) }
            },
        }
    }

    /// Replaces every free occurrence of `param` in this term by `arg`,
    /// renaming bound variables where a free variable of `arg` would
    /// otherwise be captured.
    pub fn substitute(self, param: &Ident, arg: &Expr) -> (r: Expr)
        ensures
            r@ == subst(self@, param@, arg@),
    {
        let afv = arg.free_vars();
        let mut bound: Vec<Ident> = Vec::new();
        proof {
            assert(names_of(bound@) =~= Set::<Seq<char>>::empty());
        }
        self.substitute_impl(param, arg, &afv, &mut bound)
    }

    fn substitute_impl(
        self,
        param: &Ident,
        arg: &Expr,
        afv: &FreeVars,
        bound: &mut Vec<Ident>,
    ) -> (r: Expr)
        requires
            afv@ == free_vars_of(arg@),
        ensures
            r@ == subst_rec(self@, param@, arg@, afv@, names_of(old(bound)@)),
        decreases term_size(self@),
    {
        match self {
            Expr::Variable(id) => if id == *param {
                arg.duplicate()
            } else {
                Expr::Variable(id)
            },
            Expr::Symbol(id) => Expr::Symbol(id),
            Expr::Apply { lhs, rhs } => {
                let mut bound_left = duplicate_names(bound);
                let mut bound_right = duplicate_names(bound);
                Expr::Apply {
                    lhs: Box::new((*lhs).substitute_impl(param, arg, afv, &mut bound_left)),
                    rhs: Box::new((*rhs).substitute_impl(param, arg, afv, &mut bound_right)),
                }
            },
            Expr::Lambda { param: p, body } => {
                if p == *param {
                    Expr::Lambda { param: p, body }
                } else if afv.contains(&p) {
                    let ghost body_model = body@;
                    let mut taken = duplicate_names(bound);
                    let mut avoid = afv.to_idents();
                    let ghost avoid_part = avoid@;
                    taken.append(&mut avoid);
                    proof {
                        crate::identifier::lemma_names_of_concat(bound@, avoid_part);
                        assert(names_of(taken@) == names_of(bound@).union(afv@));
                    }
                    let renamed = p.new_name(&taken);
                    let ghost names_before = bound@;
                    bound.push(renamed.duplicate());
                    proof {
                        assert(bound@.drop_last() =~= names_before);
                        assert(names_of(bound@) == names_of(names_before).insert(renamed@));
                    }
                    let mut new_body = *body;
                    new_body.rename_var(&p, &renamed);
                    proof {
                        lemma_rename_free_size(body_model, p@, renamed@);
                    }
                    Expr::Lambda {
                        param: renamed,
                        body: Box::new(new_body.substitute_impl(param, arg, afv, bound)),
                    }
                } else {
                    let ghost names_before = bound@;
                    bound.push(p.duplicate());
                    proof {
                        assert(bound@.drop_last() =~= names_before);
                        assert(names_of(bound@) == names_of(names_before).insert(p@));
                    }
                    Expr::Lambda {
                        param: p,
                        body: Box::new((*body).substitute_impl(param, arg, afv, bound)),
                    }
                }
            },
        }
    }
}


proof fn lemma_subst_rec_absent(
    t: Term,
    x: Seq<char>,
    a: Term,
    afv: Set<Seq<char>>,
    bound: Set<Seq<char>>,
)
    requires
        !term_vars_of(t).contains(x),
        forall|b: Seq<char>| binders_of(t).contains(b) ==> !afv.contains(b),
    ensures
        subst_rec(t, x, a, afv, bound) == t,
    decreases term_size(t),
{
    match t {
        Term::App { lhs, rhs } => {
            lemma_subst_rec_absent(*lhs, x, a, afv, bound);
            lemma_subst_rec_absent(*rhs, x, a, afv, bound);
        },
        Term::Lam { param, body } => {
            assert(binders_of(t).contains(param));
            lemma_subst_rec_absent(*body, x, a, afv, bound.insert(param));
        },
        _ => {},
    }
}

/// Substitution is the identity on a term in which the replaced identifier
/// does not occur at all, as long as no binder of the term is free in the
/// inserted argument; a binder that is free in the argument is renamed even
/// when there is nothing to substitute below it.
pub proof fn lemma_substitute_absent(t: Term, x: Seq<char>, a: Term)
    requires
        !term_vars_of(t).contains(x),
        forall|b: Seq<char>| binders_of(t).contains(b) ==> !free_vars_of(a).contains(b),
    ensures
        subst(t, x, a) == t,
{
    lemma_subst_rec_absent(t, x, a, free_vars_of(a), Set::empty());
}

} // verus!
