//! Bracket abstraction: a total transform that eliminates every λ-abstraction
//! in favour of the combinators `s`, `k` and `i`, peeling abstractions from
//! the inside out. A bare symbol under abstraction is wrapped with `k`, the
//! same way as a constant variable.

use crate::expression::free_vars::free_vars_of;
use crate::expression::{app, Expr, Term};
use crate::identifier::Ident;
use vstd::prelude::*;

verus! {

/// Whether a term holds no abstraction node.
pub open spec fn no_lambda(t: Term) -> bool
    decreases t,
{
    match t {
        Term::Var { .. } => true,
        Term::Sym { .. } => true,
        Term::App { lhs, rhs } => no_lambda(*lhs) && no_lambda(*rhs),
        Term::Lam { .. } => false,
    }
}

/// Eliminates one bound parameter from a λ-free term: the parameter itself
/// becomes `i`; a constant name or symbol is guarded by `k`; an application
/// of a constant function directly to the parameter loses the abstraction
/// altogether; any other application is distributed with `s`.
pub open spec fn bracket_of(t: Term, param: Seq<char>) -> Term
    decreases t,
{
    match t {
        Term::Var { id } => if id == param {
            Term::Var { id: "i"@ }
        } else {
            app(Term::Var { id: "k"@ }, t)
        },
        Term::Sym { .. } => app(Term::Var { id: "k"@ }, t),
        Term::App { lhs, rhs } => {
            if *rhs == (Term::Var { id: param }) && !free_vars_of(*lhs).contains(param) {
                *lhs
            } else {
                app(
                    app(Term::Var { id: "s"@ }, bracket_of(*lhs, param)),
                    bracket_of(*rhs, param),
                )
            }
        },
        Term::Lam { .. } => t,
    }
}

/// The whole transform: applications are rebuilt from transformed sides, and
/// each abstraction is eliminated by bracketing its parameter out of its
/// already λ-free body.
pub open spec fn unlambda_of(t: Term) -> Term
    decreases t,
{
    match t {
        Term::Var { .. } => t,
        Term::Sym { .. } => t,
        Term::App { lhs, rhs } => app(unlambda_of(*lhs), unlambda_of(*rhs)),
        Term::Lam { param, body } => bracket_of(unlambda_of(*body), param),
    }
}

proof fn lemma_bracket_no_lambda(t: Term, param: Seq<char>)
    requires
        no_lambda(t),
    ensures
        no_lambda(bracket_of(t, param)),
    decreases t,
{
    match t {
        Term::App { lhs, rhs } => {
            lemma_bracket_no_lambda(*lhs, param);
            lemma_bracket_no_lambda(*rhs, param);
            if *rhs == (Term::Var { id: param }) && !free_vars_of(*lhs).contains(param) {
                assert(bracket_of(t, param) == *lhs);
            } else {
                let b1 = bracket_of(*lhs, param);
                let b2 = bracket_of(*rhs, param);
                let sv = Term::Var { id: "s"@ };
                assert(no_lambda(sv));
                let inner = app(sv, b1);
                assert(inner matches Term::App { lhs: l2, rhs: r2 } && *l2 == sv && *r2 == b1);
                assert(no_lambda(inner));
                let outer = app(inner, b2);
                assert(outer matches Term::App { lhs: l3, rhs: r3 } && *l3 == inner && *r3 == b2);
                assert(no_lambda(outer));
                assert(bracket_of(t, param) == outer);
            }
        },
        Term::Var { id } => {
            assert(no_lambda(Term::Var { id: "i"@ }));
            assert(no_lambda(Term::Var { id: "k"@ }));
        },
        Term::Sym { .. } => {
            assert(no_lambda(Term::Var { id: "k"@ }));
        },
        Term::Lam { .. } => {},
    }
}

/// The transform leaves no abstraction behind, whatever the term.
pub proof fn lemma_unlambda_no_lambda(t: Term)
    ensures
        no_lambda(unlambda_of(t)),
    decreases t,
{
    match t {
        Term::App { lhs, rhs } => {
            lemma_unlambda_no_lambda(*lhs);
            lemma_unlambda_no_lambda(*rhs);
        },
        Term::Lam { body, .. } => {
            lemma_unlambda_no_lambda(*body);
            lemma_bracket_no_lambda(unlambda_of(*body), t->Lam_param);
        },
        _ => {},
    }
}

impl Expr {
    /// Rewrites this term into one holding no abstraction, over the
    /// combinators `s`, `k` and `i`.
    pub fn unlambda(self) -> (r: Expr)
        ensures
            r@ == unlambda_of(self@),
            no_lambda(r@),
        decreases self,
    {
        proof {
            lemma_unlambda_no_lambda(self@);
        }
        match self {
            Expr::Variable(_) => self,
            Expr::Symbol(_) => self,
            Expr::Apply { lhs, rhs } => Expr::a((*lhs).unlambda(), (*rhs).unlambda()),
            Expr::Lambda { param, body } => (*body).unlambda().bracket(&param),
        }
    }

    fn bracket(self, param: &Ident) -> (r: Expr)
        requires
            no_lambda(self@),
        ensures
            r@ == bracket_of(self@, param@),
        decreases self,
    {
        match self {
            Expr::Variable(id) => if id == *param {
                Expr::v("i")
            } else {
                Expr::a(Expr::v("k"), Expr::Variable(id))
            },
            Expr::Symbol(id) => Expr::a(Expr::v("k"), Expr::Symbol(id)),
            Expr::Apply { lhs, rhs } => {
                let eta = match &*rhs {
                    Expr::Variable(id) => *id == *param,
                    _ => false,
                } && !lhs.free_vars().contains(param);
                if eta {
                    proof {
                        assert((*rhs)@ == (Term::Var { id: param@ }));
                    }
                    *lhs
                } else {
                    Expr::a(
                        Expr::a(Expr::v("s"), (*lhs).bracket(param)),
                        (*rhs).bracket(param),
                    )
                }
            },
            Expr::Lambda { .. } => {
                proof {
                    assert(false);
                }
                vstd::pervasive::unreached()
            },
        }
    }
}

} // verus!
