//! Application at the head of a term: a term's arity against an environment,
//! and the result of giving it exactly that many arguments.

use crate::context::Context;
use crate::expression::substitute::subst;
use crate::expression::{Expr, Term};
use crate::function::{subst_fold, FuncModel};
use vstd::prelude::*;

verus! {

/// The arity of a term at the head of an application: an abstraction always
/// consumes one argument; a variable consumes what the function it names
/// consumes; anything else, including an unbound variable, has no arity.
pub open spec fn arity_of(t: Term, env: Map<Seq<char>, FuncModel>) -> Option<nat> {
    match t {
        Term::Lam { .. } => Some(1 as nat),
        Term::Var { id } => if env.contains_key(id) {
            Some(env[id].params.len())
        } else {
            None
        },
        _ => None,
    }
}

/// The term an applicable head reduces to when given exactly its arity of
/// arguments; `None` where the head is not applicable.
pub open spec fn apply_of(t: Term, env: Map<Seq<char>, FuncModel>, args: Seq<Term>) -> Option<
    Term,
> {
    match t {
        Term::Lam { param, body } => Some(subst(*body, param, args[0])),
        Term::Var { id } => if env.contains_key(id) {
            Some(subst_fold(env[id].body, env[id].params, args))
        } else {
            None
        },
        _ => None,
    }
}

impl Expr {
    /// The arity of this term as a redex head, if it has one.
    pub fn arity(&self, context: &Context) -> (r: Option<usize>)
        requires
            context.wf(),
        ensures
            match r {
                Some(n) => arity_of(self@, context@) == Some(n as nat),
                None => arity_of(self@, context@) is None,
            },
    {
        match self {
            Expr::Lambda { .. } => Some(1),
            Expr::Variable(id) => context.arity(id),
            _ => None,
        }
    }

    /// Applies this term, as a redex head, to exactly its arity of arguments;
    /// `None` signals that there is no redex here, not a failure.
    pub fn apply(&self, context: &Context, args: Vec<Expr>) -> (r: Option<Expr>)
        requires
            context.wf(),
            arity_of(self@, context@) matches Some(n) ==> args@.len() == n,
        ensures
            match r {
                Some(e) => apply_of(self@, context@, args@.map_values(|a: Expr| a@)) == Some(e@),
                None => apply_of(self@, context@, args@.map_values(|a: Expr| a@)) is None
                    && arity_of(self@, context@) is None,
            },
    {
        match self {
            Expr::Lambda { param, body } => {
                proof {
                    assert(args@.map_values(|a: Expr| a@)[0] == args@[0]@);
                }
                Some(body.duplicate().substitute(param, &args[0]))
            },
            Expr::Variable(id) => match context.get(id) {
                Some(func) => Some(func.apply(args)),
                None => None,
            },
            _ => None,
        }
    }
}

} // verus!
