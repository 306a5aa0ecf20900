//! Rendering terms in the arrow-function syntax: applications group along the
//! spine as `f(a, b)`, and nested abstractions group their parameters as
//! `(x, y) => body`.

use crate::expression::{Expr, Term};
use vstd::prelude::*;
use vstd::string::{StrSliceExecFns, StringExecFns};

verus! {

/// The arrow-syntax text of an application's head and arguments, without the
/// closing parenthesis.
pub open spec fn ecma_app_text(t: Term) -> Seq<char>
    decreases crate::expression::term_size(t), 0int,
{
    match t {
        Term::App { lhs, rhs } => match *lhs {
            Term::App { .. } => ecma_app_text(*lhs) + seq![',', ' '] + ecma_text(*rhs),
            _ => ecma_text(*lhs) + seq!['('] + ecma_text(*rhs),
        },
        _ => Seq::empty(),
    }
}

/// The parameters of a chain of abstractions, outermost first, separated by
/// commas.
pub open spec fn ecma_params_text(t: Term) -> Seq<char>
    decreases t,
{
    match t {
        Term::Lam { param, body } => match *body {
            Term::Lam { .. } => param + seq![',', ' '] + ecma_params_text(*body),
            _ => param,
        },
        _ => Seq::empty(),
    }
}

/// The first term under a chain of abstractions.
pub open spec fn ecma_chain_body(t: Term) -> Term
    decreases t,
{
    match t {
        Term::Lam { body, .. } => ecma_chain_body(*body),
        _ => t,
    }
}

/// The arrow-syntax text of a term.
pub open spec fn ecma_text(t: Term) -> Seq<char>
    decreases crate::expression::term_size(t), 1int,
        via ecma_text_decreases
{
    match t {
        Term::Var { id } => id,
        Term::Sym { id } => seq![':'] + id,
        Term::App { .. } => ecma_app_text(t) + seq![')'],
        Term::Lam { param, body } => match *body {
            Term::Lam { .. } => seq!['('] + ecma_params_text(t) + seq![')', ' ', '=', '>', ' ']
                + ecma_text(ecma_chain_body(t)),
            _ => param + seq![' ', '=', '>', ' '] + ecma_text(*body),
        },
    }
}

#[via_fn]
proof fn ecma_text_decreases(t: Term) {
    match t {
        Term::Lam { param, body } => {
            if *body is Lam {
                lemma_chain_body_size(*body);
            }
        },
        _ => {},
    }
}

proof fn lemma_chain_body_size(t: Term)
    ensures
        crate::expression::term_size(ecma_chain_body(t)) <= crate::expression::term_size(t),
    decreases t,
{
    match t {
        Term::Lam { body, .. } => {
            lemma_chain_body_size(*body);
        },
        _ => {},
    }
}

/// A term to be written in the arrow syntax.
#[derive(Debug, PartialEq)]
pub struct ECMAScriptStyle<'a>(pub &'a Expr);

impl<'a> ECMAScriptStyle<'a> {
    /// The wrapped term's text.
    pub fn to_string(&self) -> (r: String)
        ensures
            r@ == ecma_text(self.0@),
    {
        ecma_string(self.0)
    }
}

/// The arrow-syntax text of a term.
pub fn ecma_string(expr: &Expr) -> (r: String)
    ensures
        r@ == ecma_text(expr@),
    decreases crate::expression::term_size(expr@), 1int,
{
    proof {
        reveal_strlit(":");
        reveal_strlit(")");
        reveal_strlit("(");
        reveal_strlit(" => ");
        reveal_strlit(") => ");
    }
    match expr {
        Expr::Variable(id) => id.label().to_owned(),
        Expr::Symbol(id) => {
            let mut r = String::new();
            r.append(":");
            r.append(id.label());
            proof {
                assert(r@ =~= seq![':'] + id@);
            }
            r
        },
        Expr::Apply { .. } => {
            let mut r = ecma_app_string(expr);
            r.append(")");
            proof {
                assert(r@ =~= ecma_app_text(expr@) + seq![')']);
            }
            r
        },
        Expr::Lambda { param, body } => {
            match &**body {
                Expr::Lambda { .. } => {
                    proof {
                        assert(ecma_chain_body(expr@) == ecma_chain_body((**body)@));
                        lemma_chain_body_size((**body)@);
                    }
                    let mut r = String::new();
                    r.append("(");
                    r.append(ecma_params_string(expr).as_str());
                    r.append(") => ");
                    r.append(ecma_string(chain_body(expr)).as_str());
                    proof {
                        assert(") => "@ =~= seq![')', ' ', '=', '>', ' ']);
                        assert(r@ =~= seq!['('] + ecma_params_text(expr@) + seq![')', ' ', '=',
                            '>', ' '] + ecma_text(ecma_chain_body(expr@)));
                    }
                    r
                },
                _ => {
                    let mut r = String::new();
                    r.append(param.label());
                    r.append(" => ");
                    r.append(ecma_string(body).as_str());
                    proof {
                        assert(" => "@ =~= seq![' ', '=', '>', ' ']);
                        assert(r@ =~= param@ + seq![' ', '=', '>', ' '] + ecma_text((**body)@));
                    }
                    r
                },
            }
        },
    }
}

/// The head and arguments of an application, without the closing parenthesis.
fn ecma_app_string(expr: &Expr) -> (r: String)
    requires
        expr is Apply,
    ensures
        r@ == ecma_app_text(expr@),
    decreases crate::expression::term_size(expr@), 0int,
{
    proof {
        reveal_strlit(", ");
        reveal_strlit("(");
    }
    match expr {
        Expr::Apply { lhs, rhs } => {
            match &**lhs {
                Expr::Apply { .. } => {
                    let mut r = ecma_app_string(lhs);
                    r.append(", ");
                    r.append(ecma_string(rhs).as_str());
                    proof {
                        assert(", "@ =~= seq![',', ' ']);
                        assert(r@ =~= ecma_app_text((**lhs)@) + seq![',', ' '] + ecma_text(
                            (**rhs)@,
                        ));
                    }
                    r
                },
                _ => {
                    let mut r = ecma_string(lhs);
                    r.append("(");
                    r.append(ecma_string(rhs).as_str());
                    proof {
                        assert(r@ =~= ecma_text((**lhs)@) + seq!['('] + ecma_text((**rhs)@));
                    }
                    r
                },
            }
        },
        _ => vstd::pervasive::unreached(),
    }
}

/// The parameters of a chain of abstractions, outermost first.
fn ecma_params_string(expr: &Expr) -> (r: String)
    ensures
        r@ == ecma_params_text(expr@),
    decreases expr,
{
    proof {
        reveal_strlit(", ");
    }
    match expr {
        Expr::Lambda { param, body } => {
            match &**body {
                Expr::Lambda { .. } => {
                    let mut r = param.label().to_owned();
                    r.append(", ");
                    r.append(ecma_params_string(body).as_str());
                    proof {
                        assert(", "@ =~= seq![',', ' ']);
                        assert(r@ =~= param@ + seq![',', ' '] + ecma_params_text((**body)@));
                    }
                    r
                },
                _ => param.label().to_owned(),
            }
        },
        _ => String::new(),
    }
}

/// The first term under a chain of abstractions.
fn chain_body(expr: &Expr) -> (r: &Expr)
    ensures
        r@ == ecma_chain_body(expr@),
        crate::expression::term_size(r@) <= crate::expression::term_size(expr@),
    decreases expr,
{
    proof {
        lemma_chain_body_size(expr@);
    }
    match expr {
        Expr::Lambda { body, .. } => chain_body(body),
        _ => expr,
    }
}

} // verus!
