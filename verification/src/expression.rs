//! The term structure of the language: variables, symbols, application and
//! λ-abstraction, together with the mathematical model that the contracts of
//! this crate are stated over.

pub mod apply;
pub mod display;
pub mod free_vars;
pub mod substitute;
pub mod unlambda;

use crate::identifier::Ident;
use vstd::prelude::*;
use vstd::string::StrSliceExecFns;

verus! {

/// The mathematical form of a term, with names as sequences of characters.
pub ghost enum Term {
    Var { id: Seq<char> },
    Sym { id: Seq<char> },
    App { lhs: Box<Term>, rhs: Box<Term> },
    Lam { param: Seq<char>, body: Box<Term> },
}

/// An application node of the model.
pub open spec fn app(lhs: Term, rhs: Term) -> Term {
    Term::App { lhs: Box::new(lhs), rhs: Box::new(rhs) }
}

/// An abstraction node of the model.
pub open spec fn lam(param: Seq<char>, body: Term) -> Term {
    Term::Lam { param, body: Box::new(body) }
}

/// The number of nodes of a term; the measure most recursions shrink.
pub open spec fn term_size(t: Term) -> nat
    decreases t,
{
    match t {
        Term::Var { .. } => 1,
        Term::Sym { .. } => 1,
        Term::App { lhs, rhs } => 1 + term_size(*lhs) + term_size(*rhs),
        Term::Lam { body, .. } => 1 + term_size(*body),
    }
}

/// A term: the four-variant recursive structure the interpreter evaluates.
/// Values are immutable and compared structurally.
#[derive(Debug, PartialEq)]
pub enum Expr {
    /// A name that an enclosing abstraction may bind, and that the
    /// environment may otherwise resolve to a defined function.
    Variable(Ident),
    /// An opaque atomic constant: never resolved and never applicable.
    Symbol(Ident),
    /// Application of a function to an argument.
    Apply { lhs: Box<Expr>, rhs: Box<Expr> },
    /// A single-parameter abstraction.
    Lambda { param: Ident, body: Box<Expr> },
}

/// The model of a term.
pub open spec fn term_of(e: Expr) -> Term
    decreases e,
{
    match e {
        Expr::Variable(id) => Term::Var { id: id@ },
        Expr::Symbol(id) => Term::Sym { id: id@ },
        Expr::Apply { lhs, rhs } => app(term_of(*lhs), term_of(*rhs)),
        Expr::Lambda { param, body } => lam(param@, term_of(*body)),
    }
}

impl View for Expr {
    type V = Term;

    open spec fn view(&self) -> Term {
        term_of(*self)
    }
}

impl Expr {
    /// A variable with the given name.
    pub fn v(label: &str) -> (r: Expr)
        ensures
            r@ == (Term::Var { id: label@ }),
    {
        Expr::Variable(Ident::new(label))
    }

    /// A symbol with the given name.
    pub fn s(label: &str) -> (r: Expr)
        ensures
            r@ == (Term::Sym { id: label@ }),
    {
        Expr::Symbol(Ident::new(label))
    }

    /// The application of `lhs` to `rhs`.
    pub fn a(lhs: Expr, rhs: Expr) -> (r: Expr)
        ensures
            r@ == app(lhs@, rhs@),
    {
        Expr::Apply { lhs: Box::new(lhs), rhs: Box::new(rhs) }
    }

    /// The abstraction binding `param` in `body`.
    pub fn l(param: Ident, body: Expr) -> (r: Expr)
        ensures
            r@ == lam(param@, body@),
    {
        Expr::Lambda { param, body: Box::new(body) }
    }

    /// A structural copy of this term.
    pub fn duplicate(&self) -> (r: Expr)
        ensures
            r == *self,
        decreases self,
    {
        match self {
            Expr::Variable(id) => Expr::Variable(id.duplicate()),
            Expr::Symbol(id) => Expr::Symbol(id.duplicate()),
            Expr::Apply { lhs, rhs } => Expr::Apply {
                lhs: Box::new(lhs.duplicate()),
                rhs: Box::new(rhs.duplicate()),
            },
            Expr::Lambda { param, body } => Expr::Lambda {
                param: param.duplicate(),
                body: Box::new(body.duplicate()),
            },
        }
    }
}

impl<'a> From<&'a str> for Expr {
    /// Reads `:name` as a symbol and any other text as a variable.
    fn from(s: &'a str) -> (r: Expr) {
        let n = s.unicode_len();
        if n >= 1 && s.get_char(0) == ':' {
            Expr::Symbol(Ident::new(s.substring_char(1, n)))
        } else {
            Expr::Variable(Ident::new(s))
        }
    }
}

impl<'a> vstd::std_specs::convert::FromSpecImpl<&'a str> for Expr {
    open spec fn obeys_from_spec() -> bool {
        false
    }

    open spec fn from_spec(s: &'a str) -> Expr {
        arbitrary()
    }
}

} // verus!
