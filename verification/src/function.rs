//! Named functions: a closed, curried combinator with a fixed list of
//! parameters, applied by substituting each parameter in declared order.

pub mod display;

use crate::expression::substitute::subst;
use crate::expression::{Expr, Term};
use crate::identifier::Ident;
use vstd::prelude::*;

verus! {

broadcast use vstd::string::group_string_axioms;

/// The mathematical form of a defined function.
pub ghost struct FuncModel {
    pub name: Seq<char>,
    pub params: Seq<Seq<char>>,
    pub body: Term,
}

/// Whether a parameter list holds pairwise distinct names.
pub open spec fn params_distinct(params: Seq<Seq<char>>) -> bool {
    forall|i: int, j: int| 0 <= i < j < params.len() ==> params[i] != params[j]
}

/// The names of a list of identifiers, in order.
pub open spec fn param_names(params: Seq<Ident>) -> Seq<Seq<char>> {
    params.map_values(|p: Ident| p@)
}

/// Applying a function: its parameters are substituted one after the other,
/// in declared order, each pass completing before the next begins.
pub open spec fn subst_fold(body: Term, params: Seq<Seq<char>>, args: Seq<Term>) -> Term
    decreases params.len(),
{
    if params.len() == 0 || args.len() == 0 {
        body
    } else {
        subst_fold(
            subst(body, params.first(), args.first()),
            params.drop_first(),
            args.drop_first(),
        )
    }
}

/// A named, fixed-arity function: applying it to exactly `arity` arguments
/// substitutes each parameter in the body.
#[derive(Debug, PartialEq)]
pub struct Func {
    name: Ident,
    params: Vec<Ident>,
    body: Expr,
}

impl View for Func {
    type V = FuncModel;

    closed spec fn view(&self) -> FuncModel {
        FuncModel { name: self.name@, params: param_names(self.params@), body: self.body@ }
    }
}

impl Func {
    /// Whether the parameters are pairwise distinct, as a well-formed
    /// definition requires.
    pub open spec fn wf(&self) -> bool {
        params_distinct(self@.params)
    }

    /// Builds a function; a definition with a repeated parameter name is
    /// malformed and is rejected here, at construction time.
    pub fn new(name: Ident, params: Vec<Ident>, body: Expr) -> (r: Func)
        requires
            params_distinct(param_names(params@)),
        ensures
            r@ == (FuncModel { name: name@, params: param_names(params@), body: body@ }),
            r.wf(),
    {
        Func { name, params, body }
    }

    pub fn name(&self) -> (r: &Ident)
        ensures
            r@ == self@.name,
    {
        &self.name
    }

    /// How many arguments the function consumes.
    pub fn arity(&self) -> (r: usize)
        ensures
            r == self@.params.len(),
    {
        self.params.len()
    }

    pub fn body(&self) -> (r: &Expr)
        ensures
            r@ == self@.body,
    {
        &self.body
    }

    /// A structural copy of this function.
    pub fn duplicate(&self) -> (r: Func)
        ensures
            r@ == self@,
    {
        let mut params: Vec<Ident> = Vec::new();
        let mut k: usize = 0;
        while k < self.params.len()
            invariant
                k <= self.params.len(),
                params@ == self.params@.take(k as int),
            decreases self.params.len() - k,
        {
            params.push(self.params[k].duplicate());
            proof {
                assert(params@ =~= self.params@.take(k + 1));
            }
            k += 1;
        }
        proof {
            assert(self.params@.take(self.params@.len() as int) =~= self.params@);
        }
        let r = Func { name: self.name.duplicate(), params, body: self.body.duplicate() };
        proof {
            assert(r@.params =~= self@.params);
        }
        r
    }

    /// Applies the function to exactly `arity` arguments: each parameter is
    /// substituted into the body in declared order.
    pub fn apply(&self, args: Vec<Expr>) -> (r: Expr)
        requires
            args@.len() == self@.params.len(),
        ensures
            r@ == subst_fold(self@.body, self@.params, args@.map_values(|e: Expr| e@)),
    {
        let ghost all_params = self@.params;
        let ghost all_args = args@.map_values(|e: Expr| e@);
        let mut body = self.body.duplicate();
        let mut k: usize = 0;
        proof {
            assert(all_params.skip(0) =~= all_params);
            assert(all_args.skip(0) =~= all_args);
        }
        while k < self.params.len()
            invariant
                k <= self.params.len(),
                all_params == self@.params,
                all_args == args@.map_values(|e: Expr| e@),
                args@.len() == all_params.len(),
                subst_fold(self@.body, all_params, all_args) == subst_fold(
                    body@,
                    all_params.skip(k as int),
                    all_args.skip(k as int),
                ),
            decreases self.params.len() - k,
        {
            let ghost before = body@;
            body = body.substitute(&self.params[k], &args[k]);
            proof {
                assert(all_params.skip(k as int).first() == all_params[k as int]);
                assert(all_args.skip(k as int).first() == all_args[k as int]);
                assert(all_params.skip(k as int).drop_first() =~= all_params.skip(k + 1));
                assert(all_args.skip(k as int).drop_first() =~= all_args.skip(k + 1));
                assert(subst_fold(before, all_params.skip(k as int), all_args.skip(k as int))
                    == subst_fold(body@, all_params.skip(k + 1), all_args.skip(k + 1)));
            }
            k += 1;
        }
        proof {
            assert(all_params.skip(all_params.len() as int).len() == 0);
        }
        body
    }
}

/// The identity combinator: one parameter, returned unchanged.
pub fn i() -> (r: Func)
    ensures
        r@ == (FuncModel {
            name: "i"@,
            params: seq!["x"@],
            body: Term::Var { id: "x"@ },
        }),
        r.wf(),
{
    let params = vec![Ident::new("x")];
    proof {
        assert(param_names(params@) =~= seq!["x"@]);
    }
    let r = Func::new(Ident::new("i"), params, Expr::v("x"));
    r
}

/// The constant combinator: two parameters, the first returned.
pub fn k() -> (r: Func)
    ensures
        r@ == (FuncModel {
            name: "k"@,
            params: seq!["x"@, "y"@],
            body: Term::Var { id: "x"@ },
        }),
        r.wf(),
{
    proof {
        reveal_strlit("x");
        reveal_strlit("y");
        assert("x"@[0] == 'x' && "y"@[0] == 'y');
        assert("x"@ != "y"@);
    }
    let params = vec![Ident::new("x"), Ident::new("y")];
    proof {
        assert(param_names(params@) =~= seq!["x"@, "y"@]);
    }
    let r = Func::new(Ident::new("k"), params, Expr::v("x"));
    r
}

/// The distributing combinator: three parameters `x`, `y`, `z`, giving
/// `(x z) (y z)`.
pub fn s() -> (r: Func)
    ensures
        r@ == (FuncModel {
            name: "s"@,
            params: seq!["x"@, "y"@, "z"@],
            body: crate::expression::app(
                crate::expression::app(Term::Var { id: "x"@ }, Term::Var { id: "z"@ }),
                crate::expression::app(Term::Var { id: "y"@ }, Term::Var { id: "z"@ }),
            ),
        }),
        r.wf(),
{
    proof {
        reveal_strlit("x");
        reveal_strlit("y");
        reveal_strlit("z");
        assert("x"@[0] == 'x' && "y"@[0] == 'y' && "z"@[0] == 'z');
        assert("x"@ != "y"@ && "x"@ != "z"@ && "y"@ != "z"@);
    }
    let params = vec![Ident::new("x"), Ident::new("y"), Ident::new("z")];
    proof {
        assert(param_names(params@) =~= seq!["x"@, "y"@, "z"@]);
    }
    let r = Func::new(
        Ident::new("s"),
        params,
        Expr::a(
            Expr::a(Expr::v("x"), Expr::v("z")),
            Expr::a(Expr::v("y"), Expr::v("z")),
        ),
    );
    r
}

} // verus!
