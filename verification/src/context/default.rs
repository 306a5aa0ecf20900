//! The default environment: the three base combinators, booleans, pairs,
//! fixed-point combinators and Church numerals, all as ordinary definitions.

use crate::context::Context;
use crate::expression::{Expr, Term};
use crate::function::{i, k, s, param_names, Func, FuncModel};
use crate::identifier::Ident;
use vstd::prelude::*;

verus! {

/// The name, arity and presence of one default entry, as the contract of
/// `Context::default` states them.
pub open spec fn holds_entry(
    m: Map<Seq<char>, FuncModel>,
    name: Seq<char>,
    arity: nat,
) -> bool {
    m.contains_key(name) && m[name].name == name && m[name].params.len() == arity
}

impl Default for Context {
    #[verifier::rlimit(100)]
    /// Pre-populates the environment: `i`, `k` and `s` carry their standard
    /// definitions exactly; booleans, pairs, the fixed-point combinators and
    /// the numerals zero to ten are present as ordinary entries, each under
    /// its own name with its stated arity.
    fn default() -> (r: Context)
        ensures
            r.wf(),
            r@.dom().finite(),
            r@.contains_key("i"@) && r@["i"@] == (FuncModel {
                name: "i"@,
                params: seq!["x"@],
                body: Term::Var { id: "x"@ },
            }),
            r@.contains_key("k"@) && r@["k"@] == (FuncModel {
                name: "k"@,
                params: seq!["x"@, "y"@],
                body: Term::Var { id: "x"@ },
            }),
            r@.contains_key("s"@) && r@["s"@] == (FuncModel {
                name: "s"@,
                params: seq!["x"@, "y"@, "z"@],
                body: crate::expression::app(
                    crate::expression::app(Term::Var { id: "x"@ }, Term::Var { id: "z"@ }),
                    crate::expression::app(Term::Var { id: "y"@ }, Term::Var { id: "z"@ }),
                ),
            }),
            holds_entry(r@, "TRUE"@, 0),
            holds_entry(r@, "FALSE"@, 0),
            holds_entry(r@, "IF"@, 3),
            holds_entry(r@, "NOT"@, 1),
            holds_entry(r@, "AND"@, 2),
            holds_entry(r@, "OR"@, 2),
            holds_entry(r@, "XOR"@, 2),
            holds_entry(r@, "CONS"@, 2),
            holds_entry(r@, "CAR"@, 1),
            holds_entry(r@, "CDR"@, 1),
            holds_entry(r@, "NIL"@, 0),
            holds_entry(r@, "IS_NIL"@, 1),
            holds_entry(r@, "Y"@, 1),
            holds_entry(r@, "Z"@, 1),
            holds_entry(r@, "IS_ZERO"@, 1),
            holds_entry(r@, "SUCC"@, 1),
            holds_entry(r@, "ADD"@, 2),
            holds_entry(r@, "MUL"@, 2),
            holds_entry(r@, "POW"@, 2),
            holds_entry(r@, "PRED"@, 1),
            holds_entry(r@, "SUB"@, 2),
            holds_entry(r@, "GTE"@, 2),
            holds_entry(r@, "LTE"@, 2),
            holds_entry(r@, "EQ"@, 2),
            holds_entry(r@, "0"@, 0),
            holds_entry(r@, "1"@, 0),
            holds_entry(r@, "2"@, 0),
            holds_entry(r@, "3"@, 0),
            holds_entry(r@, "4"@, 0),
            holds_entry(r@, "5"@, 0),
            holds_entry(r@, "6"@, 0),
            holds_entry(r@, "7"@, 0),
            holds_entry(r@, "8"@, 0),
            holds_entry(r@, "9"@, 0),
            holds_entry(r@, "10"@, 0),
    {
        // The length and leading characters of every name below pin the names
        // apart, so that each entry provably survives the later definitions
        // and each parameter list is provably free of repetition.
        proof {
            reveal_strlit("0");
            reveal_strlit("1");
            reveal_strlit("10");
            reveal_strlit("2");
            reveal_strlit("3");
            reveal_strlit("4");
            reveal_strlit("5");
            reveal_strlit("6");
            reveal_strlit("7");
            reveal_strlit("8");
            reveal_strlit("9");
            reveal_strlit("ADD");
            reveal_strlit("AND");
            reveal_strlit("CAR");
            reveal_strlit("CDR");
            reveal_strlit("CONS");
            reveal_strlit("ELSE");
            reveal_strlit("EQ");
            reveal_strlit("FALSE");
            reveal_strlit("GTE");
            reveal_strlit("IF");
            reveal_strlit("IS_NIL");
            reveal_strlit("IS_ZERO");
            reveal_strlit("LTE");
            reveal_strlit("MUL");
            reveal_strlit("NIL");
            reveal_strlit("NOT");
            reveal_strlit("OR");
            reveal_strlit("POW");
            reveal_strlit("PRED");
            reveal_strlit("SUB");
            reveal_strlit("SUCC");
            reveal_strlit("THEN");
            reveal_strlit("TRUE");
            reveal_strlit("XOR");
            reveal_strlit("Y");
            reveal_strlit("Z");
            reveal_strlit("f");
            reveal_strlit("i");
            reveal_strlit("k");
            reveal_strlit("m");
            reveal_strlit("n");
            reveal_strlit("s");
            reveal_strlit("x");
            reveal_strlit("y");
            assert("0"@.len() == 1 && "0"@[0] == '0');
            assert("1"@.len() == 1 && "1"@[0] == '1');
            assert("10"@.len() == 2 && "10"@[0] == '1' && "10"@[1] == '0');
            assert("2"@.len() == 1 && "2"@[0] == '2');
            assert("3"@.len() == 1 && "3"@[0] == '3');
            assert("4"@.len() == 1 && "4"@[0] == '4');
            assert("5"@.len() == 1 && "5"@[0] == '5');
            assert("6"@.len() == 1 && "6"@[0] == '6');
            assert("7"@.len() == 1 && "7"@[0] == '7');
            assert("8"@.len() == 1 && "8"@[0] == '8');
            assert("9"@.len() == 1 && "9"@[0] == '9');
            assert("ADD"@.len() == 3 && "ADD"@[0] == 'A' && "ADD"@[1] == 'D');
            assert("AND"@.len() == 3 && "AND"@[0] == 'A' && "AND"@[1] == 'N');
            assert("CAR"@.len() == 3 && "CAR"@[0] == 'C' && "CAR"@[1] == 'A');
            assert("CDR"@.len() == 3 && "CDR"@[0] == 'C' && "CDR"@[1] == 'D');
            assert("CONS"@.len() == 4 && "CONS"@[0] == 'C' && "CONS"@[1] == 'O');
            assert("ELSE"@.len() == 4 && "ELSE"@[0] == 'E' && "ELSE"@[1] == 'L');
            assert("EQ"@.len() == 2 && "EQ"@[0] == 'E' && "EQ"@[1] == 'Q');
            assert("FALSE"@.len() == 5 && "FALSE"@[0] == 'F' && "FALSE"@[1] == 'A');
            assert("GTE"@.len() == 3 && "GTE"@[0] == 'G' && "GTE"@[1] == 'T');
            assert("IF"@.len() == 2 && "IF"@[0] == 'I' && "IF"@[1] == 'F');
            assert("IS_NIL"@.len() == 6 && "IS_NIL"@[0] == 'I' && "IS_NIL"@[1] == 'S');
            assert("IS_ZERO"@.len() == 7 && "IS_ZERO"@[0] == 'I' && "IS_ZERO"@[1] == 'S');
            assert("LTE"@.len() == 3 && "LTE"@[0] == 'L' && "LTE"@[1] == 'T');
            assert("MUL"@.len() == 3 && "MUL"@[0] == 'M' && "MUL"@[1] == 'U');
            assert("NIL"@.len() == 3 && "NIL"@[0] == 'N' && "NIL"@[1] == 'I');
            assert("NOT"@.len() == 3 && "NOT"@[0] == 'N' && "NOT"@[1] == 'O');
            assert("OR"@.len() == 2 && "OR"@[0] == 'O' && "OR"@[1] == 'R');
            assert("POW"@.len() == 3 && "POW"@[0] == 'P' && "POW"@[1] == 'O');
            assert("PRED"@.len() == 4 && "PRED"@[0] == 'P' && "PRED"@[1] == 'R');
            assert("SUB"@.len() == 3 && "SUB"@[0] == 'S' && "SUB"@[1] == 'U');
            assert("SUCC"@.len() == 4 && "SUCC"@[0] == 'S' && "SUCC"@[1] == 'U');
            assert("THEN"@.len() == 4 && "THEN"@[0] == 'T' && "THEN"@[1] == 'H');
            assert("TRUE"@.len() == 4 && "TRUE"@[0] == 'T' && "TRUE"@[1] == 'R');
            assert("XOR"@.len() == 3 && "XOR"@[0] == 'X' && "XOR"@[1] == 'O');
            assert("Y"@.len() == 1 && "Y"@[0] == 'Y');
            assert("Z"@.len() == 1 && "Z"@[0] == 'Z');
            assert("f"@.len() == 1 && "f"@[0] == 'f');
            assert("i"@.len() == 1 && "i"@[0] == 'i');
            assert("k"@.len() == 1 && "k"@[0] == 'k');
            assert("m"@.len() == 1 && "m"@[0] == 'm');
            assert("n"@.len() == 1 && "n"@[0] == 'n');
            assert("s"@.len() == 1 && "s"@[0] == 's');
            assert("x"@.len() == 1 && "x"@[0] == 'x');
            assert("y"@.len() == 1 && "y"@[0] == 'y');
        }
        let mut c = Context::new();
        c.def(i());
        c.def(k());
        c.def(s());
        let params: Vec<Ident> = vec![];
        proof {
            assert(param_names(params@) =~= Seq::<Seq<char>>::empty());
        }
        c.def(Func::new(
            Ident::new("TRUE"),
            params,
            Expr::l(
                Ident::new("x"),
                Expr::l(
                    Ident::new("y"),
                    Expr::v("x"),
                ),
            ),
        ));
        let params: Vec<Ident> = vec![];
        proof {
            assert(param_names(params@) =~= Seq::<Seq<char>>::empty());
        }
        c.def(Func::new(
            Ident::new("FALSE"),
            params,
            Expr::l(
                Ident::new("x"),
                Expr::l(
                    Ident::new("y"),
                    Expr::v("y"),
                ),
            ),
        ));
        let params: Vec<Ident> = vec![Ident::new("PRED"), Ident::new("THEN"), Ident::new("ELSE")];
        proof {
            assert(param_names(params@) =~= seq!["PRED"@, "THEN"@, "ELSE"@]);
        }
        c.def(Func::new(
            Ident::new("IF"),
            params,
            Expr::a(
                Expr::a(
                    Expr::v("PRED"),
                    Expr::v("THEN"),
                ),
                Expr::v("ELSE"),
            ),
        ));
        let params: Vec<Ident> = vec![Ident::new("x")];
        proof {
            assert(param_names(params@) =~= seq!["x"@]);
        }
        c.def(Func::new(
            Ident::new("NOT"),
            params,
            Expr::a(
                Expr::a(
                    Expr::v("x"),
                    Expr::v("FALSE"),
                ),
                Expr::v("TRUE"),
            ),
        ));
        let params: Vec<Ident> = vec![Ident::new("x"), Ident::new("y")];
        proof {
            assert(param_names(params@) =~= seq!["x"@, "y"@]);
        }
        c.def(Func::new(
            Ident::new("AND"),
            params,
            Expr::a(
                Expr::a(
                    Expr::v("x"),
                    Expr::v("y"),
                ),
                Expr::v("FALSE"),
            ),
        ));
        let params: Vec<Ident> = vec![Ident::new("x"), Ident::new("y")];
        proof {
            assert(param_names(params@) =~= seq!["x"@, "y"@]);
        }
        c.def(Func::new(
            Ident::new("OR"),
            params,
            Expr::a(
                Expr::a(
                    Expr::v("x"),
                    Expr::v("TRUE"),
                ),
                Expr::v("y"),
            ),
        ));
        let params: Vec<Ident> = vec![Ident::new("x"), Ident::new("y")];
        proof {
            assert(param_names(params@) =~= seq!["x"@, "y"@]);
        }
        c.def(Func::new(
            Ident::new("XOR"),
            params,
            Expr::a(
                Expr::a(
                    Expr::v("x"),
                    Expr::a(
                        Expr::v("NOT"),
                        Expr::v("y"),
                    ),
                ),
                Expr::v("y"),
            ),
        ));
        let params: Vec<Ident> = vec![Ident::new("x"), Ident::new("y")];
        proof {
            assert(param_names(params@) =~= seq!["x"@, "y"@]);
        }
        c.def(Func::new(
            Ident::new("CONS"),
            params,
            Expr::l(
                Ident::new("f"),
                Expr::a(
                    Expr::a(
                        Expr::v("f"),
                        Expr::v("x"),
                    ),
                    Expr::v("y"),
                ),
            ),
        ));
        let params: Vec<Ident> = vec![Ident::new("x")];
        proof {
            assert(param_names(params@) =~= seq!["x"@]);
        }
        c.def(Func::new(
            Ident::new("CAR"),
            params,
            Expr::a(
                Expr::v("x"),
                Expr::v("TRUE"),
            ),
        ));
        let params: Vec<Ident> = vec![Ident::new("x")];
        proof {
            assert(param_names(params@) =~= seq!["x"@]);
        }
        c.def(Func::new(
            Ident::new("CDR"),
            params,
            Expr::a(
                Expr::v("x"),
                Expr::v("FALSE"),
            ),
        ));
        let params: Vec<Ident> = vec![];
        proof {
            assert(param_names(params@) =~= Seq::<Seq<char>>::empty());
        }
        c.def(Func::new(
            Ident::new("NIL"),
            params,
            Expr::v("FALSE"),
        ));
        let params: Vec<Ident> = vec![Ident::new("x")];
        proof {
            assert(param_names(params@) =~= seq!["x"@]);
        }
        c.def(Func::new(
            Ident::new("IS_NIL"),
            params,
            Expr::a(
                Expr::a(
                    Expr::v("x"),
                    Expr::l(
                        Ident::new("_"),
                        Expr::v("FALSE"),
                    ),
                ),
                Expr::v("TRUE"),
            ),
        ));
        let params: Vec<Ident> = vec![Ident::new("f")];
        proof {
            assert(param_names(params@) =~= seq!["f"@]);
        }
        c.def(Func::new(
            Ident::new("Y"),
            params,
            Expr::a(
                Expr::l(
                    Ident::new("x"),
                    Expr::a(
                        Expr::v("f"),
                        Expr::a(
                            Expr::v("x"),
                            Expr::v("x"),
                        ),
                    ),
                ),
                Expr::l(
                    Ident::new("x"),
                    Expr::a(
                        Expr::v("f"),
                        Expr::a(
                            Expr::v("x"),
                            Expr::v("x"),
                        ),
                    ),
                ),
            ),
        ));
        let params: Vec<Ident> = vec![Ident::new("f")];
        proof {
            assert(param_names(params@) =~= seq!["f"@]);
        }
        c.def(Func::new(
            Ident::new("Z"),
            params,
            Expr::a(
                Expr::l(
                    Ident::new("x"),
                    Expr::a(
                        Expr::v("f"),
                        Expr::l(
                            Ident::new("y"),
                            Expr::a(
                                Expr::a(
                                    Expr::v("x"),
                                    Expr::v("x"),
                                ),
                                Expr::v("y"),
                            ),
                        ),
                    ),
                ),
                Expr::l(
                    Ident::new("x"),
                    Expr::a(
                        Expr::v("f"),
                        Expr::l(
                            Ident::new("y"),
                            Expr::a(
                                Expr::a(
                                    Expr::v("x"),
                                    Expr::v("x"),
                                ),
                                Expr::v("y"),
                            ),
                        ),
                    ),
                ),
            ),
        ));
        let params: Vec<Ident> = vec![Ident::new("n")];
        proof {
            assert(param_names(params@) =~= seq!["n"@]);
        }
        c.def(Func::new(
            Ident::new("IS_ZERO"),
            params,
            Expr::a(
                Expr::a(
                    Expr::v("n"),
                    Expr::l(
                        Ident::new("_"),
                        Expr::v("FALSE"),
                    ),
                ),
                Expr::v("TRUE"),
            ),
        ));
        let params: Vec<Ident> = vec![Ident::new("n")];
        proof {
            assert(param_names(params@) =~= seq!["n"@]);
        }
        c.def(Func::new(
            Ident::new("SUCC"),
            params,
            Expr::l(
                Ident::new("f"),
                Expr::l(
                    Ident::new("x"),
                    Expr::a(
                        Expr::v("f"),
                        Expr::a(
                            Expr::a(
                                Expr::v("n"),
                                Expr::v("f"),
                            ),
                            Expr::v("x"),
                        ),
                    ),
                ),
            ),
        ));
        let params: Vec<Ident> = vec![Ident::new("m"), Ident::new("n")];
        proof {
            assert(param_names(params@) =~= seq!["m"@, "n"@]);
        }
        c.def(Func::new(
            Ident::new("ADD"),
            params,
            Expr::l(
                Ident::new("f"),
                Expr::l(
                    Ident::new("x"),
                    Expr::a(
                        Expr::a(
                            Expr::v("m"),
                            Expr::v("f"),
                        ),
                        Expr::a(
                            Expr::a(
                                Expr::v("n"),
                                Expr::v("f"),
                            ),
                            Expr::v("x"),
                        ),
                    ),
                ),
            ),
        ));
        let params: Vec<Ident> = vec![Ident::new("m"), Ident::new("n")];
        proof {
            assert(param_names(params@) =~= seq!["m"@, "n"@]);
        }
        c.def(Func::new(
            Ident::new("MUL"),
            params,
            Expr::l(
                Ident::new("f"),
                Expr::a(
                    Expr::v("m"),
                    Expr::a(
                        Expr::v("n"),
                        Expr::v("f"),
                    ),
                ),
            ),
        ));
        let params: Vec<Ident> = vec![Ident::new("m"), Ident::new("n")];
        proof {
            assert(param_names(params@) =~= seq!["m"@, "n"@]);
        }
        c.def(Func::new(
            Ident::new("POW"),
            params,
            Expr::a(
                Expr::v("n"),
                Expr::v("m"),
            ),
        ));
        let params: Vec<Ident> = vec![Ident::new("n")];
        proof {
            assert(param_names(params@) =~= seq!["n"@]);
        }
        c.def(Func::new(
            Ident::new("PRED"),
            params,
            Expr::l(
                Ident::new("f"),
                Expr::l(
                    Ident::new("x"),
                    Expr::a(
                        Expr::a(
                            Expr::a(
                                Expr::v("n"),
                                Expr::l(
                                    Ident::new("g"),
                                    Expr::l(
                                        Ident::new("h"),
                                        Expr::a(
                                            Expr::v("h"),
                                            Expr::a(
                                                Expr::v("g"),
                                                Expr::v("f"),
                                            ),
                                        ),
                                    ),
                                ),
                            ),
                            Expr::l(
                                Ident::new("u"),
                                Expr::v("x"),
                            ),
                        ),
                        Expr::l(
                            Ident::new("u"),
                            Expr::v("u"),
                        ),
                    ),
                ),
            ),
        ));
        let params: Vec<Ident> = vec![Ident::new("m"), Ident::new("n")];
        proof {
            assert(param_names(params@) =~= seq!["m"@, "n"@]);
        }
        c.def(Func::new(
            Ident::new("SUB"),
            params,
            Expr::a(
                Expr::a(
                    Expr::v("n"),
                    Expr::v("PRED"),
                ),
                Expr::v("m"),
            ),
        ));
        let params: Vec<Ident> = vec![Ident::new("m"), Ident::new("n")];
        proof {
            assert(param_names(params@) =~= seq!["m"@, "n"@]);
        }
        c.def(Func::new(
            Ident::new("GTE"),
            params,
            Expr::a(
                Expr::v("IS_ZERO"),
                Expr::a(
                    Expr::a(
                        Expr::v("SUB"),
                        Expr::v("n"),
                    ),
                    Expr::v("m"),
                ),
            ),
        ));
        let params: Vec<Ident> = vec![Ident::new("m"), Ident::new("n")];
        proof {
            assert(param_names(params@) =~= seq!["m"@, "n"@]);
        }
        c.def(Func::new(
            Ident::new("LTE"),
            params,
            Expr::a(
                Expr::v("IS_ZERO"),
                Expr::a(
                    Expr::a(
                        Expr::v("SUB"),
                        Expr::v("m"),
                    ),
                    Expr::v("n"),
                ),
            ),
        ));
        let params: Vec<Ident> = vec![Ident::new("m"), Ident::new("n")];
        proof {
            assert(param_names(params@) =~= seq!["m"@, "n"@]);
        }
        c.def(Func::new(
            Ident::new("EQ"),
            params,
            Expr::a(
                Expr::a(
                    Expr::v("AND"),
                    Expr::a(
                        Expr::a(
                            Expr::v("GTE"),
                            Expr::v("m"),
                        ),
                        Expr::v("n"),
                    ),
                ),
                Expr::a(
                    Expr::a(
                        Expr::v("LTE"),
                        Expr::v("m"),
                    ),
                    Expr::v("n"),
                ),
            ),
        ));
        let params: Vec<Ident> = vec![];
        proof {
            assert(param_names(params@) =~= Seq::<Seq<char>>::empty());
        }
        c.def(Func::new(
            Ident::new("0"),
            params,
            Expr::l(
                Ident::new("f"),
                Expr::l(
                    Ident::new("x"),
                    Expr::v("x"),
                ),
            ),
        ));
        let params: Vec<Ident> = vec![];
        proof {
            assert(param_names(params@) =~= Seq::<Seq<char>>::empty());
        }
        c.def(Func::new(
            Ident::new("1"),
            params,
            Expr::l(
                Ident::new("f"),
                Expr::l(
                    Ident::new("x"),
                    Expr::a(
                        Expr::v("f"),
                        Expr::v("x"),
                    ),
                ),
            ),
        ));
        let params: Vec<Ident> = vec![];
        proof {
            assert(param_names(params@) =~= Seq::<Seq<char>>::empty());
        }
        c.def(Func::new(
            Ident::new("2"),
            params,
            Expr::l(
                Ident::new("f"),
                Expr::l(
                    Ident::new("x"),
                    Expr::a(
                        Expr::v("f"),
                        Expr::a(
                            Expr::v("f"),
                            Expr::v("x"),
                        ),
                    ),
                ),
            ),
        ));
        let params: Vec<Ident> = vec![];
        proof {
            assert(param_names(params@) =~= Seq::<Seq<char>>::empty());
        }
        c.def(Func::new(
            Ident::new("3"),
            params,
            Expr::l(
                Ident::new("f"),
                Expr::l(
                    Ident::new("x"),
                    Expr::a(
                        Expr::v("f"),
                        Expr::a(
                            Expr::v("f"),
                            Expr::a(
                                Expr::v("f"),
                                Expr::v("x"),
                            ),
                        ),
                    ),
                ),
            ),
        ));
        let params: Vec<Ident> = vec![];
        proof {
            assert(param_names(params@) =~= Seq::<Seq<char>>::empty());
        }
        c.def(Func::new(
            Ident::new("4"),
            params,
            Expr::l(
                Ident::new("f"),
                Expr::l(
                    Ident::new("x"),
                    Expr::a(
                        Expr::v("f"),
                        Expr::a(
                            Expr::v("f"),
                            Expr::a(
                                Expr::v("f"),
                                Expr::a(
                                    Expr::v("f"),
                                    Expr::v("x"),
                                ),
                            ),
                        ),
                    ),
                ),
            ),
        ));
        let params: Vec<Ident> = vec![];
        proof {
            assert(param_names(params@) =~= Seq::<Seq<char>>::empty());
        }
        c.def(Func::new(
            Ident::new("5"),
            params,
            Expr::l(
                Ident::new("f"),
                Expr::l(
                    Ident::new("x"),
                    Expr::a(
                        Expr::v("f"),
                        Expr::a(
                            Expr::v("f"),
                            Expr::a(
                                Expr::v("f"),
                                Expr::a(
                                    Expr::v("f"),
                                    Expr::a(
                                        Expr::v("f"),
                                        Expr::v("x"),
                                    ),
                                ),
                            ),
                        ),
                    ),
                ),
            ),
        ));
        let params: Vec<Ident> = vec![];
        proof {
            assert(param_names(params@) =~= Seq::<Seq<char>>::empty());
        }
        c.def(Func::new(
            Ident::new("6"),
            params,
            Expr::l(
                Ident::new("f"),
                Expr::l(
                    Ident::new("x"),
                    Expr::a(
                        Expr::v("f"),
                        Expr::a(
                            Expr::v("f"),
                            Expr::a(
                                Expr::v("f"),
                                Expr::a(
                                    Expr::v("f"),
                                    Expr::a(
                                        Expr::v("f"),
                                        Expr::a(
                                            Expr::v("f"),
                                            Expr::v("x"),
                                        ),
                                    ),
                                ),
                            ),
                        ),
                    ),
                ),
            ),
        ));
        let params: Vec<Ident> = vec![];
        proof {
            assert(param_names(params@) =~= Seq::<Seq<char>>::empty());
        }
        c.def(Func::new(
            Ident::new("7"),
            params,
            Expr::l(
                Ident::new("f"),
                Expr::l(
                    Ident::new("x"),
                    Expr::a(
                        Expr::v("f"),
                        Expr::a(
                            Expr::v("f"),
                            Expr::a(
                                Expr::v("f"),
                                Expr::a(
                                    Expr::v("f"),
                                    Expr::a(
                                        Expr::v("f"),
                                        Expr::a(
                                            Expr::v("f"),
                                            Expr::a(
                                                Expr::v("f"),
                                                Expr::v("x"),
                                            ),
                                        ),
                                    ),
                                ),
                            ),
                        ),
                    ),
                ),
            ),
        ));
        let params: Vec<Ident> = vec![];
        proof {
            assert(param_names(params@) =~= Seq::<Seq<char>>::empty());
        }
        c.def(Func::new(
            Ident::new("8"),
            params,
            Expr::l(
                Ident::new("f"),
                Expr::l(
                    Ident::new("x"),
                    Expr::a(
                        Expr::v("f"),
                        Expr::a(
                            Expr::v("f"),
                            Expr::a(
                                Expr::v("f"),
                                Expr::a(
                                    Expr::v("f"),
                                    Expr::a(
                                        Expr::v("f"),
                                        Expr::a(
                                            Expr::v("f"),
                                            Expr::a(
                                                Expr::v("f"),
                                                Expr::a(
                                                    Expr::v("f"),
                                                    Expr::v("x"),
                                                ),
                                            ),
                                        ),
                                    ),
                                ),
                            ),
                        ),
                    ),
                ),
            ),
        ));
        let params: Vec<Ident> = vec![];
        proof {
            assert(param_names(params@) =~= Seq::<Seq<char>>::empty());
        }
        c.def(Func::new(
            Ident::new("9"),
            params,
            Expr::l(
                Ident::new("f"),
                Expr::l(
                    Ident::new("x"),
                    Expr::a(
                        Expr::v("f"),
                        Expr::a(
                            Expr::v("f"),
                            Expr::a(
                                Expr::v("f"),
                                Expr::a(
                                    Expr::v("f"),
                                    Expr::a(
                                        Expr::v("f"),
                                        Expr::a(
                                            Expr::v("f"),
                                            Expr::a(
                                                Expr::v("f"),
                                                Expr::a(
                                                    Expr::v("f"),
                                                    Expr::a(
                                                        Expr::v("f"),
                                                        Expr::v("x"),
                                                    ),
                                                ),
                                            ),
                                        ),
                                    ),
                                ),
                            ),
                        ),
                    ),
                ),
            ),
        ));
        let params: Vec<Ident> = vec![];
        proof {
            assert(param_names(params@) =~= Seq::<Seq<char>>::empty());
        }
        c.def(Func::new(
            Ident::new("10"),
            params,
            Expr::l(
                Ident::new("f"),
                Expr::l(
                    Ident::new("x"),
                    Expr::a(
                        Expr::v("f"),
                        Expr::a(
                            Expr::v("f"),
                            Expr::a(
                                Expr::v("f"),
                                Expr::a(
                                    Expr::v("f"),
                                    Expr::a(
                                        Expr::v("f"),
                                        Expr::a(
                                            Expr::v("f"),
                                            Expr::a(
                                                Expr::v("f"),
                                                Expr::a(
                                                    Expr::v("f"),
                                                    Expr::a(
                                                        Expr::v("f"),
                                                        Expr::a(
                                                            Expr::v("f"),
                                                            Expr::v("x"),
                                                        ),
                                                    ),
                                                ),
                                            ),
                                        ),
                                    ),
                                ),
                            ),
                        ),
                    ),
                ),
            ),
        ));
        proof {
            assert(c@["i"@].params =~= seq!["x"@]);
            assert(c@["k"@].params =~= seq!["x"@, "y"@]);
            assert(c@["s"@].params =~= seq!["x"@, "y"@, "z"@]);
            assert(holds_entry(c@, "TRUE"@, 0));
            assert(holds_entry(c@, "FALSE"@, 0));
            assert(holds_entry(c@, "IF"@, 3));
            assert(holds_entry(c@, "NOT"@, 1));
            assert(holds_entry(c@, "AND"@, 2));
            assert(holds_entry(c@, "OR"@, 2));
            assert(holds_entry(c@, "XOR"@, 2));
            assert(holds_entry(c@, "CONS"@, 2));
            assert(holds_entry(c@, "CAR"@, 1));
            assert(holds_entry(c@, "CDR"@, 1));
            assert(holds_entry(c@, "NIL"@, 0));
            assert(holds_entry(c@, "IS_NIL"@, 1));
            assert(holds_entry(c@, "Y"@, 1));
            assert(holds_entry(c@, "Z"@, 1));
            assert(holds_entry(c@, "IS_ZERO"@, 1));
            assert(holds_entry(c@, "SUCC"@, 1));
            assert(holds_entry(c@, "ADD"@, 2));
            assert(holds_entry(c@, "MUL"@, 2));
            assert(holds_entry(c@, "POW"@, 2));
            assert(holds_entry(c@, "PRED"@, 1));
            assert(holds_entry(c@, "SUB"@, 2));
            assert(holds_entry(c@, "GTE"@, 2));
            assert(holds_entry(c@, "LTE"@, 2));
            assert(holds_entry(c@, "EQ"@, 2));
            assert(holds_entry(c@, "0"@, 0));
            assert(holds_entry(c@, "1"@, 0));
            assert(holds_entry(c@, "2"@, 0));
            assert(holds_entry(c@, "3"@, 0));
            assert(holds_entry(c@, "4"@, 0));
            assert(holds_entry(c@, "5"@, 0));
            assert(holds_entry(c@, "6"@, 0));
            assert(holds_entry(c@, "7"@, 0));
            assert(holds_entry(c@, "8"@, 0));
            assert(holds_entry(c@, "9"@, 0));
            assert(holds_entry(c@, "10"@, 0));
        }
        c
    }
}

} // verus!
