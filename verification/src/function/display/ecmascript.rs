//! Rendering a definition in the arrow syntax: the name, the parameter list
//! in parentheses (dropped entirely at arity zero), then `=` and the body.

use crate::expression::display::ecmascript::{ecma_string, ecma_text};
use crate::function::{Func, FuncModel};
use vstd::prelude::*;
use vstd::string::StringExecFns;

verus! {

/// Names separated by commas.
pub open spec fn comma_names(names: Seq<Seq<char>>) -> Seq<char>
    decreases names.len(),
{
    if names.len() == 0 {
        Seq::empty()
    } else if names.len() == 1 {
        names[0]
    } else {
        names[0] + seq![',', ' '] + comma_names(names.drop_first())
    }
}

/// The arrow-syntax text of a definition.
pub open spec fn func_ecma_text(f: FuncModel) -> Seq<char> {
    if f.params.len() == 0 {
        f.name + seq![' ', '=', ' '] + ecma_text(f.body)
    } else {
        f.name + seq!['('] + comma_names(f.params) + seq![')'] + seq![' ', '=', ' '] + ecma_text(
            f.body,
        )
    }
}

/// A definition to be written in the arrow syntax.
#[derive(Debug, PartialEq)]
pub struct ECMAScriptStyle<'a>(pub &'a Func);

impl<'a> ECMAScriptStyle<'a> {
    /// The wrapped definition's text.
    pub fn to_string(&self) -> (r: String)
        ensures
            r@ == func_ecma_text(self.0@),
    {
        proof {
            reveal_strlit(" = ");
            reveal_strlit("(");
            reveal_strlit(")");
            reveal_strlit(", ");
        }
        let f = self.0;
        let mut r = String::new();
        r.append(f.name().label());
        if f.arity() > 0 {
            r.append("(");
            let ghost params = f@.params;
            let mut k: usize = 0;
            proof {
                assert(params.skip(0) =~= params);
            }
            while k < f.arity()
                invariant
                    k <= f@.params.len(),
                    params == f@.params,
                    r@ + comma_names(params.skip(k as int)) == f@.name + seq!['('] + comma_names(
                        params,
                    ),
                    ", "@ == seq![',', ' '],
                decreases f@.params.len() - k,
            {
                let ghost held = r@;
                r.append(f.params[k].label());
                proof {
                    assert(params.skip(k as int)[0] == params[k as int]);
                    assert(params.skip(k as int).drop_first() =~= params.skip(k + 1));
                    assert(f.params@[k as int]@ == params[k as int]);
                }
                if k + 1 < f.arity() {
                    r.append(", ");
                    proof {
                        assert(comma_names(params.skip(k as int)) =~= params[k as int] + seq![
                            ',',
                            ' ',
                        ] + comma_names(params.skip(k + 1)));
                        assert(r@ =~= held + params[k as int] + seq![',', ' ']);
                    }
                } else {
                    proof {
                        assert(params.skip(k as int).len() == 1);
                        assert(comma_names(params.skip(k as int)) =~= params[k as int]);
                    }
                }
                k += 1;
                proof {
                    assert(r@ + comma_names(params.skip(k as int)) =~= f@.name + seq!['(']
                        + comma_names(params));
                }
            }
            proof {
                assert(comma_names(params.skip(params.len() as int)) =~= Seq::<char>::empty());
            }
            r.append(")");
        }
        r.append(" = ");
        r.append(ecma_string(f.body()).as_str());
        proof {
            assert(" = "@ =~= seq![' ', '=', ' ']);
            assert(r@ =~= func_ecma_text(self.0@));
        }
        r
    }
}

} // verus!
