//! Rendering commands in the arrow syntax: the same command markers, with the
//! terms and definitions written as arrow functions.

use crate::command::{Command, CommandModel};
use crate::expression::display::ecmascript::{ecma_string, ecma_text};
use crate::function::display::ecmascript::{func_ecma_text, ECMAScriptStyle as FuncStyle};
use crate::identifier::decimal_of;
use vstd::prelude::*;
use vstd::string::StringExecFns;

verus! {

/// The arrow-syntax text of a command.
pub open spec fn command_ecma_text(c: CommandModel) -> Seq<char> {
    match c {
        CommandModel::Del(i) => i + seq![' ', '=', ' '] + i,
        CommandModel::Update(f) => func_ecma_text(f),
        CommandModel::Eval(e) => ecma_text(e),
        CommandModel::EvalLast(e) => seq!['!', ' '] + ecma_text(e),
        CommandModel::EvalHead(n, e) => seq!['!'] + decimal_of(n) + seq![' '] + ecma_text(e),
        CommandModel::EvalTail(n, e) => seq!['!', '-'] + decimal_of(n) + seq![' '] + ecma_text(e),
        CommandModel::Info(i) => seq!['?', ' '] + i,
        CommandModel::Global => seq!['?'],
        CommandModel::Unlambda(e) => seq!['?', '?', ' '] + ecma_text(e),
    }
}

/// A command to be written in the arrow syntax.
#[derive(Debug, PartialEq)]
pub struct ECMAScriptStyle<'a>(pub &'a Command);

impl<'a> ECMAScriptStyle<'a> {
    /// The wrapped command's text.
    pub fn to_string(&self) -> (r: String)
        ensures
            r@ == command_ecma_text(self.0@),
    {
        proof {
            reveal_strlit(" = ");
            reveal_strlit("! ");
            reveal_strlit("!");
            reveal_strlit("!-");
            reveal_strlit(" ");
            reveal_strlit("? ");
            reveal_strlit("?");
            reveal_strlit("?? ");
        }
        match self.0 {
            Command::Del(i) => {
                let mut r = i.label().to_owned();
                r.append(" = ");
                r.append(i.label());
                proof {
                    assert(r@ =~= i@ + seq![' ', '=', ' '] + i@);
                }
                r
            },
            Command::Update(f) => FuncStyle(f).to_string(),
            Command::Eval(e) => ecma_string(e),
            Command::EvalLast(e) => {
                let mut r = "! ".to_owned();
                r.append(ecma_string(e).as_str());
                proof {
                    assert(r@ =~= seq!['!', ' '] + ecma_text(e@));
                }
                r
            },
            Command::EvalHead(n, e) => {
                let mut r = "!".to_owned();
                r.append(crate::identifier::decimal_string(*n).as_str());
                r.append(" ");
                r.append(ecma_string(e).as_str());
                proof {
                    assert(r@ =~= seq!['!'] + decimal_of(*n as nat) + seq![' '] + ecma_text(e@));
                }
                r
            },
            Command::EvalTail(n, e) => {
                let mut r = "!-".to_owned();
                r.append(crate::identifier::decimal_string(*n).as_str());
                r.append(" ");
                r.append(ecma_string(e).as_str());
                proof {
                    assert(r@ =~= seq!['!', '-'] + decimal_of(*n as nat) + seq![' '] + ecma_text(
                        e@,
                    ));
                }
                r
            },
            Command::Info(i) => {
                let mut r = "? ".to_owned();
                r.append(i.label());
                proof {
                    assert(r@ =~= seq!['?', ' '] + i@);
                }
                r
            },
            Command::Global => {
                let r = "?".to_owned();
                proof {
                    assert(r@ =~= seq!['?']);
                }
                r
            },
            Command::Unlambda(e) => {
                let mut r = "?? ".to_owned();
                r.append(ecma_string(e).as_str());
                proof {
                    assert(r@ =~= seq!['?', '?', ' '] + ecma_text(e@));
                }
                r
            },
        }
    }
}

} // verus!
