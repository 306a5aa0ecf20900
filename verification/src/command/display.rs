//! Rendering commands in the backtick syntax, the form the history file
//! holds: a deletion is written as a self-definition, a bounded evaluation
//! carries its bound after `!`.

pub mod ecmascript;
pub mod lazy_k;

use crate::command::{Command, CommandModel};
use crate::expression::display::lazy_k_text;
use crate::function::display::func_lazy_text;
use crate::identifier::decimal_of;
use vstd::prelude::*;
use vstd::string::StringExecFns;

verus! {

/// The backtick-syntax text of a command.
pub open spec fn command_lazy_text(c: CommandModel) -> Seq<char> {
    match c {
        CommandModel::Del(i) => i + seq![' ', '=', ' '] + i,
        CommandModel::Update(f) => func_lazy_text(f),
        CommandModel::Eval(e) => lazy_k_text(e),
        CommandModel::EvalLast(e) => seq!['!', ' '] + lazy_k_text(e),
        CommandModel::EvalHead(n, e) => seq!['!'] + decimal_of(n) + seq![' '] + lazy_k_text(e),
        CommandModel::EvalTail(n, e) => seq!['!', '-'] + decimal_of(n) + seq![' '] + lazy_k_text(
            e,
        ),
        CommandModel::Info(i) => seq!['?', ' '] + i,
        CommandModel::Global => seq!['?'],
        CommandModel::Unlambda(e) => seq!['?', '?', ' '] + lazy_k_text(e),
    }
}

impl Command {
    /// The command written in the backtick syntax.
    pub fn to_string(&self) -> (r: String)
        ensures
            r@ == command_lazy_text(self@),
    {
        proof {
            reveal_strlit(" = ");
            reveal_strlit("! ");
            reveal_strlit("!");
            reveal_strlit("!-");
            reveal_strlit(" ");
            reveal_strlit("? ");
            reveal_strlit("?");
            reveal_strlit("?? ");
        }
        match self {
            Command::Del(i) => {
                let mut r = i.label().to_owned();
                r.append(" = ");
                r.append(i.label());
                proof {
                    assert(r@ =~= i@ + seq![' ', '=', ' '] + i@);
                }
                r
            },
            Command::Update(f) => f.to_string(),
            Command::Eval(e) => e.to_string(),
            Command::EvalLast(e) => {
                let mut r = "! ".to_owned();
                r.append(e.to_string().as_str());
                proof {
                    assert(r@ =~= seq!['!', ' '] + lazy_k_text(e@));
                }
                r
            },
            Command::EvalHead(n, e) => {
                let mut r = "!".to_owned();
                r.append(crate::identifier::decimal_string(*n).as_str());
                r.append(" ");
                r.append(e.to_string().as_str());
                proof {
                    assert(r@ =~= seq!['!'] + decimal_of(*n as nat) + seq![' '] + lazy_k_text(
                        e@,
                    ));
                }
                r
            },
            Command::EvalTail(n, e) => {
                let mut r = "!-".to_owned();
                r.append(crate::identifier::decimal_string(*n).as_str());
                r.append(" ");
                r.append(e.to_string().as_str());
                proof {
                    assert(r@ =~= seq!['!', '-'] + decimal_of(*n as nat) + seq![' ']
                        + lazy_k_text(e@));
                }
                r
            },
            Command::Info(i) => {
                let mut r = "? ".to_owned();
                r.append(i.label());
                proof {
                    assert(r@ =~= seq!['?', ' '] + i@);
                }
                r
            },
            Command::Global => {
                let r = "?".to_owned();
                proof {
                    assert(r@ =~= seq!['?']);
                }
                r
            },
            Command::Unlambda(e) => {
                let mut r = "?? ".to_owned();
                r.append(e.to_string().as_str());
                proof {
                    assert(r@ =~= seq!['?', '?', ' '] + lazy_k_text(e@));
                }
                r
            },
        }
    }
}

} // verus!
