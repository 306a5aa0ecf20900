//! The commands a surface syntax produces: definitions, deletions, the
//! evaluation requests in their bounded forms, look-ups, a listing of the
//! whole environment, and bracket abstraction.

pub mod display;

use crate::expression::{Expr, Term};
use crate::function::{Func, FuncModel};
use crate::identifier::Ident;
use vstd::prelude::*;

verus! {

/// The mathematical form of a command.
pub ghost enum CommandModel {
    Del(Seq<char>),
    Update(FuncModel),
    Eval(Term),
    EvalLast(Term),
    EvalHead(nat, Term),
    EvalTail(nat, Term),
    Info(Seq<char>),
    Global,
    Unlambda(Term),
}

/// One parsed instruction for the engine.
#[derive(Debug, PartialEq)]
pub enum Command {
    /// Removes the function of that name.
    Del(Ident),
    /// Defines a function, overwriting any earlier definition of its name.
    Update(Func),
    /// Shows every reduction step of a term.
    Eval(Expr),
    /// Shows only the last reachable step of a term.
    EvalLast(Expr),
    /// Shows only the first so many steps.
    EvalHead(usize, Expr),
    /// Shows only the last so many steps.
    EvalTail(usize, Expr),
    /// Looks one name up.
    Info(Ident),
    /// Lists the whole environment.
    Global,
    /// Shows a term's bracket abstraction.
    Unlambda(Expr),
}

impl View for Command {
    type V = CommandModel;

    open spec fn view(&self) -> CommandModel {
        match self {
            Command::Del(i) => CommandModel::Del(i@),
            Command::Update(f) => CommandModel::Update(f@),
            Command::Eval(e) => CommandModel::Eval(e@),
            Command::EvalLast(e) => CommandModel::EvalLast(e@),
            Command::EvalHead(n, e) => CommandModel::EvalHead(*n as nat, e@),
            Command::EvalTail(n, e) => CommandModel::EvalTail(*n as nat, e@),
            Command::Info(i) => CommandModel::Info(i@),
            Command::Global => CommandModel::Global,
            Command::Unlambda(e) => CommandModel::Unlambda(e@),
        }
    }
}

} // verus!
