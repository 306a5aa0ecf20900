//! The engine: applies one command to the environment and reports what there
//! is to show, leaving all formatting and printing to the caller.

use crate::command::{Command, CommandModel};
use crate::context::Context;
use crate::evaluate::{lemma_steps_upto_len, steps_upto, EvalSteps};
use crate::expression::unlambda::unlambda_of;
use crate::expression::Expr;
use crate::function::{Func, FuncModel};
use crate::identifier::Ident;
use vstd::prelude::*;

verus! {

/// How many reduction steps one full evaluation shows when the caller sets
/// no other ceiling.
pub const DEFAULT_STEP_LIMIT: usize = 1000;

/// How many steps a last-step evaluation tries before reporting that the
/// term may not be finished.
pub const EVAL_LAST_LIMIT: usize = 100;

/// What running one command produced, for the caller to format.
#[derive(Debug, PartialEq)]
pub enum RunResult {
    /// The environment changed; there is nothing to show.
    Nothing,
    /// The reduction steps of an evaluation, in order, up to the ceiling.
    Steps(Vec<Expr>),
    /// The evaluated term, the last step reached if there was one, and
    /// whether the ceiling was hit — the term may then not be finished.
    Last(Expr, Option<Expr>, bool),
    /// The function the looked-up name is defined as.
    Found(Func),
    /// The looked-up name is not defined.
    Undefined(Ident),
    /// Every defined function.
    Listing(Vec<Func>),
    /// A term and its bracket abstraction.
    Abstracted(Expr, Expr),
}

/// The interpreter's driver: an environment and a step ceiling.
#[derive(Debug, PartialEq)]
pub struct Engine {
    /// The environment the engine reduces against.
    pub context: Context,
    /// The ceiling on how many steps one evaluation shows.
    pub step_limit: usize,
}

impl Engine {
    pub closed spec fn wf(&self) -> bool {
        self.context.wf()
    }

    /// The functions the engine currently knows.
    pub closed spec fn env(&self) -> Map<Seq<char>, FuncModel> {
        self.context@
    }

    /// An engine over `context`, with the default step ceiling.
    pub fn new(context: Context) -> (r: Engine)
        ensures
            r.env() == context@,
            r.wf() == context.wf(),
            r.step_limit == DEFAULT_STEP_LIMIT,
    {
        Engine { context, step_limit: DEFAULT_STEP_LIMIT }
    }

    /// Runs one command: a definition or deletion changes the environment; an
    /// evaluation walks the reduction sequence under the ceiling; a query
    /// reads the environment; bracket abstraction transforms its term. The
    /// bounded head and tail evaluations are not supported here, which is why
    /// they are excluded.
    pub fn run(&mut self, command: Command) -> (r: RunResult)
        requires
            old(self).wf(),
            !(command@ is EvalHead),
            !(command@ is EvalTail),
        ensures
            final(self).wf(),
            final(self).step_limit == old(self).step_limit,
            match command@ {
                CommandModel::Del(i) => final(self).env() == old(self).env().remove(i) && r
                    is Nothing,
                CommandModel::Update(f) => final(self).env() == old(self).env().insert(f.name, f)
                    && r is Nothing,
                CommandModel::Eval(e) => final(self).env() == old(self).env() && (r matches
                RunResult::Steps(v) && v@.map_values(|x: Expr| x@) == steps_upto(
                    e,
                    old(self).env(),
                    old(self).step_limit as nat,
                )),
                CommandModel::EvalLast(e) => final(self).env() == old(self).env() && (r matches
                RunResult::Last(given, last, hit) && given@ == e && {
                    let s = steps_upto(e, old(self).env(), EVAL_LAST_LIMIT as nat);
                    match last {
                        Some(le) => s.len() >= 1 && le@ == s.last() && hit == (s.len()
                            == EVAL_LAST_LIMIT),
                        None => s.len() == 0 && hit == false,
                    }
                }),
                CommandModel::Info(i) => final(self).env() == old(self).env() && (if old(
                    self,
                ).env().contains_key(i) {
                    r matches RunResult::Found(f) && f@ == old(self).env()[i]
                } else {
                    r matches RunResult::Undefined(j) && j@ == i
                }),
                CommandModel::Global => final(self).env() == old(self).env() && (r matches
                RunResult::Listing(v) && v@.len() == old(self).env().dom().len() && forall|k: int|
                    0 <= k < v@.len() ==> old(self).env().contains_key(
                        (#[trigger] v@[k])@.name,
                    ) && old(self).env()[v@[k]@.name] == v@[k]@),
                CommandModel::Unlambda(e) => final(self).env() == old(self).env() && (r matches
                RunResult::Abstracted(given, ab) && given@ == e && ab@ == unlambda_of(e)),
                _ => false,
            },
    {
        match command {
            Command::Del(i) => {
                self.context.del(&i);
                RunResult::Nothing
            },
            Command::Update(f) => {
                self.context.def(f);
                RunResult::Nothing
            },
            Command::Eval(e) => {
                let ghost env = self.context@;
                let ghost e_model = e@;
                let limit = self.step_limit;
                let ghost s = steps_upto(e_model, env, limit as nat);
                let mut steps = EvalSteps::new(e, &self.context);
                let mut out: Vec<Expr> = Vec::new();
                proof {
                    assert(out@.map_values(|x: Expr| x@) =~= s.take(0));
                    assert(s.skip(0) =~= s);
                }
                while out.len() < limit
                    invariant
                        self.context.wf(),
                        self.context@ == old(self).env(),
                        self.step_limit == old(self).step_limit,
                        env == old(self).env(),
                        limit == old(self).step_limit,
                        command@ == CommandModel::Eval(e_model),
                        steps.wf(),
                        steps.env() == env,
                        out@.len() <= limit,
                        out@.len() <= s.len(),
                        s == steps_upto(e_model, env, limit as nat),
                        out@.map_values(|x: Expr| x@) == s.take(out@.len() as int),
                        steps_upto(steps.current(), env, (limit - out@.len()) as nat) == s.skip(
                            out@.len() as int,
                        ),
                    decreases limit - out@.len(),
                {
                    let ghost cur = steps.current();
                    let ghost taken = out@.len() as int;
                    match steps.next() {
                        Some(x) => {
                            proof {
                                assert(steps_upto(cur, env, (limit - taken) as nat) == seq![x@]
                                    + steps_upto(x@, env, (limit - taken - 1) as nat));
                                assert(s.skip(taken)[0] == x@);
                                assert(s[taken] == x@);
                                assert(s.skip(taken).len() >= 1);
                                assert(s.skip(taken).skip(1) =~= s.skip(taken + 1));
                                assert((seq![x@] + steps_upto(x@, env, (limit - taken - 1) as nat))
                                    .skip(1) =~= steps_upto(x@, env, (limit - taken - 1) as nat));
                            }
                            out.push(x);
                            proof {
                                assert(out@.map_values(|x2: Expr| x2@) =~= s.take(taken + 1));
                            }
                        },
                        None => {
                            proof {
                                assert(steps_upto(cur, env, (limit - taken) as nat) =~= Seq::<
                                    crate::expression::Term,
                                >::empty());
                                assert(s.skip(taken).len() == 0);
                                assert(s.take(taken) =~= s);
                            }
                            return RunResult::Steps(out);
                        },
                    }
                }
                proof {
                    lemma_steps_upto_len(e_model, env, limit as nat);
                    assert(s.take(out@.len() as int) =~= s);
                }
                RunResult::Steps(out)
            },
            Command::EvalLast(e) => {
                let given = e.duplicate();
                let mut steps = EvalSteps::new(e, &self.context);
                let (last, hit) = steps.eval_last(EVAL_LAST_LIMIT);
                RunResult::Last(given, last, hit)
            },
            Command::Info(i) => match self.context.get(&i) {
                Some(f) => RunResult::Found(f.duplicate()),
                None => RunResult::Undefined(i),
            },
            Command::Global => {
                let refs = self.context.funcs();
                let mut out: Vec<Func> = Vec::new();
                let mut k: usize = 0;
                while k < refs.len()
                    invariant
                        k <= refs@.len(),
                        out@.len() == k,
                        forall|j: int| 0 <= j < k ==> (#[trigger] out@[j])@ == refs@[j]@,
                    decreases refs@.len() - k,
                {
                    out.push(refs[k].duplicate());
                    k += 1;
                }
                RunResult::Listing(out)
            },
            Command::Unlambda(e) => {
                let given = e.duplicate();
                RunResult::Abstracted(given, e.unlambda())
            },
            Command::EvalHead(_, _) => vstd::pervasive::unreached(),
            Command::EvalTail(_, _) => vstd::pervasive::unreached(),
        }
    }
}

} // verus!
