//! The incremental evaluator: a resumable state machine that yields the term
//! after each single leftmost-outermost reduction step, searching the head of
//! the application spine first and then each pending argument left to right.

use crate::context::Context;
use crate::identifier::Ident;
use crate::expression::apply::{apply_of, arity_of};
use crate::expression::{app, term_size, Expr, Term};
use crate::function::FuncModel;
use vstd::prelude::*;

verus! {

broadcast use vstd::std_specs::vec::group_vec_axioms;

/// The head of a term's application spine: the most deeply nested
/// left-hand side.
pub open spec fn spine_head(t: Term) -> Term
    decreases t,
{
    match t {
        Term::App { lhs, .. } => spine_head(*lhs),
        _ => t,
    }
}

/// The arguments along a term's application spine, leftmost (innermost)
/// first.
pub open spec fn spine_args(t: Term) -> Seq<Term>
    decreases t,
{
    match t {
        Term::App { lhs, rhs } => spine_args(*lhs).push(*rhs),
        _ => Seq::empty(),
    }
}

/// The term whose spine head is `h` and whose spine arguments are `args`.
pub open spec fn respine(h: Term, args: Seq<Term>) -> Term
    decreases args.len(),
{
    if args.len() == 0 {
        h
    } else {
        app(respine(h, args.drop_last()), args.last())
    }
}

/// Whether a head with `n` pending arguments is a redex: its arity must be
/// defined and covered by the pending arguments — a zero-arity name is
/// covered even when it stands bare.
pub open spec fn fires(h: Term, env: Map<Seq<char>, FuncModel>, n: nat) -> bool {
    match arity_of(h, env) {
        Some(k) => k <= n,
        None => false,
    }
}

/// The single next leftmost-outermost reduction of `t`, or `None` when `t`
/// is in normal form: the spine head fires if it can; otherwise the leftmost
/// argument holding a redex takes one step.
pub open spec fn reduce_once(t: Term, env: Map<Seq<char>, FuncModel>) -> Option<Term>
    decreases term_size(t), 1int,
{
    let h = spine_head(t);
    let args = spine_args(t);
    if fires(h, env, args.len()) {
        let k = arity_of(h, env).unwrap();
        match apply_of(h, env, args.take(k as int)) {
            Some(applied) => Some(respine(applied, args.skip(k as int))),
            None => None,
        }
    } else {
        reduce_arg(t, env)
    }
}

/// The single next reduction inside the arguments of `t`'s spine, leftmost
/// argument first; the head itself is left alone.
pub open spec fn reduce_arg(t: Term, env: Map<Seq<char>, FuncModel>) -> Option<Term>
    decreases term_size(t), 0int,
{
    match t {
        Term::App { lhs, rhs } => match reduce_arg(*lhs, env) {
            Some(lhs_stepped) => Some(app(lhs_stepped, *rhs)),
            None => match reduce_once(*rhs, env) {
                Some(rhs_stepped) => Some(app(*lhs, rhs_stepped)),
                None => None,
            },
        },
        _ => None,
    }
}

/// A term is in normal form when no reduction step remains anywhere in it.
pub open spec fn normal_form(t: Term, env: Map<Seq<char>, FuncModel>) -> bool {
    reduce_once(t, env) is None
}

proof fn lemma_spine_of_respine(h: Term, args: Seq<Term>)
    requires
        !(h is App),
    ensures
        spine_head(respine(h, args)) == h,
        spine_args(respine(h, args)) == args,
    decreases args.len(),
{
    if args.len() == 0 {
        assert(spine_args(respine(h, args)) =~= args);
    } else {
        lemma_spine_of_respine(h, args.drop_last());
        assert(spine_args(respine(h, args)) =~= args);
    }
}

/// Each spine argument is smaller than the whole term.
proof fn lemma_respine_arg_size(h: Term, args: Seq<Term>, j: int)
    requires
        0 <= j < args.len(),
    ensures
        term_size(args[j]) < term_size(respine(h, args)),
    decreases args.len(),
{
    if j == args.len() - 1 {
        assert(term_size(respine(h, args)) == 1 + term_size(respine(h, args.drop_last()))
            + term_size(args.last()));
    } else {
        lemma_respine_arg_size(h, args.drop_last(), j);
        assert(args.drop_last()[j] == args[j]);
    }
}

/// A firing head reduces the whole spine in one step.
proof fn lemma_reduce_once_fires(h: Term, args: Seq<Term>, env: Map<Seq<char>, FuncModel>)
    requires
        !(h is App),
        fires(h, env, args.len()),
    ensures
        ({
            let k = arity_of(h, env).unwrap() as int;
            reduce_once(respine(h, args), env) == match apply_of(h, env, args.take(k)) {
                Some(applied) => Some(respine(applied, args.skip(k))),
                None => None::<Term>,
            }
        }),
{
    lemma_spine_of_respine(h, args);
}

/// A stuck head leaves only the arguments to search.
proof fn lemma_reduce_once_stuck(h: Term, args: Seq<Term>, env: Map<Seq<char>, FuncModel>)
    requires
        !(h is App),
        !fires(h, env, args.len()),
    ensures
        reduce_once(respine(h, args), env) == reduce_arg(respine(h, args), env),
{
    lemma_spine_of_respine(h, args);
}

/// Under a stuck head, a spine whose arguments are all in normal form has no
/// redex left.
proof fn lemma_reduce_arg_none(h: Term, args: Seq<Term>, env: Map<Seq<char>, FuncModel>)
    requires
        !(h is App),
        forall|j: int| 0 <= j < args.len() ==> normal_form(#[trigger] args[j], env),
    ensures
        reduce_arg(respine(h, args), env) is None,
    decreases args.len(),
{
    if args.len() > 0 {
        lemma_reduce_arg_none(h, args.drop_last(), env);
        assert(normal_form(args.last(), env));
    }
}

/// Under a stuck head, when the arguments left of `j` are in normal form and
/// argument `j` takes a step, the whole spine takes exactly that step.
proof fn lemma_reduce_arg_at(
    h: Term,
    args: Seq<Term>,
    j: int,
    stepped: Term,
    env: Map<Seq<char>, FuncModel>,
)
    requires
        !(h is App),
        0 <= j < args.len(),
        forall|i: int| 0 <= i < j ==> normal_form(#[trigger] args[i], env),
        reduce_once(args[j], env) == Some(stepped),
    ensures
        reduce_arg(respine(h, args), env) == Some(respine(h, args.update(j, stepped))),
    decreases args.len(),
{
    if j == args.len() - 1 {
        lemma_reduce_arg_none(h, args.drop_last(), env);
        assert(args.update(j, stepped).drop_last() =~= args.drop_last());
        assert(args.update(j, stepped).last() == stepped);
    } else {
        assert(args.drop_last()[j] == args[j]);
        lemma_reduce_arg_at(h, args.drop_last(), j, stepped, env);
        assert(args.update(j, stepped).drop_last() =~= args.drop_last().update(j, stepped));
        assert(args.update(j, stepped).last() == args.last());
    }
}

/// Attaching one more argument on the right is the same as pushing it onto
/// the spine.
proof fn lemma_respine_shift(l: Term, r: Term, args: Seq<Term>)
    ensures
        respine(app(l, r), args) == respine(l, seq![r] + args),
    decreases args.len(),
{
    if args.len() == 0 {
        assert(seq![r] + args =~= seq![r]);
        assert((seq![r] + args).drop_last() =~= Seq::<Term>::empty());
        assert((seq![r] + args).last() == r);
        assert(respine(l, Seq::<Term>::empty()) == l);
    } else {
        lemma_respine_shift(l, r, args.drop_last());
        assert((seq![r] + args).drop_last() =~= seq![r] + args.drop_last());
        assert((seq![r] + args).last() == args.last());
    }
}


/// Where the evaluator stands: trying the head of the spine, searching the
/// `n`-th pending argument, or finished.
#[derive(Debug, PartialEq, Clone, Copy)]
enum Step {
    LeftTree,
    RightTree(usize),
    Done,
}

/// A resumable evaluator over one term: each call of `next` yields the whole
/// term after exactly one more leftmost-outermost reduction, and `None` once
/// the term is in normal form.
#[derive(Debug, PartialEq)]
pub struct EvalSteps {
    expr: Expr,
    stack: Stack,
    context: Context,
    step: Step,
}

/// The pending arguments of the evaluator, each one a sub-evaluator of its
/// own; the argument pushed last is the leftmost.
#[derive(Debug, PartialEq)]
pub struct Stack(pub Vec<EvalSteps>);

/// The whole term of `st` with only its leftmost `j` pending arguments
/// attached.
pub closed spec fn partial_term(st: EvalSteps, j: int) -> Term
    decreases st, j,
{
    if j <= 0 || j > st.stack.0@.len() {
        st.expr@
    } else {
        app(
            partial_term(st, j - 1),
            current_of(st.stack.0@[st.stack.0@.len() - j]),
        )
    }
}

/// How many pending arguments an evaluator holds.
pub closed spec fn stack_len(st: EvalSteps) -> int {
    st.stack.0@.len() as int
}

/// The whole term an evaluator stands for: its head with every pending
/// argument's own whole term attached.
pub closed spec fn current_of(st: EvalSteps) -> Term
    decreases st, stack_len(st) + 1,
{
    partial_term(st, st.stack.0@.len() as int)
}

/// The pending argument terms, leftmost first.
pub closed spec fn arg_terms(st: EvalSteps) -> Seq<Term> {
    Seq::new(
        st.stack.0@.len() as nat,
        |j: int| current_of(st.stack.0@[st.stack.0@.len() - 1 - j]),
    )
}

/// The evaluator's invariant: sub-evaluators share the environment and are
/// well-formed; once the head search has moved on, the head is flattened and
/// stuck; every argument already passed, and every argument of a finished
/// evaluator, is itself finished.
pub closed spec fn wf_state(st: EvalSteps) -> bool
    decreases st,
{
    &&& st.context.wf()
    &&& forall|i: int|
        0 <= i < st.stack.0@.len() ==> wf_state(#[trigger] st.stack.0@[i])
    &&& forall|i: int|
        0 <= i < st.stack.0@.len() ==> (#[trigger] st.stack.0@[i]).context@ == st.context@
    &&& match st.step {
        Step::LeftTree => true,
        Step::RightTree(n) => {
            &&& !(st.expr@ is App)
            &&& !fires(st.expr@, st.context@, st.stack.0@.len() as nat)
            &&& n <= st.stack.0@.len()
            &&& forall|j: int|
                0 <= j < n ==> (#[trigger] st.stack.0@[st.stack.0@.len() - 1 - j]).step is Done
        },
        Step::Done => {
            &&& !(st.expr@ is App)
            &&& !fires(st.expr@, st.context@, st.stack.0@.len() as nat)
            &&& forall|i: int| 0 <= i < st.stack.0@.len() ==> (#[trigger] st.stack.0@[i]).step is Done
        },
    }
}

proof fn lemma_partial_respine(st: EvalSteps, j: int)
    requires
        0 <= j <= st.stack.0@.len(),
    ensures
        partial_term(st, j) == respine(st.expr@, arg_terms(st).take(j)),
    decreases j,
{
    if j == 0 {
        assert(arg_terms(st).take(0) =~= Seq::<Term>::empty());
    } else {
        lemma_partial_respine(st, j - 1);
        assert(arg_terms(st).take(j).drop_last() =~= arg_terms(st).take(j - 1));
        assert(arg_terms(st).take(j).last() == arg_terms(st)[j - 1]);
        assert(arg_terms(st)[j - 1] == current_of(st.stack.0@[st.stack.0@.len() - j]));
    }
}

proof fn lemma_current_respine(st: EvalSteps)
    ensures
        current_of(st) == respine(st.expr@, arg_terms(st)),
{
    lemma_partial_respine(st, st.stack.0@.len() as int);
    assert(arg_terms(st).take(st.stack.0@.len() as int) =~= arg_terms(st));
}

/// A finished evaluator stands for a term in normal form: together with the
/// contract of `next` — a finished evaluator answers `None`, and an evaluator
/// that answers `None` is finished with its term unchanged — this says that
/// once `next` has answered `None`, every later call answers `None` too.
pub proof fn lemma_done_normal(st: EvalSteps)
    requires
        st.wf(),
        st.done(),
    ensures
        normal_form(st.current(), st.env()),
{
    lemma_done_normal_state(st);
}

proof fn lemma_done_normal_state(st: EvalSteps)
    requires
        wf_state(st),
        st.step is Done,
    ensures
        normal_form(current_of(st), st.context@),
    decreases st,
{
    lemma_current_respine(st);
    let env = st.context@;
    let args = arg_terms(st);
    assert forall|j: int| 0 <= j < args.len() implies normal_form(#[trigger] args[j], env) by {
        let elem = st.stack.0@[st.stack.0@.len() - 1 - j];
        lemma_done_normal_state(elem);
    }
    lemma_reduce_once_stuck(st.expr@, args, env);
    lemma_reduce_arg_none(st.expr@, args, env);
}

impl EvalSteps {
    /// The environment the evaluator reduces against.
    pub closed spec fn env(&self) -> Map<Seq<char>, FuncModel> {
        self.context@
    }

    /// The whole term as it now stands.
    pub closed spec fn current(&self) -> Term {
        current_of(*self)
    }

    /// Whether the evaluator has finished: its term is in normal form.
    pub closed spec fn done(&self) -> bool {
        self.step is Done
    }

    pub closed spec fn wf(&self) -> bool {
        wf_state(*self)
    }

    /// A fresh evaluator over `expr`, reducing against `context`.
    pub fn new(expr: Expr, context: &Context) -> (r: EvalSteps)
        requires
            context.wf(),
        ensures
            r.wf(),
            r.current() == expr@,
            r.env() == context@,
            !r.done(),
    {
        let r = EvalSteps {
            expr,
            stack: Stack(Vec::new()),
            context: context.duplicate(),
            step: Step::LeftTree,
        };
        proof {
            assert(current_of(r) == partial_term(r, 0));
        }
        r
    }

    /// The whole term, reassembled: the head applied to every pending
    /// argument in order.
    pub fn assemble(&self) -> (e: Expr)
        ensures
            e@ == self.current(),
        decreases *self,
    {
        let mut e = self.expr.duplicate();
        let mut j: usize = 0;
        proof {
            assert(e@ == partial_term(*self, 0));
        }
        while j < self.stack.0.len()
            invariant
                j <= self.stack.0.len(),
                e@ == partial_term(*self, j as int),
            decreases self.stack.0@.len() - j,
        {
            let idx = self.stack.0.len() - 1 - j;
            let sub = self.stack.0[idx].assemble();
            e = Expr::a(e, sub);
            j += 1;
        }
        proof {
            assert(self.current() == partial_term(*self, self.stack.0@.len() as int));
        }
        e
    }
}


proof fn lemma_partial_same_parts(a: EvalSteps, b: EvalSteps, j: int)
    requires
        a.expr == b.expr,
        a.stack == b.stack,
    ensures
        partial_term(a, j) == partial_term(b, j),
    decreases j,
{
    if j > 0 {
        lemma_partial_same_parts(a, b, j - 1);
    }
}

/// The whole term depends only on the head and the stack, not on where the
/// search stands.
proof fn lemma_current_same_parts(a: EvalSteps, b: EvalSteps)
    requires
        a.expr == b.expr,
        a.stack == b.stack,
    ensures
        current_of(a) == current_of(b),
{
    lemma_partial_same_parts(a, b, a.stack.0@.len() as int);
}

impl EvalSteps {
    /// Advances by exactly one leftmost-outermost reduction: the result is
    /// the whole term after that one step, or `None` once no redex remains
    /// anywhere in it — and `None` on every later call too.
    pub fn next(&mut self) -> (r: Option<Expr>)
        requires
            old(self).wf(),
        ensures
            final(self).wf(),
            final(self).env() == old(self).env(),
            old(self).done() ==> r is None,
            match r {
                Some(e) => {
                    &&& !old(self).done()
                    &&& reduce_once(old(self).current(), old(self).env()) == Some(e@)
                    &&& final(self).current() == e@
                },
                None => {
                    &&& reduce_once(old(self).current(), old(self).env()) is None
                    &&& final(self).current() == old(self).current()
                    &&& final(self).done()
                },
            },
        decreases term_size(old(self).current()),
    {
        let ghost env = self.context@;
        let is_done = match self.step {
            Step::Done => true,
            _ => false,
        };
        if is_done {
            proof {
                lemma_done_normal_state(*self);
            }
            return None;
        }
        let in_left = match self.step {
            Step::LeftTree => true,
            _ => false,
        };
        if in_left {
            // Flatten the left spine of applications: the head moves down its
            // own left-hand sides while each right-hand side becomes a fresh
            // sub-evaluator on the stack. The whole term never changes.
            loop
                invariant_except_break
                    self.context.wf(),
                    self.context@ == env,
                    self.step is LeftTree,
                    forall|i: int|
                        0 <= i < self.stack.0@.len() ==> wf_state(#[trigger] self.stack.0@[i]),
                    forall|i: int|
                        0 <= i < self.stack.0@.len() ==> (#[trigger] self.stack.0@[i]).context@
                            == env,
                    current_of(*self) == old(self).current(),
                ensures
                    self.context.wf(),
                    self.context@ == env,
                    self.step is LeftTree,
                    forall|i: int|
                        0 <= i < self.stack.0@.len() ==> wf_state(#[trigger] self.stack.0@[i]),
                    forall|i: int|
                        0 <= i < self.stack.0@.len() ==> (#[trigger] self.stack.0@[i]).context@
                            == env,
                    current_of(*self) == old(self).current(),
                    !(self.expr@ is App),
                decreases term_size(self.expr@),
            {
                let ghost pre = *self;
                let mut taken = Expr::Variable(Ident::new(""));
                core::mem::swap(&mut self.expr, &mut taken);
                match taken {
                    Expr::Apply { lhs, rhs } => {
                        let ghost rhs_model = rhs@;
                        self.expr = *lhs;
                        let sub = EvalSteps::new(*rhs, &self.context);
                        self.stack.0.push(sub);
                        proof {
                            assert(self.stack.0@.drop_last() =~= pre.stack.0@);
                            assert forall|k2: int|
                                0 <= k2 < arg_terms(*self).len() implies arg_terms(*self)[k2]
                                == (seq![rhs_model] + arg_terms(pre))[k2] by {
                                if k2 >= 1 {
                                    assert(self.stack.0@[self.stack.0@.len() - 1 - k2]
                                        == pre.stack.0@[pre.stack.0@.len() - 1 - (k2 - 1)]);
                                }
                            }
                            assert(arg_terms(*self) =~= seq![rhs_model] + arg_terms(pre));
                            lemma_current_respine(pre);
                            lemma_current_respine(*self);
                            lemma_respine_shift(self.expr@, rhs_model, arg_terms(pre));
                            assert(pre.expr@ == app(self.expr@, rhs_model));
                            assert(current_of(*self) == current_of(pre));
                        }
                    },
                    other => {
                        self.expr = other;
                        proof {
                            assert(*self == pre);
                        }
                        break;
                    },
                }
            }
            let n = self.stack.0.len();
            let maybe_arity = self.expr.arity(&self.context);
            let can_fire = match maybe_arity {
                Some(k) => k <= n,
                None => false,
            };
            if can_fire {
                let k = match maybe_arity {
                    Some(kk) => kk,
                    None => 0,
                };
                proof {
                    assert(arity_of(self.expr@, env) == Some(k as nat));
                    assert(fires(self.expr@, env, self.stack.0@.len() as nat));
                }
                let ghost flat = *self;
                let mut args: Vec<Expr> = Vec::new();
                let mut t: usize = 0;
                while t < k
                    invariant
                        t <= k,
                        k <= flat.stack.0@.len(),
                        self.expr == flat.expr,
                        self.context == flat.context,
                        self.step == flat.step,
                        self.stack.0@ == flat.stack.0@.take(flat.stack.0@.len() - t),
                        args@.len() == t,
                        forall|j: int| 0 <= j < t ==> (#[trigger] args@[j])@ == arg_terms(flat)[j],
                        forall|i: int|
                            0 <= i < flat.stack.0@.len() ==> wf_state(
                                #[trigger] flat.stack.0@[i],
                            ),
                    decreases k - t,
                {
                    let sub = match self.stack.0.pop() {
                        Some(s) => s,
                        None => vstd::pervasive::unreached(),
                    };
                    proof {
                        assert(sub == flat.stack.0@[flat.stack.0@.len() - 1 - t]);
                        assert(self.stack.0@ =~= flat.stack.0@.take(
                            flat.stack.0@.len() - (t + 1),
                        ));
                    }
                    let e = sub.assemble();
                    args.push(e);
                    proof {
                        assert(e@ == arg_terms(flat)[t as int]);
                    }
                    t += 1;
                }
                proof {
                    assert(args@.map_values(|a: Expr| a@) =~= arg_terms(flat).take(k as int));
                }
                let applied = match self.expr.apply(&self.context, args) {
                    Some(e) => e,
                    None => {
                        proof {
                            assert(false);
                        }
                        vstd::pervasive::unreached()
                    },
                };
                let ghost applied_model = applied@;
                self.expr = applied;
                let out = self.assemble();
                proof {
                    lemma_current_respine(flat);
                    lemma_reduce_once_fires(flat.expr@, arg_terms(flat), env);
                    assert forall|j: int|
                        0 <= j < arg_terms(*self).len() implies arg_terms(*self)[j]
                        == arg_terms(flat).skip(k as int)[j] by {
                        assert(self.stack.0@[self.stack.0@.len() - 1 - j]
                            == flat.stack.0@[flat.stack.0@.len() - 1 - (j + k)]);
                    }
                    assert(arg_terms(*self) =~= arg_terms(flat).skip(k as int));
                    lemma_current_respine(*self);
                    assert(current_of(*self) == respine(applied_model, arg_terms(flat).skip(
                        k as int,
                    )));
                    assert(reduce_once(old(self).current(), env) == Some(current_of(*self)));
                }
                return Some(out);
            }
            let ghost before_walk = *self;
            self.step = Step::RightTree(0);
            proof {
                lemma_current_same_parts(*self, before_walk);
                assert(!fires(self.expr@, env, self.stack.0@.len() as nat));
            }
        }
        let mut n: usize = match self.step {
            Step::RightTree(m) => m,
            _ => 0,
        };
        loop
            invariant
                self.context.wf(),
                self.context@ == env,
                env == old(self).env(),
                !old(self).done(),
                !(self.expr@ is App),
                !fires(self.expr@, env, self.stack.0@.len() as nat),
                n <= self.stack.0@.len(),
                forall|i: int|
                    0 <= i < self.stack.0@.len() ==> wf_state(#[trigger] self.stack.0@[i]),
                forall|i: int|
                    0 <= i < self.stack.0@.len() ==> (#[trigger] self.stack.0@[i]).context@ == env,
                forall|j: int|
                    0 <= j < n ==> (#[trigger] self.stack.0@[self.stack.0@.len() - 1 - j]).step
                        is Done,
                current_of(*self) == old(self).current(),
            decreases self.stack.0@.len() - n,
        {
            if n >= self.stack.0.len() {
                let ghost before_done = *self;
                self.step = Step::Done;
                proof {
                    lemma_current_same_parts(*self, before_done);
                    assert forall|i: int|
                        0 <= i < self.stack.0@.len() implies (#[trigger] self.stack.0@[i]).step
                        is Done by {
                        assert(self.stack.0@[self.stack.0@.len() - 1 - (self.stack.0@.len() - 1
                            - i)].step is Done);
                    }
                    lemma_done_normal_state(*self);
                }
                return None;
            }
            let idx = self.stack.0.len() - 1 - n;
            let ghost pre = *self;
            let mut sub = self.stack.0.remove(idx);
            proof {
                lemma_current_respine(pre);
                lemma_respine_arg_size(pre.expr@, arg_terms(pre), n as int);
                assert(current_of(sub) == arg_terms(pre)[n as int]);
                assert(term_size(current_of(sub)) < term_size(current_of(pre)));
            }
            let stepped = sub.next();
            self.stack.0.insert(idx, sub);
            proof {
                assert(self.stack.0@ =~= pre.stack.0@.update(idx as int, sub));
            }
            match stepped {
                Some(sub_out) => {
                    let ghost before_yield = *self;
                    self.step = Step::RightTree(n);
                    proof {
                        lemma_current_same_parts(*self, before_yield);
                    }
                    let out = self.assemble();
                    proof {
                        let stepped_term = sub_out@;
                        assert(current_of(sub) == stepped_term);
                        assert forall|i: int|
                            0 <= i < n implies normal_form(
                            #[trigger] arg_terms(pre)[i],
                            env,
                        ) by {
                            lemma_done_normal_state(pre.stack.0@[pre.stack.0@.len() - 1 - i]);
                        }
                        lemma_reduce_once_stuck(pre.expr@, arg_terms(pre), env);
                        lemma_reduce_arg_at(pre.expr@, arg_terms(pre), n as int, stepped_term, env);
                        assert forall|j: int|
                            0 <= j < arg_terms(*self).len() implies arg_terms(*self)[j]
                            == arg_terms(pre).update(n as int, stepped_term)[j] by {
                            if j != n {
                                assert(self.stack.0@[self.stack.0@.len() - 1 - j]
                                    == pre.stack.0@[pre.stack.0@.len() - 1 - j]);
                            }
                        }
                        assert(arg_terms(*self) =~= arg_terms(pre).update(n as int, stepped_term));
                        lemma_current_respine(*self);
                        assert(reduce_once(old(self).current(), env) == Some(current_of(*self)));
                    }
                    return Some(out);
                },
                None => {
                    proof {
                        assert forall|j: int|
                            0 <= j < arg_terms(*self).len() implies arg_terms(*self)[j]
                            == arg_terms(pre)[j] by {
                            if j != n {
                                assert(self.stack.0@[self.stack.0@.len() - 1 - j]
                                    == pre.stack.0@[pre.stack.0@.len() - 1 - j]);
                            } else {
                                assert(current_of(sub) == arg_terms(pre)[n as int]);
                            }
                        }
                        assert(arg_terms(*self) =~= arg_terms(pre));
                        lemma_current_respine(pre);
                        lemma_current_respine(*self);
                    }
                    n += 1;
                },
            }
        }
    }
}


/// The terms yielded by at most `n` reduction steps from `t`: the sequence
/// stops early at a normal form, and its length reaches `n` only when `n`
/// steps were all possible.
pub open spec fn steps_upto(t: Term, env: Map<Seq<char>, FuncModel>, n: nat) -> Seq<Term>
    decreases n,
{
    if n == 0 {
        Seq::empty()
    } else {
        match reduce_once(t, env) {
            None => Seq::empty(),
            Some(t2) => seq![t2] + steps_upto(t2, env, (n - 1) as nat),
        }
    }
}

pub proof fn lemma_steps_upto_len(t: Term, env: Map<Seq<char>, FuncModel>, n: nat)
    ensures
        steps_upto(t, env, n).len() <= n,
    decreases n,
{
    if n > 0 {
        match reduce_once(t, env) {
            None => {},
            Some(t2) => {
                lemma_steps_upto_len(t2, env, (n - 1) as nat);
            },
        }
    }
}

proof fn lemma_partial_congruent(a: EvalSteps, b: EvalSteps, j: int)
    requires
        a.expr@ == b.expr@,
        a.stack.0@.len() == b.stack.0@.len(),
        forall|i: int|
            0 <= i < a.stack.0@.len() ==> current_of(#[trigger] a.stack.0@[i]) == current_of(
                b.stack.0@[i],
            ),
    ensures
        partial_term(a, j) == partial_term(b, j),
    decreases j,
{
    if j > 0 {
        lemma_partial_congruent(a, b, j - 1);
    }
}

proof fn lemma_current_congruent(a: EvalSteps, b: EvalSteps)
    requires
        a.expr@ == b.expr@,
        a.stack.0@.len() == b.stack.0@.len(),
        forall|i: int|
            0 <= i < a.stack.0@.len() ==> current_of(#[trigger] a.stack.0@[i]) == current_of(
                b.stack.0@[i],
            ),
    ensures
        current_of(a) == current_of(b),
{
    lemma_partial_congruent(a, b, a.stack.0@.len() as int);
}

impl EvalSteps {
    /// Advances up to `limit` steps and hands back the last term reached,
    /// with `true` when all `limit` steps fired — the term may then still
    /// not be in normal form — and `false` when a normal form was reached
    /// first; `None` when the term was already in normal form.
    pub fn eval_last(&mut self, limit: usize) -> (r: (Option<Expr>, bool))
        requires
            old(self).wf(),
            1 <= limit,
        ensures
            final(self).wf(),
            ({
                let s = steps_upto(old(self).current(), old(self).env(), limit as nat);
                match r.0 {
                    Some(e) => s.len() >= 1 && e@ == s.last() && r.1 == (s.len() == limit),
                    None => s.len() == 0 && r.1 == false,
                }
            }),
    {
        let ghost env = self.context@;
        let ghost s = steps_upto(old(self).current(), env, limit as nat);
        match self.next() {
            None => (None, false),
            Some(first) => {
                let mut e = first;
                let mut t: usize = 1;
                proof {
                    assert(s == seq![e@] + steps_upto(e@, env, (limit - 1) as nat));
                    assert(s[0] == e@);
                    assert(s.skip(1) =~= steps_upto(e@, env, (limit - 1) as nat));
                }
                while t < limit
                    invariant
                        1 <= t <= limit,
                        self.wf(),
                        self.context@ == env,
                        env == old(self).env(),
                        s == steps_upto(old(self).current(), env, limit as nat),
                        t <= s.len(),
                        e@ == s[t - 1],
                        self.current() == e@,
                        steps_upto(self.current(), env, (limit - t) as nat) == s.skip(t as int),
                    decreases limit - t,
                {
                    let ghost cur = self.current();
                    match self.next() {
                        Some(e2) => {
                            proof {
                                assert(steps_upto(cur, env, (limit - t) as nat) == seq![e2@]
                                    + steps_upto(e2@, env, (limit - t - 1) as nat));
                                assert(s.skip(t as int)[0] == e2@);
                                assert(s[t as int] == e2@);
                                assert(s.skip(t as int).skip(1) =~= s.skip(t + 1));
                                assert((seq![e2@] + steps_upto(e2@, env, (limit - t - 1) as nat))
                                    .skip(1) =~= steps_upto(e2@, env, (limit - t - 1) as nat));
                                assert(s.skip(t as int).len() >= 1);
                            }
                            e = e2;
                            t += 1;
                        },
                        None => {
                            proof {
                                assert(steps_upto(cur, env, (limit - t) as nat) =~= Seq::<
                                    Term,
                                >::empty());
                                assert(s.skip(t as int).len() == 0);
                                assert(s.len() == t);
                                assert(e@ == s.last());
                            }
                            return (Some(e), false);
                        },
                    }
                }
                proof {
                    lemma_steps_upto_len(old(self).current(), env, limit as nat);
                    assert(s.len() == limit);
                    assert(e@ == s.last());
                }
                (Some(e), true)
            },
        }
    }

    /// A copy of this evaluator that stands for the same term, against the
    /// same environment, at the same point of the search.
    pub fn duplicate(&self) -> (r: EvalSteps)
        ensures
            r.current() == self.current(),
            r.env() == self.env(),
            r.done() == self.done(),
            self.wf() ==> r.wf(),
        decreases *self,
    {
        let mut stack: Vec<EvalSteps> = Vec::new();
        let mut k: usize = 0;
        while k < self.stack.0.len()
            invariant
                k <= self.stack.0@.len(),
                stack@.len() == k,
                forall|i: int|
                    0 <= i < k ==> current_of(#[trigger] stack@[i]) == current_of(
                        self.stack.0@[i],
                    ) && stack@[i].context@ == self.stack.0@[i].context@ && (stack@[i].step
                        is Done <==> self.stack.0@[i].step is Done) && (wf_state(
                        self.stack.0@[i],
                    ) ==> wf_state(stack@[i])),
            decreases self.stack.0@.len() - k,
        {
            let sub = self.stack.0[k].duplicate();
            stack.push(sub);
            k += 1;
        }
        let r = EvalSteps {
            expr: self.expr.duplicate(),
            stack: Stack(stack),
            context: self.context.duplicate(),
            step: self.step,
        };
        proof {
            lemma_current_congruent(r, *self);
        }
        r
    }
}

impl Stack {
    /// An empty argument stack.
    pub fn new() -> (r: Stack)
        ensures
            r.0@ == Seq::<EvalSteps>::empty(),
    {
        Stack(Vec::new())
    }

    /// Pushes one pending argument; the latest push is the leftmost argument.
    pub fn push(&mut self, s: EvalSteps)
        ensures
            final(self).0@ == old(self).0@.push(s),
    {
        self.0.push(s)
    }

    /// How many arguments are pending.
    pub fn len(&self) -> (r: usize)
        ensures
            r == self.0@.len(),
    {
        self.0.len()
    }

    /// Takes the `n` leftmost pending arguments off the stack, leftmost
    /// first; `None`, changing nothing, when fewer than `n` are held.
    pub fn pop(&mut self, n: usize) -> (r: Option<Vec<EvalSteps>>)
        ensures
            match r {
                Some(v) => old(self).0@.len() >= n && v@.len() == n && final(self).0@ == old(
                    self,
                ).0@.take(old(self).0@.len() - n) && forall|j: int|
                    0 <= j < n ==> v@[j] == old(self).0@[old(self).0@.len() - 1 - j],
                None => old(self).0@.len() < n && final(self).0@ == old(self).0@,
            },
    {
        if self.0.len() < n {
            return None;
        }
        let ghost given = self.0@;
        let mut v: Vec<EvalSteps> = Vec::new();
        let mut t: usize = 0;
        while t < n
            invariant
                t <= n,
                n <= given.len(),
                self.0@ == given.take(given.len() - t),
                v@.len() == t,
                forall|j: int| 0 <= j < t ==> v@[j] == given[given.len() - 1 - j],
            decreases n - t,
        {
            let sub = match self.0.pop() {
                Some(sub) => sub,
                None => vstd::pervasive::unreached(),
            };
            v.push(sub);
            proof {
                assert(self.0@ =~= given.take(given.len() - (t + 1)));
            }
            t += 1;
        }
        Some(v)
    }

    /// Copies of all pending arguments, leftmost first.
    pub fn all(&self) -> (r: Vec<EvalSteps>)
        ensures
            r@.len() == self.0@.len(),
            forall|j: int|
                0 <= j < r@.len() ==> current_of(#[trigger] r@[j]) == current_of(
                    self.0@[self.0@.len() - 1 - j],
                ),
    {
        let mut r: Vec<EvalSteps> = Vec::new();
        let mut j: usize = 0;
        while j < self.0.len()
            invariant
                j <= self.0@.len(),
                r@.len() == j,
                forall|i: int|
                    0 <= i < j ==> current_of(#[trigger] r@[i]) == current_of(
                        self.0@[self.0@.len() - 1 - i],
                    ),
            decreases self.0@.len() - j,
        {
            r.push(self.0[self.0.len() - 1 - j].duplicate());
            j += 1;
        }
        r
    }

    /// The `n`-th pending argument, counting from the leftmost.
    pub fn nth(&self, n: usize) -> (r: Option<&EvalSteps>)
        ensures
            match r {
                Some(e) => n < self.0@.len() && *e == self.0@[self.0@.len() - 1 - n],
                None => n >= self.0@.len(),
            },
    {
        if n < self.0.len() {
            Some(&self.0[self.0.len() - 1 - n])
        } else {
            None
        }
    }
}

} // verus!
