//! The environment: a mapping from names to defined functions, queried during
//! evaluation for a function's arity and record, and changed only by whole
//! definitions and deletions.

pub mod default;

use crate::function::{Func, FuncModel};
use crate::identifier::Ident;
use vstd::prelude::*;

verus! {

/// The mapping held by a list of functions; a later entry with the same name
/// overrides an earlier one.
pub open spec fn funcs_map(s: Seq<Func>) -> Map<Seq<char>, FuncModel>
    decreases s.len(),
{
    if s.len() == 0 {
        Map::empty()
    } else {
        funcs_map(s.drop_last()).insert(s.last()@.name, s.last()@)
    }
}

pub proof fn lemma_funcs_map_contains(s: Seq<Func>, v: Seq<char>)
    ensures
        funcs_map(s).contains_key(v) <==> exists|k: int| 0 <= k < s.len() && s[k]@.name == v,
    decreases s.len(),
{
    if s.len() > 0 {
        lemma_funcs_map_contains(s.drop_last(), v);
        if exists|k: int| 0 <= k < s.len() && s[k]@.name == v {
            let k = choose|k: int| 0 <= k < s.len() && s[k]@.name == v;
            if k < s.len() - 1 {
                assert(s.drop_last()[k]@.name == v);
            }
        }
    }
}

/// Under distinct names, the map sends each listed name to its own entry.
proof fn lemma_funcs_map_index(s: Seq<Func>, k: int)
    requires
        forall|i: int, j: int| 0 <= i < j < s.len() ==> s[i]@.name != s[j]@.name,
        0 <= k < s.len(),
    ensures
        funcs_map(s).contains_key(s[k]@.name),
        funcs_map(s)[s[k]@.name] == s[k]@,
    decreases s.len(),
{
    if k < s.len() - 1 {
        assert(s.drop_last()[k] == s[k]);
        lemma_funcs_map_index(s.drop_last(), k);
        assert(s[k]@.name != s[s.len() - 1]@.name);
    }
}

proof fn lemma_funcs_map_finite(s: Seq<Func>)
    ensures
        funcs_map(s).dom().finite(),
    decreases s.len(),
{
    if s.len() > 0 {
        lemma_funcs_map_finite(s.drop_last());
    }
}

proof fn lemma_funcs_map_len(s: Seq<Func>)
    requires
        forall|i: int, j: int| 0 <= i < j < s.len() ==> s[i]@.name != s[j]@.name,
    ensures
        funcs_map(s).dom().finite(),
        funcs_map(s).dom().len() == s.len(),
    decreases s.len(),
{
    if s.len() > 0 {
        lemma_funcs_map_len(s.drop_last());
        lemma_funcs_map_contains(s.drop_last(), s.last()@.name);
    }
}

/// A namespace of defined functions, keyed by name.
#[derive(Debug, PartialEq)]
pub struct Context {
    funcs: Vec<Func>,
}

impl View for Context {
    type V = Map<Seq<char>, FuncModel>;

    closed spec fn view(&self) -> Map<Seq<char>, FuncModel> {
        funcs_map(self.funcs@)
    }
}

impl Context {
    /// Each defined name is held exactly once.
    pub closed spec fn wf(&self) -> bool {
        forall|i: int, j: int|
            0 <= i < j < self.funcs@.len() ==> self.funcs@[i]@.name != self.funcs@[j]@.name
    }

    /// The empty environment.
    pub fn new() -> (r: Context)
        ensures
            r@ == Map::<Seq<char>, FuncModel>::empty(),
            r@.dom().finite(),
            r.wf(),
    {
        let r = Context { funcs: Vec::new() };
        proof {
            lemma_funcs_map_finite(r.funcs@);
        }
        r
    }

    /// The position of `id` among the entries, if it is defined.
    fn position(&self, id: &Ident) -> (r: Option<usize>)
        ensures
            match r {
                Some(k) => k < self.funcs@.len() && self.funcs@[k as int]@.name == id@,
                None => forall|j: int| 0 <= j < self.funcs@.len() ==> self.funcs@[j]@.name != id@,
            },
    {
        let mut k: usize = 0;
        while k < self.funcs.len()
            invariant
                k <= self.funcs.len(),
                forall|j: int| 0 <= j < k ==> self.funcs@[j]@.name != id@,
            decreases self.funcs.len() - k,
        {
            if *self.funcs[k].name() == *id {
                return Some(k);
            }
            k += 1;
        }
        None
    }

    /// Defines `func` under its own name, overwriting as a whole any earlier
    /// definition of that name.
    pub fn def(&mut self, func: Func)
        requires
            old(self).wf(),
        ensures
            final(self).wf(),
            final(self)@ == old(self)@.insert(func@.name, func@),
            final(self)@.dom().finite(),
    {
        let name = func.name().duplicate();
        self.del(&name);
        let ghost before = self.funcs@;
        let ghost had = self@;
        self.funcs.push(func);
        proof {
            lemma_funcs_map_finite(self.funcs@);
            assert(self.funcs@.drop_last() =~= before);
            assert(self@ == had.insert(func@.name, func@));
            lemma_funcs_map_contains(before, func@.name);
            assert forall|i: int, j: int|
                0 <= i < j < self.funcs@.len() implies self.funcs@[i]@.name
                != self.funcs@[j]@.name by {
                if j == self.funcs@.len() - 1 {
                    assert(!funcs_map(before).contains_key(func@.name));
                    assert(before[i]@.name != func@.name);
                }
            }
        }
    }

    /// Looks a name up.
    pub fn get(&self, id: &Ident) -> (r: Option<&Func>)
        requires
            self.wf(),
        ensures
            match r {
                Some(f) => self@.contains_key(id@) && f@ == self@[id@],
                None => !self@.contains_key(id@),
            },
    {
        proof {
            lemma_funcs_map_contains(self.funcs@, id@);
        }
        match self.position(id) {
            Some(k) => {
                proof {
                    lemma_funcs_map_index(self.funcs@, k as int);
                }
                Some(&self.funcs[k])
            },
            None => None,
        }
    }

    /// The arity of the function defined under `id`, if one is.
    pub fn arity(&self, id: &Ident) -> (r: Option<usize>)
        requires
            self.wf(),
        ensures
            match r {
                Some(n) => self@.contains_key(id@) && n == self@[id@].params.len(),
                None => !self@.contains_key(id@),
            },
    {
        match self.get(id) {
            Some(f) => Some(f.arity()),
            None => None,
        }
    }

    /// Removes the definition of `id`, if there is one.
    pub fn del(&mut self, id: &Ident)
        requires
            old(self).wf(),
        ensures
            final(self).wf(),
            final(self)@ == old(self)@.remove(id@),
            final(self)@.dom().finite(),
    {
        proof {
            lemma_funcs_map_finite(self.funcs@);
        }
        match self.position(id) {
            Some(k) => {
                let ghost before = self.funcs@;
                self.funcs.remove(k);
                proof {
                    lemma_funcs_map_finite(self.funcs@);
                    assert forall|i: int, j: int|
                        0 <= i < j < self.funcs@.len() implies self.funcs@[i]@.name
                        != self.funcs@[j]@.name by {
                        let pi = if i < k { i } else { i + 1 };
                        let pj = if j < k { j } else { j + 1 };
                        assert(self.funcs@[i] == before[pi]);
                        assert(self.funcs@[j] == before[pj]);
                    }
                    lemma_funcs_map_remove(before, k as int);
                }
            },
            None => {
                proof {
                    lemma_funcs_map_contains(self.funcs@, id@);
                    assert(self@ =~= self@.remove(id@));
                }
            },
        }
    }

    /// How many functions are defined.
    pub fn count(&self) -> (r: usize)
        requires
            self.wf(),
        ensures
            r == self@.dom().len(),
            self@.dom().finite(),
    {
        proof {
            lemma_funcs_map_len(self.funcs@);
        }
        self.funcs.len()
    }

    /// Calls `callback` once for each defined name and its function, in an
    /// unspecified order; each pair handed over is an entry of the map, which
    /// is all the callback has to be ready for.
    pub fn for_each<F: Fn(&Ident, &Func)>(&self, callback: F)
        requires
            self.wf(),
            forall|i: &Ident, f: &Func|
                (self@.contains_key(i@) && f@ == self@[i@]) ==> #[trigger] callback.requires(
                    (i, f),
                ),
    {
        let mut k: usize = 0;
        while k < self.funcs.len()
            invariant
                self.wf(),
                forall|i: &Ident, f: &Func|
                    (self@.contains_key(i@) && f@ == self@[i@]) ==> #[trigger] callback.requires(
                        (i, f),
                    ),
            decreases self.funcs.len() - k,
        {
            proof {
                lemma_funcs_map_index(self.funcs@, k as int);
            }
            callback(self.funcs[k].name(), &self.funcs[k]);
            k += 1;
        }
    }

    /// The defined functions, in definition order.
    pub fn funcs(&self) -> (r: Vec<&Func>)
        requires
            self.wf(),
        ensures
            r@.len() == self@.dom().len(),
            forall|i: int|
                0 <= i < r@.len() ==> self@.contains_key(#[trigger] r@[i]@.name)
                    && self@[r@[i]@.name] == r@[i]@,
    {
        let mut r: Vec<&Func> = Vec::new();
        let mut k: usize = 0;
        while k < self.funcs.len()
            invariant
                k <= self.funcs.len(),
                r@.len() == k,
                forall|i: int| 0 <= i < k ==> r@[i] == &self.funcs@[i],
            decreases self.funcs.len() - k,
        {
            r.push(&self.funcs[k]);
            k += 1;
        }
        proof {
            lemma_funcs_map_len(self.funcs@);
            assert forall|i: int| 0 <= i < r@.len() implies self@.contains_key(
                #[trigger] r@[i]@.name,
            ) && self@[r@[i]@.name] == r@[i]@ by {
                lemma_funcs_map_index(self.funcs@, i);
            }
        }
        r
    }

    /// A structural copy of this environment.
    pub fn duplicate(&self) -> (r: Context)
        ensures
            r@ == self@,
            self.wf() ==> r.wf(),
    {
        let mut funcs: Vec<Func> = Vec::new();
        let mut k: usize = 0;
        while k < self.funcs.len()
            invariant
                k <= self.funcs.len(),
                funcs@.len() == k,
                forall|i: int| 0 <= i < k ==> funcs@[i]@ == self.funcs@[i]@,
            decreases self.funcs.len() - k,
        {
            funcs.push(self.funcs[k].duplicate());
            k += 1;
        }
        let r = Context { funcs };
        proof {
            lemma_funcs_map_congruent(r.funcs@, self.funcs@);
            if self.wf() {
                assert forall|i: int, j: int|
                    0 <= i < j < r.funcs@.len() implies r.funcs@[i]@.name
                    != r.funcs@[j]@.name by {
                    assert(r.funcs@[i]@ == self.funcs@[i]@);
                    assert(r.funcs@[j]@ == self.funcs@[j]@);
                }
            }
        }
        r
    }
}

/// Removing one entry from a duplicate-free list removes its name from the map.
proof fn lemma_funcs_map_remove(s: Seq<Func>, k: int)
    requires
        forall|i: int, j: int| 0 <= i < j < s.len() ==> s[i]@.name != s[j]@.name,
        0 <= k < s.len(),
    ensures
        funcs_map(s.remove(k)) == funcs_map(s).remove(s[k]@.name),
    decreases s.len(),
{
    if k == s.len() - 1 {
        assert(s.remove(k) =~= s.drop_last());
        lemma_funcs_map_contains(s.drop_last(), s[k]@.name);
        assert(funcs_map(s.drop_last()) =~= funcs_map(s).remove(s[k]@.name));
    } else {
        assert(s.remove(k).drop_last() =~= s.drop_last().remove(k));
        assert(s.remove(k).last() == s.last());
        lemma_funcs_map_remove(s.drop_last(), k);
        assert(funcs_map(s.remove(k)) =~= funcs_map(s).remove(s[k]@.name));
    }
}

/// Two lists whose entries have the same models give the same map.
proof fn lemma_funcs_map_congruent(a: Seq<Func>, b: Seq<Func>)
    requires
        a.len() == b.len(),
        forall|i: int| 0 <= i < a.len() ==> a[i]@ == b[i]@,
    ensures
        funcs_map(a) == funcs_map(b),
    decreases a.len(),
{
    if a.len() > 0 {
        assert(forall|i: int| 0 <= i < a.drop_last().len() ==> a.drop_last()[i]@ == b.drop_last()[i]@);
        lemma_funcs_map_congruent(a.drop_last(), b.drop_last());
        assert(funcs_map(a) =~= funcs_map(b));
    }
}

impl Context {
    /// Builds an environment by defining each function in order; later
    /// entries of `v` override earlier ones with the same name.
    pub fn from_funcs(v: Vec<Func>) -> (r: Context)
        ensures
            r@ == funcs_map(v@),
            r@.dom().finite(),
            r.wf(),
    {
        let mut r = Context::new();
        let ghost given = v@;
        let mut rest = v;
        let mut k: usize = 0;
        proof {
            assert(funcs_map(given.take(0)) =~= Map::<Seq<char>, FuncModel>::empty());
        }
        while k < rest.len()
            invariant
                k <= rest.len(),
                rest@ == given,
                r.wf(),
                r@.dom().finite(),
                r@ == funcs_map(given.take(k as int)),
            decreases rest.len() - k,
        {
            let f = rest[k].duplicate();
            proof {
                assert(given.take(k + 1).drop_last() =~= given.take(k as int));
                assert(given.take(k + 1).last() == given[k as int]);
            }
            r.def(f);
            k += 1;
        }
        proof {
            assert(given.take(given.len() as int) =~= given);
        }
        r
    }
}

impl From<Vec<Func>> for Context {
    /// Builds an environment by defining each function in order.
    fn from(v: Vec<Func>) -> (r: Context) {
        Context::from_funcs(v)
    }
}

impl vstd::std_specs::convert::FromSpecImpl<Vec<Func>> for Context {
    open spec fn obeys_from_spec() -> bool {
        false
    }

    open spec fn from_spec(v: Vec<Func>) -> Context {
        arbitrary()
    }
}

} // verus!
