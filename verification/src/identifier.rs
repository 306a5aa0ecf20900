//! Identifiers: the names of variables, symbols and defined functions, with
//! the deterministic fresh-name generator used to avoid variable capture.

use vstd::arithmetic::div_mod::lemma_fundamental_div_mod;
use vstd::prelude::*;
use vstd::string::StringExecFns;

verus! {

/// What `str::to_uppercase` returns for a given sequence of characters,
/// named: the uppercase form depends on the characters alone.
pub uninterp spec fn upper_of(s: Seq<char>) -> Seq<char>;

/// The character for one decimal digit.
pub open spec fn digit_char(d: nat) -> char {
    if d == 0 {
        '0'
    } else if d == 1 {
        '1'
    } else if d == 2 {
        '2'
    } else if d == 3 {
        '3'
    } else if d == 4 {
        '4'
    } else if d == 5 {
        '5'
    } else if d == 6 {
        '6'
    } else if d == 7 {
        '7'
    } else if d == 8 {
        '8'
    } else {
        '9'
    }
}

/// The decimal digits of `n`, most significant first.
pub open spec fn decimal_of(n: nat) -> Seq<char>
    decreases n,
{
    if n < 10 {
        seq![digit_char(n)]
    } else {
        decimal_of(n / 10).push(digit_char(n % 10))
    }
}

/// The numeric value of one digit character; the inverse of `digit_char`.
pub open spec fn digit_val(c: char) -> nat {
    if c == '0' {
        0
    } else if c == '1' {
        1
    } else if c == '2' {
        2
    } else if c == '3' {
        3
    } else if c == '4' {
        4
    } else if c == '5' {
        5
    } else if c == '6' {
        6
    } else if c == '7' {
        7
    } else if c == '8' {
        8
    } else {
        9
    }
}

/// The number whose digits are `s`; the inverse of `decimal_of`.
pub open spec fn decimal_val(s: Seq<char>) -> nat
    decreases s.len(),
{
    if s.len() == 0 {
        0
    } else {
        decimal_val(s.drop_last()) * 10 + digit_val(s.last())
    }
}

/// Reading the digits of `n` back gives `n`, so `decimal_of` is injective.
pub proof fn lemma_decimal_roundtrip(n: nat)
    ensures
        decimal_val(decimal_of(n)) == n,
    decreases n,
{
    if n < 10 {
        let s = decimal_of(n);
        assert(s.last() == digit_char(n));
        assert(s.drop_last() =~= Seq::<char>::empty());
        assert(decimal_val(Seq::<char>::empty()) == 0);
        assert(decimal_val(s) == digit_val(digit_char(n)));
        assert(digit_val(digit_char(n)) == n);
    } else {
        lemma_decimal_roundtrip(n / 10);
        lemma_fundamental_div_mod(n as int, 10);
        assert(decimal_of(n).drop_last() =~= decimal_of(n / 10));
        assert(digit_val(digit_char(n % 10)) == n % 10);
    }
}

/// The candidate name tried at index `i`: the uppercased base followed by the
/// decimal digits of `i`.
pub open spec fn candidate(base: Seq<char>, i: nat) -> Seq<char> {
    upper_of(base) + decimal_of(i)
}

proof fn lemma_candidate_injective(base: Seq<char>, i: nat, j: nat)
    requires
        i != j,
    ensures
        candidate(base, i) != candidate(base, j),
{
    if candidate(base, i) == candidate(base, j) {
        let u = upper_of(base);
        assert(decimal_of(i) =~= candidate(base, i).subrange(
            u.len() as int,
            candidate(base, i).len() as int,
        ));
        assert(decimal_of(j) =~= candidate(base, j).subrange(
            u.len() as int,
            candidate(base, j).len() as int,
        ));
        lemma_decimal_roundtrip(i);
        lemma_decimal_roundtrip(j);
    }
}

/// `i` is the smallest index whose candidate name is not already taken.
pub open spec fn is_fresh_index(base: Seq<char>, taken: Set<Seq<char>>, i: nat) -> bool {
    !taken.contains(candidate(base, i)) && forall|j: nat| j < i ==> taken.contains(
        candidate(base, j),
    )
}

proof fn lemma_fresh_index_unique(base: Seq<char>, taken: Set<Seq<char>>, i: nat, j: nat)
    requires
        is_fresh_index(base, taken, i),
        is_fresh_index(base, taken, j),
    ensures
        i == j,
{
}

/// The fresh name picked for `base` against the set `taken`: the uppercased
/// base when it is free, otherwise the candidate at the smallest free index.
pub open spec fn fresh_name_of(base: Seq<char>, taken: Set<Seq<char>>) -> Seq<char> {
    if !taken.contains(upper_of(base)) {
        upper_of(base)
    } else {
        candidate(base, choose|i: nat| is_fresh_index(base, taken, i))
    }
}

/// The set of names held by a list of identifiers.
pub open spec fn names_of(s: Seq<Ident>) -> Set<Seq<char>>
    decreases s.len(),
{
    if s.len() == 0 {
        Set::empty()
    } else {
        names_of(s.drop_last()).insert(s.last()@)
    }
}

pub proof fn lemma_names_of_finite(s: Seq<Ident>)
    ensures
        names_of(s).finite(),
        names_of(s).len() <= s.len(),
    decreases s.len(),
{
    if s.len() > 0 {
        lemma_names_of_finite(s.drop_last());
    }
}

/// The names of two lists end to end are the union of their names.
pub proof fn lemma_names_of_concat(a: Seq<Ident>, b: Seq<Ident>)
    ensures
        names_of(a + b) == names_of(a).union(names_of(b)),
    decreases b.len(),
{
    if b.len() == 0 {
        assert(a + b =~= a);
        assert(names_of(a + b) =~= names_of(a).union(names_of(b)));
    } else {
        assert((a + b).drop_last() =~= a + b.drop_last());
        assert((a + b).last() == b.last());
        lemma_names_of_concat(a, b.drop_last());
        assert(names_of(a + b) =~= names_of(a).union(names_of(b)));
    }
}

pub proof fn lemma_names_of_contains(s: Seq<Ident>, v: Seq<char>)
    ensures
        names_of(s).contains(v) <==> exists|k: int| 0 <= k < s.len() && s[k]@ == v,
    decreases s.len(),
{
    if s.len() > 0 {
        lemma_names_of_contains(s.drop_last(), v);
        if exists|k: int| 0 <= k < s.len() && s[k]@ == v {
            let k = choose|k: int| 0 <= k < s.len() && s[k]@ == v;
            if k < s.len() - 1 {
                assert(s.drop_last()[k]@ == v);
            }
        }
    }
}

/// A set holding the first `n + 1` candidate names has more than `n` members.
proof fn lemma_candidate_pigeonhole(base: Seq<char>, taken: Set<Seq<char>>, n: nat)
    requires
        taken.finite(),
        forall|j: nat| j <= n ==> taken.contains(candidate(base, j)),
    ensures
        taken.len() >= n + 1,
    decreases n,
{
    let smaller = taken.remove(candidate(base, n));
    if n > 0 {
        assert forall|j: nat| j <= (n - 1) as nat implies smaller.contains(
            candidate(base, j),
        ) by {
            lemma_candidate_injective(base, j, n);
        }
        lemma_candidate_pigeonhole(base, smaller, (n - 1) as nat);
    }
    assert(taken.contains(candidate(base, n)));
    assert(taken.len() == smaller.len() + 1);
}

/// An identifier: an immutable name. Two identifiers are equal exactly when
/// their names are equal.
#[derive(Debug)]
pub struct Ident(String);

impl View for Ident {
    type V = Seq<char>;

    closed spec fn view(&self) -> Seq<char> {
        self.0@
    }
}

impl PartialEq for Ident {
    fn eq(&self, other: &Ident) -> (r: bool) {
        self.0 == other.0
    }
}

impl vstd::std_specs::cmp::PartialEqSpecImpl for Ident {
    open spec fn obeys_eq_spec() -> bool {
        true
    }

    open spec fn eq_spec(&self, other: &Ident) -> bool {
        self@ == other@
    }
}

impl<'a> From<&'a str> for Ident {
    fn from(s: &'a str) -> (r: Ident) {
        Ident::new(s)
    }
}

impl<'a> vstd::std_specs::convert::FromSpecImpl<&'a str> for Ident {
    open spec fn obeys_from_spec() -> bool {
        false
    }

    open spec fn from_spec(s: &'a str) -> Ident {
        arbitrary()
    }
}

/// Relies on `str::to_uppercase`: the result depends on the characters alone,
/// so it is named `upper_of`.
#[verifier::external_body]
fn to_upper(s: &String) -> (r: String)
    ensures
        r@ == upper_of(s@),
{
    s.to_uppercase()
}

/// The decimal rendering of one digit.
fn digit_str(d: usize) -> (r: &'static str)
    requires
        d < 10,
    ensures
        r@ == seq![digit_char(d as nat)],
{
    proof {
        reveal_strlit("0");
        reveal_strlit("1");
        reveal_strlit("2");
        reveal_strlit("3");
        reveal_strlit("4");
        reveal_strlit("5");
        reveal_strlit("6");
        reveal_strlit("7");
        reveal_strlit("8");
        reveal_strlit("9");
    }
    let r = if d == 0 {
        "0"
    } else if d == 1 {
        "1"
    } else if d == 2 {
        "2"
    } else if d == 3 {
        "3"
    } else if d == 4 {
        "4"
    } else if d == 5 {
        "5"
    } else if d == 6 {
        "6"
    } else if d == 7 {
        "7"
    } else if d == 8 {
        "8"
    } else {
        "9"
    };
    proof {
        assert(r@ =~= seq![digit_char(d as nat)]);
    }
    r
}

/// The decimal rendering of `n`.
pub(crate) fn decimal_string(n: usize) -> (r: String)
    ensures
        r@ == decimal_of(n as nat),
    decreases n,
{
    if n < 10 {
        let r = digit_str(n).to_owned();
        proof {
            assert(r@ =~= decimal_of(n as nat));
        }
        r
    } else {
        let mut r = decimal_string(n / 10);
        r.append(digit_str(n % 10));
        proof {
            assert(r@ =~= decimal_of(n as nat));
        }
        r
    }
}

/// Whether `name` is one of the names in `vars`.
fn contains_name(vars: &Vec<Ident>, name: &String) -> (r: bool)
    ensures
        r == names_of(vars@).contains(name@),
{
    let ghost whole = vars@;
    let mut k: usize = 0;
    while k < vars.len()
        invariant
            k <= vars.len(),
            whole == vars@,
            forall|j: int| 0 <= j < k ==> vars@[j]@ != name@,
        decreases vars.len() - k,
    {
        if vars[k].0 == *name {
            proof {
                lemma_names_of_contains(whole, name@);
            }
            return true;
        }
        k += 1;
    }
    proof {
        lemma_names_of_contains(whole, name@);
    }
    false
}

impl Ident {
    pub fn new(s: &str) -> (r: Ident)
        ensures
            r@ == s@,
    {
        Ident(s.to_owned())
    }

    /// The identifier's name.
    pub fn label(&self) -> (r: &str)
        ensures
            r@ == self@,
    {
        self.0.as_str()
    }

    /// A copy of this identifier.
    pub fn duplicate(&self) -> (r: Ident)
        ensures
            r == *self,
    {
        Ident(self.0.clone())
    }

    /// A name that does not collide with any name in `vars`: the uppercased
    /// name itself when free, otherwise the uppercased name followed by the
    /// smallest decimal suffix that is free. Deterministic in `self` and the
    /// set of names in `vars`, and never a member of that set.
    pub fn new_name(&self, vars: &Vec<Ident>) -> (r: Ident)
        ensures
            r@ == fresh_name_of(self@, names_of(vars@)),
            !names_of(vars@).contains(r@),
    {
        let ghost taken = names_of(vars@);
        let base = to_upper(&self.0);
        if !contains_name(vars, &base) {
            return Ident(base);
        }
        let mut i: usize = 0;
        loop
            invariant
                taken == names_of(vars@),
                taken.contains(upper_of(self@)),
                base@ == upper_of(self@),
                i <= vars.len(),
                forall|j: nat| j < i ==> taken.contains(candidate(self@, j)),
            decreases vars.len() - i,
        {
            let mut cand = base.clone();
            cand.append(decimal_string(i).as_str());
            proof {
                assert(cand@ =~= candidate(self@, i as nat));
            }
            if !contains_name(vars, &cand) {
                proof {
                    let picked = choose|j: nat| is_fresh_index(self@, taken, j);
                    assert(is_fresh_index(self@, taken, i as nat));
                    lemma_fresh_index_unique(self@, taken, picked, i as nat);
                }
                return Ident(cand);
            }
            proof {
                lemma_names_of_finite(vars@);
                if i == vars.len() {
                    lemma_candidate_pigeonhole(self@, taken, i as nat);
                    assert(false);
                }
            }
            i += 1;
        }
    }
}

} // verus!
