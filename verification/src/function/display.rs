//! Rendering a definition in the backtick syntax: one backtick per parameter,
//! the name and parameters run together (spaced where two uppercase names
//! meet), then `=` and the body.

pub mod ecmascript;
pub mod lazy_k;

use crate::expression::display::{is_upper_name, lazy_k_text};
use crate::function::{Func, FuncModel};
use crate::identifier::Ident;
use vstd::prelude::*;
use vstd::string::{StrSliceExecFns, StringExecFns};

verus! {

/// `n` backticks.
pub open spec fn backticks(n: nat) -> Seq<char>
    decreases n,
{
    if n == 0 {
        Seq::empty()
    } else {
        backticks((n - 1) as nat).push('`')
    }
}

/// Names run together, with a space wherever two uppercase names meet.
pub open spec fn spaced_names(names: Seq<Seq<char>>) -> Seq<char>
    decreases names.len(),
{
    if names.len() == 0 {
        Seq::empty()
    } else if names.len() == 1 {
        names[0]
    } else if is_upper_name(names[0]) && is_upper_name(names[1]) {
        names[0] + seq![' '] + spaced_names(names.drop_first())
    } else {
        names[0] + spaced_names(names.drop_first())
    }
}

/// The backtick-syntax text of a definition.
pub open spec fn func_lazy_text(f: FuncModel) -> Seq<char> {
    backticks(f.params.len()) + spaced_names(seq![f.name] + f.params) + seq![' ', '=', ' ']
        + lazy_k_text(f.body)
}

/// Whether `s` names an uppercase identifier.
fn upper_label(s: &str) -> (r: bool)
    ensures
        r == is_upper_name(s@),
{
    let n = s.unicode_len();
    if n == 0 {
        return false;
    }
    let mut i: usize = 0;
    while i < n
        invariant
            i <= n,
            n == s@.len(),
            forall|j: int|
                0 <= j < i ==> (('A' as u32) <= (#[trigger] s@[j] as u32) && (s@[j] as u32) <= (
                'Z' as u32) || s@[j] == '_'),
        decreases n - i,
    {
        let c = s.get_char(i);
        let upper = ('A' as u32) <= (c as u32) && (c as u32) <= ('Z' as u32) || c == '_';
        if !upper {
            return false;
        }
        i += 1;
    }
    true
}

/// The names run together with the spaces the grammar needs.
fn spaced_string(labels: Vec<&Ident>) -> (r: String)
    ensures
        r@ == spaced_names(labels@.map_values(|i: &Ident| i@)),
{
    proof {
        reveal_strlit(" ");
    }
    let ghost models = labels@.map_values(|i: &Ident| i@);
    let mut r = String::new();
    let mut k: usize = 0;
    proof {
        assert(models.skip(0) =~= models);
    }
    while k < labels.len()
        invariant
            k <= labels.len(),
            models == labels@.map_values(|i: &Ident| i@),
            r@ + spaced_names(models.skip(k as int)) == spaced_names(models),
            " "@ == seq![' '],
        decreases labels.len() - k,
    {
        r.append(labels[k].label());
        proof {
            assert(models.skip(k as int)[0] == labels@[k as int]@);
            assert(models.skip(k as int).drop_first() =~= models.skip(k + 1));
        }
        if k + 1 < labels.len() {
            proof {
                assert(models.skip(k as int)[1] == labels@[k as int + 1]@);
            }
            if upper_label(labels[k].label()) && upper_label(labels[k + 1].label()) {
                r.append(" ");
            }
        }
        k += 1;
    }
    proof {
        assert(spaced_names(models.skip(models.len() as int)) =~= Seq::<char>::empty());
        assert(r@ =~= spaced_names(models));
    }
    r
}

impl Func {
    /// The definition written in the backtick syntax.
    pub fn to_string(&self) -> (r: String)
        ensures
            r@ == func_lazy_text(self@),
    {
        proof {
            reveal_strlit("`");
            reveal_strlit(" = ");
        }
        let mut r = String::new();
        let mut k: usize = 0;
        while k < self.arity()
            invariant
                k <= self@.params.len(),
                r@ == backticks(k as nat),
                "`"@ == seq!['`'],
            decreases self@.params.len() - k,
        {
            r.append("`");
            k += 1;
        }
        let mut labels: Vec<&Ident> = Vec::new();
        labels.push(self.name());
        let mut j: usize = 0;
        while j < self.params.len()
            invariant
                j <= self@.params.len(),
                labels@.len() == j + 1,
                labels@[0]@ == self@.name,
                forall|m: int| 1 <= m < labels@.len() ==> (#[trigger] labels@[m])@
                    == self@.params[m - 1],
            decreases self@.params.len() - j,
        {
            labels.push(&self.params[j]);
            j += 1;
        }
        proof {
            assert(labels@.map_values(|i: &Ident| i@) =~= seq![self@.name] + self@.params);
        }
        r.append(spaced_string(labels).as_str());
        r.append(" = ");
        r.append(self.body().to_string().as_str());
        proof {
            assert(" = "@ =~= seq![' ', '=', ' ']);
            assert(r@ =~= func_lazy_text(self@));
        }
        r
    }
}

} // verus!
