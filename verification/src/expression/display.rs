//! Rendering terms in the backtick syntax: `` ` `` marks an application,
//! `^x.` an abstraction, `:name` a symbol, and a space separates two
//! uppercase names that would otherwise run together.

pub mod ecmascript;
pub mod lazy_k;

use crate::expression::{Expr, Term};
use vstd::prelude::*;
use vstd::string::{StrSliceExecFns, StringExecFns};

verus! {

/// Whether a name is written entirely with uppercase letters and underscores;
/// such names are longer than one character and need separating spaces.
pub open spec fn is_upper_name(s: Seq<char>) -> bool {
    s.len() > 0 && forall|i: int|
        0 <= i < s.len() ==> (('A' as u32) <= (#[trigger] s[i] as u32) && (s[i] as u32) <= (
        'Z' as u32) || s[i] == '_')
}

/// The model of one name in the output: a variable is written bare, a symbol
/// with a leading colon.
pub ghost enum NameModel {
    Variable(Seq<char>),
    Symbol(Seq<char>),
}

/// The model of one output token.
pub ghost enum TokenModel {
    UpperIdent(NameModel),
    LowerIdent(NameModel),
    Apply,
    Lambda,
    Dot,
}

/// The token list of a term, built right-to-left: the token at the end of the
/// list is printed first.
pub open spec fn tokens_of(t: Term) -> Seq<TokenModel>
    decreases t,
{
    match t {
        Term::Var { id } => if is_upper_name(id) {
            seq![TokenModel::UpperIdent(NameModel::Variable(id))]
        } else {
            seq![TokenModel::LowerIdent(NameModel::Variable(id))]
        },
        Term::Sym { id } => if is_upper_name(id) {
            seq![TokenModel::UpperIdent(NameModel::Symbol(id))]
        } else {
            seq![TokenModel::LowerIdent(NameModel::Symbol(id))]
        },
        Term::App { lhs, rhs } => tokens_of(*rhs) + tokens_of(*lhs) + seq![TokenModel::Apply],
        Term::Lam { param, body } => tokens_of(*body) + seq![TokenModel::Dot] + (
        if is_upper_name(param) {
            seq![TokenModel::UpperIdent(NameModel::Variable(param))]
        } else {
            seq![TokenModel::LowerIdent(NameModel::Variable(param))]
        }) + seq![TokenModel::Lambda],
    }
}

/// The characters of one name.
pub open spec fn name_text(n: NameModel) -> Seq<char> {
    match n {
        NameModel::Variable(s) => s,
        NameModel::Symbol(s) => seq![':'] + s,
    }
}

/// The characters of one token.
pub open spec fn token_text(tok: TokenModel) -> Seq<char> {
    match tok {
        TokenModel::UpperIdent(n) => name_text(n),
        TokenModel::LowerIdent(n) => name_text(n),
        TokenModel::Apply => seq!['`'],
        TokenModel::Lambda => seq!['^'],
        TokenModel::Dot => seq!['.'],
    }
}

/// Whether a space must stand between two printed tokens: after an uppercase
/// name that an uppercase variable follows.
pub open spec fn needs_space(t1: TokenModel, t2: TokenModel) -> bool {
    (t1 is UpperIdent) && match t2 {
        TokenModel::UpperIdent(NameModel::Variable(_)) => true,
        _ => false,
    }
}

/// The rendering of a token list, consumed from its end.
pub open spec fn render(toks: Seq<TokenModel>) -> Seq<char>
    decreases toks.len(),
{
    if toks.len() == 0 {
        Seq::empty()
    } else if toks.len() == 1 {
        token_text(toks.last())
    } else if needs_space(toks.last(), toks[toks.len() - 2]) {
        token_text(toks.last()) + seq![' '] + render(toks.drop_last())
    } else {
        token_text(toks.last()) + render(toks.drop_last())
    }
}

/// The backtick-syntax text of a term.
pub open spec fn lazy_k_text(t: Term) -> Seq<char> {
    render(tokens_of(t))
}

/// One name in the output stream, borrowed from a term.
#[derive(Debug, PartialEq)]
pub enum Name<'a> {
    Variable(&'a str),
    Symbol(&'a str),
}

/// One output token, borrowed from a term.
#[derive(Debug, PartialEq)]
pub enum Token<'a> {
    UpperIdent(Name<'a>),
    LowerIdent(Name<'a>),
    Apply,
    Lambda,
    Dot,
}

/// The model of one name.
pub open spec fn name_model(n: Name) -> NameModel {
    match n {
        Name::Variable(s) => NameModel::Variable(s@),
        Name::Symbol(s) => NameModel::Symbol(s@),
    }
}

/// The model of one token.
pub open spec fn token_model(t: Token) -> TokenModel {
    match t {
        Token::UpperIdent(n) => TokenModel::UpperIdent(name_model(n)),
        Token::LowerIdent(n) => TokenModel::LowerIdent(name_model(n)),
        Token::Apply => TokenModel::Apply,
        Token::Lambda => TokenModel::Lambda,
        Token::Dot => TokenModel::Dot,
    }
}

/// Whether `s` is all uppercase letters and underscores, and not empty.
fn is_upper_ident(s: &str) -> (r: bool)
    ensures
        r == is_upper_name(s@),
{
    let n = s.unicode_len();
    if n == 0 {
        return false;
    }
    let mut i: usize = 0;
    while i < n
        invariant
            i <= n,
            n == s@.len(),
            forall|j: int|
                0 <= j < i ==> (('A' as u32) <= (#[trigger] s@[j] as u32) && (s@[j] as u32) <= (
                'Z' as u32) || s@[j] == '_'),
        decreases n - i,
    {
        let c = s.get_char(i);
        let upper = ('A' as u32) <= (c as u32) && (c as u32) <= ('Z' as u32) || c == '_';
        if !upper {
            return false;
        }
        i += 1;
    }
    true
}

/// The token for one name.
fn name_token<'a>(label: &'a str, symbol: bool) -> (r: Token<'a>)
    ensures
        token_model(r) == (if symbol {
            if is_upper_name(label@) {
                TokenModel::UpperIdent(NameModel::Symbol(label@))
            } else {
                TokenModel::LowerIdent(NameModel::Symbol(label@))
            }
        } else {
            if is_upper_name(label@) {
                TokenModel::UpperIdent(NameModel::Variable(label@))
            } else {
                TokenModel::LowerIdent(NameModel::Variable(label@))
            }
        }),
{
    let name = if symbol {
        Name::Symbol(label)
    } else {
        Name::Variable(label)
    };
    if is_upper_ident(label) {
        Token::UpperIdent(name)
    } else {
        Token::LowerIdent(name)
    }
}

/// The token list of a term, the token to print first at the end.
pub fn tokens<'a>(expr: &'a Expr) -> (r: Vec<Token<'a>>)
    ensures
        r@.len() == tokens_of(expr@).len(),
        forall|i: int| 0 <= i < r@.len() ==> token_model(#[trigger] r@[i]) == tokens_of(expr@)[i],
    decreases expr,
{
    match expr {
        Expr::Variable(id) => {
            let mut r: Vec<Token<'a>> = Vec::new();
            r.push(name_token(id.label(), false));
            r
        },
        Expr::Symbol(id) => {
            let mut r: Vec<Token<'a>> = Vec::new();
            r.push(name_token(id.label(), true));
            r
        },
        Expr::Apply { lhs, rhs } => {
            let mut r = tokens(rhs);
            let mut left = tokens(lhs);
            let ghost r_part = r@;
            let ghost left_part = left@;
            r.append(&mut left);
            r.push(Token::Apply);
            proof {
                assert(tokens_of(expr@) == tokens_of((**rhs)@) + tokens_of((**lhs)@) + seq![
                    TokenModel::Apply,
                ]);
            }
            r
        },
        Expr::Lambda { param, body } => {
            let mut r = tokens(body);
            r.push(Token::Dot);
            r.push(name_token(param.label(), false));
            r.push(Token::Lambda);
            proof {
                assert(tokens_of(expr@) == tokens_of((**body)@) + seq![TokenModel::Dot] + (
                if is_upper_name(param@) {
                    seq![TokenModel::UpperIdent(NameModel::Variable(param@))]
                } else {
                    seq![TokenModel::LowerIdent(NameModel::Variable(param@))]
                }) + seq![TokenModel::Lambda]);
            }
            r
        },
    }
}

/// The text of one token.
fn token_string(t: &Token) -> (r: String)
    ensures
        r@ == token_text(token_model(*t)),
{
    proof {
        reveal_strlit(":");
        reveal_strlit("`");
        reveal_strlit("^");
        reveal_strlit(".");
    }
    match t {
        Token::UpperIdent(Name::Variable(s)) => (*s).to_owned(),
        Token::LowerIdent(Name::Variable(s)) => (*s).to_owned(),
        Token::UpperIdent(Name::Symbol(s)) => {
            let mut r = String::new();
            r.append(":");
            r.append(*s);
            proof {
                assert(r@ =~= seq![':'] + s@);
            }
            r
        },
        Token::LowerIdent(Name::Symbol(s)) => {
            let mut r = String::new();
            r.append(":");
            r.append(*s);
            proof {
                assert(r@ =~= seq![':'] + s@);
            }
            r
        },
        Token::Apply => {
            let r = "`".to_owned();
            proof {
                assert(r@ =~= seq!['`']);
            }
            r
        },
        Token::Lambda => {
            let r = "^".to_owned();
            proof {
                assert(r@ =~= seq!['^']);
            }
            r
        },
        Token::Dot => {
            let r = ".".to_owned();
            proof {
                assert(r@ =~= seq!['.']);
            }
            r
        },
    }
}

/// Whether a space must be printed between two tokens.
fn space_needed(a: &Token, b: &Token) -> (r: bool)
    ensures
        r == needs_space(token_model(*a), token_model(*b)),
{
    match (a, b) {
        (Token::UpperIdent(_), Token::UpperIdent(Name::Variable(_))) => true,
        _ => false,
    }
}

/// Prints a token list, consuming it from its end and inserting the spaces
/// the grammar needs.
pub fn to_string(tokens: &mut Vec<Token>) -> (r: String)
    ensures
        r@ == render(old(tokens)@.map_values(|t: Token| token_model(t))),
{
    let ghost whole = tokens@.map_values(|t: Token| token_model(t));
    let mut r = String::new();
    proof {
        reveal_strlit(" ");
        assert(whole.take(whole.len() as int) =~= whole);
    }
    while tokens.len() > 0
        invariant
            tokens@.len() <= whole.len(),
            tokens@.map_values(|t: Token| token_model(t)) == whole.take(tokens@.len() as int),
            r@ + render(whole.take(tokens@.len() as int)) == render(whole),
            " "@ == seq![' '],
        decreases tokens@.len(),
    {
        let ghost before = tokens@.map_values(|t: Token| token_model(t));
        let last = match tokens.pop() {
            Some(t) => t,
            None => vstd::pervasive::unreached(),
        };
        proof {
            assert(tokens@.map_values(|t: Token| token_model(t)) =~= before.drop_last());
            assert(before.len() == tokens@.len() + 1);
            assert forall|j: int|
                0 <= j < tokens@.len() implies before.drop_last()[j] == whole.take(
                tokens@.len() as int,
            )[j] by {
                assert(before[j] == whole.take(before.len() as int)[j]);
                assert(whole.take(before.len() as int)[j] == whole[j]);
            }
            assert(before.drop_last() =~= whole.take(tokens@.len() as int));
            assert(before.last() == token_model(last));
        }
        let text = token_string(&last);
        r.append(text.as_str());
        if tokens.len() > 0 {
            let space = space_needed(&last, &tokens[tokens.len() - 1]);
            proof {
                assert(tokens@.map_values(|t: Token| token_model(t))[tokens@.len() - 1]
                    == token_model(tokens@[tokens@.len() - 1]));
                assert(before[before.len() - 2] == token_model(tokens@[tokens@.len() - 1]));
                assert(space == needs_space(before.last(), before[before.len() - 2]));
            }
            if space {
                r.append(" ");
            }
        }
    }
    proof {
        assert(whole.take(0) =~= Seq::<TokenModel>::empty());
    }
    r
}

impl Expr {
    /// The term written in the backtick syntax.
    pub fn to_string(&self) -> (r: String)
        ensures
            r@ == lazy_k_text(self@),
    {
        let mut toks = tokens(self);
        proof {
            assert(toks@.map_values(|t: Token| token_model(t)) =~= tokens_of(self@));
        }
        to_string(&mut toks)
    }
}

} // verus!
