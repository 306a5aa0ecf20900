//! The backtick-syntax view of a term, as a wrapper for printing.

use crate::expression::display::lazy_k_text;
use crate::expression::Expr;
use vstd::prelude::*;

verus! {

/// A term to be written in the backtick syntax.
#[derive(Debug, PartialEq)]
pub struct LazyKStyle<'a>(pub &'a Expr);

impl<'a> LazyKStyle<'a> {
    /// The wrapped term's text.
    pub fn to_string(&self) -> (r: String)
        ensures
            r@ == lazy_k_text(self.0@),
    {
        self.0.to_string()
    }
}

} // verus!
