//! The backtick-syntax view of a definition, as a wrapper for printing.

use crate::function::display::func_lazy_text;
use crate::function::Func;
use vstd::prelude::*;

verus! {

/// A definition to be written in the backtick syntax.
#[derive(Debug, PartialEq)]
pub struct LazyKStyle<'a>(pub &'a Func);

impl<'a> LazyKStyle<'a> {
    /// The wrapped definition's text.
    pub fn to_string(&self) -> (r: String)
        ensures
            r@ == func_lazy_text(self.0@),
    {
        self.0.to_string()
    }
}

} // verus!
