//! The backtick-syntax view of a command, as a wrapper for printing.

use crate::command::display::command_lazy_text;
use crate::command::Command;
use vstd::prelude::*;

verus! {

/// A command to be written in the backtick syntax.
#[derive(Debug, PartialEq)]
pub struct LazyKStyle<'a>(pub &'a Command);

impl<'a> LazyKStyle<'a> {
    /// The wrapped command's text.
    pub fn to_string(&self) -> (r: String)
        ensures
            r@ == command_lazy_text(self.0@),
    {
        self.0.to_string()
    }
}

} // verus!
