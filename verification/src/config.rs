//! Presentation choices the caller owns: which surface syntax output is
//! written in. Reading the choice from the process environment is the
//! caller's business, not this crate's.

use vstd::prelude::*;

verus! {

/// The two surface syntaxes output can be written in.
#[derive(Debug, PartialEq, Clone, Copy)]
pub enum DisplayStyle {
    LazyK,
    Ecmascript,
}

} // verus!
