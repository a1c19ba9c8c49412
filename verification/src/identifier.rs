//! The identifier node of the surrounding syntax layer.
//!
//! An identifier is a name appearing in code — of a variable, function or
//! property — carried as an interned string handle.  The evaluator resolves
//! it against the environment and then addresses the object model through
//! the same handle.

use vstd::prelude::*;
use crate::value::Sym;

verus! {

/// An identifier, carrying the interned handle of its name.
#[derive(Clone, Copy, PartialEq, Eq, Structural, Debug)]
pub struct Identifier {
    ident: Sym,
}

impl View for Identifier {
    type V = Sym;

    closed spec fn view(&self) -> Sym {
        self.ident
    }
}

impl Identifier {
    /// Creates a new identifier node from the interned handle of its name.
    pub fn new(ident: Sym) -> (r: Self)
        ensures
            r@ == ident,
    {
        Identifier { ident }
    }

    /// The interned handle of the identifier's name.
    pub fn sym(&self) -> (r: Sym)
        ensures
            r == self@,
    {
        self.ident
    }
}

} // verus!
