//! Symbols: names that the machine compares by identity.

use vstd::prelude::*;

verus! {

/// A symbol with its text.
#[derive(Debug, PartialEq)]
pub struct SSymbol(pub String);

impl View for SSymbol {
    type V = Seq<char>;

    open spec fn view(&self) -> Seq<char> {
        self.0@
    }
}

} // verus!
