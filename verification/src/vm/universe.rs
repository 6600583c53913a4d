//! The universe of a machine. It holds the table of symbols: every text
//! is kept once, and all who ask for it share that one symbol.

use crate::vmobjects::SSymbol;
use std::rc::Rc;
use vstd::hash_map::StringHashMap;
use vstd::prelude::*;

verus! {

pub struct Universe {
    symbols: StringHashMap<Rc<SSymbol>>,
}

/// `Rc::clone`: another handle to the value that `symbol` points to. The
/// result is that same value.
#[verifier::external_body]
fn share(symbol: &Rc<SSymbol>) -> (shared: Rc<SSymbol>)
    ensures
        shared == *symbol,
{
    Rc::clone(symbol)
}

/// What asking the table `before` for the symbol of `text` gives: the
/// symbol that the table holds for `text`, if it holds one, and a new symbol
/// with that text otherwise; `after` is the table with `symbol` at `text`,
/// and therefore `before` itself where it held one.
pub open spec fn interned(
    before: Map<Seq<char>, Rc<SSymbol>>,
    text: Seq<char>,
    after: Map<Seq<char>, Rc<SSymbol>>,
    symbol: Rc<SSymbol>,
) -> bool {
    &&& symbol@ == text
    &&& before.contains_key(text) ==> symbol == before[text]
    &&& after == before.insert(text, symbol)
}

impl Universe {
    /// The table of symbols: each text with the symbol that is shared.
    pub closed spec fn symbols(&self) -> Map<Seq<char>, Rc<SSymbol>> {
        self.symbols@
    }

    /// Every symbol of the table is kept at its own text.
    pub closed spec fn wf(&self) -> bool {
        forall|text: Seq<char>| #[trigger]
            self.symbols@.contains_key(text) ==> self.symbols@[text]@ == text
    }

    /// A universe without symbols.
    pub fn new() -> (universe: Universe)
        ensures
            universe.wf(),
            universe.symbols() == Map::<Seq<char>, Rc<SSymbol>>::empty(),
    {
        Universe { symbols: StringHashMap::new() }
    }

    /// The one symbol with the text `text`. It is made on the first call
    /// for a text and handed out again on every later one; nothing ever
    /// leaves the table.
    pub fn load_symbol(&mut self, text: &str) -> (symbol: Rc<SSymbol>)
        requires
            old(self).wf(),
        ensures
            final(self).wf(),
            interned(old(self).symbols(), text@, final(self).symbols(), symbol),
    {
        match self.symbols.get(text) {
            Some(found) => {
                let symbol = share(found);
                assert(self.symbols@ =~= self.symbols@.insert(text@, symbol));
                symbol
            },
            None => {
                let symbol = Rc::new(SSymbol(text.to_owned()));
                self.symbols.insert(text.to_owned(), share(&symbol));
                symbol
            },
        }
    }
}

/// Two calls for the same text give the same symbol, and the second leaves
/// the table as it is; two calls for different texts give different symbols.
pub proof fn lemma_same_text_same_symbol(
    before: Map<Seq<char>, Rc<SSymbol>>,
    first_text: Seq<char>,
    between: Map<Seq<char>, Rc<SSymbol>>,
    first: Rc<SSymbol>,
    second_text: Seq<char>,
    after: Map<Seq<char>, Rc<SSymbol>>,
    second: Rc<SSymbol>,
)
    requires
        interned(before, first_text, between, first),
        interned(between, second_text, after, second),
    ensures
        first_text == second_text ==> second == first && after == between,
        first_text != second_text ==> second != first,
{
    if first_text == second_text {
        assert(between.contains_key(second_text));
        assert(after =~= between);
    }
}

/// Nothing leaves the table: what it held before a call, it holds after it.
pub proof fn lemma_symbols_stay(
    before: Map<Seq<char>, Rc<SSymbol>>,
    text: Seq<char>,
    after: Map<Seq<char>, Rc<SSymbol>>,
    symbol: Rc<SSymbol>,
    other: Seq<char>,
)
    requires
        interned(before, text, after, symbol),
        before.contains_key(other),
    ensures
        after.contains_key(other),
        after[other] == before[other],
{
}

} // verus!
