//! What the debugger has learnt about code addresses from the program's
//! debug information.
//!
//! Looking an address up in the debug information is somebody else's work.
//! The answers are kept here, one per address, so that the unwinder can
//! name the frames it walks through.

use std::collections::HashMap;
use vstd::prelude::*;

verus! {

broadcast use vstd::std_specs::hash::group_hash_axioms;

/// A line of source code and the address of its first instruction.
#[derive(Clone, Debug, PartialEq, Eq)]
pub struct Line {
    pub file: String,
    pub number: usize,
    pub address: usize,
}

/// What the debug information says about one code address: the function
/// that contains it and the source line it belongs to, as far as known.
#[derive(Clone, Debug, PartialEq, Eq)]
pub struct Symbol {
    pub function: Option<String>,
    pub line: Option<Line>,
}

/// The answers collected so far, by address.
pub struct SymbolCache {
    entries: HashMap<usize, Symbol>,
}

impl Line {
    /// A copy of this line.
    pub fn duplicate(&self) -> (copy: Line)
        ensures
            copy == *self,
    {
        Line { file: self.file.clone(), number: self.number, address: self.address }
    }
}

impl SymbolCache {
    /// The collected answers as a map from address to answer.
    pub closed spec fn answers(&self) -> Map<usize, Symbol> {
        self.entries@
    }

    /// A cache that holds no answer.
    pub fn new() -> (cache: SymbolCache)
        ensures
            cache.answers() == Map::<usize, Symbol>::empty(),
    {
        SymbolCache { entries: HashMap::new() }
    }

    /// Files the answer for `addr`, replacing an earlier one.
    pub fn record(&mut self, addr: usize, function: Option<String>, line: Option<Line>)
        ensures
            final(self).answers() == old(self).answers().insert(addr, Symbol { function, line }),
    {
        self.entries.insert(addr, Symbol { function, line });
    }

    /// The answer filed for `addr`, if there is one.
    pub fn lookup(&self, addr: usize) -> (answer: Option<&Symbol>)
        ensures
            answer is Some <==> self.answers().contains_key(addr),
            answer matches Some(symbol) ==> *symbol == self.answers()[addr],
    {
        self.entries.get(&addr)
    }
}

} // verus!
