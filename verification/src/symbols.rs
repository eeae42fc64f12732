//! Symbols and the symbol table built during the assembler's first
//! pass: label names mapped to the byte offset where their instruction
//! begins. Lookup is by exact name, first match wins.

use vstd::prelude::*;

use crate::lexer::str_eq;

verus! {

/// The kinds of symbol the assembler knows; labels are the only kind
/// so far.
#[derive(Debug, Clone, Copy, PartialEq, Eq, Structural)]
pub enum SymbolType {
    Label,
}

/// A named byte offset into the assembled program.
#[derive(Debug, Clone)]
pub struct Symbol {
    name: String,
    offset: u32,
    symbol_type: SymbolType,
}

/// The mathematical shape of a symbol: its name and offset.
pub ghost struct SymbolV {
    pub name: Seq<char>,
    pub offset: u32,
}

impl View for Symbol {
    type V = SymbolV;

    closed spec fn view(&self) -> SymbolV {
        SymbolV { name: self.name@, offset: self.offset }
    }
}

impl DeepView for Symbol {
    type V = SymbolV;

    closed spec fn deep_view(&self) -> SymbolV {
        self.view()
    }
}

impl Symbol {
    pub fn new(name: String, symbol_type: SymbolType, offset: u32) -> (r: Symbol)
        ensures
            r@ == (SymbolV { name: name@, offset }),
    {
        Symbol { name, symbol_type, offset }
    }
}

/// The offset of the first symbol carrying `name`, if any.
pub open spec fn lookup(syms: Seq<SymbolV>, name: Seq<char>) -> Option<u32>
    decreases syms.len(),
{
    if syms.len() == 0 {
        Option::None
    } else if syms[0].name == name {
        Option::Some(syms[0].offset)
    } else {
        lookup(syms.skip(1), name)
    }
}

/// The mapping from label names to offsets, filled during pass one and
/// read during pass two.
#[derive(Debug)]
pub struct SymbolTable {
    pub symbols: Vec<Symbol>,
}

impl View for SymbolTable {
    type V = Seq<SymbolV>;

    open spec fn view(&self) -> Seq<SymbolV> {
        self.symbols.deep_view()
    }
}

impl SymbolTable {
    pub fn new() -> (r: SymbolTable)
        ensures
            r@ == Seq::<SymbolV>::empty(),
    {
        let r = SymbolTable { symbols: Vec::new() };
        proof {
            assert(r@ =~= Seq::<SymbolV>::empty());
        }
        r
    }

    pub fn add_symbol(&mut self, s: Symbol)
        ensures
            final(self)@ == old(self)@.push(s@),
    {
        self.symbols.push(s);
        proof {
            assert(self@ =~= old(self)@.push(s@));
        }
    }

    /// The offset recorded for `s`, searching in insertion order.
    pub fn symbol_value(&self, s: &str) -> (r: Option<u32>)
        ensures
            r == lookup(self@, s@),
    {
        let n = self.symbols.len();
        let mut i: usize = 0;
        proof {
            assert(self@.skip(0) =~= self@);
        }
        while i < n
            invariant
                i <= n,
                n == self.symbols.len(),
                lookup(self@.skip(i as int), s@) == lookup(self@, s@),
            decreases n - i,
        {
            proof {
                assert(self@.skip(i as int)[0] == self@[i as int]);
                assert(self@.skip(i as int).skip(1) =~= self@.skip(i as int + 1));
            }
            if str_eq(self.symbols[i].name.as_str(), s) {
                return Option::Some(self.symbols[i].offset);
            }
            i += 1;
        }
        proof {
            assert(self@.skip(n as int) =~= Seq::<SymbolV>::empty());
        }
        Option::None
    }
}

/// How lookup behaves when one symbol is appended: an existing first
/// match is undisturbed, otherwise the new symbol answers for its own
/// name.
pub proof fn lemma_lookup_push(acc: Seq<SymbolV>, x: SymbolV, name: Seq<char>)
    ensures
        lookup(acc.push(x), name) == (if lookup(acc, name) is Some {
            lookup(acc, name)
        } else if x.name == name {
            Option::Some(x.offset)
        } else {
            Option::<u32>::None
        }),
    decreases acc.len(),
{
    if acc.len() == 0 {
        assert(acc.push(x)[0] == x);
        assert(acc.push(x).skip(1) =~= Seq::<SymbolV>::empty());
        assert(lookup(Seq::<SymbolV>::empty(), name) is None);
        assert(lookup(acc, name) is None);
    } else {
        assert(acc.push(x)[0] == acc[0]);
        assert(acc.push(x).skip(1) =~= acc.skip(1).push(x));
        lemma_lookup_push(acc.skip(1), x, name);
    }
}

} // verus!
