//! The symbol table: labels and the addresses they were defined at.
use vstd::prelude::*;
use crate::text::same_text;

verus! {

/// A name-to-value table where the earliest entry for a name wins.
pub open spec fn first_value(entries: Seq<(Seq<char>, int)>, key: Seq<char>) -> Option<int>
    decreases entries.len(),
{
    if entries.len() == 0 {
        None
    } else {
        match first_value(entries.drop_last(), key) {
            Some(v) => Some(v),
            None => if entries.last().0 == key {
                Some(entries.last().1)
            } else {
                None
            },
        }
    }
}

/// Once a prefix of a table has an entry for `key`, the whole table gives
/// that entry's value.
pub proof fn lemma_first_value_prefix(entries: Seq<(Seq<char>, int)>, key: Seq<char>, i: int)
    requires
        0 <= i <= entries.len(),
        first_value(entries.subrange(0, i), key) is Some,
    ensures
        first_value(entries, key) == first_value(entries.subrange(0, i), key),
    decreases entries.len() - i,
{
    if i < entries.len() {
        let next = entries.subrange(0, i + 1);
        assert(next.drop_last() =~= entries.subrange(0, i));
        lemma_first_value_prefix(entries, key, i + 1);
    } else {
        assert(entries.subrange(0, i) =~= entries);
    }
}

/// A label with the address it was defined at.
pub struct Symbol {
    name: String,
    address: i32,
}

/// The abstract value of a symbol.
pub struct SymbolView {
    pub name: Seq<char>,
    pub address: int,
}

impl View for Symbol {
    type V = SymbolView;

    closed spec fn view(&self) -> SymbolView {
        SymbolView { name: self.name@, address: self.address as int }
    }
}

/// A symbol table as a name-to-address table.
pub open spec fn symbol_entries(table: Seq<Symbol>) -> Seq<(Seq<char>, int)> {
    table.map_values(|s: Symbol| (s@.name, s@.address))
}

/// The address of `name` in the symbol table: that of its first definition.
pub open spec fn symbol_address(table: Seq<Symbol>, name: Seq<char>) -> Option<int> {
    first_value(symbol_entries(table), name)
}

impl Symbol {
    pub fn new(name: String, address: i32) -> (r: Symbol)
        ensures
            r@.name == name@,
            r@.address == address,
    {
        Symbol { name, address }
    }

    pub fn name(&self) -> (r: &str)
        ensures
            r@ == self@.name,
    {
        self.name.as_str()
    }

    pub fn address(&self) -> (r: &i32)
        ensures
            *r as int == self@.address,
    {
        &self.address
    }
}

/// Looks `operand` up in the symbol table; the first definition wins.
pub fn find_symbol<'a>(symtable: &'a Vec<Symbol>, operand: &str) -> (r: Option<&'a Symbol>)
    ensures
        r matches Some(s) ==> s@.name == operand@ && symbol_address(symtable@, operand@) == Some(
            s@.address,
        ),
        r is None ==> symbol_address(symtable@, operand@) is None,
{
    let ghost entries = symbol_entries(symtable@);
    let mut i: usize = 0;
    while i < symtable.len()
        invariant
            i <= symtable@.len(),
            entries == symbol_entries(symtable@),
            first_value(entries.subrange(0, i as int), operand@) is None,
        decreases symtable@.len() - i,
    {
        let s = &symtable[i];
        assert(entries.subrange(0, i + 1).drop_last() =~= entries.subrange(0, i as int));
        if same_text(s.name(), operand) {
            proof {
                lemma_first_value_prefix(entries, operand@, i + 1);
            }
            return Some(s);
        }
        i = i + 1;
    }
    assert(entries.subrange(0, i as int) =~= entries);
    None
}

} // verus!
