//! Symbol tables: the attribute names under which symbols are kept.
use vstd::prelude::*;

verus! {

/// The symbol-table conventions of operations.
pub struct SymbolTable;

impl SymbolTable {
    /// The name of the attribute that holds a symbol's name.
    pub fn symbol_attr_name() -> (r: &'static str)
        ensures
            r@ == "sym_name"@,
    {
        "sym_name"
    }

    /// The name of the attribute that holds a symbol's visibility.
    pub fn visibility_attribute_name() -> (r: &'static str)
        ensures
            r@ == "sym_visibility"@,
    {
        "sym_visibility"
    }
}

} // verus!
