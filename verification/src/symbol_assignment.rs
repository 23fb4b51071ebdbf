//! A declarative `name = value;` directive, with optional `PROVIDE` and
//! hidden-visibility wrapping and the usual conditional-inclusion predicate.

use vstd::prelude::*;

verus! {

pub struct SymbolAssignment {
    pub name: String,
    /// The right-hand side, an address expression for the linker.
    pub value: String,
    /// Wrap in `PROVIDE`: only defined if referenced and not defined anywhere.
    pub provide: bool,
    /// Wrap in hidden visibility: not exported outside the module.
    pub hidden: bool,
    pub exclude_if_any: Vec<String>,
    pub exclude_if_all: Vec<String>,
    pub include_if_any: Vec<String>,
    pub include_if_all: Vec<String>,
}

impl SymbolAssignment {
    pub fn new(name: String, value: String) -> (r: SymbolAssignment)
        ensures
            r.name == name,
            r.value == value,
            !r.provide,
            !r.hidden,
            r.exclude_if_any.len() == 0,
            r.exclude_if_all.len() == 0,
            r.include_if_any.len() == 0,
            r.include_if_all.len() == 0,
    {
        SymbolAssignment {
            name,
            value,
            provide: false,
            hidden: false,
            exclude_if_any: Vec::new(),
            exclude_if_all: Vec::new(),
            include_if_any: Vec::new(),
            include_if_all: Vec::new(),
        }
    }
}

} // verus!
