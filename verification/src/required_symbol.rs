//! A symbol the linked program must define; emitted as an undefined-symbol
//! directive so the link fails early when it is absent.

use vstd::prelude::*;

verus! {

pub struct RequiredSymbol {
    pub name: String,
    pub exclude_if_any: Vec<String>,
    pub exclude_if_all: Vec<String>,
    pub include_if_any: Vec<String>,
    pub include_if_all: Vec<String>,
}

impl RequiredSymbol {
    pub fn new(name: String) -> (r: RequiredSymbol)
        ensures
            r.name == name,
            r.exclude_if_any.len() == 0,
            r.exclude_if_all.len() == 0,
            r.include_if_any.len() == 0,
            r.include_if_all.len() == 0,
    {
        RequiredSymbol {
            name,
            exclude_if_any: Vec::new(),
            exclude_if_all: Vec::new(),
            include_if_any: Vec::new(),
            include_if_all: Vec::new(),
        }
    }
}

} // verus!
