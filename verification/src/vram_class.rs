//! A shared virtual-address anchor. Several segments may reference one class:
//! the first emits its start/end symbols, later ones only raise its end.

use vstd::prelude::*;

verus! {

pub struct VramClass {
    /// Unique name of the class.
    pub name: String,
    /// A fixed start address, if given.
    pub fixed_vram: Option<u32>,
    /// An existing symbol the start is anchored to, if given.
    pub fixed_symbol: Option<String>,
    /// Classes whose ends this class's start must not fall below.
    pub follows_classes: Vec<String>,
}

impl VramClass {
    /// At most one of the fixed address and the anchor symbol is given.
    pub open spec fn wf(self) -> bool {
        !(self.fixed_vram is Some && self.fixed_symbol is Some)
    }

    pub fn new(name: String) -> (r: VramClass)
        ensures
            r.name == name,
            r.fixed_vram matches None::<u32>,
            r.fixed_symbol matches None::<String>,
            r.follows_classes.len() == 0,
    {
        VramClass { name, fixed_vram: None, fixed_symbol: None, follows_classes: Vec::new() }
    }
}

} // verus!
