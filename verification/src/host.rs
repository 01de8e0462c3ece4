//! The state of one compilation pass.

use vstd::prelude::*;
use crate::symbol::LmtFactory;

verus! {

/// What a compilation pass works on: the factory of its symbols.
pub struct SModelHost {
    pub factory: LmtFactory,
}

impl SModelHost {
    /// A host whose factory has no symbols yet.
    pub fn new() -> (host: Self)
        ensures
            host.factory@.slots.len() == 0,
            host.factory@.overrides.len() == 0,
            host.factory.wf(),
    {
        SModelHost { factory: LmtFactory::new() }
    }
}

} // verus!
