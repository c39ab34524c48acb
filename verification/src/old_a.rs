//! The state model of the first storage-demo contract.
//!
//! The contract keeps a lazily initialized pair of values under a fixed
//! storage key. The lazy cell is a plain option here: empty until the first
//! write, and reads fall back to the default values. The code-upgrade entry
//! point of the deployed contract only swaps code hashes through the chain
//! environment and carries no state logic of its own.

use vstd::prelude::*;

verus! {

/// The error type of the contract's fallible entry points, carrying the
/// environment's message. With the storage modeled in memory no entry
/// point here can actually fail.
#[derive(PartialEq, Eq, Debug)]
pub enum Error {
    InkEnvError(String),
}

/// The stored pair of the first contract version.
#[derive(Clone, Copy, PartialEq, Eq, Structural, Debug)]
pub struct OldState {
    pub field_1: u32,
    pub field_2: bool,
}

impl Default for OldState {
    /// The values a read finds before the first write.
    fn default() -> (r: Self)
        ensures
            r.field_1 == 0,
            r.field_2 == false,
    {
        OldState { field_1: 0, field_2: false }
    }
}

/// The first contract version: a lazy cell of the stored pair.
pub struct A {
    pub old_state: Option<OldState>,
}

impl A {
    /// What a read of the lazy cell yields: the stored pair, or the
    /// defaults while the cell is still empty.
    pub open spec fn stored(self) -> OldState {
        match self.old_state {
            Option::Some(s) => s,
            Option::None => OldState { field_1: 0, field_2: false },
        }
    }

    /// Creates a new contract with an empty cell.
    pub fn new() -> (r: Self)
        ensures
            r.old_state matches Option::None,
    {
        A { old_state: None }
    }

    pub fn get_values(&self) -> (r: (u32, bool))
        ensures
            r.0 == self.stored().field_1,
            r.1 == self.stored().field_2,
    {
        let old_state = match self.old_state {
            Some(s) => s,
            None => OldState { field_1: 0, field_2: false },
        };
        (old_state.field_1, old_state.field_2)
    }

    pub fn set_values(&mut self, field_1: u32, field_2: bool) -> (r: Result<(), Error>)
        ensures
            r is Ok,
            final(self).stored() == (OldState { field_1, field_2 }),
    {
        self.old_state = Some(OldState { field_1, field_2 });
        Ok(())
    }
}

} // verus!
