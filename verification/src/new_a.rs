//! The state model of the upgraded storage-demo contract.
//!
//! After a code upgrade the new contract reads the old pair from its fixed
//! storage key once, swaps the two fields into the updated layout, and
//! keeps a fresh third value beside it. The raw storage read itself is the
//! chain environment's work; its result comes in as a plain optional value.

use vstd::prelude::*;

use crate::old_a::{Error, OldState};

verus! {

/// The old pair after migration: the two fields swapped.
#[derive(Clone, Copy, PartialEq, Eq, Structural, Debug)]
pub struct UpdatedOldState {
    pub field_1: bool,
    pub field_2: u32,
}

impl Default for UpdatedOldState {
    /// The values a read finds before the first write.
    fn default() -> (r: Self)
        ensures
            r.field_1 == false,
            r.field_2 == 0,
    {
        UpdatedOldState { field_1: false, field_2: 0 }
    }
}

/// The value the upgraded contract adds to its storage.
#[derive(Clone, Copy, PartialEq, Eq, Structural, Debug)]
pub struct NewState {
    pub field_3: u16,
}

impl Default for NewState {
    /// The value a read finds before the first write.
    fn default() -> (r: Self)
        ensures
            r.field_3 == 0,
    {
        NewState { field_3: 0 }
    }
}

/// The upgraded contract: the migrated pair and the new value, each a lazy
/// cell. It is never instantiated fresh; it takes over the storage of the
/// first version through the migration below.
pub struct A {
    pub new_state: Option<NewState>,
    pub updated_old_state: Option<UpdatedOldState>,
}

impl A {
    /// What a read of the migrated pair yields.
    pub open spec fn stored_updated(self) -> UpdatedOldState {
        match self.updated_old_state {
            Option::Some(s) => s,
            Option::None => UpdatedOldState { field_1: false, field_2: 0 },
        }
    }

    /// What a read of the new value yields.
    pub open spec fn stored_new(self) -> NewState {
        match self.new_state {
            Option::Some(s) => s,
            Option::None => NewState { field_3: 0 },
        }
    }

    pub fn get_values(&self) -> (r: (bool, u32, u16))
        ensures
            r.0 == self.stored_updated().field_1,
            r.1 == self.stored_updated().field_2,
            r.2 == self.stored_new().field_3,
    {
        let updated_old_state = match self.updated_old_state {
            Some(s) => s,
            None => UpdatedOldState { field_1: false, field_2: 0 },
        };
        let new_state = match self.new_state {
            Some(s) => s,
            None => NewState { field_3: 0 },
        };
        (updated_old_state.field_1, updated_old_state.field_2, new_state.field_3)
    }

    /// Performs the storage migration: the pair read from the old layout's
    /// key has its fields swapped into the updated layout. The deployed
    /// contract aborts when that key is empty, so a present value is
    /// required here.
    pub fn migrate(&mut self, legacy: Option<OldState>) -> (r: Result<(), Error>)
        requires
            legacy is Some,
        ensures
            r is Ok,
            final(self).updated_old_state == Some(
                UpdatedOldState {
                    field_1: legacy->Some_0.field_2,
                    field_2: legacy->Some_0.field_1,
                },
            ),
            final(self).new_state == old(self).new_state,
    {
        let OldState { field_1, field_2 } = match legacy {
            Some(s) => s,
            None => {
                proof {
                    assert(false);
                }
                OldState { field_1: 0, field_2: false }
            },
        };
        self.updated_old_state = Some(UpdatedOldState { field_1: field_2, field_2: field_1 });
        Ok(())
    }
}

} // verus!
