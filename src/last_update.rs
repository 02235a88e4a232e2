use vstd::prelude::*;
use crate::error::LendingError;

verus! {

/// When a record was last brought up to date, and whether it has gone stale since.
#[derive(Clone, Copy, Debug, Default, PartialEq, Eq, Structural)]
pub struct LastUpdate {
    /// Slot of the last update
    pub slot: u64,
    /// Set when a value-changing operation has run since the last refresh
    pub stale: bool,
}

impl LastUpdate {
    /// An update record for `slot`, marked stale until the first refresh.
    pub open spec fn new_spec(slot: u64) -> LastUpdate {
        LastUpdate { slot, stale: true }
    }

    /// An update record for `slot`, marked stale until the first refresh.
    pub fn new(slot: u64) -> (r: LastUpdate)
        ensures
            r == LastUpdate::new_spec(slot),
    {
        LastUpdate { slot, stale: true }
    }

    /// Slots since the last update; a slot before it is an error.
    pub fn slots_elapsed(&self, slot: u64) -> (r: Result<u64, LendingError>)
        ensures
            slot >= self.slot ==> r == Ok::<u64, LendingError>((slot - self.slot) as u64),
            slot < self.slot ==> r == Err::<u64, LendingError>(LendingError::MathOverflow),
    {
        if slot < self.slot {
            Err(LendingError::MathOverflow)
        } else {
            Ok(slot - self.slot)
        }
    }

    /// Records a refresh at `slot`.
    pub fn update_slot(&mut self, slot: u64)
        ensures
            *final(self) == (LastUpdate { slot, stale: false }),
    {
        self.slot = slot;
        self.stale = false;
    }

    /// Marks the record stale.
    pub fn mark_stale(&mut self)
        ensures
            *final(self) == (LastUpdate { slot: old(self).slot, stale: true }),
    {
        self.stale = true;
    }

    /// Whether the record must be refreshed before use at `slot`.
    pub fn is_stale(&self, slot: u64) -> (r: bool)
        ensures
            r == (self.stale || self.slot != slot),
    {
        self.stale || self.slot != slot
    }
}

} // verus!
