//! The published value: written once by the driver that completes the
//! initializer, then read by every requester without locking.
use vstd::prelude::*;

use crate::state::OnceState;

verus! {

#[verifier::external_type_specification]
#[verifier::external_body]
#[verifier::reject_recursive_types(T)]
pub struct ExOnceCell<T>(once_cell::sync::OnceCell<T>);

/// Relies on `once_cell::sync::OnceCell::new`: an empty cell.
pub assume_specification<T>[ once_cell::sync::OnceCell::<T>::new ]() -> once_cell::sync::OnceCell<T>;

/// Relies on `once_cell::sync::OnceCell::get`: the value, once the cell holds one;
/// it never blocks. Another thread may fill the cell at any time, so nothing is
/// promised of which of the two comes back.
pub assume_specification<T>[ once_cell::sync::OnceCell::<T>::get ](
    cell: &once_cell::sync::OnceCell<T>,
) -> Option<&T>;

/// Relies on `once_cell::sync::OnceCell::try_insert`: where the cell was empty it
/// now holds `value` and a reference to it comes back; otherwise the cell is left
/// as it was and `value` is handed back beside the value it holds.
pub assume_specification<T>[ once_cell::sync::OnceCell::<T>::try_insert ](
    cell: &once_cell::sync::OnceCell<T>,
    value: T,
) -> (r: Result<&T, (&T, T)>)
    ensures
        match r {
            Ok(stored) => *stored == value,
            Err((_, back)) => back == value,
        },
;

/// A write-once holder of the published value, readable without locking.
#[verifier::reject_recursive_types(T)]
pub struct ValueSlot<T> {
    cell: once_cell::sync::OnceCell<T>,
}

impl<T> ValueSlot<T> {
    /// An empty slot.
    pub fn new() -> (r: ValueSlot<T>) {
        ValueSlot { cell: once_cell::sync::OnceCell::new() }
    }

    /// The published value, if there is one yet: the fast path, which takes no
    /// lock and never waits.
    pub fn get(&self) -> (r: Option<&T>) {
        self.cell.get()
    }

    /// Publishes `value`. Where the slot was empty, the result refers to the
    /// value just stored; where a value was published before, the slot is left
    /// as it is and `value` comes back as the error.
    pub fn set_value(&self, value: T) -> (r: Result<&T, T>)
        ensures
            match r {
                Ok(stored) => *stored == value,
                Err(back) => back == value,
            },
    {
        match self.cell.try_insert(value) {
            Ok(stored) => Ok(stored),
            Err((_, back)) => Err(back),
        }
    }

    /// The driver `id` reports one advance of the initializer to `state`. Where the
    /// initializer produced a value, the value is published in this slot before
    /// `state` learns of it, so that every request that `state` resolves finds it
    /// here. Returns the published value, if any, and the requesters to wake.
    /// Where the slot already held a value, nothing changes and the produced value
    /// comes back as the error.
    pub fn report<'a>(&'a self, state: &mut OnceState<&'a T>, id: u64, outcome: Option<T>) -> (r:
        Result<(Option<&'a T>, Vec<u64>), T>)
        requires
            old(state).wf(),
            old(state)@.driver == Some(id),
        ensures
            final(state).wf(),
            match r {
                Ok((published, wake)) => match outcome {
                    Some(v) => {
                        &&& published matches Some(p) && *p == v
                        &&& (final(state)@, wake@) == old(state)@.after_step(id, published)
                    },
                    None => {
                        &&& published is None
                        &&& (final(state)@, wake@) == old(state)@.after_step(id, None)
                    },
                },
                Err(back) => outcome == Some(back) && final(state)@ == old(state)@,
            },
    {
        match outcome {
            Some(v) => match self.set_value(v) {
                Ok(stored) => {
                    let wake = state.step(id, Some(stored));
                    Ok((Some(stored), wake))
                },
                Err(back) => Err(back),
            },
            None => {
                let wake = state.step(id, None);
                Ok((None, wake))
            },
        }
    }
}

} // verus!
