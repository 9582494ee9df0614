//! The missile count: a stock, a salvo, and what is left after firing.

use vstd::prelude::*;

verus! {

/// The stock at the start.
pub const STARTING_MISSILES: i32 = 8;

/// The number of missiles in one salvo.
pub const READY_AMOUNT: i32 = 2;

/// The stock that is left of `missiles` after `ready` of them are fired, if
/// that number can be held.
pub fn fire(missiles: i32, ready: i32) -> (left: Option<i32>)
    ensures
        left == if i32::MIN <= missiles - ready <= i32::MAX {
            Some((missiles - ready) as i32)
        } else {
            None::<i32>
        },
{
    missiles.checked_sub(ready)
}

/// The first salvo leaves six of the starting stock.
pub proof fn lemma_first_salvo()
    ensures
        STARTING_MISSILES - READY_AMOUNT == 6,
{
}

} // verus!
