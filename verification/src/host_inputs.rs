//! The values that the proving host hands to the guest program.
use vstd::prelude::*;

verus! {

/// The first input written to the guest's standard input: 10.
pub fn input() -> (value: u32)
    ensures
        value == 10,
{
    10
}

} // verus!
