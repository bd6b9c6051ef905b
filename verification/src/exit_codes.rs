//! Exit codes for non-interactive runs: batch operations report partial
//! success rather than aborting, and the code tells the caller which.
use vstd::prelude::*;

verus! {

pub const SUCCESS: i32 = 0;

pub const PARTIAL_SUCCESS: i32 = 2;

pub const NOTHING_TO_DO: i32 = 3;

pub const CONFIG_ERROR: i32 = 4;

pub const FATAL_ERROR: i32 = 5;

} // verus!
