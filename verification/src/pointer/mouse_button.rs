use vstd::prelude::*;

verus! {

/// Linux input button codes, as carried by pointer button events.
pub const LEFT: u32 = 272;

pub const RIGHT: u32 = 273;

pub const MIDDLE: u32 = 274;

pub const BACK: u32 = 275;

pub const FORWARD: u32 = 276;

} // verus!
