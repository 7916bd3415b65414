//! Contracts for the integer operations of std that the interpreter calls and
//! that vstd leaves without one.
use vstd::prelude::*;

verus! {

/// `u8::overflowing_add`: the sum modulo 256, and whether it exceeded 255.
pub assume_specification[ <u8>::overflowing_add ](x: u8, y: u8) -> (r: (u8, bool))
    ensures
        r.0 == (x + y) % 256,
        r.1 == (x + y > u8::MAX),
;

/// `u8::overflowing_sub`: the difference modulo 256, and whether it fell
/// below zero.
pub assume_specification[ <u8>::overflowing_sub ](x: u8, y: u8) -> (r: (u8, bool))
    ensures
        r.0 == (x - y) % 256,
        r.1 == (x < y),
;

} // verus!
