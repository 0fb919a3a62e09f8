use vstd::prelude::*;
use crate::error::ProgramError;

verus! {

/// The accounts of `add`: none.
pub struct Add {}

/// The sum of two numbers; fails where it does not fit in 64 bits.
pub fn add(_ctx: &Add, d1: u64, d2: u64) -> (r: Result<u64, ProgramError>)
    ensures
        d1 + d2 <= u64::MAX ==> r == Ok::<u64, ProgramError>((d1 + d2) as u64),
        d1 + d2 > u64::MAX ==> r == Err::<u64, ProgramError>(ProgramError::ArithmeticOverflow),
{
    d1.checked_add(d2).ok_or(ProgramError::ArithmeticOverflow)
}

} // verus!
