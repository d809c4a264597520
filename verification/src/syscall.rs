//! The syscall ABI: one software-interrupt immediate selects the call.
//!
//! Arguments pass in the first two general-purpose registers and the signed
//! 8-bit result is read back from the first after the call returns. The
//! user-side stubs that issue the software interrupt are target asm and stand
//! outside this library.

use vstd::prelude::*;

verus! {

pub const EXCEPTION_CODE_CREATE: u64 = 1;

pub const EXCEPTION_CODE_MY_TID: u64 = 2;

pub const EXCEPTION_CODE_MY_PARENT_TID: u64 = 3;

pub const EXCEPTION_CODE_YIELD: u64 = 4;

pub const EXCEPTION_CODE_EXIT: u64 = 5;

} // verus!
