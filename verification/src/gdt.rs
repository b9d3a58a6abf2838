//! Segment selectors.

use vstd::prelude::*;

verus! {

/// Stack the double fault handler runs on.
pub const DOUBLE_FAULT_IST_INDEX: u16 = 0;

/// Stack the interrupt handlers run on.
pub const INTERRUPT_IST_INDEX: u16 = 0;

/// Bytes of each of the kernel's own stacks.
pub const STACK_SIZE: usize = 20480;

/// Privilege level of user code, as the low bits of a selector.
pub const USER_RPL: u16 = 3;

/// The selectors a task in user mode runs on: those of the user code and
/// user data segments with the requested privilege level set to 3.
pub fn get_user_selectors(user_code_selector: u16, user_data_selector: u16) -> (r: (u16, u16))
    ensures
        r == (user_code_selector | USER_RPL, user_data_selector | USER_RPL),
{
    (user_code_selector | USER_RPL, user_data_selector | USER_RPL)
}

} // verus!
