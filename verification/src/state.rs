//! Values the whole kernel shares: the cycle budget, counters, address
//! offsets found at boot, the network address and the screen.

use vstd::prelude::*;

verus! {

/// Cycle budget a frame starts with.
pub const DEFAULT_CYCLE_BUDGET: u64 = 2_500_000;

/// Budget at or below which the budget is not lowered any further.
pub const BUDGET_FLOOR: u64 = 500_000;

/// The kernel's shared values.
#[derive(Debug, Clone, Copy, PartialEq, Eq, Structural)]
pub struct State {
    pub cycle_budget: u64,
    pub key_count: u64,
    pub hhdm_offset: u64,
    pub kernel_delta: u64,
    /// The IPv4 address, first octet in the highest byte; 0 while none
    /// is assigned.
    pub my_ip: u32,
    pub video_ptr: u64,
    pub screen_width: usize,
    pub screen_height: usize,
}

/// Four octets as one number, the first octet in the highest byte.
pub open spec fn packed_octets(ip: Seq<u8>) -> u32 {
    ((ip[0] as u32) << 24) | ((ip[1] as u32) << 16) | ((ip[2] as u32) << 8) | (ip[3] as u32)
}

/// An address as one number, the first octet in the highest byte.
pub open spec fn packed_ip(ip: [u8; 4]) -> u32 {
    packed_octets(ip@)
}

/// Octet `i` of a packed address.
pub open spec fn octet(packed: u32, i: int) -> u8 {
    if i == 0 {
        (packed >> 24) as u8
    } else if i == 1 {
        (packed >> 16) as u8
    } else if i == 2 {
        (packed >> 8) as u8
    } else {
        packed as u8
    }
}

/// The budget after an adjustment by `amount`: raised by a positive
/// amount, lowered by a negative one unless it is at the floor already.
pub open spec fn adjusted_budget(current: u64, amount: i64) -> int {
    if amount < 0 {
        if current > BUDGET_FLOOR {
            current + amount
        } else {
            current as int
        }
    } else {
        current + amount
    }
}

impl State {
    /// The values before boot has found out anything: the default budget
    /// and a screen of 1024 by 768.
    pub fn new() -> (r: State)
        ensures
            r == (State {
                cycle_budget: DEFAULT_CYCLE_BUDGET,
                key_count: 0,
                hhdm_offset: 0,
                kernel_delta: 0,
                my_ip: 0,
                video_ptr: 0,
                screen_width: 1024,
                screen_height: 768,
            }),
    {
        State {
            cycle_budget: DEFAULT_CYCLE_BUDGET,
            key_count: 0,
            hhdm_offset: 0,
            kernel_delta: 0,
            my_ip: 0,
            video_ptr: 0,
            screen_width: 1024,
            screen_height: 768,
        }
    }

    /// Counts one more key or tick; the counter wraps around.
    pub fn count_key(&mut self)
        ensures
            *final(self) == (State {
                key_count: if old(self).key_count == u64::MAX {
                    0
                } else {
                    (old(self).key_count + 1) as u64
                },
                ..*old(self)
            }),
    {
        self.key_count = if self.key_count == u64::MAX {
            0
        } else {
            self.key_count + 1
        };
    }
}

/// Stores the address.
pub fn set_my_ip(state: &mut State, ip: [u8; 4])
    ensures
        *final(state) == (State { my_ip: packed_ip(ip), ..*old(state) }),
{
    let combined = ((ip[0] as u32) << 24) | ((ip[1] as u32) << 16) | ((ip[2] as u32) << 8) | (
    ip[3] as u32);
    state.my_ip = combined;
}

/// The stored address, octet by octet.
pub fn get_my_ip(state: &State) -> (ip: [u8; 4])
    ensures
        forall|i: int| 0 <= i < 4 ==> ip[i] == octet(state.my_ip, i),
{
    let combined = state.my_ip;
    [
        #[verifier::truncate]
        ((combined >> 24) as u8),
        #[verifier::truncate]
        ((combined >> 16) as u8),
        #[verifier::truncate]
        ((combined >> 8) as u8),
        #[verifier::truncate]
        (combined as u8),
    ]
}

/// An address that was stored is read back octet by octet.
pub proof fn lemma_ip_round_trip(ip: [u8; 4])
    ensures
        forall|i: int| 0 <= i < 4 ==> octet(packed_ip(ip), i) == ip[i],
{
    let a = ip[0];
    let b = ip[1];
    let c = ip[2];
    let d = ip[3];
    assert(((((a as u32) << 24) | ((b as u32) << 16) | ((c as u32) << 8) | (d as u32)) >> 24) as u8
        == a) by (bit_vector);
    assert(((((a as u32) << 24) | ((b as u32) << 16) | ((c as u32) << 8) | (d as u32)) >> 16) as u8
        == b) by (bit_vector);
    assert(((((a as u32) << 24) | ((b as u32) << 16) | ((c as u32) << 8) | (d as u32)) >> 8) as u8
        == c) by (bit_vector);
    assert((((a as u32) << 24) | ((b as u32) << 16) | ((c as u32) << 8) | (d as u32)) as u8 == d)
        by (bit_vector);
}

/// Raises the cycle budget by a positive `amount`, or lowers it by a
/// negative one; a budget at or below the floor is not lowered.
pub fn adjust_budget(state: &mut State, amount: i64)
    requires
        0 <= adjusted_budget(old(state).cycle_budget, amount) <= u64::MAX,
    ensures
        *final(state) == (State {
            cycle_budget: adjusted_budget(old(state).cycle_budget, amount) as u64,
            ..*old(state)
        }),
{
    let current = state.cycle_budget;
    let new_val = if amount < 0 {
        if current > BUDGET_FLOOR {
            let magnitude: u64 = ((-(amount + 1)) as u64) + 1;
            current - magnitude
        } else {
            current
        }
    } else {
        current + (amount as u64)
    };
    state.cycle_budget = new_val;
}

} // verus!
