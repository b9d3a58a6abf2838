//! Time of day as the real-time clock keeps it.

use vstd::prelude::*;

verus! {

/// Port that selects a clock register.
pub const CMOS_ADDR: u16 = 0x70;

/// Port the selected register is read from.
pub const CMOS_DATA: u16 = 0x71;

pub const REGISTER_SECONDS: u8 = 0x00;

pub const REGISTER_MINUTES: u8 = 0x02;

pub const REGISTER_HOURS: u8 = 0x04;

pub const REGISTER_STATUS_A: u8 = 0x0A;

pub const REGISTER_STATUS_B: u8 = 0x0B;

/// A time of day.
#[derive(Debug, Clone, Copy, PartialEq, Eq, Structural)]
pub struct Time {
    pub hours: u8,
    pub minutes: u8,
    pub seconds: u8,
}

/// The number two decimal digits stand for, the tens in the high nibble.
pub open spec fn from_bcd(v: u8) -> int {
    (v & 0x0F) + (v / 16) * 10
}

/// The hour a register value in decimal digits stands for; the bit that
/// marks the afternoon of a twelve-hour clock is kept.
pub open spec fn hours_from_bcd(v: u8) -> u8 {
    (from_bcd(v) as u8) | (v & 0x80)
}

/// The clock counts in decimal digits: bit 2 of status register B is
/// clear.
pub open spec fn counts_in_bcd(register_b: u8) -> bool {
    register_b & 0x04 == 0
}

/// The time the register values stand for.
pub open spec fn decoded(seconds: u8, minutes: u8, hours: u8, register_b: u8) -> Time {
    if counts_in_bcd(register_b) {
        Time {
            hours: hours_from_bcd(hours),
            minutes: from_bcd(minutes) as u8,
            seconds: from_bcd(seconds) as u8,
        }
    } else {
        Time { hours, minutes, seconds }
    }
}

/// Tells from status register A whether the clock is in the middle of an
/// update, when its registers must not be read.
pub fn is_updating(status_a: u8) -> (r: bool)
    ensures
        r == (status_a & 0x80 != 0),
{
    (status_a & 0x80) != 0
}

/// Turns two decimal digits into the number they stand for.
fn bcd_to_binary(v: u8) -> (r: u8)
    ensures
        r == from_bcd(v),
{
    proof {
        assert((v & 0x0F) <= 15) by (bit_vector);
    }
    (v & 0x0F) + ((v / 16) * 10)
}

/// The time of day, from the seconds, minutes and hours registers and
/// status register B, which says whether they count in decimal digits.
pub fn read_rtc(seconds: u8, minutes: u8, hours: u8, register_b: u8) -> (time: Time)
    ensures
        time == decoded(seconds, minutes, hours, register_b),
{
    if (register_b & 0x04) == 0 {
        Time {
            hours: bcd_to_binary(hours) | (hours & 0x80),
            minutes: bcd_to_binary(minutes),
            seconds: bcd_to_binary(seconds),
        }
    } else {
        Time { hours, minutes, seconds }
    }
}

} // verus!
