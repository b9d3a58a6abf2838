//! PCI configuration space: how a register is addressed and what a scan
//! of the bus finds.

use vstd::prelude::*;

verus! {

/// Port the address of a configuration register is written to.
pub const CONFIG_ADDRESS: u16 = 0xCF8;

/// Port the register is then read from or written to.
pub const CONFIG_DATA: u16 = 0xCFC;

/// Vendor id that an empty slot answers with.
pub const NO_DEVICE: u16 = 0xFFFF;

/// Slots on one bus.
pub const SLOTS_PER_BUS: usize = 32;

/// Slots on all 256 buses.
pub const SLOT_COUNT: usize = 8192;

/// Offset of the command register.
pub const COMMAND_REGISTER: u8 = 0x04;

/// Offset of the first base address register.
pub const BAR0_REGISTER: u8 = 0x10;

/// A device found on the bus.
#[derive(Debug, Clone)]
pub struct PciDevice {
    pub bus: u8,
    pub device: u8,
    pub function: u8,
    pub vendor_id: u16,
    pub device_id: u16,
}

/// The address that selects a register: the enable bit, then bus, slot
/// and function, then the offset without its two lowest bits.
pub open spec fn config_address_of(bus: u8, slot: u8, func: u8, offset: u8) -> u32 {
    0x80000000u32 | ((bus as u32) << 16) | ((slot as u32) << 11) | ((func as u32) << 8) | ((
    offset as u32) & 0xFC)
}

/// The address to write to the address port to select a register.
pub fn config_address(bus: u8, slot: u8, func: u8, offset: u8) -> (address: u32)
    ensures
        address == config_address_of(bus, slot, func, offset),
{
    0x80000000u32 | ((bus as u32) << 16) | ((slot as u32) << 11) | ((func as u32) << 8) | ((
    offset as u32) & 0xFC)
}

/// The 16-bit word at `offset` within the register value `val`: the
/// lower half for an offset whose bit 1 is clear, else the upper half.
pub open spec fn config_word_of(val: u32, offset: u8) -> u16 {
    ((val >> (((offset & 2) * 8) as u32)) & 0xFFFF) as u16
}

/// Picks the word at `offset` out of a register value.
pub fn config_word(val: u32, offset: u8) -> (word: u16)
    ensures
        word == config_word_of(val, offset),
{
    proof {
        assert((offset & 2) == 0 || (offset & 2) == 2) by (bit_vector);
    }
    let shift: u32 = ((offset & 2) * 8) as u32;
    #[verifier::truncate]
    (((val >> shift) & 0xFFFF) as u16)
}

/// Vendor id in the first register of a function.
pub open spec fn vendor_of(register: u32) -> u16 {
    (register & 0xFFFF) as u16
}

/// Device id in the first register of a function.
pub open spec fn device_of(register: u32) -> u16 {
    ((register >> 16) & 0xFFFF) as u16
}

/// The devices among the first `n` slots, given the first register of
/// function 0 of every slot, bus after bus.
pub open spec fn devices_among(registers: Seq<u32>, n: nat) -> Seq<PciDevice>
    decreases n,
{
    if n == 0 || n > registers.len() {
        Seq::empty()
    } else if vendor_of(registers[n - 1]) == NO_DEVICE {
        devices_among(registers, (n - 1) as nat)
    } else {
        devices_among(registers, (n - 1) as nat).push(
            PciDevice {
                bus: ((n - 1) / 32) as u8,
                device: ((n - 1) % 32) as u8,
                function: 0,
                vendor_id: vendor_of(registers[n - 1]),
                device_id: device_of(registers[n - 1]),
            },
        )
    }
}

/// Lists the devices on the bus. `registers` holds what the first
/// register of function 0 reads as for each slot, the 32 slots of bus 0
/// first. A slot that answers with the vendor id `0xFFFF` is empty.
pub fn scan_bus(registers: &[u32]) -> (devices: Vec<PciDevice>)
    requires
        registers.len() == SLOT_COUNT,
    ensures
        devices@ == devices_among(registers@, SLOT_COUNT as nat),
{
    let mut devices: Vec<PciDevice> = Vec::new();
    let mut bus: usize = 0;
    while bus < 256
        invariant
            bus <= 256,
            registers.len() == SLOT_COUNT,
            devices@ == devices_among(registers@, (bus * 32) as nat),
        decreases 256 - bus,
    {
        let mut slot: usize = 0;
        while slot < 32
            invariant
                bus < 256,
                slot <= 32,
                registers.len() == SLOT_COUNT,
                devices@ == devices_among(registers@, (bus * 32 + slot) as nat),
            decreases 32 - slot,
        {
            let register = registers[bus * 32 + slot];
            let vendor_id = (register & 0xFFFF) as u16;
            if vendor_id != NO_DEVICE {
                let device_id = ((register >> 16) & 0xFFFF) as u16;
                devices.push(
                    PciDevice {
                        bus: bus as u8,
                        device: slot as u8,
                        function: 0,
                        vendor_id,
                        device_id,
                    },
                );
            }
            slot = slot + 1;
        }
        bus = bus + 1;
    }
    devices
}

/// Name of the vendor with the given id.
pub open spec fn vendor_name(id: u16) -> Seq<char> {
    if id == 0x8086 {
        "Intel Corp"@
    } else if id == 0x10EC {
        "Realtek"@
    } else if id == 0x10DE {
        "NVIDIA"@
    } else if id == 0x1234 {
        "QEMU / Bochs"@
    } else if id == 0x1AF4 {
        "VirtIO"@
    } else {
        "Unknown"@
    }
}

/// Translates a vendor id into a name.
pub fn lookup_vendor(id: u16) -> (name: &'static str)
    ensures
        name@ == vendor_name(id),
{
    if id == 0x8086 {
        "Intel Corp"
    } else if id == 0x10EC {
        "Realtek"
    } else if id == 0x10DE {
        "NVIDIA"
    } else if id == 0x1234 {
        "QEMU / Bochs"
    } else if id == 0x1AF4 {
        "VirtIO"
    } else {
        "Unknown"
    }
}

/// The command register with bus mastering and I/O space switched on.
pub fn enable_bus_mastering(command: u32) -> (new_command: u32)
    ensures
        new_command == command | 5,
{
    proof {
        assert((command | (1u32 << 2)) | (1u32 << 0) == command | 5) by (bit_vector);
    }
    command | (1 << 2) | (1 << 0)
}

} // verus!
