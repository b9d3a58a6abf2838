//! ACPI tables: their layout in memory and the walk from the root
//! pointer to the fixed description table.

use vstd::prelude::*;

verus! {

/// Bytes of a table header.
pub const HEADER_LEN: usize = 36;

/// Bytes of the root pointer.
pub const RSDP_LEN: usize = 36;

/// Bytes of the fixed description table that are kept.
pub const FADT_LEN: usize = 116;

/// Bytes of a page.
pub const PAGE_SIZE: u64 = 4096;

/// Port and value that switch the machine off under QEMU and Bochs.
pub const QEMU_SHUTDOWN: (u16, u16) = (0x604, 0x2000);

/// Port and value that switch the machine off under VirtualBox.
pub const VIRTUALBOX_SHUTDOWN: (u16, u16) = (0x4004, 0x3400);

/// Header every table starts with.
#[derive(Clone, Copy)]
pub struct AcpiHeader {
    pub signature: [u8; 4],
    pub length: u32,
    pub revision: u8,
    pub checksum: u8,
    pub oem_id: [u8; 6],
    pub oem_table_id: [u8; 8],
    pub oem_revision: u32,
    pub creator_id: u32,
    pub creator_revision: u32,
}

/// The root system description pointer.
#[derive(Clone, Copy)]
pub struct Rsdp {
    pub signature: [u8; 8],
    pub checksum: u8,
    pub oem_id: [u8; 6],
    pub revision: u8,
    pub rsdt_addr: u32,
    pub length: u32,
    pub xsdt_addr: u64,
    pub extended_checksum: u8,
    pub reserved: [u8; 3],
}

/// The fixed ACPI description table.
#[derive(Clone, Copy)]
pub struct Fadt {
    pub header: AcpiHeader,
    pub firmware_ctrl: u32,
    pub dsdt: u32,
    pub reserved: u8,
    pub preferred_pm_profile: u8,
    pub sci_interrupt: u16,
    pub smi_command_port: u32,
    pub acpi_enable: u8,
    pub acpi_disable: u8,
    pub s4bios_req: u8,
    pub pstate_control: u8,
    pub pm1a_event_block: u32,
    pub pm1b_event_block: u32,
    pub pm1a_control_block: u32,
    pub pm1b_control_block: u32,
    pub pm2_control_block: u32,
    pub pm_timer_block: u32,
    pub gpe0_block: u32,
    pub gpe1_block: u32,
    pub pm1_event_length: u8,
    pub pm1_control_length: u8,
    pub pm2_control_length: u8,
    pub pm_timer_length: u8,
    pub gpe0_length: u8,
    pub gpe1_length: u8,
    pub gpe1_base: u8,
    pub cstate_control: u8,
    pub worst_c2_latency: u16,
    pub worst_c3_latency: u16,
    pub flush_size: u16,
    pub flush_stride: u16,
    pub duty_offset: u8,
    pub duty_width: u8,
    pub day_alarm: u8,
    pub month_alarm: u8,
    pub century: u8,
    pub boot_architecture_flags: u16,
    pub reserved2: u8,
    pub flags: u32,
}

/// The 16-bit number stored at `offset`, least significant byte first.
pub open spec fn stored16(data: Seq<u8>, offset: int) -> u16 {
    (data[offset] as u16) | ((data[offset + 1] as u16) << 8)
}

/// The 32-bit number stored at `offset`, least significant byte first.
pub open spec fn stored32(data: Seq<u8>, offset: int) -> u32 {
    (data[offset] as u32) | ((data[offset + 1] as u32) << 8) | ((data[offset + 2] as u32) << 16) | (
    (data[offset + 3] as u32) << 24)
}

/// The 64-bit number stored at `offset`, least significant byte first.
pub open spec fn stored64(data: Seq<u8>, offset: int) -> u64 {
    (stored32(data, offset) as u64) | ((stored32(data, offset + 4) as u64) << 32)
}

fn read16(data: &[u8], offset: usize) -> (r: u16)
    requires
        offset + 2 <= data.len(),
    ensures
        r == stored16(data@, offset as int),
{
    (data[offset] as u16) | ((data[offset + 1] as u16) << 8)
}

fn read32(data: &[u8], offset: usize) -> (r: u32)
    requires
        offset + 4 <= data.len(),
    ensures
        r == stored32(data@, offset as int),
{
    (data[offset] as u32) | ((data[offset + 1] as u32) << 8) | ((data[offset + 2] as u32) << 16) | (
    (data[offset + 3] as u32) << 24)
}

fn read64(data: &[u8], offset: usize) -> (r: u64)
    requires
        offset + 8 <= data.len(),
    ensures
        r == stored64(data@, offset as int),
{
    (read32(data, offset) as u64) | ((read32(data, offset + 4) as u64) << 32)
}

/// The signature of the root pointer, "RSD PTR ".
pub open spec fn rsdp_signature() -> Seq<u8> {
    seq![0x52u8, 0x53, 0x44, 0x20, 0x50, 0x54, 0x52, 0x20]
}

/// The signature of the fixed description table, "FACP".
pub open spec fn fadt_signature() -> Seq<u8> {
    seq![0x46u8, 0x41, 0x43, 0x50]
}

/// The signature of the extended root table, "XSDT".
pub open spec fn xsdt_signature() -> Seq<u8> {
    seq![0x58u8, 0x53, 0x44, 0x54]
}

/// The signature of the root table, "RSDT".
pub open spec fn rsdt_signature() -> Seq<u8> {
    seq![0x52u8, 0x53, 0x44, 0x54]
}

impl AcpiHeader {
    /// The header stands for the first 36 bytes of `data`.
    pub open spec fn matches(self, data: Seq<u8>) -> bool {
        &&& self.signature@ == data.subrange(0, 4)
        &&& self.length == stored32(data, 4)
        &&& self.revision == data[8]
        &&& self.checksum == data[9]
        &&& self.oem_id@ == data.subrange(10, 16)
        &&& self.oem_table_id@ == data.subrange(16, 24)
        &&& self.oem_revision == stored32(data, 24)
        &&& self.creator_id == stored32(data, 28)
        &&& self.creator_revision == stored32(data, 32)
    }

    /// Reads a header from the start of `data`.
    pub fn parse(data: &[u8]) -> (r: Option<AcpiHeader>)
        ensures
            r is Some <==> data.len() >= HEADER_LEN,
            r matches Some(header) ==> header.matches(data@),
    {
        if data.len() < HEADER_LEN {
            return None;
        }
        let signature = [data[0], data[1], data[2], data[3]];
        let oem_id = [data[10], data[11], data[12], data[13], data[14], data[15]];
        let oem_table_id = [
            data[16],
            data[17],
            data[18],
            data[19],
            data[20],
            data[21],
            data[22],
            data[23],
        ];
        proof {
            assert(signature@ =~= data@.subrange(0, 4));
            assert(oem_id@ =~= data@.subrange(10, 16));
            assert(oem_table_id@ =~= data@.subrange(16, 24));
        }
        Some(
            AcpiHeader {
                signature,
                length: read32(data, 4),
                revision: data[8],
                checksum: data[9],
                oem_id,
                oem_table_id,
                oem_revision: read32(data, 24),
                creator_id: read32(data, 28),
                creator_revision: read32(data, 32),
            },
        )
    }

    /// Tells whether the table is the fixed description table.
    pub fn is_fadt(&self) -> (r: bool)
        ensures
            r == (self.signature@ == fadt_signature()),
    {
        let s = self.signature;
        let r = s[0] == 0x46 && s[1] == 0x41 && s[2] == 0x43 && s[3] == 0x50;
        proof {
            if r {
                assert(self.signature@ =~= fadt_signature());
            } else if self.signature@ == fadt_signature() {
                assert(self.signature@[0] == fadt_signature()[0]);
                assert(self.signature@[1] == fadt_signature()[1]);
                assert(self.signature@[2] == fadt_signature()[2]);
                assert(self.signature@[3] == fadt_signature()[3]);
            }
        }
        r
    }

    /// Tells whether the table is a root table of either kind.
    pub fn is_root_table(&self) -> (r: bool)
        ensures
            r == (self.signature@ == xsdt_signature() || self.signature@ == rsdt_signature()),
    {
        let s = self.signature;
        let tail = s[1] == 0x53 && s[2] == 0x44 && s[3] == 0x54;
        let r = (s[0] == 0x58 || s[0] == 0x52) && tail;
        proof {
            if s[0] == 0x58 && tail {
                assert(self.signature@ =~= xsdt_signature());
            } else if s[0] == 0x52 && tail {
                assert(self.signature@ =~= rsdt_signature());
            } else {
                if self.signature@ == xsdt_signature() {
                    assert(self.signature@[0] == xsdt_signature()[0]);
                    assert(self.signature@[1] == xsdt_signature()[1]);
                    assert(self.signature@[2] == xsdt_signature()[2]);
                    assert(self.signature@[3] == xsdt_signature()[3]);
                }
                if self.signature@ == rsdt_signature() {
                    assert(self.signature@[0] == rsdt_signature()[0]);
                    assert(self.signature@[1] == rsdt_signature()[1]);
                    assert(self.signature@[2] == rsdt_signature()[2]);
                    assert(self.signature@[3] == rsdt_signature()[3]);
                }
            }
        }
        r
    }
}

impl Rsdp {
    /// The root pointer stands for the first 36 bytes of `data`.
    pub open spec fn matches(self, data: Seq<u8>) -> bool {
        &&& self.signature@ == data.subrange(0, 8)
        &&& self.checksum == data[8]
        &&& self.oem_id@ == data.subrange(9, 15)
        &&& self.revision == data[15]
        &&& self.rsdt_addr == stored32(data, 16)
        &&& self.length == stored32(data, 20)
        &&& self.xsdt_addr == stored64(data, 24)
        &&& self.extended_checksum == data[32]
        &&& self.reserved@ == data.subrange(33, 36)
    }

    /// Reads a root pointer from the start of `data`; `None` where the
    /// data is too short or does not start with the signature.
    pub fn parse(data: &[u8]) -> (r: Option<Rsdp>)
        ensures
            r is Some <==> data.len() >= RSDP_LEN && data@.subrange(0, 8) == rsdp_signature(),
            r matches Some(rsdp) ==> rsdp.matches(data@),
    {
        if data.len() < RSDP_LEN {
            return None;
        }
        let signature = [
            data[0],
            data[1],
            data[2],
            data[3],
            data[4],
            data[5],
            data[6],
            data[7],
        ];
        proof {
            assert(signature@ =~= data@.subrange(0, 8));
        }
        if !(signature[0] == 0x52 && signature[1] == 0x53 && signature[2] == 0x44 && signature[3]
            == 0x20 && signature[4] == 0x50 && signature[5] == 0x54 && signature[6] == 0x52
            && signature[7] == 0x20) {
            proof {
                if signature@ == rsdp_signature() {
                    assert(signature@[0] == rsdp_signature()[0]);
                    assert(signature@[1] == rsdp_signature()[1]);
                    assert(signature@[2] == rsdp_signature()[2]);
                    assert(signature@[3] == rsdp_signature()[3]);
                    assert(signature@[4] == rsdp_signature()[4]);
                    assert(signature@[5] == rsdp_signature()[5]);
                    assert(signature@[6] == rsdp_signature()[6]);
                    assert(signature@[7] == rsdp_signature()[7]);
                }
            }
            return None;
        }
        proof {
            assert(signature@ =~= rsdp_signature());
        }
        let oem_id = [data[9], data[10], data[11], data[12], data[13], data[14]];
        let reserved = [data[33], data[34], data[35]];
        proof {
            assert(oem_id@ =~= data@.subrange(9, 15));
            assert(reserved@ =~= data@.subrange(33, 36));
        }
        Some(
            Rsdp {
                signature,
                checksum: data[8],
                oem_id,
                revision: data[15],
                rsdt_addr: read32(data, 16),
                length: read32(data, 20),
                xsdt_addr: read64(data, 24),
                extended_checksum: data[32],
                reserved,
            },
        )
    }

    /// Address of the root table: the extended one from revision 2 on.
    pub fn root_table(&self) -> (address: u64)
        ensures
            address == if self.revision >= 2 {
                self.xsdt_addr
            } else {
                self.rsdt_addr as u64
            },
    {
        if self.revision >= 2 {
            self.xsdt_addr
        } else {
            self.rsdt_addr as u64
        }
    }

    /// Bytes of one entry of the root table: eight from revision 2 on,
    /// else four.
    pub fn entry_size(&self) -> (size: usize)
        ensures
            size == if self.revision >= 2 {
                8usize
            } else {
                4usize
            },
    {
        if self.revision >= 2 {
            8
        } else {
            4
        }
    }
}

/// Number of entries of a root table of `length` bytes with entries of
/// `entry_size` bytes.
pub fn entry_count(length: u32, entry_size: usize) -> (count: usize)
    requires
        length >= HEADER_LEN,
        entry_size == 4 || entry_size == 8,
    ensures
        count == (length - HEADER_LEN) / (entry_size as int),
{
    (length as usize - HEADER_LEN) / entry_size
}

/// Address of the table that entry `index` of the root table `table`
/// points to.
pub fn table_address(table: &[u8], index: usize, entry_size: usize) -> (address: u64)
    requires
        entry_size == 4 || entry_size == 8,
        HEADER_LEN + (index + 1) * entry_size <= table.len(),
    ensures
        address == if entry_size == 8 {
            stored64(table@, HEADER_LEN + index * 8)
        } else {
            stored32(table@, HEADER_LEN + index * 4) as u64
        },
{
    if entry_size == 8 {
        read64(table, HEADER_LEN + index * 8)
    } else {
        read32(table, HEADER_LEN + index * 4) as u64
    }
}

/// The pages that hold the `size` bytes from physical address `phys` on,
/// and the byte behind: the first page's address and the address behind
/// the last.
pub fn map_region(phys: u64, size: u64) -> (r: (u64, u64))
    requires
        phys + size + 0xFFF <= u64::MAX,
    ensures
        r.0 == phys & !0xFFFu64,
        r.1 == ((phys + size + 0xFFF) as u64) & !0xFFFu64,
        r.0 % 4096 == 0,
        r.1 % 4096 == 0,
        r.0 <= phys,
        phys + size < r.1 || r.1 == phys + size,
{
    let start_page = phys & !0xFFF;
    let total = phys + size + 0xFFF;
    let end_page = total & !0xFFF;
    proof {
        assert(phys & !0xFFFu64 <= phys) by (bit_vector);
        assert((phys & !0xFFFu64) % 4096 == 0) by (bit_vector);
        assert((total & !0xFFFu64) % 4096 == 0) by (bit_vector);
        assert(total - 0xFFF <= (total & !0xFFFu64)) by (bit_vector)
            requires
                total >= 0xFFF,
        ;
    }
    (start_page, end_page)
}

impl Fadt {
    /// Reads the fixed description table from the start of `data`.
    pub fn parse(data: &[u8]) -> (r: Option<Fadt>)
        ensures
            r is Some <==> data.len() >= FADT_LEN,
            r matches Some(fadt) ==> fadt.header.matches(data@) && fadt.firmware_ctrl == stored32(
                data@,
                36,
            ) && fadt.dsdt == stored32(data@, 40) && fadt.sci_interrupt == stored16(data@, 46)
                && fadt.smi_command_port == stored32(data@, 48) && fadt.acpi_enable == data@[52]
                && fadt.acpi_disable == data@[53] && fadt.pm1a_control_block == stored32(data@, 64)
                && fadt.pm1b_control_block == stored32(data@, 68) && fadt.century == data@[108]
                && fadt.flags == stored32(data@, 112),
    {
        if data.len() < FADT_LEN {
            return None;
        }
        let header = match AcpiHeader::parse(data) {
            Some(header) => header,
            None => {
                return None;
            },
        };
        Some(
            Fadt {
                header,
                firmware_ctrl: read32(data, 36),
                dsdt: read32(data, 40),
                reserved: data[44],
                preferred_pm_profile: data[45],
                sci_interrupt: read16(data, 46),
                smi_command_port: read32(data, 48),
                acpi_enable: data[52],
                acpi_disable: data[53],
                s4bios_req: data[54],
                pstate_control: data[55],
                pm1a_event_block: read32(data, 56),
                pm1b_event_block: read32(data, 60),
                pm1a_control_block: read32(data, 64),
                pm1b_control_block: read32(data, 68),
                pm2_control_block: read32(data, 72),
                pm_timer_block: read32(data, 76),
                gpe0_block: read32(data, 80),
                gpe1_block: read32(data, 84),
                pm1_event_length: data[88],
                pm1_control_length: data[89],
                pm2_control_length: data[90],
                pm_timer_length: data[91],
                gpe0_length: data[92],
                gpe1_length: data[93],
                gpe1_base: data[94],
                cstate_control: data[95],
                worst_c2_latency: read16(data, 96),
                worst_c3_latency: read16(data, 98),
                flush_size: read16(data, 100),
                flush_stride: read16(data, 102),
                duty_offset: data[104],
                duty_width: data[105],
                day_alarm: data[106],
                month_alarm: data[107],
                century: data[108],
                boot_architecture_flags: read16(data, 109),
                reserved2: data[111],
                flags: read32(data, 112),
            },
        )
    }
}

} // verus!
