//! Loading a 64-bit ELF executable: checks on the file header, and for
//! each loadable segment the pages it needs and the bytes each page gets
//! from the file.

use vstd::prelude::*;

verus! {

/// Bytes of the file header.
pub const HEADER_LEN: usize = 64;

/// Bytes of a program header.
pub const PROGRAM_HEADER_LEN: usize = 56;

/// Type of a segment that is loaded.
pub const PT_LOAD: u32 = 1;

/// Bytes of a page.
pub const PAGE_SIZE: u64 = 4096;

/// Class of a 64-bit file.
pub const CLASS_64: u8 = 2;

/// Type of an executable file.
pub const TYPE_EXEC: u16 = 2;

/// Type of a position-independent file.
pub const TYPE_DYN: u16 = 3;

/// Budget of the task a loaded program runs in.
pub const USER_TASK_BUDGET: u64 = 1_000_000;

/// What of the file header the loader reads.
#[derive(Debug, Clone, Copy, PartialEq, Eq, Structural)]
pub struct ElfHeader {
    pub class: u8,
    pub e_type: u16,
    pub entry_point: u64,
    /// Offset of the program headers in the file.
    pub phoff: u64,
    /// Bytes from one program header to the next.
    pub phentsize: u16,
    /// Number of program headers.
    pub phnum: u16,
}

/// A program header.
#[derive(Debug, Clone, Copy, PartialEq, Eq, Structural)]
pub struct ProgramHeader {
    pub p_type: u32,
    pub p_flags: u32,
    pub p_offset: u64,
    pub p_vaddr: u64,
    pub p_paddr: u64,
    pub p_filesz: u64,
    pub p_memsz: u64,
    pub p_align: u64,
}

/// Why a file is not loaded.
#[derive(Debug, Clone, Copy, PartialEq, Eq, Structural)]
pub enum ElfError {
    /// The file does not start with the ELF mark.
    InvalidMagic,
    /// The file is not a 64-bit file.
    Not64Bit,
    /// The file is neither an executable nor position independent.
    NotExecutable,
    /// A program header lies beyond the end of the file.
    HeaderOutOfBounds,
}

/// Bytes to copy from the file into one page.
#[derive(Debug, Clone, Copy, PartialEq, Eq, Structural)]
pub struct PageCopy {
    /// Offset of the first byte in the file.
    pub src_offset: usize,
    /// Offset in the page where the first byte goes.
    pub dst_offset: usize,
    pub len: usize,
}

pub open spec fn stored16(data: Seq<u8>, offset: int) -> u16 {
    (data[offset] as u16) | ((data[offset + 1] as u16) << 8)
}

pub open spec fn stored32(data: Seq<u8>, offset: int) -> u32 {
    (data[offset] as u32) | ((data[offset + 1] as u32) << 8) | ((data[offset + 2] as u32) << 16) | (
    (data[offset + 3] as u32) << 24)
}

pub open spec fn stored64(data: Seq<u8>, offset: int) -> u64 {
    (stored32(data, offset) as u64) | ((stored32(data, offset + 4) as u64) << 32)
}

fn read16(data: &[u8], offset: usize) -> (r: u16)
    requires
        offset + 2 <= data.len(),
    ensures
        r == stored16(data@, offset as int),
{
    (data[offset] as u16) | ((data[offset + 1] as u16) << 8)
}

fn read32(data: &[u8], offset: usize) -> (r: u32)
    requires
        offset + 4 <= data.len(),
    ensures
        r == stored32(data@, offset as int),
{
    (data[offset] as u32) | ((data[offset + 1] as u32) << 8) | ((data[offset + 2] as u32) << 16) | (
    (data[offset + 3] as u32) << 24)
}

fn read64(data: &[u8], offset: usize) -> (r: u64)
    requires
        offset + 8 <= data.len(),
    ensures
        r == stored64(data@, offset as int),
{
    (read32(data, offset) as u64) | ((read32(data, offset + 4) as u64) << 32)
}

/// The file starts with the ELF mark.
pub open spec fn has_magic(data: Seq<u8>) -> bool {
    data[0] == 0x7f && data[1] == 0x45 && data[2] == 0x4c && data[3] == 0x46
}

/// What the check of a file header gives.
pub open spec fn checked_header(data: Seq<u8>) -> Result<ElfHeader, ElfError> {
    if data.len() < HEADER_LEN || !has_magic(data) {
        Err(ElfError::InvalidMagic)
    } else if data[4] != CLASS_64 {
        Err(ElfError::Not64Bit)
    } else if stored16(data, 16) != TYPE_EXEC && stored16(data, 16) != TYPE_DYN {
        Err(ElfError::NotExecutable)
    } else {
        Ok(
            ElfHeader {
                class: data[4],
                e_type: stored16(data, 16),
                entry_point: stored64(data, 24),
                phoff: stored64(data, 32),
                phentsize: stored16(data, 54),
                phnum: stored16(data, 56),
            },
        )
    }
}

/// The program header that stands at `offset`.
pub open spec fn program_header_at(data: Seq<u8>, offset: int) -> ProgramHeader {
    ProgramHeader {
        p_type: stored32(data, offset),
        p_flags: stored32(data, offset + 4),
        p_offset: stored64(data, offset + 8),
        p_vaddr: stored64(data, offset + 16),
        p_paddr: stored64(data, offset + 24),
        p_filesz: stored64(data, offset + 32),
        p_memsz: stored64(data, offset + 40),
        p_align: stored64(data, offset + 48),
    }
}

impl ElfHeader {
    /// Offset of program header `index` in the file.
    pub open spec fn header_offset(self, index: int) -> int {
        self.phoff + index * self.phentsize
    }

    /// Checks the file header: the mark, the class and the type. A file
    /// shorter than a header fails like one without the mark.
    pub fn parse(data: &[u8]) -> (r: Result<ElfHeader, ElfError>)
        ensures
            r == checked_header(data@),
    {
        if data.len() < HEADER_LEN {
            return Err(ElfError::InvalidMagic);
        }
        if !(data[0] == 0x7f && data[1] == 0x45 && data[2] == 0x4c && data[3] == 0x46) {
            return Err(ElfError::InvalidMagic);
        }
        let class = data[4];
        if class != CLASS_64 {
            return Err(ElfError::Not64Bit);
        }
        let e_type = read16(data, 16);
        if e_type != TYPE_EXEC && e_type != TYPE_DYN {
            return Err(ElfError::NotExecutable);
        }
        Ok(
            ElfHeader {
                class,
                e_type,
                entry_point: read64(data, 24),
                phoff: read64(data, 32),
                phentsize: read16(data, 54),
                phnum: read16(data, 56),
            },
        )
    }

    /// Reads program header `index`; fails where it does not lie within
    /// the file.
    pub fn program_header(&self, data: &[u8], index: usize) -> (r: Result<ProgramHeader, ElfError>)
        requires
            index < self.phnum,
        ensures
            match r {
                Ok(ph) => self.header_offset(index as int) + PROGRAM_HEADER_LEN <= data.len() && ph
                    == program_header_at(data@, self.header_offset(index as int)),
                Err(e) => e == ElfError::HeaderOutOfBounds && self.header_offset(index as int)
                    + PROGRAM_HEADER_LEN > data.len(),
            },
    {
        proof {
            assert(0 <= index * self.phentsize <= 0xFFFF * 0xFFFF) by (nonlinear_arith)
                requires
                    0 <= index <= 0xFFFF,
                    0 <= self.phentsize <= 0xFFFF,
            ;
        }
        let step: u64 = (index as u64) * (self.phentsize as u64);
        let len = data.len() as u64;
        if len < PROGRAM_HEADER_LEN as u64 || self.phoff > len - PROGRAM_HEADER_LEN as u64 || step
            > len - PROGRAM_HEADER_LEN as u64 - self.phoff {
            return Err(ElfError::HeaderOutOfBounds);
        }
        let offset = (self.phoff + step) as usize;
        Ok(
            ProgramHeader {
                p_type: read32(data, offset),
                p_flags: read32(data, offset + 4),
                p_offset: read64(data, offset + 8),
                p_vaddr: read64(data, offset + 16),
                p_paddr: read64(data, offset + 24),
                p_filesz: read64(data, offset + 32),
                p_memsz: read64(data, offset + 40),
                p_align: read64(data, offset + 48),
            },
        )
    }
}

/// The smaller of two numbers.
pub open spec fn least(a: int, b: int) -> int {
    if a < b {
        a
    } else {
        b
    }
}

/// The larger of two numbers.
pub open spec fn most(a: int, b: int) -> int {
    if a > b {
        a
    } else {
        b
    }
}

impl ProgramHeader {
    /// The segment is loaded: it is of the loadable type and takes
    /// memory.
    pub open spec fn is_loaded(self) -> bool {
        self.p_type == PT_LOAD && self.p_memsz != 0
    }

    /// Address of the first page of the segment.
    pub open spec fn first_page(self) -> u64 {
        self.p_vaddr & !0xFFFu64
    }

    /// Address behind the last page of the segment.
    pub open spec fn end_page(self) -> u64 {
        ((self.p_vaddr + self.p_memsz + 0xFFF) as u64) & !0xFFFu64
    }

    /// The segment's addresses are addresses.
    pub open spec fn fits(self) -> bool {
        self.p_vaddr + self.p_memsz + 0xFFF <= u64::MAX && self.p_vaddr + self.p_filesz
            <= u64::MAX
    }

    /// Tells whether the segment is loaded.
    pub fn loads(&self) -> (r: bool)
        ensures
            r == self.is_loaded(),
    {
        self.p_type == PT_LOAD && self.p_memsz != 0
    }

    /// The pages to map for the segment: the address of the first and
    /// their number.
    pub fn pages(&self) -> (r: (u64, u64))
        requires
            self.fits(),
        ensures
            r.0 == self.first_page(),
            r.1 == (self.end_page() - self.first_page()) / 4096,
            r.0 <= self.end_page(),
    {
        let start_vaddr = self.p_vaddr;
        let end_vaddr = start_vaddr + self.p_memsz;
        let start_page = start_vaddr & !0xFFF;
        let padded = end_vaddr + 0xFFF;
        let end_page = padded & !0xFFF;
        proof {
            assert(start_vaddr & !0xFFFu64 <= start_vaddr) by (bit_vector);
            assert(padded - 0xFFF <= (padded & !0xFFFu64)) by (bit_vector)
                requires
                    padded >= 0xFFF,
            ;
        }
        (start_page, (end_page - start_page) / 4096)
    }

    /// The bytes of the file that belong into the page at `vaddr`: the
    /// part of the segment's file data that lies in the page, as far as
    /// the file of `data_len` bytes holds all of it. `None` where no byte
    /// of the file belongs there.
    pub fn page_copy(&self, vaddr: u64, data_len: usize) -> (r: Option<PageCopy>)
        requires
            self.fits(),
            vaddr + 4096 <= u64::MAX,
        ensures
            match r {
                Some(copy) => {
                    &&& most(vaddr as int, self.p_vaddr as int) < least(
                        vaddr + 4096,
                        self.p_vaddr + self.p_filesz,
                    )
                    &&& copy.len == least(vaddr + 4096, self.p_vaddr + self.p_filesz) - most(
                        vaddr as int,
                        self.p_vaddr as int,
                    )
                    &&& copy.src_offset == self.p_offset + most(vaddr as int, self.p_vaddr as int)
                        - self.p_vaddr
                    &&& copy.dst_offset == most(vaddr as int, self.p_vaddr as int) - vaddr
                    &&& copy.src_offset + copy.len <= data_len
                    &&& copy.dst_offset + copy.len <= 4096
                },
                None => most(vaddr as int, self.p_vaddr as int) >= least(
                    vaddr + 4096,
                    self.p_vaddr + self.p_filesz,
                ) || self.p_offset + least(vaddr + 4096, self.p_vaddr + self.p_filesz)
                    - self.p_vaddr > data_len,
            },
    {
        let page_end = vaddr + 4096;
        let seg_data_start = self.p_vaddr;
        let seg_data_end = self.p_vaddr + self.p_filesz;
        let copy_start = if vaddr > seg_data_start {
            vaddr
        } else {
            seg_data_start
        };
        let copy_end = if page_end < seg_data_end {
            page_end
        } else {
            seg_data_end
        };
        if copy_start < copy_end {
            let copy_len = copy_end - copy_start;
            let within = copy_start - self.p_vaddr;
            let len = data_len as u64;
            if copy_len <= len && within <= len - copy_len && self.p_offset <= len - copy_len
                - within {
                return Some(
                    PageCopy {
                        src_offset: (self.p_offset + within) as usize,
                        dst_offset: (copy_start - vaddr) as usize,
                        len: copy_len as usize,
                    },
                );
            }
        }
        None
    }
}

/// Where user programs are loaded.
pub const USER_LOAD_BASE: u64 = 0x400_000;

/// Where the stack page of a user program is mapped.
pub const USER_STACK_BASE: u64 = 0x800_000;

/// Offset of the entry address in the header of a program.
pub const ENTRY_OFFSET: usize = 24;

/// The address at which a program loaded at `base` is entered, given the
/// entry address its header holds: the address itself where it lies at
/// or above the base, else the address counted from where the file
/// starts, `offset` bytes above the base.
pub open spec fn target_of(raw: u64, base: u64, offset: u64) -> int {
    if raw >= base {
        raw as int
    } else {
        base + offset + raw
    }
}

/// The address at which to enter a program loaded at `base`.
pub fn entry_target(raw: u64, base: u64, offset: u64) -> (target: u64)
    requires
        target_of(raw, base, offset) <= u64::MAX,
    ensures
        target == target_of(raw, base, offset),
{
    if raw >= base {
        raw
    } else {
        base + offset + raw
    }
}

/// The entry address that the header of the program `data` holds, eight
/// bytes from [`ENTRY_OFFSET`] on, least significant first; `None` where
/// the data is too short.
pub fn raw_entry(data: &[u8]) -> (r: Option<u64>)
    ensures
        r == if data@.len() >= ENTRY_OFFSET + 8 {
            Some(stored64(data@, ENTRY_OFFSET as int))
        } else {
            None::<u64>
        },
{
    if data.len() >= ENTRY_OFFSET + 8 {
        Some(read64(data, ENTRY_OFFSET))
    } else {
        None
    }
}

} // verus!
