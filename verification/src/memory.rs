//! Physical frames and page-table entries.
//!
//! A virtual address is translated through four tables of 512 entries
//! each. An entry holds the physical address of the next table, or of the
//! page, and flags in its low bits.

use vstd::prelude::*;

verus! {

/// Bytes of a frame.
pub const FRAME_SIZE: u64 = 4096;

/// Lowest address a frame is handed out at.
pub const LOWEST_FRAME: u64 = 0x100_000;

/// Flag: the entry is in use.
pub const PRESENT: u64 = 1;

/// Flag: the page may be written.
pub const WRITABLE: u64 = 2;

/// Flag: user code may access the page.
pub const USER_ACCESSIBLE: u64 = 4;

/// The bits of an entry that hold an address.
pub const ADDRESS_MASK: u64 = 0x000f_ffff_ffff_f000;

/// A region of the memory map.
#[derive(Debug, Clone, Copy, PartialEq, Eq, Structural)]
pub struct MemoryRegion {
    pub base: u64,
    pub length: u64,
    /// The region is free for use.
    pub usable: bool,
}

/// Hands out the frames of the usable regions, one after the other.
pub struct BootFrameAllocator {
    memmap: Vec<MemoryRegion>,
    next_free_frame: usize,
}

impl MemoryRegion {
    /// Frames are taken from the region: it is usable and does not start
    /// below the first mebibyte.
    pub open spec fn serves(self) -> bool {
        self.usable && self.base >= LOWEST_FRAME
    }

    /// Number of frames the region gives: one for every step of 4096
    /// bytes through its length.
    pub open spec fn frame_count(self) -> int {
        if self.serves() {
            (self.length + 4095) / 4096
        } else {
            0
        }
    }

    /// Frame number `n` of the region: the frame that holds the byte `n`
    /// steps of 4096 bytes behind the region's base.
    pub open spec fn frame(self, n: int) -> u64 {
        ((self.base + n * 4096) as u64) & !0xFFFu64
    }

    /// The region ends below the end of the address space.
    pub open spec fn fits(self) -> bool {
        self.base + self.length <= u64::MAX
    }
}

/// Frame number `n` among the frames of the regions from region `from`
/// on.
pub open spec fn nth_frame(regions: Seq<MemoryRegion>, from: int, n: int) -> Option<u64>
    decreases regions.len() - from,
{
    if from < 0 || from >= regions.len() || n < 0 {
        None
    } else if n < regions[from].frame_count() {
        Some(regions[from].frame(n))
    } else {
        nth_frame(regions, from + 1, n - regions[from].frame_count())
    }
}

impl BootFrameAllocator {
    /// The regions frames are taken from.
    pub closed spec fn regions(&self) -> Seq<MemoryRegion> {
        self.memmap@
    }

    /// Number of frames handed out or asked for in vain.
    pub closed spec fn handed_out(&self) -> usize {
        self.next_free_frame
    }

    /// An allocator over the memory map that has handed out nothing.
    pub fn new(memmap: Vec<MemoryRegion>) -> (r: BootFrameAllocator)
        ensures
            r.regions() == memmap@,
            r.handed_out() == 0,
    {
        BootFrameAllocator { memmap, next_free_frame: 0 }
    }

    /// The next frame that has not been handed out; `None` when the
    /// usable regions are used up.
    pub fn allocate_frame(&mut self) -> (frame: Option<u64>)
        requires
            old(self).handed_out() < usize::MAX,
            forall|i: int| 0 <= i < old(self).regions().len() ==> (#[trigger] old(
                self,
            ).regions()[i]).fits(),
        ensures
            frame == nth_frame(old(self).regions(), 0, old(self).handed_out() as int),
            final(self).regions() == old(self).regions(),
            final(self).handed_out() == old(self).handed_out() + 1,
    {
        let mut n: u64 = self.next_free_frame as u64;
        self.next_free_frame += 1;
        let mut i: usize = 0;
        while i < self.memmap.len()
            invariant
                i <= self.memmap.len(),
                self.memmap@ == old(self).memmap@,
                self.next_free_frame == old(self).next_free_frame + 1,
                forall|k: int| 0 <= k < self.memmap@.len() ==> (#[trigger] self.memmap@[k]).fits(),
                nth_frame(old(self).memmap@, 0, old(self).next_free_frame as int) == nth_frame(
                    self.memmap@,
                    i as int,
                    n as int,
                ),
            decreases self.memmap.len() - i,
        {
            let region = self.memmap[i];
            if region.usable && region.base >= LOWEST_FRAME {
                let count = region.length / 4096 + if region.length % 4096 == 0 {
                    0
                } else {
                    1
                };
                proof {
                    assert(count == (region.length + 4095) / 4096);
                    assert(region.fits());
                }
                if n < count {
                    proof {
                        assert(n * 4096 < region.length) by (nonlinear_arith)
                            requires
                                n < count,
                                count == (region.length + 4095) / 4096,
                        ;
                    }
                    return Some((region.base + n * 4096) & !0xFFF);
                }
                n = n - count;
            }
            i = i + 1;
        }
        None
    }
}

/// The four table indices of a virtual address, from the top table down.
pub open spec fn table_index(virt: u64, level: int) -> u64 {
    if level == 4 {
        (virt >> 39) & 0x1FF
    } else if level == 3 {
        (virt >> 30) & 0x1FF
    } else if level == 2 {
        (virt >> 21) & 0x1FF
    } else {
        (virt >> 12) & 0x1FF
    }
}

/// The address is canonical: its upper seventeen bits are all equal.
pub open spec fn is_canonical(virt: u64) -> bool {
    virt >> 47 == 0 || virt >> 47 == 0x1FFFF
}

/// Tells whether an address is canonical.
pub fn canonical(virt: u64) -> (r: bool)
    ensures
        r == is_canonical(virt),
{
    virt >> 47 == 0 || virt >> 47 == 0x1FFFF
}

/// The indices at which a virtual address is looked up in the four
/// tables, the top table first.
pub fn table_indices(virt: u64) -> (r: [usize; 4])
    ensures
        r[0] == table_index(virt, 4),
        r[1] == table_index(virt, 3),
        r[2] == table_index(virt, 2),
        r[3] == table_index(virt, 1),
        forall|i: int| 0 <= i < 4 ==> r[i] < 512,
{
    proof {
        assert((virt >> 39) & 0x1FF < 512) by (bit_vector);
        assert((virt >> 30) & 0x1FF < 512) by (bit_vector);
        assert((virt >> 21) & 0x1FF < 512) by (bit_vector);
        assert((virt >> 12) & 0x1FF < 512) by (bit_vector);
    }
    [
        ((virt >> 39) & 0x1FF) as usize,
        ((virt >> 30) & 0x1FF) as usize,
        ((virt >> 21) & 0x1FF) as usize,
        ((virt >> 12) & 0x1FF) as usize,
    ]
}

/// The flags of a mapping: present and writable, and open to user code
/// where `user` is set.
pub open spec fn mapping_flags(user: bool) -> u64 {
    if user {
        PRESENT | WRITABLE | USER_ACCESSIBLE
    } else {
        PRESENT | WRITABLE
    }
}

/// The entry that maps the frame at `frame` with the flags of a mapping.
pub fn new_entry(frame: u64, user: bool) -> (entry: u64)
    requires
        frame & !ADDRESS_MASK == 0,
    ensures
        entry == frame | mapping_flags(user),
        entry & ADDRESS_MASK == frame,
        entry != 0,
{
    let flags = if user {
        PRESENT | WRITABLE | USER_ACCESSIBLE
    } else {
        PRESENT | WRITABLE
    };
    proof {
        assert((frame | 7) & 0x000f_ffff_ffff_f000 == frame && (frame | 3) & 0x000f_ffff_ffff_f000
            == frame && (frame | 7) != 0 && (frame | 3) != 0 && (1u64 | 2 | 4) == 7 && (1u64 | 2)
            == 3) by (bit_vector)
            requires
                frame & !0x000f_ffff_ffff_f000u64 == 0,
        ;
    }
    frame | flags
}

/// What to do at an entry on the way down to a page.
#[derive(Debug, Clone, Copy, PartialEq, Eq, Structural)]
pub enum Walk {
    /// The entry is unused: a fresh, zeroed table has to be put there.
    NeedsTable,
    /// The entry leads on: store `entry` in its place and go on in the
    /// table at `table`.
    Descend { entry: u64, table: u64 },
}

/// What a walk does at `entry`: an unused entry needs a table; an entry
/// in use leads to its table, after being opened to user code and to
/// writing where the mapping is for user code.
pub open spec fn walked(entry: u64, user: bool) -> Walk {
    if entry == 0 {
        Walk::NeedsTable
    } else if user {
        Walk::Descend {
            entry: entry | USER_ACCESSIBLE | WRITABLE,
            table: entry & ADDRESS_MASK,
        }
    } else {
        Walk::Descend { entry, table: entry & ADDRESS_MASK }
    }
}

/// Decides what to do at an entry of one of the three upper tables.
pub fn walk_entry(entry: u64, user: bool) -> (r: Walk)
    ensures
        r == walked(entry, user),
{
    if entry == 0 {
        Walk::NeedsTable
    } else if user {
        Walk::Descend {
            entry: entry | USER_ACCESSIBLE | WRITABLE,
            table: entry & ADDRESS_MASK,
        }
    } else {
        Walk::Descend { entry, table: entry & ADDRESS_MASK }
    }
}

} // verus!
