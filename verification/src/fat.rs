//! Reading a FAT32 volume: the boot sector, the chain of clusters of a
//! file, and the entries of the root directory.

use vstd::prelude::*;
use crate::ata::AtaDrive;
use crate::strings::{chars_of, push_char, string_from_utf8, string_of};
use crate::text::{is_space, is_whitespace, leading_from, trailing_to, trimmed};

verus! {

/// Bytes of the boot sector that are read.
pub const BOOT_RECORD_LEN: usize = 90;

/// First value that marks the end of a chain of clusters.
pub const END_OF_CHAIN: u32 = 0x0FFFFFF8;

/// First byte of the entry that ends a directory.
pub const ENTRY_END: u8 = 0x00;

/// First byte of a deleted entry.
pub const ENTRY_DELETED: u8 = 0xE5;

/// Attribute of an entry that holds part of a long name.
pub const ATTR_LONG_NAME: u8 = 0x0F;

/// A mounted volume.
pub struct Fat32 {
    drive: AtaDrive,
    partition_offset: u32,
    data_start: u32,
    sectors_per_cluster: u32,
    root_cluster: u32,
    fat_start: u32,
}

/// The numbers that describe a volume.
pub struct Geometry {
    pub partition_offset: u32,
    /// First sector of the data area.
    pub data_start: u32,
    pub sectors_per_cluster: u32,
    pub root_cluster: u32,
    /// First sector of the file allocation table.
    pub fat_start: u32,
}

impl View for Fat32 {
    type V = Geometry;

    closed spec fn view(&self) -> Geometry {
        Geometry {
            partition_offset: self.partition_offset,
            data_start: self.data_start,
            sectors_per_cluster: self.sectors_per_cluster,
            root_cluster: self.root_cluster,
            fat_start: self.fat_start,
        }
    }
}

/// Why a volume cannot be mounted.
#[derive(Debug, Clone, Copy, PartialEq, Eq, Structural)]
pub enum MountError {
    /// The boot sector is shorter than its record.
    NoBootSector,
    /// The sectors are not 512 bytes long but as many as given.
    SectorSize(u16),
    /// The tables end beyond the last 32-bit sector number.
    TooLarge,
}

/// The 16-bit number stored at `offset`, least significant byte first.
pub open spec fn stored16(data: Seq<u8>, offset: int) -> u16 {
    (data[offset] as u16) | ((data[offset + 1] as u16) << 8)
}

/// The 32-bit number stored at `offset`, least significant byte first.
pub open spec fn stored32(data: Seq<u8>, offset: int) -> u32 {
    (data[offset] as u32) | ((data[offset + 1] as u32) << 8) | ((data[offset + 2] as u32) << 16) | (
    (data[offset + 3] as u32) << 24)
}

/// Sectors all file allocation tables take together.
pub open spec fn fat_area(sector0: Seq<u8>) -> int {
    sector0[16] * stored32(sector0, 36)
}

/// What mounting the volume with boot sector `sector0` gives.
pub open spec fn mounted(sector0: Seq<u8>) -> Result<Geometry, MountError> {
    if sector0.len() < BOOT_RECORD_LEN {
        Err(MountError::NoBootSector)
    } else if stored16(sector0, 11) != 512 {
        Err(MountError::SectorSize(stored16(sector0, 11)))
    } else if stored16(sector0, 14) + fat_area(sector0) > u32::MAX {
        Err(MountError::TooLarge)
    } else {
        Ok(
            Geometry {
                partition_offset: 0,
                data_start: (stored16(sector0, 14) + fat_area(sector0)) as u32,
                sectors_per_cluster: sector0[13] as u32,
                root_cluster: stored32(sector0, 44),
                fat_start: stored16(sector0, 14) as u32,
            },
        )
    }
}

/// The view of a mount's result.
pub open spec fn mount_view(r: Result<Fat32, MountError>) -> Result<Geometry, MountError> {
    match r {
        Ok(volume) => Ok(volume@),
        Err(e) => Err(e),
    }
}

fn read16(data: &[u8], offset: usize) -> (r: u16)
    requires
        offset + 2 <= data.len(),
    ensures
        r == stored16(data@, offset as int),
{
    (data[offset] as u16) | ((data[offset + 1] as u16) << 8)
}

fn read32(data: &[u8], offset: usize) -> (r: u32)
    requires
        offset + 4 <= data.len(),
    ensures
        r == stored32(data@, offset as int),
{
    (data[offset] as u32) | ((data[offset + 1] as u32) << 8) | ((data[offset + 2] as u32) << 16) | (
    (data[offset + 3] as u32) << 24)
}

/// One part of a short name as text: the bytes decoded and trimmed, or
/// nothing where they are no valid UTF-8.
pub open spec fn name_part(bytes: Seq<u8>) -> Seq<char> {
    if vstd::utf8::valid_utf8(bytes) {
        trimmed(vstd::utf8::decode_utf8(bytes))
    } else {
        Seq::empty()
    }
}

/// A short name as text: the name and, where there is one, a dot and the
/// extension.
pub open spec fn formatted_name(raw: Seq<u8>) -> Seq<char> {
    if name_part(raw.subrange(8, 11)).len() == 0 {
        name_part(raw.subrange(0, 8))
    } else {
        name_part(raw.subrange(0, 8)) + seq!['.'] + name_part(raw.subrange(8, 11))
    }
}

/// The bytes `data[from..to]` as trimmed text.
fn part_text(data: &[u8], from: usize, to: usize) -> (r: String)
    requires
        from <= to <= data.len(),
    ensures
        r@ == name_part(data@.subrange(from as int, to as int)),
{
    let mut bytes: Vec<u8> = Vec::new();
    let mut i = from;
    while i < to
        invariant
            from <= i <= to <= data.len(),
            bytes@ == data@.subrange(from as int, i as int),
        decreases to - i,
    {
        bytes.push(data[i]);
        i = i + 1;
        proof {
            assert(bytes@ =~= data@.subrange(from as int, i as int));
        }
    }
    match string_from_utf8(bytes) {
        Some(text) => {
            proof {
                vstd::utf8::encode_utf8_decode_utf8(text@);
            }
            let chars = chars_of(text.as_str());
            let mut start: usize = 0;
            while start < chars.len() && is_whitespace(chars[start])
                invariant
                    start <= chars.len(),
                    leading_from(chars@, 0) == leading_from(chars@, start as int),
                decreases chars.len() - start,
            {
                start = start + 1;
            }
            if start >= chars.len() {
                return String::new();
            }
            let mut end: usize = chars.len();
            while end > 0 && is_whitespace(chars[end - 1])
                invariant
                    end <= chars.len(),
                    start < chars.len(),
                    start == leading_from(chars@, 0),
                    !is_space(chars@[start as int]),
                    trailing_to(chars@, chars.len() as int) == trailing_to(chars@, end as int),
                    end > start,
                decreases end,
            {
                end = end - 1;
            }
            string_of(&chars, start, end)
        },
        None => String::new(),
    }
}

/// The lower-case form of an ASCII capital; any other character itself.
pub open spec fn lowered(c: char) -> char {
    if 'A' <= c <= 'Z' {
        ((c as u32) + 32) as char
    } else {
        c
    }
}

/// Two texts are equal up to the case of their ASCII letters.
pub open spec fn same_ignoring_case(a: Seq<char>, b: Seq<char>) -> bool {
    a.len() == b.len() && forall|i: int| 0 <= i < a.len() ==> lowered(a[i]) == lowered(b[i])
}

fn lower(c: char) -> (r: char)
    ensures
        r == lowered(c),
{
    if 'A' <= c && c <= 'Z' {
        (((c as u8) + 32) as char)
    } else {
        c
    }
}

/// Tells whether two texts are equal up to the case of their ASCII
/// letters.
pub fn eq_ignore_ascii_case(a: &str, b: &str) -> (r: bool)
    ensures
        r == same_ignoring_case(a@, b@),
{
    let x = chars_of(a);
    let y = chars_of(b);
    if x.len() != y.len() {
        return false;
    }
    let mut i: usize = 0;
    while i < x.len()
        invariant
            i <= x.len(),
            x.len() == y.len(),
            x@ == a@,
            y@ == b@,
            forall|k: int| 0 <= k < i ==> lowered(x@[k]) == lowered(y@[k]),
        decreases x.len() - i,
    {
        if lower(x[i]) != lower(y[i]) {
            return false;
        }
        i = i + 1;
    }
    true
}

/// Cluster and size that the entry at `offset` of a directory names.
pub open spec fn entry_target(dir: Seq<u8>, offset: int) -> (u32, usize) {
    (
        ((stored16(dir, offset + 20) as u32) << 16) | (stored16(dir, offset + 26) as u32),
        stored32(dir, offset + 28) as usize,
    )
}

/// First cluster and size of the file called `filename`, looking at the
/// entries from number `index` on: entries are looked at until the
/// directory or its data ends; deleted entries and parts of long names
/// are passed over; names are compared without regard to case.
pub open spec fn found_from(dir: Seq<u8>, filename: Seq<char>, index: int) -> Option<(u32, usize)>
    decreases dir.len() - index * 32,
{
    if index < 0 || index * 32 + 32 > dir.len() {
        None
    } else if dir[index * 32] == ENTRY_END {
        None
    } else if dir[index * 32] == ENTRY_DELETED || dir[index * 32 + 11] == ATTR_LONG_NAME {
        found_from(dir, filename, index + 1)
    } else if same_ignoring_case(
        formatted_name(dir.subrange(index * 32, index * 32 + 11)),
        filename,
    ) {
        Some(entry_target(dir, index * 32))
    } else {
        found_from(dir, filename, index + 1)
    }
}

/// One entry of a directory as it stands on disk.
pub struct RawEntry {
    /// Number of the entry in the directory.
    pub index: usize,
    pub first_byte: u8,
    pub attr: u8,
    /// The eleven bytes of the name as text; `None` where they are no
    /// valid UTF-8.
    pub name: Option<String>,
}

/// The entries of a directory up to its end.
pub struct Listing {
    pub entries: Vec<RawEntry>,
    /// Number of the entry that ends the directory, if one does.
    pub end_marker: Option<usize>,
}

/// Number of entries in front of the end of a directory, counting from
/// entry `index`.
pub open spec fn listed_until(dir: Seq<u8>, index: int) -> int
    decreases dir.len() - index * 32,
{
    if index < 0 || index * 32 + 32 > dir.len() || dir[index * 32] == ENTRY_END {
        index
    } else {
        listed_until(dir, index + 1)
    }
}

/// `entry` shows entry number `index` of the directory.
pub open spec fn shows_entry(entry: RawEntry, dir: Seq<u8>, index: int) -> bool {
    &&& entry.index == index
    &&& entry.first_byte == dir[index * 32]
    &&& entry.attr == dir[index * 32 + 11]
    &&& match entry.name {
        Some(name) => vstd::utf8::valid_utf8(dir.subrange(index * 32, index * 32 + 11)) && name@
            == vstd::utf8::decode_utf8(dir.subrange(index * 32, index * 32 + 11)),
        None => !vstd::utf8::valid_utf8(dir.subrange(index * 32, index * 32 + 11)),
    }
}

impl Geometry {
    /// First sector of a cluster of the data area.
    pub open spec fn lba_of(self, cluster: u32) -> int {
        self.partition_offset + self.data_start + (cluster - 2) * self.sectors_per_cluster
    }

    /// Sector of the file allocation table that holds the entry of a
    /// cluster.
    pub open spec fn fat_sector_of(self, cluster: u32) -> int {
        self.fat_start + (cluster * 4) / 512
    }
}

impl Fat32 {
    /// The drive the volume lies on.
    pub closed spec fn on_drive(&self) -> AtaDrive {
        self.drive
    }

    /// Mounts the volume on `drive` whose boot sector is `sector0`.
    pub fn new(drive: AtaDrive, sector0: &[u8]) -> (r: Result<Fat32, MountError>)
        ensures
            mount_view(r) == mounted(sector0@),
            r matches Ok(volume) ==> volume.on_drive() == drive,
    {
        if sector0.len() < BOOT_RECORD_LEN {
            return Err(MountError::NoBootSector);
        }
        let bytes_per_sec = read16(sector0, 11);
        let rsvd_sec = read16(sector0, 14) as u32;
        let num_fats = sector0[16] as u32;
        let fat32_size = read32(sector0, 36);
        let root_cluster = read32(sector0, 44);
        let spc = sector0[13] as u32;
        if bytes_per_sec != 512 {
            return Err(MountError::SectorSize(bytes_per_sec));
        }
        proof {
            assert(0 <= num_fats * fat32_size <= 255 * 0xFFFF_FFFF) by (nonlinear_arith)
                requires
                    0 <= num_fats <= 255,
                    0 <= fat32_size <= 0xFFFF_FFFF,
            ;
        }
        let fat_area_size: u64 = (num_fats as u64) * (fat32_size as u64);
        if fat_area_size > (u32::MAX - rsvd_sec) as u64 {
            return Err(MountError::TooLarge);
        }
        let data_start = rsvd_sec + (fat_area_size as u32);
        Ok(
            Fat32 {
                drive,
                partition_offset: 0,
                data_start,
                sectors_per_cluster: spc,
                root_cluster,
                fat_start: rsvd_sec,
            },
        )
    }

    /// The drive the volume lies on.
    pub fn drive(&self) -> (r: &AtaDrive)
        ensures
            *r == self.on_drive(),
    {
        &self.drive
    }

    /// First cluster of the root directory.
    pub fn root_cluster(&self) -> (r: u32)
        ensures
            r == self@.root_cluster,
    {
        self.root_cluster
    }

    /// Sectors in a cluster.
    pub fn sectors_per_cluster(&self) -> (r: u32)
        ensures
            r == self@.sectors_per_cluster,
    {
        self.sectors_per_cluster
    }

    /// Turns a short name as it stands in a directory, eight bytes of
    /// name and three of extension padded with blanks, into text: the
    /// name, a dot and the extension, or the name alone.
    pub fn format_name(raw: &[u8; 11]) -> (r: String)
        ensures
            r@ == formatted_name(raw@),
    {
        let mut name = part_text(raw.as_slice(), 0, 8);
        let ext = part_text(raw.as_slice(), 8, 11);
        if ext.as_str().unicode_len() == 0 {
            name
        } else {
            push_char(&mut name, '.');
            name.append(ext.as_str());
            proof {
                assert(name@ =~= formatted_name(raw@));
            }
            name
        }
    }

    /// First sector of a cluster of the data area.
    pub fn cluster_to_lba(&self, cluster: u32) -> (lba: u32)
        requires
            cluster >= 2,
            self@.lba_of(cluster) <= u32::MAX,
        ensures
            lba == self@.lba_of(cluster),
    {
        proof {
            assert(0 <= (cluster - 2) * self.sectors_per_cluster) by (nonlinear_arith)
                requires
                    cluster >= 2,
                    self.sectors_per_cluster >= 0,
            ;
        }
        self.partition_offset + self.data_start + ((cluster - 2) * self.sectors_per_cluster)
    }

    /// First sector of a cluster of the data area, where the cluster
    /// lies in the data area and the sector's number is a sector number.
    pub fn sector_of_cluster(&self, cluster: u32) -> (lba: Option<u32>)
        ensures
            lba == if cluster >= 2 && self@.lba_of(cluster) <= u32::MAX {
                Some(self@.lba_of(cluster) as u32)
            } else {
                None::<u32>
            },
    {
        if cluster < 2 {
            return None;
        }
        let base: u64 = self.partition_offset as u64 + self.data_start as u64;
        proof {
            assert(0 <= (cluster - 2) * self.sectors_per_cluster <= 0xFFFF_FFFF * 0xFFFF_FFFF)
                by (nonlinear_arith)
                requires
                    2 <= cluster <= 0xFFFF_FFFF,
                    0 <= self.sectors_per_cluster <= 0xFFFF_FFFF,
            ;
        }
        let span: u64 = (cluster - 2) as u64 * self.sectors_per_cluster as u64;
        if span <= 0xFFFF_FFFF && base + span <= 0xFFFF_FFFF {
            Some(self.cluster_to_lba(cluster))
        } else {
            None
        }
    }

    /// Where the file allocation table holds the entry of `cluster`,
    /// where the cluster can be part of a chain and the sector's number
    /// is a sector number.
    pub fn entry_of_cluster(&self, cluster: u32) -> (r: Option<(u32, usize)>)
        ensures
            r == if cluster < END_OF_CHAIN && self@.fat_sector_of(cluster) <= u32::MAX {
                Some((self@.fat_sector_of(cluster) as u32, ((cluster * 4) % 512) as usize))
            } else {
                None::<(u32, usize)>
            },
    {
        if cluster >= END_OF_CHAIN {
            return None;
        }
        let sector: u64 = self.fat_start as u64 + (cluster as u64 * 4) / 512;
        if sector <= 0xFFFF_FFFF {
            Some(self.fat_position(cluster))
        } else {
            None
        }
    }

    /// Where the file allocation table holds the entry of `cluster`: the
    /// sector and the offset within it.
    pub fn fat_position(&self, cluster: u32) -> (r: (u32, usize))
        requires
            cluster < END_OF_CHAIN,
            self@.fat_sector_of(cluster) <= u32::MAX,
        ensures
            r.0 == self@.fat_sector_of(cluster),
            r.1 == (cluster * 4) % 512,
            r.1 + 4 <= 512,
    {
        let fat_offset = cluster * 4;
        let fat_sector = self.fat_start + (fat_offset / 512);
        let sector_offset = (fat_offset % 512) as usize;
        (fat_sector, sector_offset)
    }

    /// One step of the walk along a chain of clusters: `current` joins
    /// the clusters gathered so far where it belongs to the chain. Tells
    /// whether it did; the cluster to look at next is then found with
    /// [`Fat32::fat_position`] and [`next_cluster`].
    pub fn get_clusters(&self, clusters: &mut Vec<u32>, current: u32) -> (more: bool)
        ensures
            more == in_chain(current),
            final(clusters)@ == if in_chain(current) {
                old(clusters)@.push(current)
            } else {
                old(clusters)@
            },
    {
        if current < END_OF_CHAIN && current != 0 {
            clusters.push(current);
            true
        } else {
            false
        }
    }
}

/// The cluster belongs to a chain: it is neither free nor an end mark.
pub open spec fn in_chain(cluster: u32) -> bool {
    cluster < END_OF_CHAIN && cluster != 0
}

/// The cluster that follows in the chain, from the sector of the file
/// allocation table that holds the entry and the entry's offset in it:
/// the lower 28 bits of the entry.
pub fn next_cluster(sector: &[u8], offset: usize) -> (next: u32)
    requires
        offset + 4 <= sector.len(),
    ensures
        next == stored32(sector@, offset as int) & 0x0FFFFFFF,
{
    read32(sector, offset) & 0x0FFFFFFF
}

/// Looks the file called `filename` up in the directory data `dir` and
/// gives its first cluster and its size.
pub fn find_entry(dir: &[u8], filename: &str) -> (r: Option<(u32, usize)>)
    ensures
        r == found_from(dir@, filename@, 0),
{
    let mut i: usize = 0;
    while i < dir.len() / 32
        invariant
            i <= dir.len() / 32,
            found_from(dir@, filename@, 0) == found_from(dir@, filename@, i as int),
        decreases dir.len() / 32 - i,
    {
        let offset = i * 32;
        if dir[offset] == ENTRY_END {
            return None;
        }
        if !(dir[offset] == ENTRY_DELETED || dir[offset + 11] == ATTR_LONG_NAME) {
            let raw: [u8; 11] = [
                dir[offset],
                dir[offset + 1],
                dir[offset + 2],
                dir[offset + 3],
                dir[offset + 4],
                dir[offset + 5],
                dir[offset + 6],
                dir[offset + 7],
                dir[offset + 8],
                dir[offset + 9],
                dir[offset + 10],
            ];
            proof {
                assert(raw@ =~= dir@.subrange(offset as int, offset + 11));
            }
            let name = Fat32::format_name(&raw);
            if eq_ignore_ascii_case(name.as_str(), filename) {
                let cluster = ((read16(dir, offset + 20) as u32) << 16) | (read16(
                    dir,
                    offset + 26,
                ) as u32);
                let size = read32(dir, offset + 28) as usize;
                return Some((cluster, size));
            }
        }
        i = i + 1;
    }
    None
}

/// Cuts the data read for a file down to the file's size; shorter data
/// stays as it is.
pub fn trim_to_size(raw_data: &mut Vec<u8>, size: usize)
    ensures
        final(raw_data)@ == if size < old(raw_data)@.len() {
            old(raw_data)@.take(size as int)
        } else {
            old(raw_data)@
        },
{
    if size < raw_data.len() {
        raw_data.truncate(size);
        proof {
            assert(raw_data@ =~= old(raw_data)@.take(size as int));
        }
    }
}

/// Lists the entries of the directory data `dir` as they stand on disk,
/// up to the entry that ends the directory.
pub fn list_root(dir: &[u8]) -> (r: Listing)
    ensures
        r.entries@.len() == listed_until(dir@, 0),
        forall|i: int| 0 <= i < r.entries@.len() ==> shows_entry(#[trigger] r.entries@[i], dir@, i),
        match r.end_marker {
            Some(index) => index == r.entries@.len() && index * 32 + 32 <= dir@.len() && dir@[index
                * 32] == ENTRY_END,
            None => r.entries@.len() * 32 + 32 > dir@.len(),
        },
{
    let mut entries: Vec<RawEntry> = Vec::new();
    let mut i: usize = 0;
    while i < dir.len() / 32
        invariant
            i <= dir.len() / 32,
            entries@.len() == i,
            listed_until(dir@, 0) == listed_until(dir@, i as int),
            forall|k: int| 0 <= k < i ==> shows_entry(#[trigger] entries@[k], dir@, k),
        decreases dir.len() / 32 - i,
    {
        let offset = i * 32;
        let first_byte = dir[offset];
        if first_byte == ENTRY_END {
            return Listing { entries, end_marker: Some(i) };
        }
        let mut bytes: Vec<u8> = Vec::new();
        let mut k: usize = 0;
        while k < 11
            invariant
                k <= 11,
                offset + 32 <= dir.len(),
                bytes@ == dir@.subrange(offset as int, offset + k),
            decreases 11 - k,
        {
            bytes.push(dir[offset + k]);
            k = k + 1;
            proof {
                assert(bytes@ =~= dir@.subrange(offset as int, offset + k));
            }
        }
        let name = string_from_utf8(bytes);
        proof {
            if name is Some {
                vstd::utf8::encode_utf8_decode_utf8(name.unwrap()@);
            }
        }
        entries.push(RawEntry { index: i, first_byte, attr: dir[offset + 11], name });
        i = i + 1;
    }
    Listing { entries, end_marker: None }
}

} // verus!
