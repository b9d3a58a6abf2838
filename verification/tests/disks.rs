use chronos::acpi::{entry_count, map_region, table_address, AcpiHeader, Fadt, Rsdp};
use chronos::ata::AtaDrive;
use chronos::elf::{
    entry_target, raw_entry, ElfError, ElfHeader, PageCopy, ProgramHeader, ENTRY_OFFSET,
    USER_LOAD_BASE, USER_STACK_BASE,
};
use chronos::fat::{
    eq_ignore_ascii_case, find_entry, list_root, next_cluster, trim_to_size, Fat32, MountError,
};
use chronos::memory::{
    canonical, new_entry, table_indices, walk_entry, BootFrameAllocator, MemoryRegion, Walk,
};

fn boot_sector() -> Vec<u8> {
    let mut s = vec![0u8; 512];
    s[11..13].copy_from_slice(&512u16.to_le_bytes());
    s[13] = 8;
    s[14..16].copy_from_slice(&32u16.to_le_bytes());
    s[16] = 2;
    s[36..40].copy_from_slice(&1000u32.to_le_bytes());
    s[44..48].copy_from_slice(&2u32.to_le_bytes());
    s
}

fn entry(name: &[u8; 11], attr: u8, cluster: u32, size: u32) -> Vec<u8> {
    let mut e = vec![0u8; 32];
    e[..11].copy_from_slice(name);
    e[11] = attr;
    e[20..22].copy_from_slice(&((cluster >> 16) as u16).to_le_bytes());
    e[26..28].copy_from_slice(&(cluster as u16).to_le_bytes());
    e[28..32].copy_from_slice(&size.to_le_bytes());
    e
}

#[test]
fn fat_mounts_from_the_boot_sector() {
    let fat = Fat32::new(AtaDrive::new(true), &boot_sector()).ok().unwrap();
    assert_eq!(fat.root_cluster(), 2);
    assert_eq!(fat.sectors_per_cluster(), 8);
    assert!(fat.drive().master());
    assert_eq!(fat.cluster_to_lba(2), 2032);
    assert_eq!(fat.cluster_to_lba(5), 2032 + 24);
    assert_eq!(fat.fat_position(2), (32, 8));
    assert_eq!(fat.fat_position(127), (32, 508));
    assert_eq!(fat.fat_position(128), (33, 0));
}

#[test]
fn fat_rejects_bad_boot_sectors() {
    assert_eq!(Fat32::new(AtaDrive::new(true), &[]).err(), Some(MountError::NoBootSector));
    assert_eq!(Fat32::new(AtaDrive::new(true), &[0u8; 89]).err(), Some(MountError::NoBootSector));
    let mut odd = boot_sector();
    odd[11..13].copy_from_slice(&4096u16.to_le_bytes());
    assert_eq!(Fat32::new(AtaDrive::new(true), &odd).err(), Some(MountError::SectorSize(4096)));
    let mut huge = boot_sector();
    huge[36..40].copy_from_slice(&u32::MAX.to_le_bytes());
    assert_eq!(Fat32::new(AtaDrive::new(true), &huge).err(), Some(MountError::TooLarge));
    let mut edge = boot_sector();
    edge[16] = 1;
    edge[36..40].copy_from_slice(&(u32::MAX - 32).to_le_bytes());
    assert!(Fat32::new(AtaDrive::new(true), &edge).is_ok());
}

#[test]
fn fat_names_are_formatted() {
    assert_eq!(Fat32::format_name(b"README  TXT"), "README.TXT");
    assert_eq!(Fat32::format_name(b"KERNEL     "), "KERNEL");
    assert_eq!(Fat32::format_name(b"A       B  "), "A.B");
    assert_eq!(Fat32::format_name(b"  X Y     Z"), "X Y.Z");
    assert_eq!(Fat32::format_name(b"           "), "");
    assert_eq!(Fat32::format_name(b"        TXT"), ".TXT");
    let mut bad = *b"NAME    TXT";
    bad[0] = 0xff;
    assert_eq!(Fat32::format_name(&bad), ".TXT");
    let mut bad_ext = *b"NAME    TXT";
    bad_ext[10] = 0xc3;
    assert_eq!(Fat32::format_name(&bad_ext), "NAME");
}

#[test]
fn fat_chains() {
    let fat = Fat32::new(AtaDrive::new(true), &boot_sector()).ok().unwrap();
    let mut clusters = Vec::new();
    assert!(fat.get_clusters(&mut clusters, 5));
    assert!(fat.get_clusters(&mut clusters, 0x0FFF_FFF7));
    assert!(!fat.get_clusters(&mut clusters, 0x0FFF_FFF8));
    assert!(!fat.get_clusters(&mut clusters, 0));
    assert_eq!(clusters, vec![5, 0x0FFF_FFF7]);
    let mut sector = vec![0u8; 512];
    sector[8..12].copy_from_slice(&0xF000_0009u32.to_le_bytes());
    assert_eq!(next_cluster(&sector, 8), 9);
    sector[508..512].copy_from_slice(&0x0FFF_FFFFu32.to_le_bytes());
    assert_eq!(next_cluster(&sector, 508), 0x0FFF_FFFF);
}

#[test]
fn fat_finds_files_without_regard_to_case() {
    let mut dir = Vec::new();
    dir.extend(entry(b"\xE5LD     TXT", 0x20, 9, 1));
    dir.extend(entry(b"README  TXT", 0x0F, 8, 1));
    dir.extend(entry(b"README  TXT", 0x20, 0x0012_0034, 1234));
    dir.extend(entry(b"KERNEL     ", 0x20, 77, 5));
    dir.extend(vec![0u8; 32]);
    dir.extend(entry(b"AFTER   END", 0x20, 99, 9));
    dir.extend(vec![1u8; 31]);
    assert_eq!(find_entry(&dir, "readme.txt"), Some((0x0012_0034, 1234)));
    assert_eq!(find_entry(&dir, "README.TXT"), Some((0x0012_0034, 1234)));
    assert_eq!(find_entry(&dir, "Kernel"), Some((77, 5)));
    assert_eq!(find_entry(&dir, "after.end"), None);
    assert_eq!(find_entry(&dir, "old.txt"), None);
    assert_eq!(find_entry(&dir, "readme"), None);
    assert_eq!(find_entry(&dir[..95], "readme.txt"), None);
    assert_eq!(find_entry(&[], "x"), None);
    assert!(eq_ignore_ascii_case("AbC.z", "aBc.Z"));
    assert!(!eq_ignore_ascii_case("abc", "abd"));
    assert!(!eq_ignore_ascii_case("abc", "abcd"));
    assert!(!eq_ignore_ascii_case("é", "É"));
    assert!(!eq_ignore_ascii_case("@", "`"));
    assert!(eq_ignore_ascii_case("", ""));
}

#[test]
fn fat_lists_the_root() {
    let mut dir = Vec::new();
    dir.extend(entry(b"README  TXT", 0x20, 3, 1));
    dir.extend(entry(b"\xE5LD     TXT", 0x10, 9, 1));
    dir.extend(vec![0u8; 32]);
    dir.extend(entry(b"AFTER   END", 0x20, 99, 9));
    let listing = list_root(&dir);
    assert_eq!(listing.end_marker, Some(2));
    assert_eq!(listing.entries.len(), 2);
    let e = &listing.entries[0];
    assert_eq!((e.index, e.first_byte, e.attr, e.name.as_deref()), (0, b'R', 0x20, Some("README  TXT")));
    let d = &listing.entries[1];
    assert_eq!((d.index, d.first_byte, d.attr, d.name.as_deref()), (1, 0xE5, 0x10, None));
    let open = list_root(&dir[..64]);
    assert_eq!(open.end_marker, None);
    assert_eq!(open.entries.len(), 2);
    assert_eq!(list_root(&dir[..40]).entries.len(), 1);
}

#[test]
fn fat_data_is_cut_to_size() {
    let mut data = vec![1, 2, 3, 4, 5];
    trim_to_size(&mut data, 9);
    assert_eq!(data, vec![1, 2, 3, 4, 5]);
    trim_to_size(&mut data, 5);
    assert_eq!(data, vec![1, 2, 3, 4, 5]);
    trim_to_size(&mut data, 2);
    assert_eq!(data, vec![1, 2]);
    trim_to_size(&mut data, 0);
    assert!(data.is_empty());
}

fn elf_file() -> Vec<u8> {
    let mut f = vec![0u8; 64 + 2 * 56 + 100];
    f[..4].copy_from_slice(&[0x7f, b'E', b'L', b'F']);
    f[4] = 2;
    f[16..18].copy_from_slice(&2u16.to_le_bytes());
    f[24..32].copy_from_slice(&0x40_1000u64.to_le_bytes());
    f[32..40].copy_from_slice(&64u64.to_le_bytes());
    f[54..56].copy_from_slice(&56u16.to_le_bytes());
    f[56..58].copy_from_slice(&2u16.to_le_bytes());
    let ph = 64 + 56;
    f[ph..ph + 4].copy_from_slice(&1u32.to_le_bytes());
    f[ph + 4..ph + 8].copy_from_slice(&5u32.to_le_bytes());
    f[ph + 8..ph + 16].copy_from_slice(&176u64.to_le_bytes());
    f[ph + 16..ph + 24].copy_from_slice(&0x40_0ff0u64.to_le_bytes());
    f[ph + 24..ph + 32].copy_from_slice(&0x40_0ff0u64.to_le_bytes());
    f[ph + 32..ph + 40].copy_from_slice(&100u64.to_le_bytes());
    f[ph + 40..ph + 48].copy_from_slice(&0x2000u64.to_le_bytes());
    f[ph + 48..ph + 56].copy_from_slice(&0x1000u64.to_le_bytes());
    f
}

#[test]
fn elf_headers_are_checked() {
    let f = elf_file();
    let h = ElfHeader::parse(&f).unwrap();
    assert_eq!(
        h,
        ElfHeader { class: 2, e_type: 2, entry_point: 0x40_1000, phoff: 64, phentsize: 56, phnum: 2 }
    );
    assert_eq!(ElfHeader::parse(&f[..63]), Err(ElfError::InvalidMagic));
    let mut bad = f.clone();
    bad[1] = b'X';
    assert_eq!(ElfHeader::parse(&bad), Err(ElfError::InvalidMagic));
    let mut narrow = f.clone();
    narrow[4] = 1;
    assert_eq!(ElfHeader::parse(&narrow), Err(ElfError::Not64Bit));
    let mut object = f.clone();
    object[16] = 1;
    assert_eq!(ElfHeader::parse(&object), Err(ElfError::NotExecutable));
    let mut dynamic = f.clone();
    dynamic[16] = 3;
    assert_eq!(ElfHeader::parse(&dynamic).unwrap().e_type, 3);
}

#[test]
fn elf_segments_give_pages_and_copies() {
    let f = elf_file();
    let h = ElfHeader::parse(&f).unwrap();
    let first = h.program_header(&f, 0).unwrap();
    assert!(!first.loads());
    let ph = h.program_header(&f, 1).unwrap();
    assert_eq!(
        ph,
        ProgramHeader {
            p_type: 1,
            p_flags: 5,
            p_offset: 176,
            p_vaddr: 0x40_0ff0,
            p_paddr: 0x40_0ff0,
            p_filesz: 100,
            p_memsz: 0x2000,
            p_align: 0x1000
        }
    );
    assert!(ph.loads());
    assert_eq!(h.program_header(&f[..64 + 2 * 56 - 1], 1), Err(ElfError::HeaderOutOfBounds));
    assert_eq!(ph.pages(), (0x40_0000, 3));
    assert_eq!(ph.page_copy(0x40_0000, f.len()), Some(PageCopy { src_offset: 176, dst_offset: 0xff0, len: 16 }));
    assert_eq!(ph.page_copy(0x40_1000, f.len()), Some(PageCopy { src_offset: 192, dst_offset: 0, len: 84 }));
    assert_eq!(ph.page_copy(0x40_2000, f.len()), None);
    assert_eq!(ph.page_copy(0x3f_f000, f.len()), None);
    assert_eq!(ph.page_copy(0x40_1000, 275), None);
    let empty = ProgramHeader { p_memsz: 0, ..ph };
    assert!(!empty.loads());
    let aligned = ProgramHeader { p_vaddr: 0x1000, p_memsz: 0x1000, ..ph };
    assert_eq!(aligned.pages(), (0x1000, 1));
}

#[test]
fn acpi_tables_are_read() {
    let mut rsdp = vec![0u8; 36];
    rsdp[..8].copy_from_slice(b"RSD PTR ");
    rsdp[15] = 2;
    rsdp[16..20].copy_from_slice(&0x1000u32.to_le_bytes());
    rsdp[24..32].copy_from_slice(&0x1_0000_2000u64.to_le_bytes());
    let r = Rsdp::parse(&rsdp).unwrap();
    assert_eq!((r.revision, r.rsdt_addr, r.xsdt_addr), (2, 0x1000, 0x1_0000_2000));
    assert_eq!(r.root_table(), 0x1_0000_2000);
    assert_eq!(r.entry_size(), 8);
    rsdp[15] = 0;
    let old = Rsdp::parse(&rsdp).unwrap();
    assert_eq!((old.root_table(), old.entry_size()), (0x1000, 4));
    rsdp[7] = b'!';
    assert!(Rsdp::parse(&rsdp).is_none());
    assert!(Rsdp::parse(&rsdp[..35]).is_none());

    let mut table = vec![0u8; 36 + 16];
    table[..4].copy_from_slice(b"XSDT");
    table[4..8].copy_from_slice(&52u32.to_le_bytes());
    table[36..44].copy_from_slice(&0xaabb_ccdd_0011_2233u64.to_le_bytes());
    table[44..52].copy_from_slice(&7u64.to_le_bytes());
    let h = AcpiHeader::parse(&table).unwrap();
    assert_eq!(&h.signature, b"XSDT");
    assert_eq!(h.length, 52);
    assert!(h.is_root_table());
    assert!(!h.is_fadt());
    assert_eq!(entry_count(h.length, 8), 2);
    assert_eq!(entry_count(h.length, 4), 4);
    assert_eq!(table_address(&table, 0, 8), 0xaabb_ccdd_0011_2233);
    assert_eq!(table_address(&table, 1, 8), 7);
    assert_eq!(table_address(&table, 1, 4), 0xaabb_ccdd);
    assert!(AcpiHeader::parse(&table[..35]).is_none());

    let mut fadt = vec![0u8; 116];
    fadt[..4].copy_from_slice(b"FACP");
    fadt[46..48].copy_from_slice(&9u16.to_le_bytes());
    fadt[64..68].copy_from_slice(&0x604u32.to_le_bytes());
    fadt[108] = 0x32;
    fadt[112..116].copy_from_slice(&0xdead_beefu32.to_le_bytes());
    let f = Fadt::parse(&fadt).unwrap();
    assert!(f.header.is_fadt());
    assert_eq!((f.sci_interrupt, f.pm1a_control_block, f.century, f.flags), (9, 0x604, 0x32, 0xdead_beef));
    assert!(Fadt::parse(&fadt[..115]).is_none());
}

#[test]
fn acpi_regions_are_paged() {
    assert_eq!(map_region(0x1234, 1024), (0x1000, 0x2000));
    assert_eq!(map_region(0x1000, 4096), (0x1000, 0x2000));
    assert_eq!(map_region(0x1fff, 2), (0x1000, 0x3000));
    assert_eq!(map_region(0x1000, 0), (0x1000, 0x1000));
    assert_eq!(map_region(0x1001, 0), (0x1000, 0x2000));
}

#[test]
fn frames_come_from_usable_regions() {
    let regions = vec![
        MemoryRegion { base: 0x1000, length: 0x10_0000, usable: true },
        MemoryRegion { base: 0x10_0000, length: 0x2000, usable: false },
        MemoryRegion { base: 0x20_0000, length: 0x2001, usable: true },
        MemoryRegion { base: 0x30_0000, length: 0, usable: true },
        MemoryRegion { base: 0x40_0800, length: 0x1000, usable: true },
    ];
    let mut a = BootFrameAllocator::new(regions);
    assert_eq!(a.allocate_frame(), Some(0x20_0000));
    assert_eq!(a.allocate_frame(), Some(0x20_1000));
    assert_eq!(a.allocate_frame(), Some(0x20_2000));
    assert_eq!(a.allocate_frame(), Some(0x40_0000));
    assert_eq!(a.allocate_frame(), None);
    assert_eq!(a.allocate_frame(), None);
    let mut none = BootFrameAllocator::new(Vec::new());
    assert_eq!(none.allocate_frame(), None);
}

#[test]
fn page_table_arithmetic() {
    assert_eq!(table_indices(0), [0, 0, 0, 0]);
    assert_eq!(table_indices(0x40_0000), [0, 0, 2, 0]);
    assert_eq!(table_indices(0x80_0000), [0, 0, 4, 0]);
    assert_eq!(table_indices(0xffff_8000_0000_1000), [256, 0, 0, 1]);
    assert_eq!(table_indices(u64::MAX), [511, 511, 511, 511]);
    assert!(canonical(0x7fff_ffff_ffff));
    assert!(canonical(0xffff_8000_0000_0000));
    assert!(!canonical(0x8000_0000_0000));
    assert!(!canonical(0xfffe_8000_0000_0000));
    assert_eq!(new_entry(0x5000, true), 0x5007);
    assert_eq!(new_entry(0x5000, false), 0x5003);
    assert_eq!(walk_entry(0, true), Walk::NeedsTable);
    assert_eq!(walk_entry(0x5001, true), Walk::Descend { entry: 0x5007, table: 0x5000 });
    assert_eq!(walk_entry(0x5001, false), Walk::Descend { entry: 0x5001, table: 0x5000 });
    assert_eq!(
        walk_entry(0x8000_0000_0000_5063, true),
        Walk::Descend { entry: 0x8000_0000_0000_5067, table: 0x5000 }
    );
}

#[test]
fn fat_sectors_are_found_with_care() {
    let volume = Fat32::new(AtaDrive::new(true), &boot_sector()).unwrap();
    assert_eq!(volume.sector_of_cluster(0), None);
    assert_eq!(volume.sector_of_cluster(1), None);
    assert_eq!(volume.sector_of_cluster(2), Some(volume.cluster_to_lba(2)));
    assert_eq!(volume.sector_of_cluster(7), Some(volume.cluster_to_lba(7)));
    assert_eq!(volume.sector_of_cluster(u32::MAX), None);
    assert_eq!(volume.entry_of_cluster(5), Some(volume.fat_position(5)));
    assert_eq!(volume.entry_of_cluster(130).unwrap().1, 8);
    assert_eq!(volume.entry_of_cluster(0x0FFF_FFF8), None);
    assert_eq!(volume.entry_of_cluster(u32::MAX), None);
}

#[test]
fn programs_are_entered_at_their_target() {
    assert_eq!(USER_LOAD_BASE, 0x400_000);
    assert_eq!(USER_STACK_BASE, 0x800_000);
    assert_eq!(entry_target(0x401_000, USER_LOAD_BASE, 0x123), 0x401_000);
    assert_eq!(entry_target(0x400_000, USER_LOAD_BASE, 0x123), 0x400_000);
    assert_eq!(entry_target(0x78, USER_LOAD_BASE, 0x100), 0x400_178);
    assert_eq!(entry_target(0x78, USER_LOAD_BASE, 0), 0x400_078);

    let mut data = vec![0u8; ENTRY_OFFSET];
    data.extend_from_slice(&0x1122_3344_5566_7788u64.to_le_bytes());
    assert_eq!(raw_entry(&data), Some(0x1122_3344_5566_7788));
    data.push(9);
    assert_eq!(raw_entry(&data), Some(0x1122_3344_5566_7788));
    assert_eq!(raw_entry(&data[..31]), None);
    assert_eq!(raw_entry(&[]), None);
}
