use chronos::gdt::{DOUBLE_FAULT_IST_INDEX, INTERRUPT_IST_INDEX};
use chronos::interrupts::{
    enable_listening, init_idt, init_pit, page_fault_reason, Handler, IdtEntry, InterruptIndex,
    PIC_1_MASK, PIC_2_MASK, PIT_COMMAND, PIT_DIVISOR, SYSCALL_IRQ,
};
use chronos::ata::{has_error, is_busy, sector_bytes, sector_words, wants_data, AtaDrive, Request};
use chronos::pci::{config_address, config_word, enable_bus_mastering, lookup_vendor, scan_bus};
use chronos::serial::{PortWrite, SerialPort};
use chronos::time::{is_updating, read_rtc, Time};

#[test]
fn pci_addresses() {
    assert_eq!(config_address(0, 0, 0, 0), 0x8000_0000);
    assert_eq!(config_address(1, 2, 3, 0x10), 0x8000_0000 | (1 << 16) | (2 << 11) | (3 << 8) | 0x10);
    assert_eq!(config_address(255, 31, 7, 0xff), 0x80ff_fffc);
    assert_eq!(config_address(0, 0, 0, 3), 0x8000_0000);
    assert_eq!(config_word(0x8139_10ec, 0), 0x10ec);
    assert_eq!(config_word(0x8139_10ec, 2), 0x8139);
    assert_eq!(config_word(0x8139_10ec, 1), 0x10ec);
    assert_eq!(config_word(0x8139_10ec, 7), 0x8139);
    assert_eq!(enable_bus_mastering(0), 5);
    assert_eq!(enable_bus_mastering(0x0102), 0x0107);
}

#[test]
fn pci_scan_finds_devices() {
    let mut registers = vec![0xffff_ffffu32; 8192];
    registers[0] = 0x1237_8086;
    registers[3] = 0x8139_10ec;
    registers[32 * 5 + 31] = 0x1111_1234;
    registers[8191] = 0xffff_1af4;
    registers[100] = 0x1234_ffff;
    let found = scan_bus(&registers);
    let seen: Vec<(u8, u8, u8, u16, u16)> =
        found.iter().map(|d| (d.bus, d.device, d.function, d.vendor_id, d.device_id)).collect();
    assert_eq!(
        seen,
        vec![
            (0, 0, 0, 0x8086, 0x1237),
            (0, 3, 0, 0x10ec, 0x8139),
            (5, 31, 0, 0x1234, 0x1111),
            (255, 31, 0, 0x1af4, 0xffff)
        ]
    );
    assert!(scan_bus(&vec![0xffff_ffffu32; 8192]).is_empty());
}

#[test]
fn pci_vendor_names() {
    assert_eq!(lookup_vendor(0x8086), "Intel Corp");
    assert_eq!(lookup_vendor(0x10ec), "Realtek");
    assert_eq!(lookup_vendor(0x10de), "NVIDIA");
    assert_eq!(lookup_vendor(0x1234), "QEMU / Bochs");
    assert_eq!(lookup_vendor(0x1af4), "VirtIO");
    assert_eq!(lookup_vendor(0), "Unknown");
}

#[test]
fn rtc_decodes_bcd() {
    assert_eq!(read_rtc(0x59, 0x23, 0x17, 0x00), Time { hours: 17, minutes: 23, seconds: 59 });
    assert_eq!(read_rtc(0x59, 0x23, 0x17, 0x04), Time { hours: 0x17, minutes: 0x23, seconds: 0x59 });
    assert_eq!(read_rtc(0x00, 0x00, 0x81, 0x02), Time { hours: 81 | 0x80, minutes: 0, seconds: 0 });
    assert_eq!(read_rtc(0x09, 0x10, 0x12, 0xfb), Time { hours: 12, minutes: 10, seconds: 9 });
    assert!(is_updating(0x80));
    assert!(is_updating(0xff));
    assert!(!is_updating(0x7f));
}

#[test]
fn ata_requests() {
    let master = AtaDrive::new(true);
    let slave = AtaDrive::new(false);
    assert!(master.master());
    assert!(!slave.master());
    assert_eq!(master.identify_select(), 0xa0);
    assert_eq!(slave.identify_select(), 0xb0);
    assert_eq!(
        master.request(0x0a12_3456, 3),
        Request { drive_select: 0xea, sector_count: 3, lba_low: 0x56, lba_mid: 0x34, lba_high: 0x12 }
    );
    assert_eq!(slave.request(10000, 1).drive_select, 0xf0);
    assert_eq!(slave.request(0xff00_0000, 1).drive_select, 0xff);
    assert_eq!(master.write_request(7, &vec![0u8; 1024]).sector_count, 2);
    assert_eq!(master.write_request(7, &vec![0u8; 1023]).sector_count, 1);
    assert_eq!(master.write_request(7, &vec![0u8; 512 * 256]).sector_count, 0);
}

#[test]
fn ata_status_bits() {
    assert!(is_busy(0x80) && !is_busy(0x7f));
    assert!(wants_data(0x08) && !wants_data(0xf7));
    assert!(has_error(0x01) && !has_error(0xfe));
}

#[test]
fn ata_words_and_bytes() {
    assert_eq!(sector_bytes(&[0x1234, 0xabcd]), vec![0x34, 0x12, 0xcd, 0xab]);
    assert!(sector_bytes(&[]).is_empty());
    let mut data = vec![0u8; 512];
    data[0] = 0x34;
    data[1] = 0x12;
    data[511] = 0xff;
    let words = sector_words(&data);
    assert_eq!(words.len(), 256);
    assert_eq!(words[0], 0x1234);
    assert_eq!(words[255], 0xff00);
    assert_eq!(sector_bytes(&words), data);
}

#[test]
fn serial_setup() {
    let port = SerialPort::new(0x3f8);
    assert_eq!(port.line_sts, 0x3fd);
    assert_eq!(
        port.init(),
        vec![
            PortWrite { port: 0x3f9, value: 0x00 },
            PortWrite { port: 0x3fb, value: 0x80 },
            PortWrite { port: 0x3f8, value: 0x03 },
            PortWrite { port: 0x3f9, value: 0x00 },
            PortWrite { port: 0x3fb, value: 0x03 },
            PortWrite { port: 0x3fa, value: 0xc7 },
            PortWrite { port: 0x3fc, value: 0x0b },
        ]
    );
    assert!(port.is_transmit_empty(0x20));
    assert!(!port.is_transmit_empty(0xdf));
    assert_eq!(port.send(b'x'), PortWrite { port: 0x3f8, value: b'x' });
}

#[test]
fn the_timer_ticks_a_hundred_times_a_second() {
    assert_eq!(PIT_DIVISOR, 11931);
    assert_eq!(PIT_COMMAND, 0x36);
    assert_eq!(init_pit(), (0x9B, 0x2E));
    let (low, high) = init_pit();
    assert_eq!((high as u16) << 8 | low as u16, PIT_DIVISOR);
}

#[test]
fn the_controllers_listen_to_timer_keyboard_and_mouse() {
    assert_eq!(enable_listening(), (0xF8, 0xEF));
    assert_eq!(enable_listening(), (PIC_1_MASK, PIC_2_MASK));
}

#[test]
fn the_descriptor_table_has_eight_entries() {
    let entries = init_idt();
    assert_eq!(entries.len(), 8);
    let find = |handler: Handler| -> IdtEntry {
        let found: Vec<&IdtEntry> = entries.iter().filter(|e| e.handler == handler).collect();
        assert_eq!(found.len(), 1);
        *found[0]
    };
    assert_eq!(
        find(Handler::Breakpoint),
        IdtEntry { vector: 3, handler: Handler::Breakpoint, stack_index: None, user: false }
    );
    assert_eq!(
        find(Handler::PageFault),
        IdtEntry { vector: 14, handler: Handler::PageFault, stack_index: None, user: false }
    );
    assert_eq!(find(Handler::GeneralProtectionFault).vector, 13);
    assert_eq!(find(Handler::GeneralProtectionFault).stack_index, None);
    assert_eq!(find(Handler::DoubleFault).vector, 8);
    assert_eq!(find(Handler::DoubleFault).stack_index, Some(DOUBLE_FAULT_IST_INDEX));
    assert_eq!(find(Handler::Timer).vector, InterruptIndex::Timer.as_u8());
    assert_eq!(find(Handler::Keyboard).vector, InterruptIndex::Keyboard.as_u8());
    assert_eq!(find(Handler::Mouse).vector, InterruptIndex::Mouse.as_u8());
    assert_eq!(find(Handler::Mouse).stack_index, Some(INTERRUPT_IST_INDEX));
    assert_eq!(
        find(Handler::Syscall),
        IdtEntry {
            vector: SYSCALL_IRQ,
            handler: Handler::Syscall,
            stack_index: Some(INTERRUPT_IST_INDEX),
            user: true,
        }
    );
    assert_eq!(entries.iter().filter(|e| e.user).count(), 1);
}

#[test]
fn a_page_fault_tells_its_reason() {
    assert_eq!(page_fault_reason(1), "Reason: PROTECTION VIOLATION (Ring 3 blocked)\n");
    assert_eq!(page_fault_reason(7), "Reason: PROTECTION VIOLATION (Ring 3 blocked)\n");
    assert_eq!(page_fault_reason(0), "Reason: PAGE NOT PRESENT (Mapping missing)\n");
    assert_eq!(page_fault_reason(6), "Reason: PAGE NOT PRESENT (Mapping missing)\n");
}
