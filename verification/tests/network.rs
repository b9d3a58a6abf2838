use chronos::net::NetEvent;
use chronos::pci::PciDevice;
use chronos::rtl8139::{push_hex_byte, sniff_packet, transmit_ok, Rtl8139};
use chronos::state::{get_my_ip, State};

const MAC: [u8; 6] = [0x52, 0x54, 0x00, 0x12, 0x34, 0xab];

fn card() -> Rtl8139 {
    let device = PciDevice { bus: 0, device: 3, function: 0, vendor_id: 0x10ec, device_id: 0x8139 };
    Rtl8139::new(&device, 0xc001, MAC, 0xffff_8000_0000_0000)
}

#[test]
fn card_is_set_up_from_its_registers() {
    let c = card();
    assert_eq!(c.io_base(), 0xc000);
    assert_eq!(c.mac_addr(), MAC);
    assert_eq!(c.rx_buffer_ptr(), 0xffff_8000_0060_0000);
    assert_eq!(c.tx_buffer_ptr(), 0xffff_8000_0061_0000);
    let device = PciDevice { bus: 0, device: 3, function: 0, vendor_id: 0x10ec, device_id: 0x8139 };
    assert_eq!(Rtl8139::new(&device, 0x1234_c003, MAC, 0).io_base(), 0xc000);
}

#[test]
fn ip_checksum_is_the_folded_complement() {
    let c = card();
    let header = [
        0x45u8, 0x00, 0x01, 0x10, 0x00, 0x00, 0x00, 0x00, 0x40, 17, 0x00, 0x00, 0x00, 0x00, 0x00, 0x00,
        0xFF, 0xFF, 0xFF, 0xFF,
    ];
    assert_eq!(c.calc_ip_checksum(&header), 0x79de);
    assert_eq!(c.calc_ip_checksum(&[]), 0xffff);
    assert_eq!(c.calc_ip_checksum(&[0xff, 0xff]), 0x0000);
    assert_eq!(c.calc_ip_checksum(&[0x00, 0x01, 0xf2, 0x03, 0xf4, 0xf5, 0xf6, 0xf7]), 0x220d);
    let mut checked = header;
    checked[10] = 0x79;
    checked[11] = 0xde;
    assert_eq!(c.calc_ip_checksum(&checked), 0);
}

#[test]
fn mac_line_is_hexadecimal() {
    assert_eq!(card().log_mac(), "[NET] MAC: 52:54:00:12:34:ab\n");
    let mut s = String::new();
    push_hex_byte(&mut s, 0x0f);
    push_hex_byte(&mut s, 0xa0);
    push_hex_byte(&mut s, 0x99);
    assert_eq!(s, "0fa099");
}

#[test]
fn dhcp_discover_frame() {
    let mut c = card();
    let t = c.send_dhcp_discover();
    assert_eq!(t.frame.len(), 286);
    assert_eq!(t.length, 286);
    assert_eq!(&t.frame[..6], &[0xff; 6]);
    assert_eq!(&t.frame[6..12], &MAC);
    assert_eq!(&t.frame[12..14], &[0x08, 0x00]);
    assert_eq!(t.frame[14], 0x45);
    assert_eq!(&t.frame[16..18], &[0x01, 0x10]);
    assert_eq!(t.frame[23], 17);
    assert_eq!(&t.frame[24..26], &[0x79, 0xde]);
    assert_eq!(&t.frame[30..34], &[0xff; 4]);
    assert_eq!(&t.frame[34..42], &[0, 68, 0, 67, 0, 0xfc, 0, 0]);
    assert_eq!(&t.frame[42..50], &[1, 1, 6, 0, 0x12, 0x34, 0x56, 0x78]);
    assert!(t.frame[50..70].iter().all(|b| *b == 0));
    assert_eq!(&t.frame[70..76], &MAC);
    assert!(t.frame[76..278].iter().all(|b| *b == 0));
    assert_eq!(&t.frame[278..286], &[0x63, 0x82, 0x53, 0x63, 53, 1, 1, 255]);
    assert_eq!((t.address_port, t.status_port, t.address), (0xc020, 0xc010, 0x0061_0000));
}

#[test]
fn descriptors_take_turns() {
    let mut c = card();
    let ports: Vec<(u16, u16)> = (0..6)
        .map(|_| {
            let t = c.send_arp();
            (t.address_port, t.status_port)
        })
        .collect();
    assert_eq!(
        ports,
        vec![
            (0xc020, 0xc010),
            (0xc024, 0xc014),
            (0xc028, 0xc018),
            (0xc02c, 0xc01c),
            (0xc020, 0xc010),
            (0xc024, 0xc014)
        ]
    );
}

#[test]
fn hello_and_arp_frames_are_padded() {
    let mut c = card();
    let hello = c.send_hello();
    assert_eq!(hello.frame.len(), 60);
    assert_eq!(hello.length, 60);
    assert_eq!(&hello.frame[12..21], &[0x08, 0x00, b'C', b'H', b'R', b'O', b'N', b'O', b'S']);
    assert!(hello.frame[21..].iter().all(|b| *b == 0));
    let arp = c.send_arp();
    assert_eq!(arp.frame.len(), 60);
    assert_eq!(&arp.frame[..6], &[0xff; 6]);
    assert_eq!(&arp.frame[6..12], &MAC);
    assert_eq!(&arp.frame[12..22], &[0x08, 0x06, 0, 1, 8, 0, 6, 4, 0, 1]);
    assert_eq!(&arp.frame[22..28], &MAC);
    assert_eq!(&arp.frame[28..38], &[0; 10]);
    assert_eq!(&arp.frame[38..42], &[10, 0, 2, 2]);
    assert!(arp.frame[42..].iter().all(|b| *b == 0));
    assert!(transmit_ok(0x8000));
    assert!(transmit_ok(0xffff_ffff));
    assert!(!transmit_ok(0x7fff));
}

#[test]
fn receive_buffer_is_sniffed() {
    let mut s = State::new();
    let mut rx = vec![0u8; 8192];
    let idle = sniff_packet(&mut s, &rx);
    assert!(idle.handled.is_none() && !idle.clear_header);
    // a DHCP offer of 62 bytes
    let mut frame = vec![0u8; 62];
    frame[12] = 0x08;
    frame[23] = 17;
    frame[36..38].copy_from_slice(&68u16.to_be_bytes());
    frame[58..62].copy_from_slice(&[10, 0, 2, 15]);
    rx[..4].copy_from_slice(&((62u32 << 16) | 1).to_le_bytes());
    rx[4..66].copy_from_slice(&frame);
    let got = sniff_packet(&mut s, &rx);
    assert!(got.clear_header);
    assert_eq!(got.handled.unwrap().event, Some(NetEvent::IpAssigned([10, 0, 2, 15])));
    assert_eq!(get_my_ip(&s), [10, 0, 2, 15]);
    // a header without a length, and one with too large a length
    let mut t = State::new();
    rx[..4].copy_from_slice(&1u32.to_le_bytes());
    let empty = sniff_packet(&mut t, &rx);
    assert!(empty.handled.is_none() && empty.clear_header);
    rx[..4].copy_from_slice(&(2000u32 << 16).to_le_bytes());
    let long = sniff_packet(&mut t, &rx);
    assert!(long.handled.is_none() && long.clear_header);
    assert_eq!(t, State::new());
    rx[..4].copy_from_slice(&(1999u32 << 16).to_le_bytes());
    assert!(sniff_packet(&mut t, &rx).handled.is_some());
    assert_eq!(get_my_ip(&t), [10, 0, 2, 15]);
}
