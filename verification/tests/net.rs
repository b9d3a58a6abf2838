use chronos::net::{handle_packet, ntohs, read_field16, Handled, NetEvent};
use chronos::state::{get_my_ip, State};

fn frame(ethertype: u16, payload: &[u8]) -> Vec<u8> {
    let mut f = vec![0xff; 6];
    f.extend_from_slice(&[1, 2, 3, 4, 5, 6]);
    f.extend_from_slice(&ethertype.to_be_bytes());
    f.extend_from_slice(payload);
    f
}

fn arp(opcode: u16, target: [u8; 4]) -> Vec<u8> {
    let mut p = vec![0, 1, 8, 0, 6, 4];
    p.extend_from_slice(&opcode.to_be_bytes());
    p.extend_from_slice(&[0x52, 0x54, 0, 0x12, 0x34, 0x56]);
    p.extend_from_slice(&[10, 0, 2, 2]);
    p.extend_from_slice(&[0; 6]);
    p.extend_from_slice(&target);
    frame(0x0806, &p)
}

fn ipv4(protocol: u8, payload: &[u8]) -> Vec<u8> {
    let mut p = vec![0x45, 0, 0, 0, 0, 0, 0, 0, 64, protocol, 0, 0, 1, 1, 1, 1, 2, 2, 2, 2];
    p.extend_from_slice(payload);
    frame(0x0800, &p)
}

const NOTHING: Handled = Handled { reply_to: None, event: None };

#[test]
fn ntohs_swaps_bytes() {
    assert_eq!(ntohs(0x1234), 0x3412);
    assert_eq!(ntohs(0x00ff), 0xff00);
    assert_eq!(ntohs(ntohs(0xbeef)), 0xbeef);
    assert_eq!(read_field16(&[0x08, 0x06, 9], 0), 0x0806);
    assert_eq!(read_field16(&[0x08, 0x06, 9], 1), 0x0609);
}

#[test]
fn short_frames_are_passed_over() {
    let mut s = State::new();
    assert_eq!(handle_packet(&mut s, &[]), NOTHING);
    assert_eq!(handle_packet(&mut s, &[0; 13]), NOTHING);
    assert_eq!(handle_packet(&mut s, &arp(1, [10, 0, 2, 15])[..41]), NOTHING);
    assert_eq!(handle_packet(&mut s, &ipv4(17, &[])[..33]), NOTHING);
    assert_eq!(s, State::new());
}

#[test]
fn arp_request_for_us_names_the_sender() {
    let mut s = State::new();
    let r = handle_packet(&mut s, &arp(1, [10, 0, 2, 15]));
    assert_eq!(r.reply_to, Some(([0x52, 0x54, 0, 0x12, 0x34, 0x56], [10, 0, 2, 2])));
    assert_eq!(r.event, Some(NetEvent::ArpRequestForMe));
    assert_eq!(handle_packet(&mut s, &arp(1, [10, 0, 2, 16])), NOTHING);
    assert_eq!(
        handle_packet(&mut s, &arp(2, [10, 0, 2, 15])),
        Handled { reply_to: None, event: Some(NetEvent::ArpReply) }
    );
    assert_eq!(handle_packet(&mut s, &arp(3, [10, 0, 2, 15])), NOTHING);
    assert_eq!(s, State::new());
}

#[test]
fn dhcp_offer_stores_the_address() {
    let mut s = State::new();
    let mut udp = vec![0, 67, 0, 68, 0, 0, 0, 0];
    let mut dhcp = vec![2, 1, 6, 0, 1, 2, 3, 4, 0, 0, 0, 0, 0, 0, 0, 0];
    dhcp.extend_from_slice(&[10, 0, 2, 15]);
    udp.extend_from_slice(&dhcp);
    let r = handle_packet(&mut s, &ipv4(17, &udp));
    assert_eq!(r, Handled { reply_to: None, event: Some(NetEvent::IpAssigned([10, 0, 2, 15])) });
    assert_eq!(get_my_ip(&s), [10, 0, 2, 15]);
    let mut other = State::new();
    let mut wrong_port = udp.clone();
    wrong_port[3] = 69;
    assert_eq!(handle_packet(&mut other, &ipv4(17, &wrong_port)), NOTHING);
    assert_eq!(handle_packet(&mut other, &ipv4(17, &udp[..27])), NOTHING);
    assert_eq!(other, State::new());
}

#[test]
fn ping_reply_reports_the_sequence() {
    let mut s = State::new();
    let icmp = [0u8, 0, 0, 0, 0, 1, 0x12, 0x34];
    assert_eq!(
        handle_packet(&mut s, &ipv4(1, &icmp)),
        Handled { reply_to: None, event: Some(NetEvent::PingReply(0x1234)) }
    );
    let request = [8u8, 0, 0, 0, 0, 1, 0, 1];
    assert_eq!(handle_packet(&mut s, &ipv4(1, &request)), NOTHING);
    assert_eq!(handle_packet(&mut s, &ipv4(6, &icmp)), NOTHING);
}

#[test]
fn unknown_types_are_reported() {
    let mut s = State::new();
    assert_eq!(
        handle_packet(&mut s, &frame(0x86dd, &[0; 40])),
        Handled { reply_to: None, event: Some(NetEvent::UnknownType(0x86dd)) }
    );
}
