//! Headers of the protocols the kernel speaks, and the handling of a
//! received Ethernet frame.
//!
//! Multi-byte header fields travel most significant byte first. A frame
//! is an Ethernet header of 14 bytes followed by its payload; an IPv4
//! header is taken to be 20 bytes long.

use vstd::prelude::*;
use crate::state::{packed_octets, set_my_ip, State};

verus! {

/// Ethernet header.
#[derive(Debug, Clone, Copy)]
pub struct EthernetHeader {
    pub dest_mac: [u8; 6],
    pub src_mac: [u8; 6],
    pub ethertype: u16,
}

/// ARP packet for Ethernet and IPv4.
#[derive(Debug, Clone, Copy)]
pub struct ArpPacket {
    pub hardware_type: u16,
    pub protocol_type: u16,
    pub hardware_len: u8,
    pub protocol_len: u8,
    pub opcode: u16,
    pub src_mac: [u8; 6],
    pub src_ip: [u8; 4],
    pub dest_mac: [u8; 6],
    pub dest_ip: [u8; 4],
}

/// IPv4 header without options.
#[derive(Debug, Clone, Copy)]
pub struct Ipv4Header {
    pub version_ihl: u8,
    pub type_of_service: u8,
    pub total_length: u16,
    pub identification: u16,
    pub flags_fragment: u16,
    pub ttl: u8,
    pub protocol: u8,
    pub checksum: u16,
    pub src_ip: [u8; 4],
    pub dest_ip: [u8; 4],
}

/// UDP header.
#[derive(Debug, Clone, Copy)]
pub struct UdpHeader {
    pub src_port: u16,
    pub dest_port: u16,
    pub length: u16,
    pub checksum: u16,
}

/// The fixed part of a DHCP message.
#[derive(Debug, Clone, Copy)]
pub struct DhcpPacket {
    pub op: u8,
    pub htype: u8,
    pub hlen: u8,
    pub hops: u8,
    pub xid: u32,
    pub secs: u16,
    pub flags: u16,
    pub ciaddr: [u8; 4],
    pub yiaddr: [u8; 4],
    pub siaddr: [u8; 4],
    pub giaddr: [u8; 4],
    pub chaddr: [u8; 16],
    pub sname: [u8; 64],
    pub file: [u8; 128],
    pub magic: u32,
}

/// ICMP echo header.
#[derive(Debug, Clone, Copy)]
pub struct IcmpHeader {
    pub packet_type: u8,
    pub code: u8,
    pub checksum: u16,
    pub id: u16,
    pub seq: u16,
}

pub const ETHERTYPE_ARP: u16 = 0x0806;

pub const ETHERTYPE_IPV4: u16 = 0x0800;

pub const PROTOCOL_ICMP: u8 = 1;

pub const PROTOCOL_UDP: u8 = 17;

/// Port a DHCP client listens on.
pub const DHCP_CLIENT_PORT: u16 = 68;

/// Bytes of an Ethernet header.
pub const ETHERNET_HEADER_LEN: usize = 14;

/// Offset of the IPv4 payload in a frame.
pub const IP_PAYLOAD_OFFSET: usize = 34;

/// The address requests are answered for.
pub open spec fn own_address() -> Seq<u8> {
    seq![10u8, 0, 2, 15]
}

/// What a received frame told the kernel.
#[derive(Debug, Clone, Copy, PartialEq, Eq)]
pub enum NetEvent {
    /// An ARP request for the kernel's own address.
    ArpRequestForMe,
    /// An ARP reply.
    ArpReply,
    /// A DHCP message that assigns the given address.
    IpAssigned([u8; 4]),
    /// An ICMP echo reply with the given sequence number.
    PingReply(u16),
    /// A frame of a type that is not handled.
    UnknownType(u16),
}

/// Outcome of handling a frame.
#[derive(Debug, Clone, Copy, PartialEq, Eq)]
pub struct Handled {
    /// Hardware and protocol address to send an ARP reply to.
    pub reply_to: Option<([u8; 6], [u8; 4])>,
    /// What to report, if anything.
    pub event: Option<NetEvent>,
}

/// An event as a mathematical value.
pub enum NetEventView {
    ArpRequestForMe,
    ArpReply,
    IpAssigned(Seq<u8>),
    PingReply(u16),
    UnknownType(u16),
}

/// An outcome as a mathematical value.
pub struct HandledView {
    pub reply_to: Option<(Seq<u8>, Seq<u8>)>,
    pub event: Option<NetEventView>,
}

impl View for NetEvent {
    type V = NetEventView;

    open spec fn view(&self) -> NetEventView {
        match self {
            NetEvent::ArpRequestForMe => NetEventView::ArpRequestForMe,
            NetEvent::ArpReply => NetEventView::ArpReply,
            NetEvent::IpAssigned(ip) => NetEventView::IpAssigned(ip@),
            NetEvent::PingReply(seq) => NetEventView::PingReply(*seq),
            NetEvent::UnknownType(ethertype) => NetEventView::UnknownType(*ethertype),
        }
    }
}

/// The view of an event that may be missing.
pub open spec fn event_view(event: Option<NetEvent>) -> Option<NetEventView> {
    match event {
        Some(event) => Some(event@),
        None => None,
    }
}

impl View for Handled {
    type V = HandledView;

    open spec fn view(&self) -> HandledView {
        HandledView {
            reply_to: match self.reply_to {
                Some((mac, ip)) => Some((mac@, ip@)),
                None => None,
            },
            event: event_view(self.event),
        }
    }
}

/// The two bytes of `n` in the other order.
pub open spec fn swapped(n: u16) -> u16 {
    ((n & 0xFF) << 8) | ((n & 0xFF00) >> 8)
}

/// Converts between network and host byte order.
pub fn ntohs(n: u16) -> (r: u16)
    ensures
        r == swapped(n),
{
    ((n & 0xFF) << 8) | ((n & 0xFF00) >> 8)
}

/// Swapping twice gives the number back.
pub proof fn lemma_swapped_twice(n: u16)
    ensures
        swapped(swapped(n)) == n,
{
    assert((((((n & 0xFF) << 8) | ((n & 0xFF00) >> 8)) & 0xFF) << 8) | (((((n & 0xFF) << 8) | ((n
        & 0xFF00) >> 8)) & 0xFF00) >> 8) == n) by (bit_vector);
}

/// The 16-bit field that starts at `offset`, most significant byte first.
pub open spec fn field16(data: Seq<u8>, offset: int) -> u16 {
    ((data[offset] as u16) << 8) | (data[offset + 1] as u16)
}

/// Reads a 16-bit field.
pub fn read_field16(data: &[u8], offset: usize) -> (r: u16)
    requires
        offset + 2 <= data.len(),
    ensures
        r == field16(data@, offset as int),
{
    ((data[offset] as u16) << 8) | (data[offset + 1] as u16)
}

/// Copies six bytes.
fn read6(data: &[u8], offset: usize) -> (r: [u8; 6])
    requires
        offset + 6 <= data.len(),
    ensures
        r@ == data@.subrange(offset as int, offset + 6),
{
    let r = [
        data[offset],
        data[offset + 1],
        data[offset + 2],
        data[offset + 3],
        data[offset + 4],
        data[offset + 5],
    ];
    proof {
        assert(r@ =~= data@.subrange(offset as int, offset + 6));
    }
    r
}

/// Copies four bytes.
fn read4(data: &[u8], offset: usize) -> (r: [u8; 4])
    requires
        offset + 4 <= data.len(),
    ensures
        r@ == data@.subrange(offset as int, offset + 4),
{
    let r = [data[offset], data[offset + 1], data[offset + 2], data[offset + 3]];
    proof {
        assert(r@ =~= data@.subrange(offset as int, offset + 4));
    }
    r
}

/// The outcome that reports nothing.
pub open spec fn nothing() -> HandledView {
    HandledView { reply_to: None, event: None }
}

/// What an ARP frame asks for: a request for the kernel's own address is
/// to be answered to its sender; a reply is reported; anything else, and
/// a frame shorter than 42 bytes, is passed over.
pub open spec fn arp_outcome(data: Seq<u8>) -> HandledView {
    if data.len() < 42 {
        nothing()
    } else if field16(data, 20) == 1 {
        if data.subrange(38, 42) == own_address() {
            HandledView {
                reply_to: Some((data.subrange(22, 28), data.subrange(28, 32))),
                event: Some(NetEventView::ArpRequestForMe),
            }
        } else {
            nothing()
        }
    } else if field16(data, 20) == 2 {
        HandledView { reply_to: None, event: Some(NetEventView::ArpReply) }
    } else {
        nothing()
    }
}

/// What an IPv4 frame brings: a UDP datagram to the DHCP client port
/// assigns the address the message offers, an ICMP echo reply is reported
/// with its sequence number; anything else, and a frame too short for the
/// field that is looked at, is passed over.
pub open spec fn ipv4_outcome(data: Seq<u8>) -> Option<NetEventView> {
    if data.len() < IP_PAYLOAD_OFFSET {
        None
    } else if data[23] == PROTOCOL_UDP {
        if data.len() >= 62 && field16(data, 36) == DHCP_CLIENT_PORT {
            Some(NetEventView::IpAssigned(data.subrange(58, 62)))
        } else {
            None
        }
    } else if data[23] == PROTOCOL_ICMP {
        if data.len() >= 42 && data[34] == 0 {
            Some(NetEventView::PingReply(field16(data, 40)))
        } else {
            None
        }
    } else {
        None
    }
}

/// What handling a frame gives.
pub open spec fn frame_outcome(data: Seq<u8>) -> HandledView {
    if data.len() < ETHERNET_HEADER_LEN {
        nothing()
    } else if field16(data, 12) == ETHERTYPE_ARP {
        arp_outcome(data)
    } else if field16(data, 12) == ETHERTYPE_IPV4 {
        HandledView { reply_to: None, event: ipv4_outcome(data) }
    } else {
        HandledView { reply_to: None, event: Some(NetEventView::UnknownType(field16(data, 12))) }
    }
}

/// The shared values after a frame was handled: an assigned address is
/// stored.
pub open spec fn state_after(state: State, data: Seq<u8>) -> State {
    match frame_outcome(data).event {
        Some(NetEventView::IpAssigned(ip)) => State { my_ip: packed_octets(ip), ..state },
        _ => state,
    }
}

fn handle_arp(data: &[u8]) -> (r: Handled)
    requires
        data.len() >= ETHERNET_HEADER_LEN,
    ensures
        r@ == arp_outcome(data@),
{
    if data.len() < 14 + 28 {
        return Handled { reply_to: None, event: None };
    }
    let opcode = read_field16(data, 20);
    if opcode == 1 {
        let dest_ip = read4(data, 38);
        if dest_ip[0] == 10 && dest_ip[1] == 0 && dest_ip[2] == 2 && dest_ip[3] == 15 {
            let src_mac = read6(data, 22);
            let src_ip = read4(data, 28);
            proof {
                assert(data@.subrange(38, 42) =~= own_address());
            }
            return Handled {
                reply_to: Some((src_mac, src_ip)),
                event: Some(NetEvent::ArpRequestForMe),
            };
        }
        proof {
            if data@.subrange(38, 42) == own_address() {
                assert(dest_ip@[0] == own_address()[0]);
                assert(dest_ip@[1] == own_address()[1]);
                assert(dest_ip@[2] == own_address()[2]);
                assert(dest_ip@[3] == own_address()[3]);
            }
        }
        Handled { reply_to: None, event: None }
    } else if opcode == 2 {
        Handled { reply_to: None, event: Some(NetEvent::ArpReply) }
    } else {
        Handled { reply_to: None, event: None }
    }
}

fn handle_dhcp(state: &mut State, data: &[u8]) -> (r: Option<NetEvent>)
    requires
        data.len() >= 62,
    ensures
        event_view(r) == Some(NetEventView::IpAssigned(data@.subrange(58, 62))),
        *final(state) == (State { my_ip: packed_octets(data@.subrange(58, 62)), ..*old(state) }),
{
    let ip = read4(data, 58);
    set_my_ip(state, ip);
    Some(NetEvent::IpAssigned(ip))
}

fn handle_udp(state: &mut State, data: &[u8]) -> (r: Option<NetEvent>)
    requires
        data.len() >= IP_PAYLOAD_OFFSET,
        data[23] == PROTOCOL_UDP,
    ensures
        event_view(r) == ipv4_outcome(data@),
        *final(state) == state_after_ipv4(*old(state), data@),
{
    if data.len() < 62 {
        return None;
    }
    let dest_port = read_field16(data, 36);
    if dest_port == DHCP_CLIENT_PORT {
        handle_dhcp(state, data)
    } else {
        None
    }
}

fn handle_icmp(data: &[u8]) -> (r: Option<NetEvent>)
    requires
        data.len() >= IP_PAYLOAD_OFFSET,
        data[23] == PROTOCOL_ICMP,
    ensures
        event_view(r) == ipv4_outcome(data@),
{
    if data.len() < 42 {
        return None;
    }
    if data[34] == 0 {
        Some(NetEvent::PingReply(read_field16(data, 40)))
    } else {
        None
    }
}

/// The shared values after an IPv4 frame was handled.
pub open spec fn state_after_ipv4(state: State, data: Seq<u8>) -> State {
    match ipv4_outcome(data) {
        Some(NetEventView::IpAssigned(ip)) => State { my_ip: packed_octets(ip), ..state },
        _ => state,
    }
}

fn handle_ipv4(state: &mut State, data: &[u8]) -> (r: Option<NetEvent>)
    requires
        data.len() >= ETHERNET_HEADER_LEN,
    ensures
        event_view(r) == ipv4_outcome(data@),
        *final(state) == state_after_ipv4(*old(state), data@),
{
    if data.len() < IP_PAYLOAD_OFFSET {
        return None;
    }
    let protocol = data[23];
    if protocol == PROTOCOL_UDP {
        handle_udp(state, data)
    } else if protocol == PROTOCOL_ICMP {
        handle_icmp(data)
    } else {
        None
    }
}

/// Handles a received frame. An ARP request for the kernel's own address
/// names the sender to reply to; a DHCP message to the client port stores
/// the address it assigns; ARP replies, echo replies and frames of other
/// types are reported. A frame too short for what is read of it is passed
/// over.
pub fn handle_packet(state: &mut State, data: &[u8]) -> (r: Handled)
    ensures
        r@ == frame_outcome(data@),
        *final(state) == state_after(*old(state), data@),
{
    if data.len() < 14 {
        return Handled { reply_to: None, event: None };
    }
    let ethertype = read_field16(data, 12);
    if ethertype == ETHERTYPE_ARP {
        handle_arp(data)
    } else if ethertype == ETHERTYPE_IPV4 {
        let event = handle_ipv4(state, data);
        Handled { reply_to: None, event }
    } else {
        Handled { reply_to: None, event: Some(NetEvent::UnknownType(ethertype)) }
    }
}

} // verus!
