//! The RTL8139 network card: its registers, the frames the kernel sends
//! through it, and the check of its receive buffer.

use vstd::prelude::*;
use crate::net::{frame_outcome, handle_packet, state_after, Handled};
use crate::pci::PciDevice;
use crate::state::State;
use crate::strings::push_char;

verus! {

pub const REG_MAC: u16 = 0x00;

pub const REG_TSD0: u16 = 0x10;

pub const REG_TSAD0: u16 = 0x20;

pub const REG_RBSTART: u16 = 0x30;

pub const REG_CMD: u16 = 0x37;

pub const REG_CAPR: u16 = 0x38;

pub const REG_IMR: u16 = 0x3C;

pub const REG_ISR: u16 = 0x3E;

pub const REG_TCR: u16 = 0x40;

pub const REG_RCR: u16 = 0x44;

/// Physical address of the receive buffer.
pub const RX_BUFFER_PHYS: u32 = 0x0060_0000;

/// Physical address of the transmit buffer.
pub const TX_BUFFER_PHYS: u32 = 0x0061_0000;

/// Bytes of the receive buffer that are cleared at start.
pub const RX_BUFFER_LEN: usize = 8192;

/// Bytes of the transmit buffer that are cleared at start.
pub const TX_BUFFER_LEN: usize = 2048;

/// Shortest frame the card sends.
pub const MIN_FRAME_LEN: usize = 60;

/// Receive configuration: accept broadcast, multicast, matching and all
/// frames, and wrap.
pub const RCR_ACCEPT_ALL: u32 = 0xCF;

/// Command: reset.
pub const CMD_RESET: u8 = 0x10;

/// Command: enable receiver and transmitter.
pub const CMD_ENABLE: u8 = 0x0C;

/// Bit of a transmit status that reports success.
pub const TX_OK: u32 = 0x8000;

/// The card as the driver sees it.
pub struct Rtl8139 {
    io_base: u16,
    mac_addr: [u8; 6],
    /// Address of the receive buffer in the kernel's address space.
    rx_buffer_ptr: u64,
    /// Address of the transmit buffer in the kernel's address space.
    tx_buffer_ptr: u64,
    /// Transmit descriptor the next frame goes to.
    tx_cur: u8,
}

/// The card as a mathematical value.
pub struct CardView {
    pub io_base: u16,
    pub mac: Seq<u8>,
    pub rx_buffer: u64,
    pub tx_buffer: u64,
    pub tx_cur: u8,
}

impl View for Rtl8139 {
    type V = CardView;

    closed spec fn view(&self) -> CardView {
        CardView {
            io_base: self.io_base,
            mac: self.mac_addr@,
            rx_buffer: self.rx_buffer_ptr,
            tx_buffer: self.tx_buffer_ptr,
            tx_cur: self.tx_cur,
        }
    }
}

/// A frame to transmit and the registers that start the transmission.
pub struct Transmission {
    /// Bytes to put at the start of the transmit buffer.
    pub frame: Vec<u8>,
    /// Port of the descriptor's address register.
    pub address_port: u16,
    /// Physical address to write there.
    pub address: u32,
    /// Port of the descriptor's status register.
    pub status_port: u16,
    /// Length to write there, which starts the transmission.
    pub length: u32,
}

/// The sum of two numbers, cut to 32 bits.
pub open spec fn plus32(a: u32, b: u32) -> u32 {
    if a + b > u32::MAX {
        (a + b - 0x1_0000_0000) as u32
    } else {
        (a + b) as u32
    }
}

/// Sum of the first `n` 16-bit words of the bytes, most significant byte
/// first, cut to 32 bits after every addition.
pub open spec fn word_sum(bytes: Seq<u8>, n: nat) -> u32
    decreases n,
{
    if n == 0 || 2 * n > bytes.len() {
        0
    } else {
        plus32(
            word_sum(bytes, (n - 1) as nat),
            ((bytes[2 * n - 2] as u32) << 8) | (bytes[2 * n - 1] as u32),
        )
    }
}

/// A sum with its carries added back in until none is left.
pub open spec fn folded(sum: u32) -> u32
    decreases sum,
{
    if sum >> 16 == 0 {
        sum
    } else if (sum & 0xFFFF) + (sum >> 16) < sum {
        folded(((sum & 0xFFFF) + (sum >> 16)) as u32)
    } else {
        sum
    }
}

/// The Internet checksum of a header of whole 16-bit words: the
/// complement of the folded sum of its words.
pub open spec fn ip_checksum(header: Seq<u8>) -> u16 {
    (!folded(word_sum(header, (header.len() / 2) as nat))) as u16
}

/// The six bytes of the broadcast address.
pub open spec fn broadcast() -> Seq<u8> {
    Seq::new(6, |i: int| 0xFFu8)
}

/// `frame`, padded with zeros to the shortest frame the card sends.
pub open spec fn padded(frame: Seq<u8>) -> Seq<u8> {
    if frame.len() < MIN_FRAME_LEN {
        frame + Seq::new((MIN_FRAME_LEN - frame.len()) as nat, |i: int| 0u8)
    } else {
        frame
    }
}

/// The IPv4 header of a DHCP discover, its checksum field zero: 272
/// bytes in all, UDP, from 0.0.0.0 to 255.255.255.255.
pub open spec fn discover_ip_header() -> Seq<u8> {
    seq![
        0x45u8, 0x00, 0x01, 0x10, 0x00, 0x00, 0x00, 0x00, 0x40, 17, 0x00, 0x00, 0x00, 0x00, 0x00,
        0x00, 0xFF, 0xFF, 0xFF, 0xFF,
    ]
}

/// The header with its checksum filled in.
pub open spec fn with_checksum(header: Seq<u8>) -> Seq<u8> {
    header.update(10, (ip_checksum(header) >> 8) as u8).update(
        11,
        (ip_checksum(header) & 0xFF) as u8,
    )
}

/// The DHCP discover frame of a card with address `mac`: sent to
/// everybody, from port 68 to port 67, with transaction id 0x12345678 and
/// the options "discover" and "end".
pub open spec fn discover_frame(mac: Seq<u8>) -> Seq<u8> {
    broadcast() + mac + seq![0x08u8, 0x00] + with_checksum(discover_ip_header()) + seq![
        0x00u8, 68, 0x00, 67, 0x00, 0xFC, 0x00, 0x00,
    ] + seq![0x01u8, 0x01, 0x06, 0x00, 0x12, 0x34, 0x56, 0x78, 0x00, 0x00, 0x00, 0x00] + Seq::new(
        16,
        |i: int| 0u8,
    ) + mac + Seq::new(10, |i: int| 0u8) + Seq::new(192, |i: int| 0u8) + seq![
        0x63u8, 0x82, 0x53, 0x63, 53, 1, 1, 255,
    ]
}

/// The greeting frame of a card with address `mac`: sent to everybody
/// with the kernel's name as payload.
pub open spec fn hello_frame(mac: Seq<u8>) -> Seq<u8> {
    padded(
        broadcast() + mac + seq![0x08u8, 0x00] + seq![0x43u8, 0x48, 0x52, 0x4f, 0x4e, 0x4f, 0x53],
    )
}

/// The ARP request of a card with address `mac` that has no IP address
/// yet: who has 10.0.2.2?
pub open spec fn arp_frame(mac: Seq<u8>) -> Seq<u8> {
    padded(
        broadcast() + mac + seq![0x08u8, 0x06] + seq![0x00u8, 0x01, 0x08, 0x00, 0x06, 0x04, 0x00, 0x01]
            + mac + Seq::new(4, |i: int| 0u8) + Seq::new(6, |i: int| 0u8) + seq![10u8, 0, 2, 2],
    )
}

impl CardView {
    /// The card after a transmission: the next descriptor of the four is
    /// in turn.
    pub open spec fn advanced(self) -> CardView {
        CardView { tx_cur: ((self.tx_cur + 1) % 4) as u8, ..self }
    }

    /// Port of the status register of the descriptor in turn.
    pub open spec fn status_port(self) -> int {
        self.io_base + REG_TSD0 + self.tx_cur * 4
    }

    /// Port of the address register of the descriptor in turn.
    pub open spec fn address_port(self) -> int {
        self.io_base + REG_TSAD0 + self.tx_cur * 4
    }

    /// The ports of the descriptor in turn are ports.
    pub open spec fn can_send(self) -> bool {
        self.tx_cur < 4 && self.io_base + REG_TSAD0 + 12 <= u16::MAX
    }
}

/// `t` sends `frame` through the descriptor that is in turn on `card`.
pub open spec fn transmits(t: Transmission, card: CardView, frame: Seq<u8>) -> bool {
    &&& t.frame@ == frame
    &&& t.address_port == card.address_port()
    &&& t.address == TX_BUFFER_PHYS
    &&& t.status_port == card.status_port()
    &&& t.length == frame.len()
}

/// Appends `count` times `byte`.
fn push_repeated(out: &mut Vec<u8>, byte: u8, count: usize)
    ensures
        final(out)@ == old(out)@ + Seq::new(count as nat, |i: int| byte),
{
    let mut i: usize = 0;
    while i < count
        invariant
            i <= count,
            out@ == old(out)@ + Seq::new(i as nat, |k: int| byte),
        decreases count - i,
    {
        out.push(byte);
        i = i + 1;
        proof {
            assert(out@ =~= old(out)@ + Seq::new(i as nat, |k: int| byte));
        }
    }
}

/// Appends `bytes`.
fn push_all(out: &mut Vec<u8>, bytes: &[u8])
    ensures
        final(out)@ == old(out)@ + bytes@,
{
    let mut i: usize = 0;
    while i < bytes.len()
        invariant
            i <= bytes.len(),
            out@ == old(out)@ + bytes@.take(i as int),
        decreases bytes.len() - i,
    {
        out.push(bytes[i]);
        i = i + 1;
        proof {
            assert(out@ =~= old(out)@ + bytes@.take(i as int));
        }
    }
    proof {
        assert(bytes@.take(bytes.len() as int) =~= bytes@);
    }
}

/// Pads with zeros to the shortest frame the card sends.
fn pad_frame(out: &mut Vec<u8>)
    ensures
        final(out)@ == padded(old(out)@),
{
    if out.len() < MIN_FRAME_LEN {
        let missing = MIN_FRAME_LEN - out.len();
        push_repeated(out, 0, missing);
    }
}

/// The lower-case hexadecimal digit for a value below sixteen.
pub open spec fn hex_digit(value: u8) -> char {
    if value < 10 {
        (48u8 + value) as char
    } else {
        (97u8 + (value - 10)) as char
    }
}

/// A byte as two lower-case hexadecimal digits.
pub open spec fn hex_byte(byte: u8) -> Seq<char> {
    seq![hex_digit(byte / 16), hex_digit(byte % 16)]
}

/// The line that shows a hardware address: its bytes in hexadecimal,
/// separated by colons.
pub open spec fn mac_line(mac: Seq<u8>) -> Seq<char> {
    "[NET] MAC: "@ + hex_byte(mac[0]) + seq![':'] + hex_byte(mac[1]) + seq![':'] + hex_byte(mac[2])
        + seq![':'] + hex_byte(mac[3]) + seq![':'] + hex_byte(mac[4]) + seq![':'] + hex_byte(mac[5])
        + seq!['\n']
}

/// Appends a byte as two hexadecimal digits.
pub fn push_hex_byte(s: &mut String, byte: u8)
    ensures
        final(s)@ == old(s)@ + hex_byte(byte),
{
    let high = byte / 16;
    let low = byte % 16;
    let high_digit = if high < 10 {
        (48u8 + high) as char
    } else {
        (97u8 + (high - 10)) as char
    };
    let low_digit = if low < 10 {
        (48u8 + low) as char
    } else {
        (97u8 + (low - 10)) as char
    };
    push_char(s, high_digit);
    push_char(s, low_digit);
    proof {
        assert(s@ =~= old(s)@ + hex_byte(byte));
    }
}

impl Rtl8139 {
    /// The driver's view of the card behind `device`, given what its
    /// first base address register reads as, the hardware address read
    /// from the card, and the offset at which physical memory is mapped:
    /// the port base is the register without its two lowest bits, cut to
    /// sixteen bits, and the buffers lie at their physical addresses
    /// behind the offset.
    pub fn new(device: &PciDevice, bar0: u32, mac: [u8; 6], hhdm: u64) -> (r: Rtl8139)
        requires
            hhdm + TX_BUFFER_PHYS <= u64::MAX,
        ensures
            r@ == (CardView {
                io_base: (bar0 & !0x3u32) as u16,
                mac: mac@,
                rx_buffer: (hhdm + RX_BUFFER_PHYS) as u64,
                tx_buffer: (hhdm + TX_BUFFER_PHYS) as u64,
                tx_cur: 0,
            }),
    {
        Rtl8139 {
            io_base: #[verifier::truncate] ((bar0 & !0x3u32) as u16),
            mac_addr: mac,
            rx_buffer_ptr: hhdm + (RX_BUFFER_PHYS as u64),
            tx_buffer_ptr: hhdm + (TX_BUFFER_PHYS as u64),
            tx_cur: 0,
        }
    }

    /// Base of the card's ports.
    pub fn io_base(&self) -> (r: u16)
        ensures
            r == self@.io_base,
    {
        self.io_base
    }

    /// The card's hardware address.
    pub fn mac_addr(&self) -> (r: [u8; 6])
        ensures
            r@ == self@.mac,
    {
        self.mac_addr
    }

    /// Address of the receive buffer.
    pub fn rx_buffer_ptr(&self) -> (r: u64)
        ensures
            r == self@.rx_buffer,
    {
        self.rx_buffer_ptr
    }

    /// Address of the transmit buffer.
    pub fn tx_buffer_ptr(&self) -> (r: u64)
        ensures
            r == self@.tx_buffer,
    {
        self.tx_buffer_ptr
    }

    /// The Internet checksum of a header made of whole 16-bit words.
    pub fn calc_ip_checksum(&self, header: &[u8]) -> (r: u16)
        requires
            header.len() % 2 == 0,
        ensures
            r == ip_checksum(header@),
    {
        let words = header.len() / 2;
        let mut sum: u32 = 0;
        let mut i: usize = 0;
        while i < words
            invariant
                i <= words,
                words == header.len() / 2,
                header.len() % 2 == 0,
                sum == word_sum(header@, i as nat),
            decreases words - i,
        {
            let word = ((header[2 * i] as u32) << 8) | (header[2 * i + 1] as u32);
            sum = sum.wrapping_add(word);
            i = i + 1;
        }
        let ghost start = sum;
        while (sum >> 16) != 0
            invariant
                folded(start) == folded(sum),
            decreases sum,
        {
            proof {
                let s = sum;
                assert((s & 0xFFFF) + (s >> 16) < s) by (bit_vector)
                    requires
                        s >> 16 != 0,
                ;
            }
            sum = (sum & 0xFFFF) + (sum >> 16);
        }
        #[verifier::truncate]
        (!sum as u16)
    }

    /// The line that shows the card's hardware address.
    pub fn log_mac(&self) -> (line: String)
        ensures
            line@ == mac_line(self@.mac),
    {
        let m = self.mac_addr;
        let mut line = String::new();
        line.append("[NET] MAC: ");
        push_hex_byte(&mut line, m[0]);
        push_char(&mut line, ':');
        push_hex_byte(&mut line, m[1]);
        push_char(&mut line, ':');
        push_hex_byte(&mut line, m[2]);
        push_char(&mut line, ':');
        push_hex_byte(&mut line, m[3]);
        push_char(&mut line, ':');
        push_hex_byte(&mut line, m[4]);
        push_char(&mut line, ':');
        push_hex_byte(&mut line, m[5]);
        push_char(&mut line, '\n');
        proof {
            assert(line@ =~= mac_line(self@.mac));
        }
        line
    }

    /// Hands `frame` to the descriptor in turn and lets the next one take
    /// its turn.
    fn transmit(&mut self, frame: Vec<u8>) -> (t: Transmission)
        requires
            old(self)@.can_send(),
            frame.len() <= u32::MAX,
        ensures
            transmits(t, old(self)@, frame@),
            final(self)@ == old(self)@.advanced(),
            final(self)@.can_send(),
    {
        let status_offset = REG_TSD0 + (self.tx_cur as u16 * 4);
        let address_offset = REG_TSAD0 + (self.tx_cur as u16 * 4);
        let length = frame.len() as u32;
        let t = Transmission {
            frame,
            address_port: self.io_base + address_offset,
            address: TX_BUFFER_PHYS,
            status_port: self.io_base + status_offset,
            length,
        };
        self.tx_cur = (self.tx_cur + 1) % 4;
        t
    }

    /// Builds a DHCP discover with a checked IPv4 header and hands it to
    /// the descriptor in turn.
    pub fn send_dhcp_discover(&mut self) -> (t: Transmission)
        requires
            old(self)@.can_send(),
        ensures
            transmits(t, old(self)@, discover_frame(old(self)@.mac)),
            final(self)@ == old(self)@.advanced(),
            final(self)@.can_send(),
    {
        let mac = self.mac_addr;
        let mut frame: Vec<u8> = Vec::new();
        push_repeated(&mut frame, 0xFF, 6);
        push_all(&mut frame, mac.as_slice());
        frame.push(0x08);
        frame.push(0x00);
        let mut ip_header: [u8; 20] = [
            0x45, 0x00, 0x01, 0x10, 0x00, 0x00, 0x00, 0x00, 0x40, 17, 0x00, 0x00, 0x00, 0x00, 0x00,
            0x00, 0xFF, 0xFF, 0xFF, 0xFF,
        ];
        proof {
            assert(ip_header@ =~= discover_ip_header());
        }
        let csum = self.calc_ip_checksum(ip_header.as_slice());
        ip_header[10] = (csum >> 8) as u8;
        ip_header[11] = (csum & 0xFF) as u8;
        proof {
            assert(ip_header@ =~= with_checksum(discover_ip_header()));
        }
        push_all(&mut frame, ip_header.as_slice());
        let udp: [u8; 8] = [0x00, 68, 0x00, 67, 0x00, 0xFC, 0x00, 0x00];
        push_all(&mut frame, udp.as_slice());
        let head: [u8; 12] = [0x01, 0x01, 0x06, 0x00, 0x12, 0x34, 0x56, 0x78, 0x00, 0x00, 0x00, 0x00];
        push_all(&mut frame, head.as_slice());
        push_repeated(&mut frame, 0x00, 16);
        push_all(&mut frame, mac.as_slice());
        push_repeated(&mut frame, 0x00, 10);
        push_repeated(&mut frame, 0x00, 192);
        let tail: [u8; 8] = [0x63, 0x82, 0x53, 0x63, 53, 1, 1, 255];
        push_all(&mut frame, tail.as_slice());
        proof {
            assert(Seq::new(6, |i: int| 0xFFu8) =~= broadcast());
            assert(udp@ =~= seq![0x00u8, 68, 0x00, 67, 0x00, 0xFC, 0x00, 0x00]);
            assert(head@ =~= seq![
                0x01u8, 0x01, 0x06, 0x00, 0x12, 0x34, 0x56, 0x78, 0x00, 0x00, 0x00, 0x00,
            ]);
            assert(tail@ =~= seq![0x63u8, 0x82, 0x53, 0x63, 53, 1, 1, 255]);
            assert(frame@ =~= discover_frame(self@.mac));
        }
        self.transmit(frame)
    }

    /// Builds the greeting frame and hands it to the descriptor in turn.
    pub fn send_hello(&mut self) -> (t: Transmission)
        requires
            old(self)@.can_send(),
        ensures
            transmits(t, old(self)@, hello_frame(old(self)@.mac)),
            final(self)@ == old(self)@.advanced(),
            final(self)@.can_send(),
    {
        let mac = self.mac_addr;
        let mut frame: Vec<u8> = Vec::new();
        push_repeated(&mut frame, 0xFF, 6);
        push_all(&mut frame, mac.as_slice());
        frame.push(0x08);
        frame.push(0x00);
        let payload: [u8; 7] = [0x43, 0x48, 0x52, 0x4f, 0x4e, 0x4f, 0x53];
        push_all(&mut frame, payload.as_slice());
        proof {
            assert(Seq::new(6, |i: int| 0xFFu8) =~= broadcast());
            assert(payload@ =~= seq![0x43u8, 0x48, 0x52, 0x4f, 0x4e, 0x4f, 0x53]);
            assert(frame@ =~= broadcast() + self@.mac + seq![0x08u8, 0x00] + seq![
                0x43u8, 0x48, 0x52, 0x4f, 0x4e, 0x4f, 0x53,
            ]);
        }
        pad_frame(&mut frame);
        self.transmit(frame)
    }

    /// Builds an ARP request for the gateway's address and hands it to
    /// the descriptor in turn.
    pub fn send_arp(&mut self) -> (t: Transmission)
        requires
            old(self)@.can_send(),
        ensures
            transmits(t, old(self)@, arp_frame(old(self)@.mac)),
            final(self)@ == old(self)@.advanced(),
            final(self)@.can_send(),
    {
        let mac = self.mac_addr;
        let mut frame: Vec<u8> = Vec::new();
        push_repeated(&mut frame, 0xFF, 6);
        push_all(&mut frame, mac.as_slice());
        frame.push(0x08);
        frame.push(0x06);
        let head: [u8; 8] = [0x00, 0x01, 0x08, 0x00, 0x06, 0x04, 0x00, 0x01];
        push_all(&mut frame, head.as_slice());
        push_all(&mut frame, mac.as_slice());
        push_repeated(&mut frame, 0x00, 4);
        push_repeated(&mut frame, 0x00, 6);
        let target: [u8; 4] = [10, 0, 2, 2];
        push_all(&mut frame, target.as_slice());
        proof {
            assert(Seq::new(6, |i: int| 0xFFu8) =~= broadcast());
            assert(head@ =~= seq![0x00u8, 0x01, 0x08, 0x00, 0x06, 0x04, 0x00, 0x01]);
            assert(target@ =~= seq![10u8, 0, 2, 2]);
            assert(frame@ =~= broadcast() + self@.mac + seq![0x08u8, 0x06] + seq![
                0x00u8, 0x01, 0x08, 0x00, 0x06, 0x04, 0x00, 0x01,
            ] + self@.mac + Seq::new(4, |i: int| 0u8) + Seq::new(6, |i: int| 0u8) + seq![
                10u8, 0, 2, 2,
            ]);
        }
        pad_frame(&mut frame);
        self.transmit(frame)
    }
}

/// Tells from a transmit status whether the frame went out.
pub fn transmit_ok(status: u32) -> (ok: bool)
    ensures
        ok == (status & TX_OK != 0),
{
    (status & TX_OK) != 0
}

/// What a look at the receive buffer found.
pub struct Sniffed {
    /// Outcome of the frame that was handled, if one was.
    pub handled: Option<Handled>,
    /// The buffer's first four bytes are to be cleared for the next
    /// frame.
    pub clear_header: bool,
}

/// The word the card puts in front of a received frame, least
/// significant byte first; its upper half is the frame's length.
pub open spec fn receive_header(rx: Seq<u8>) -> u32 {
    (rx[0] as u32) | ((rx[1] as u32) << 8) | ((rx[2] as u32) << 16) | ((rx[3] as u32) << 24)
}

/// Length of the received frame.
pub open spec fn received_len(rx: Seq<u8>) -> int {
    (receive_header(rx) >> 16) as int
}

/// The buffer holds a frame to handle: its header is set and gives a
/// length above 0 and below 2000.
pub open spec fn holds_frame(rx: Seq<u8>) -> bool {
    receive_header(rx) != 0 && 0 < received_len(rx) < 2000
}

/// Looks for a received frame in the receive buffer `rx` and handles it.
/// A header that is set is to be cleared afterwards, whether its frame
/// was handled or not.
pub fn sniff_packet(state: &mut State, rx: &[u8]) -> (r: Sniffed)
    requires
        rx.len() >= 2004,
    ensures
        r.clear_header == (receive_header(rx@) != 0),
        match r.handled {
            Some(handled) => holds_frame(rx@) && handled@ == frame_outcome(
                rx@.subrange(4, 4 + received_len(rx@)),
            ),
            None => !holds_frame(rx@),
        },
        *final(state) == if holds_frame(rx@) {
            state_after(*old(state), rx@.subrange(4, 4 + received_len(rx@)))
        } else {
            *old(state)
        },
{
    let header = (rx[0] as u32) | ((rx[1] as u32) << 8) | ((rx[2] as u32) << 16) | ((rx[3] as u32)
        << 24);
    if header != 0 {
        let length = (header >> 16) as usize;
        if length > 0 && length < 2000 {
            let packet = vstd::slice::slice_subrange(rx, 4, 4 + length);
            let handled = handle_packet(state, packet);
            return Sniffed { handled: Some(handled), clear_header: true };
        }
        return Sniffed { handled: None, clear_header: true };
    }
    Sniffed { handled: None, clear_header: false }
}

} // verus!
