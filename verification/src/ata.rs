//! The ATA drive on the primary bus: what goes into its registers and
//! what its status byte says. Sectors are 512 bytes and travel as 256
//! words, low byte first.

use vstd::prelude::*;

verus! {

pub const DATA_PORT: u16 = 0x1F0;

pub const ERROR_PORT: u16 = 0x1F1;

pub const SECTOR_COUNT_PORT: u16 = 0x1F2;

pub const LBA_LOW_PORT: u16 = 0x1F3;

pub const LBA_MID_PORT: u16 = 0x1F4;

pub const LBA_HIGH_PORT: u16 = 0x1F5;

pub const DRIVE_PORT: u16 = 0x1F6;

pub const COMMAND_PORT: u16 = 0x1F7;

pub const STATUS_PORT: u16 = 0x1F7;

pub const CMD_READ_SECTORS: u8 = 0x20;

pub const CMD_WRITE_SECTORS: u8 = 0x30;

pub const CMD_IDENTIFY: u8 = 0xEC;

/// Status bit: the drive is busy.
pub const STATUS_BUSY: u8 = 0x80;

/// Status bit: the drive wants data moved.
pub const STATUS_DATA_REQUEST: u8 = 0x08;

/// Status bit: the last command failed.
pub const STATUS_ERROR: u8 = 0x01;

/// Words in a sector.
pub const WORDS_PER_SECTOR: usize = 256;

/// One of the two drives on the bus.
pub struct AtaDrive {
    master: bool,
}

/// The values that address a run of sectors, one per register.
#[derive(Debug, Clone, Copy, PartialEq, Eq, Structural)]
pub struct Request {
    pub drive_select: u8,
    pub sector_count: u8,
    pub lba_low: u8,
    pub lba_mid: u8,
    pub lba_high: u8,
}

/// The drive-select value for a transfer in LBA mode: the mode bits, the
/// top four bits of the 28-bit address, and bit 4 for the second drive.
pub open spec fn drive_select_of(master: bool, lba: u32) -> u8 {
    0xE0u8 | (((lba >> 24) as u8) & 0x0F) | if master {
        0u8
    } else {
        0x10u8
    }
}

/// The register values for a transfer of `sectors` sectors from `lba` on.
pub open spec fn request_of(master: bool, lba: u32, sectors: u8) -> Request {
    Request {
        drive_select: drive_select_of(master, lba),
        sector_count: sectors,
        lba_low: lba as u8,
        lba_mid: (lba >> 8) as u8,
        lba_high: (lba >> 16) as u8,
    }
}

/// The bytes of the first `n` words, each word's low byte first.
pub open spec fn bytes_of_words(words: Seq<u16>, n: nat) -> Seq<u8>
    decreases n,
{
    if n == 0 || n > words.len() {
        Seq::empty()
    } else {
        bytes_of_words(words, (n - 1) as nat).push((words[n - 1] & 0xFF) as u8).push(
            (words[n - 1] >> 8) as u8,
        )
    }
}

/// The word made of a low and a high byte.
pub open spec fn word_of(low: u8, high: u8) -> u16 {
    (low as u16) | ((high as u16) << 8)
}

/// The first `n` words of the bytes, each from a low byte and the high
/// byte after it.
pub open spec fn words_of_bytes(bytes: Seq<u8>, n: nat) -> Seq<u16>
    decreases n,
{
    if n == 0 || 2 * n > bytes.len() {
        Seq::empty()
    } else {
        words_of_bytes(bytes, (n - 1) as nat).push(word_of(bytes[2 * n - 2], bytes[2 * n - 1]))
    }
}

impl AtaDrive {
    /// True for the first drive on the bus.
    pub closed spec fn is_master(&self) -> bool {
        self.master
    }

    /// The first drive on the bus where `master` is set, else the second.
    pub fn new(master: bool) -> (r: AtaDrive)
        ensures
            r.is_master() == master,
    {
        AtaDrive { master }
    }

    /// Tells whether this is the first drive on the bus.
    pub fn master(&self) -> (r: bool)
        ensures
            r == self.is_master(),
    {
        self.master
    }

    /// The value that selects this drive for the identify command.
    pub fn identify_select(&self) -> (r: u8)
        ensures
            r == if self.is_master() {
                0xA0u8
            } else {
                0xB0u8
            },
    {
        if self.master {
            0xA0
        } else {
            0xB0
        }
    }

    /// The register values that address `sectors` sectors from `lba` on,
    /// for reading as for writing.
    pub fn request(&self, lba: u32, sectors: u8) -> (r: Request)
        ensures
            r == request_of(self.is_master(), lba, sectors),
    {
        let top = #[verifier::truncate] ((lba >> 24) as u8);
        Request {
            drive_select: 0xE0 | (top & 0x0F) | if self.master {
                0
            } else {
                0x10
            },
            sector_count: sectors,
            lba_low: #[verifier::truncate] (lba as u8),
            lba_mid: #[verifier::truncate] ((lba >> 8) as u8),
            lba_high: #[verifier::truncate] ((lba >> 16) as u8),
        }
    }

    /// The register values for writing `data` from `lba` on: its whole
    /// sectors, counted in eight bits.
    pub fn write_request(&self, lba: u32, data: &[u8]) -> (r: Request)
        ensures
            r == request_of(self.is_master(), lba, (data.len() / 512) as u8),
    {
        let sectors = #[verifier::truncate] ((data.len() / 512) as u8);
        self.request(lba, sectors)
    }
}

/// The words to send to the data port for `data`, which is made of whole
/// sectors: each word from a low byte and the high byte after it.
pub fn sector_words(data: &[u8]) -> (words: Vec<u16>)
    requires
        data.len() % 512 == 0,
    ensures
        words@ == words_of_bytes(data@, (data.len() / 2) as nat),
        words@.len() == data.len() / 2,
{
    proof {
        assert(data.len() / 512 * 256 == data.len() / 2) by (nonlinear_arith)
            requires
                data.len() % 512 == 0,
        ;
    }
    let count = data.len() / 512 * 256;
    let mut words: Vec<u16> = Vec::new();
    let mut i: usize = 0;
    while i < count
        invariant
            i <= count,
            count == data.len() / 2,
            words@ == words_of_bytes(data@, i as nat),
            words@.len() == i,
        decreases count - i,
    {
        let word = (data[2 * i] as u16) | ((data[2 * i + 1] as u16) << 8);
        words.push(word);
        i = i + 1;
    }
    words
}

/// Tells from the status byte whether the drive is busy.
pub fn is_busy(status: u8) -> (r: bool)
    ensures
        r == (status & STATUS_BUSY != 0),
{
    (status & STATUS_BUSY) != 0
}

/// Tells from the status byte whether the drive wants data moved.
pub fn wants_data(status: u8) -> (r: bool)
    ensures
        r == (status & STATUS_DATA_REQUEST != 0),
{
    (status & STATUS_DATA_REQUEST) != 0
}

/// Tells from the status byte whether the last command failed.
pub fn has_error(status: u8) -> (r: bool)
    ensures
        r == (status & STATUS_ERROR != 0),
{
    (status & STATUS_ERROR) != 0
}

/// The bytes of the words read from the data port, each word's low byte
/// first.
pub fn sector_bytes(words: &[u16]) -> (bytes: Vec<u8>)
    ensures
        bytes@ == bytes_of_words(words@, words@.len()),
        bytes@.len() == 2 * words@.len(),
{
    let mut bytes: Vec<u8> = Vec::new();
    let mut i: usize = 0;
    while i < words.len()
        invariant
            i <= words.len(),
            bytes@ == bytes_of_words(words@, i as nat),
            bytes@.len() == 2 * i,
        decreases words.len() - i,
    {
        let word = words[i];
        bytes.push((word & 0xFF) as u8);
        bytes.push((word >> 8) as u8);
        i = i + 1;
    }
    bytes
}

/// The first words of some bytes depend on the first bytes alone.
proof fn lemma_words_of_start(a: Seq<u8>, b: Seq<u8>, n: nat)
    requires
        2 * n <= a.len(),
        2 * n <= b.len(),
        forall|i: int| 0 <= i < 2 * n ==> a[i] == b[i],
    ensures
        words_of_bytes(a, n) == words_of_bytes(b, n),
    decreases n,
{
    if n > 0 {
        lemma_words_of_start(a, b, (n - 1) as nat);
    }
}

/// Words sent as bytes arrive as the same words: the bytes of the first
/// `n` words, taken as words again, are those `n` words.
pub proof fn lemma_words_read_back(words: Seq<u16>, n: nat)
    requires
        n <= words.len(),
    ensures
        bytes_of_words(words, n).len() == 2 * n,
        words_of_bytes(bytes_of_words(words, n), n) == words.take(n as int),
    decreases n,
{
    if n == 0 {
        assert(words.take(0) =~= Seq::<u16>::empty());
    } else {
        let shorter = bytes_of_words(words, (n - 1) as nat);
        let all = bytes_of_words(words, n);
        let w = words[n - 1];
        lemma_words_read_back(words, (n - 1) as nat);
        lemma_words_of_start(all, shorter, (n - 1) as nat);
        assert(word_of((w & 0xFF) as u8, (w >> 8) as u8) == w) by {
            assert((((w & 0xFF) as u8) as u16) | ((((w >> 8) as u8) as u16) << 8) == w)
                by (bit_vector);
        }
        assert(all[2 * n - 2] == (w & 0xFF) as u8);
        assert(all[2 * n - 1] == (w >> 8) as u8);
        assert(words.take(n as int) =~= words.take(n - 1).push(w));
    }
}

} // verus!
