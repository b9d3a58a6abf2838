//! The PS/2 mouse: its packets of three bytes, the pointer's place on the
//! screen, and the pointer's picture with the pixels it hides.

use vstd::prelude::*;
use crate::canvas::{
    copy_square, paint_square, square_of, square_painted, Layout, Paint, POINTER_SIZE,
};

verus! {

pub const DATA_PORT: u16 = 0x60;

pub const STATUS_PORT: u16 = 0x64;

pub const COMMAND_PORT: u16 = 0x64;

/// Largest coordinate the pointer arithmetic is made for.
pub const COORDINATE_LIMIT: usize = 0x7fff_0000;

/// The mouse as the driver sees it.
pub struct Mouse {
    byte_cycle: u8,
    packet: [u8; 3],
    pub x: usize,
    pub y: usize,
    pub prev_x: usize,
    pub prev_y: usize,
    screen_width: usize,
    screen_height: usize,
    /// The pixels the pointer hides.
    saved_background: [u32; 100],
    first_draw: bool,
}

/// The mouse as a mathematical value.
pub struct MouseView {
    /// Bytes of the packet in progress that have arrived.
    pub byte_cycle: u8,
    pub packet: Seq<u8>,
    pub x: usize,
    pub y: usize,
    pub prev_x: usize,
    pub prev_y: usize,
    pub screen_width: usize,
    pub screen_height: usize,
    pub saved_background: Seq<u32>,
    /// The pointer has not been drawn yet.
    pub first_draw: bool,
}

impl View for Mouse {
    type V = MouseView;

    closed spec fn view(&self) -> MouseView {
        MouseView {
            byte_cycle: self.byte_cycle,
            packet: self.packet@,
            x: self.x,
            y: self.y,
            prev_x: self.prev_x,
            prev_y: self.prev_y,
            screen_width: self.screen_width,
            screen_height: self.screen_height,
            saved_background: self.saved_background@,
            first_draw: self.first_draw,
        }
    }
}

/// Movement a packet reports in one direction: the byte, read as
/// negative where the sign bit of the first byte is set.
pub open spec fn movement(byte: u8, negative: bool) -> int {
    if negative {
        byte - 256
    } else {
        byte as int
    }
}

/// `value` held between `low` and `high`.
pub open spec fn clamped(value: int, low: int, high: int) -> int {
    if value < low {
        low
    } else if value > high {
        high
    } else {
        value
    }
}

impl MouseView {
    /// Layout of the screen behind the pointer.
    pub open spec fn layout(self, pitch: usize) -> Layout {
        Layout { width: self.screen_width, height: self.screen_height, pitch }
    }

    /// The arithmetic on positions stays within machine integers: the
    /// screen has room for the pointer and the position is no larger
    /// than the limit.
    pub open spec fn wf(self) -> bool {
        &&& self.packet.len() == 3
        &&& self.saved_background.len() == 100
        &&& POINTER_SIZE <= self.screen_width <= COORDINATE_LIMIT
        &&& POINTER_SIZE <= self.screen_height <= COORDINATE_LIMIT
        &&& self.x <= COORDINATE_LIMIT
        &&& self.y <= COORDINATE_LIMIT
    }

    /// The pointer, and its last place if it was drawn before, lie on
    /// the screen.
    pub open spec fn on_screen(self) -> bool {
        &&& self.x + POINTER_SIZE <= self.screen_width
        &&& self.y + POINTER_SIZE <= self.screen_height
        &&& !self.first_draw ==> self.prev_x + POINTER_SIZE <= self.screen_width && self.prev_y
            + POINTER_SIZE <= self.screen_height
    }

    /// The frame with the pixels the pointer hid put back at its last
    /// place; unchanged before the first draw.
    pub open spec fn restored(self, frame: Seq<u32>, pitch: usize) -> Seq<u32> {
        if self.first_draw {
            frame
        } else {
            square_painted(
                frame,
                self.layout(pitch),
                self.prev_x as int,
                self.prev_y as int,
                Paint::Block(array_of(self.saved_background)),
            )
        }
    }

    /// Mouse and frame after the pointer was redrawn: the pixels it hid
    /// are back, those under its new place are kept, and the pointer is
    /// painted there.
    pub open spec fn redrawn(self, frame: Seq<u32>, pitch: usize) -> (MouseView, Seq<u32>) {
        (
            MouseView {
                saved_background: square_of(
                    self.restored(frame, pitch),
                    self.layout(pitch),
                    self.x as int,
                    self.y as int,
                ),
                first_draw: false,
                ..self
            },
            square_painted(
                self.restored(frame, pitch),
                self.layout(pitch),
                self.x as int,
                self.y as int,
                Paint::Pointer,
            ),
        )
    }

    /// The mouse after the last byte of a packet: the place it had is
    /// remembered, and the new place is the old one moved as the packet
    /// says, right for a positive first movement and up for a positive
    /// second, held on the screen.
    pub open spec fn moved(self, byte: u8) -> MouseView {
        MouseView {
            byte_cycle: 0,
            packet: self.packet.update(2, byte),
            prev_x: self.x,
            prev_y: self.y,
            x: clamped(
                self.x + movement(self.packet[1], self.packet[0] & 0x10 != 0),
                0,
                self.screen_width - POINTER_SIZE,
            ) as usize,
            y: clamped(
                self.y - movement(byte, self.packet[0] & 0x20 != 0),
                0,
                self.screen_height - POINTER_SIZE,
            ) as usize,
            ..self
        }
    }

    /// The mouse after a byte arrived, before any redraw. The first byte
    /// of a packet must have bit 3 set, else it is dropped.
    pub open spec fn fed(self, byte: u8) -> MouseView {
        if self.byte_cycle == 0 {
            if byte & 0x08 != 0 {
                MouseView { packet: self.packet.update(0, byte), byte_cycle: 1, ..self }
            } else {
                self
            }
        } else if self.byte_cycle == 1 {
            MouseView { packet: self.packet.update(1, byte), byte_cycle: 2, ..self }
        } else if self.byte_cycle == 2 {
            self.moved(byte)
        } else {
            MouseView { byte_cycle: 0, ..self }
        }
    }

    /// The byte completes a packet that moves the pointer.
    pub open spec fn moves(self, byte: u8) -> bool {
        self.byte_cycle == 2 && (self.moved(byte).x != self.x || self.moved(byte).y != self.y)
    }

    /// Mouse and frame after a byte arrived: the pointer is redrawn
    /// where a packet moved it.
    pub open spec fn handled(self, frame: Seq<u32>, pitch: usize, byte: u8) -> (
        MouseView,
        Seq<u32>,
    ) {
        if self.moves(byte) {
            self.fed(byte).redrawn(frame, pitch)
        } else {
            (self.fed(byte), frame)
        }
    }
}

/// The array that holds the hundred pixels.
pub closed spec fn array_of(pixels: Seq<u32>) -> [u32; 100] {
    choose|a: [u32; 100]| a@ == pixels
}

/// The array of an array's pixels holds those pixels.
proof fn lemma_array_of(a: [u32; 100])
    ensures
        array_of(a@)@ == a@,
{
}

impl Mouse {
    /// See [`MouseView::wf`].
    pub open spec fn wf(&self) -> bool {
        self@.wf()
    }

    /// The mouse before its first packet: in the middle of a screen of
    /// 1024 by 768, not drawn yet.
    pub fn new() -> (r: Mouse)
        ensures
            r@ == (MouseView {
                byte_cycle: 0,
                packet: seq![0u8, 0u8, 0u8],
                x: 512,
                y: 384,
                prev_x: 512,
                prev_y: 384,
                screen_width: 1024,
                screen_height: 768,
                saved_background: Seq::new(100, |i: int| 0u32),
                first_draw: true,
            }),
            r.wf(),
    {
        let r = Mouse {
            byte_cycle: 0,
            packet: [0u8; 3],
            x: 512,
            y: 384,
            prev_x: 512,
            prev_y: 384,
            screen_width: 1024,
            screen_height: 768,
            saved_background: [0u32; 100],
            first_draw: true,
        };
        proof {
            assert(r.packet@ =~= seq![0u8, 0u8, 0u8]);
            assert(r.saved_background@ =~= Seq::new(100, |i: int| 0u32));
        }
        r
    }

    /// Tells whether the left button was down in the last packet's first
    /// byte.
    pub fn left_button(&self) -> (down: bool)
        ensures
            down == (self@.packet[0] & 0x01 != 0),
    {
        (self.packet[0] & 0x01) != 0
    }
}

/// Tells the mouse the size of the screen and draws the pointer for the
/// first time.
pub fn init(mouse: &mut Mouse, frame: &mut [u32], pitch: usize, width: usize, height: usize)
    requires
        (MouseView { screen_width: width, screen_height: height, ..old(mouse)@ }).on_screen(),
        (MouseView { screen_width: width, screen_height: height, ..old(mouse)@ }).layout(
            pitch,
        ).fits(old(frame)@.len()),
        old(mouse)@.saved_background.len() == 100,
    ensures
        (final(mouse)@, final(frame)@) == (MouseView {
            screen_width: width,
            screen_height: height,
            ..old(mouse)@
        }).redrawn(old(frame)@, pitch),
{
    mouse.screen_width = width;
    mouse.screen_height = height;
    draw_cursor_logic(mouse, frame, pitch);
}

/// Puts back what the pointer hid at its last place, keeps what lies
/// under its new place, and paints it there.
pub fn draw_cursor_logic(mouse: &mut Mouse, frame: &mut [u32], pitch: usize)
    requires
        old(mouse)@.on_screen(),
        old(mouse)@.layout(pitch).fits(old(frame)@.len()),
        old(mouse)@.saved_background.len() == 100,
    ensures
        (final(mouse)@, final(frame)@) == old(mouse)@.redrawn(old(frame)@, pitch),
        final(frame)@.len() == old(frame)@.len(),
{
    let layout = Layout { width: mouse.screen_width, height: mouse.screen_height, pitch };
    if !mouse.first_draw {
        proof {
            lemma_array_of(mouse.saved_background);
        }
        let saved = Paint::Block(mouse.saved_background);
        paint_square(frame, layout, mouse.prev_x, mouse.prev_y, &saved);
        proof {
            assert(frame@ =~= old(mouse)@.restored(old(frame)@, pitch));
        }
    }
    mouse.saved_background = copy_square(frame, layout, mouse.x, mouse.y);
    paint_square(frame, layout, mouse.x, mouse.y, &Paint::Pointer);
    mouse.first_draw = false;
}

/// Takes one byte from the mouse. Three bytes make a packet; the last
/// one moves the pointer, which is then redrawn if its place changed.
pub fn handle_interrupt(mouse: &mut Mouse, frame: &mut [u32], pitch: usize, byte: u8)
    requires
        old(mouse).wf(),
        old(mouse)@.moves(byte) ==> old(mouse)@.fed(byte).on_screen() && old(mouse)@.layout(
            pitch,
        ).fits(old(frame)@.len()),
    ensures
        (final(mouse)@, final(frame)@) == old(mouse)@.handled(old(frame)@, pitch, byte),
{
    if mouse.byte_cycle == 0 {
        if (byte & 0x08) != 0 {
            mouse.packet[0] = byte;
            mouse.byte_cycle += 1;
        }
    } else if mouse.byte_cycle == 1 {
        mouse.packet[1] = byte;
        mouse.byte_cycle += 1;
    } else if mouse.byte_cycle == 2 {
        mouse.packet[2] = byte;
        mouse.byte_cycle = 0;
        let state = mouse.packet[0];
        let mut dx: i32 = mouse.packet[1] as i32;
        let mut dy: i32 = mouse.packet[2] as i32;
        if (state & 0x10) != 0 {
            dx -= 256;
        }
        if (state & 0x20) != 0 {
            dy -= 256;
        }
        mouse.prev_x = mouse.x;
        mouse.prev_y = mouse.y;
        let max_x: i32 = (mouse.screen_width - 10) as i32;
        let max_y: i32 = (mouse.screen_height - 10) as i32;
        let moved_x: i32 = mouse.x as i32 + dx;
        let moved_y: i32 = mouse.y as i32 - dy;
        let x: i32 = if moved_x < 0 {
            0
        } else if moved_x > max_x {
            max_x
        } else {
            moved_x
        };
        let y: i32 = if moved_y < 0 {
            0
        } else if moved_y > max_y {
            max_y
        } else {
            moved_y
        };
        mouse.x = x as usize;
        mouse.y = y as usize;
        if mouse.x != mouse.prev_x || mouse.y != mouse.prev_y {
            draw_cursor_logic(mouse, frame, pitch);
        }
    } else {
        mouse.byte_cycle = 0;
    }
}

} // verus!
