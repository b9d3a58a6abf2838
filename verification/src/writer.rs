//! The boot console: text drawn straight onto the screen's frame.

use vstd::prelude::*;
use crate::canvas::{draw_glyph, fill_rect, glyph_painted, rect_painted, Layout};
use crate::font::{glyph_for, shown_rows, GLYPH_WIDTH};
use crate::logger::{log, logged, Logger};
use crate::strings::chars_of;

verus! {

/// Rows between two lines beyond the height of the font.
pub const LINE_SPACING: usize = 2;

/// Columns between two characters beyond the width of a glyph.
pub const LETTER_SPACING: usize = 0;

/// Distance of the text from the left and top edge.
pub const BORDER_PADDING: usize = 10;

/// Columns a backspace goes back.
pub const CHAR_WIDTH_GUESS: usize = 9;

/// Colour of the screen behind the text.
pub const BACKGROUND: u32 = 0x00102040;

/// Rows from one line to the next.
pub const LINE_STEP: usize = 18;

/// The console's place on the screen.
#[derive(Debug, Clone, Copy, PartialEq, Eq, Structural)]
pub struct Writer {
    /// Address of the frame.
    pub video_ptr: u64,
    pub width: usize,
    pub height: usize,
    /// Pixels from one row to the next.
    pub pitch: usize,
    pub cursor_x: usize,
    pub cursor_y: usize,
}

impl Writer {
    /// Size and layout of the frame.
    pub open spec fn layout(self) -> Layout {
        Layout { width: self.width, height: self.height, pitch: self.pitch }
    }

    /// The console can draw on a frame of `len` pixels: the frame has
    /// room for the screen, and the cursor is on the screen or just
    /// beyond it.
    pub open spec fn ready(self, len: nat) -> bool {
        &&& self.layout().fits(len)
        &&& self.width + 128 <= usize::MAX
        &&& self.height + 128 <= usize::MAX
        &&& self.cursor_x <= self.width + 32
        &&& self.cursor_y <= self.height + 32
    }

    /// Console and frame after the screen was cleared: every visible
    /// pixel has the background colour and the cursor is at the top left.
    pub open spec fn cleared(self, frame: Seq<u32>) -> (Writer, Seq<u32>) {
        (
            Writer { cursor_x: BORDER_PADDING, cursor_y: BORDER_PADDING, ..self },
            rect_painted(frame, self.layout(), 0, 0, self.width as int, self.height as int, BACKGROUND),
        )
    }

    /// Console and frame after a line feed: the cursor is at the start of
    /// the next line; where that line does not fit, the screen is cleared
    /// instead.
    pub open spec fn fed(self, frame: Seq<u32>) -> (Writer, Seq<u32>) {
        if self.cursor_y + LINE_STEP + 20 > self.height {
            self.cleared(frame)
        } else {
            (
                Writer {
                    cursor_x: BORDER_PADDING,
                    cursor_y: (self.cursor_y + LINE_STEP) as usize,
                    ..self
                },
                frame,
            )
        }
    }

    /// Console and frame after a backspace: the cursor is nine columns
    /// back and the cell it now stands on is blank; nothing happens
    /// within nine columns of the left edge.
    pub open spec fn erased(self, frame: Seq<u32>) -> (Writer, Seq<u32>) {
        if self.cursor_x >= CHAR_WIDTH_GUESS {
            (
                Writer { cursor_x: (self.cursor_x - CHAR_WIDTH_GUESS) as usize, ..self },
                rect_painted(
                    frame,
                    self.layout(),
                    self.cursor_x - CHAR_WIDTH_GUESS,
                    self.cursor_y as int,
                    CHAR_WIDTH_GUESS as int,
                    16,
                    BACKGROUND,
                ),
            )
        } else {
            (self, frame)
        }
    }

    /// Console and frame after the glyph of `c` was drawn at the cursor.
    pub open spec fn drawn(self, frame: Seq<u32>, c: char) -> (Writer, Seq<u32>) {
        (
            Writer { cursor_x: (self.cursor_x + GLYPH_WIDTH + LETTER_SPACING) as usize, ..self },
            glyph_painted(
                frame,
                self.layout(),
                shown_rows(c),
                self.cursor_x as int,
                self.cursor_y as int,
            ),
        )
    }

    /// Console and frame after character `c` was written: a line feed
    /// starts the next line, a backspace erases, and any other character
    /// is drawn, on the next line where fewer than ten columns are left
    /// on this one.
    pub open spec fn written(self, frame: Seq<u32>, c: char) -> (Writer, Seq<u32>) {
        if c == '\n' {
            self.fed(frame)
        } else if c == '\x08' {
            self.erased(frame)
        } else if self.cursor_x + 10 >= self.width {
            self.fed(frame).0.drawn(self.fed(frame).1, c)
        } else {
            self.drawn(frame, c)
        }
    }

    /// Console and frame after `text` was written, character by
    /// character.
    pub open spec fn written_all(self, frame: Seq<u32>, text: Seq<char>) -> (Writer, Seq<u32>)
        decreases text.len(),
    {
        if text.len() == 0 {
            (self, frame)
        } else {
            let before = self.written_all(frame, text.drop_last());
            before.0.written(before.1, text.last())
        }
    }

    /// A console for a screen of the given size whose frame lies at
    /// `video_ptr`, the cursor at the top left.
    pub fn init(video_ptr: u64, width: usize, height: usize, pitch: usize) -> (r: Writer)
        ensures
            r == (Writer {
                video_ptr,
                width,
                height,
                pitch,
                cursor_x: BORDER_PADDING,
                cursor_y: BORDER_PADDING,
            }),
    {
        Writer {
            video_ptr,
            width,
            height,
            pitch,
            cursor_x: BORDER_PADDING,
            cursor_y: BORDER_PADDING,
        }
    }

    /// Paints the whole screen in the background colour and puts the
    /// cursor at the top left.
    pub fn clear(&mut self, frame: &mut [u32])
        requires
            old(self).layout().fits(old(frame)@.len()),
        ensures
            (*final(self), final(frame)@) == old(self).cleared(old(frame)@),
    {
        fill_rect(
            frame,
            Layout { width: self.width, height: self.height, pitch: self.pitch },
            0,
            0,
            self.width,
            self.height,
            BACKGROUND,
        );
        self.cursor_x = BORDER_PADDING;
        self.cursor_y = BORDER_PADDING;
    }

    /// Starts the next line, or clears the screen where it is full.
    pub fn new_line(&mut self, frame: &mut [u32])
        requires
            old(self).ready(old(frame)@.len()),
        ensures
            (*final(self), final(frame)@) == old(self).fed(old(frame)@),
            final(self).ready(final(frame)@.len()),
            final(frame)@.len() == old(frame)@.len(),
    {
        self.cursor_y += 16 + LINE_SPACING;
        self.cursor_x = BORDER_PADDING;
        if self.cursor_y + 20 > self.height {
            self.clear(frame);
        }
    }

    /// Steps back by one character and blanks it.
    pub fn backspace(&mut self, frame: &mut [u32])
        requires
            old(self).ready(old(frame)@.len()),
        ensures
            (*final(self), final(frame)@) == old(self).erased(old(frame)@),
            final(self).ready(final(frame)@.len()),
            final(frame)@.len() == old(frame)@.len(),
    {
        if self.cursor_x >= CHAR_WIDTH_GUESS {
            self.cursor_x -= CHAR_WIDTH_GUESS;
            fill_rect(
                frame,
                Layout { width: self.width, height: self.height, pitch: self.pitch },
                self.cursor_x,
                self.cursor_y,
                CHAR_WIDTH_GUESS,
                16,
                BACKGROUND,
            );
        }
    }

    /// Draws the glyph of `c` at the cursor and advances the cursor.
    pub fn draw_raster_char(&mut self, frame: &mut [u32], c: char)
        requires
            old(self).layout().fits(old(frame)@.len()),
            old(self).cursor_x + GLYPH_WIDTH <= usize::MAX,
        ensures
            (*final(self), final(frame)@) == old(self).drawn(old(frame)@, c),
            final(frame)@.len() == old(frame)@.len(),
    {
        let glyph = glyph_for(c);
        draw_glyph(
            frame,
            Layout { width: self.width, height: self.height, pitch: self.pitch },
            &glyph,
            self.cursor_x,
            self.cursor_y,
        );
        self.cursor_x += glyph.width + LETTER_SPACING;
    }

    /// Writes one character at the cursor.
    pub fn write_char(&mut self, frame: &mut [u32], c: char)
        requires
            old(self).ready(old(frame)@.len()),
        ensures
            (*final(self), final(frame)@) == old(self).written(old(frame)@, c),
            final(self).ready(final(frame)@.len()),
            final(frame)@.len() == old(frame)@.len(),
    {
        if c == '\n' {
            self.new_line(frame);
        } else if c == '\x08' {
            self.backspace(frame);
        } else {
            if self.cursor_x + 10 >= self.width {
                self.new_line(frame);
            }
            self.draw_raster_char(frame, c);
        }
    }

    /// Writes a text at the cursor.
    pub fn write_string(&mut self, frame: &mut [u32], s: &str)
        requires
            old(self).ready(old(frame)@.len()),
        ensures
            (*final(self), final(frame)@) == old(self).written_all(old(frame)@, s@),
            final(self).ready(final(frame)@.len()),
            final(frame)@.len() == old(frame)@.len(),
    {
        let chars = chars_of(s);
        let mut i: usize = 0;
        proof {
            assert(chars@.take(0) =~= Seq::<char>::empty());
        }
        while i < chars.len()
            invariant
                i <= chars.len(),
                chars@ == s@,
                self.ready(frame@.len()),
                frame@.len() == old(frame)@.len(),
                (*self, frame@) == old(self).written_all(old(frame)@, chars@.take(i as int)),
            decreases chars.len() - i,
        {
            proof {
                assert(chars@.take(i + 1).drop_last() =~= chars@.take(i as int));
            }
            self.write_char(frame, chars[i]);
            i = i + 1;
        }
        proof {
            assert(chars@.take(chars.len() as int) =~= chars@);
        }
    }

    /// Writes a text at the cursor, for callers that bypass the log.
    pub fn direct_print(&mut self, frame: &mut [u32], text: &str)
        requires
            old(self).ready(old(frame)@.len()),
        ensures
            (*final(self), final(frame)@) == old(self).written_all(old(frame)@, text@),
            final(self).ready(final(frame)@.len()),
            final(frame)@.len() == old(frame)@.len(),
    {
        self.write_string(frame, text);
    }
}

/// Logs a text and writes it onto the screen.
pub fn print(logger: &mut Logger, writer: &mut Writer, frame: &mut [u32], s: &str)
    requires
        old(writer).ready(old(frame)@.len()),
    ensures
        final(logger).messages() == logged(old(logger).messages(), s@),
        (*final(writer), final(frame)@) == old(writer).written_all(old(frame)@, s@),
        final(writer).ready(final(frame)@.len()),
{
    log(logger, s);
    writer.direct_print(frame, s);
}

} // verus!
