//! Windows: pixel buffers with a frame, a title bar and a text cursor, and
//! the compositor that stacks them on a screen.
//!
//! A window's buffer holds one `u32` per pixel, row after row. Contracts
//! speak of a buffer as a sequence and of a pixel by its column and row.

use vstd::prelude::*;
use vstd::arithmetic::div_mod::{
    lemma_fundamental_div_mod, lemma_fundamental_div_mod_converse, lemma_mod_bound,
};
use crate::canvas::{
    fill_rect, paint_square, picture_placed, place_picture, rect_painted, rect_tinted,
    square_painted, tint_rect, Layout, Paint,
};
use crate::font::{glyph_for, shown_rows, Glyph, GLYPH_WIDTH};
use crate::strings::{chars_of, push_char};

verus! {

pub const BORDER_COLOR: u32 = 0xFFC0C0C0;

pub const TITLE_COLOR: u32 = 0xFF000080;

pub const CONTENT_COLOR: u32 = 0xFF000000;

pub const TEXT_COLOR: u32 = 0xFFFFFFFF;

pub const CLOSE_BUTTON_COLOR: u32 = 0xFFFF0000;

pub const MAXIMIZE_BUTTON_COLOR: u32 = 0xFFCCCCCC;

pub const DESKTOP_COLOR: u32 = 0x00102040;

pub const BORDER_WIDTH: usize = 2;

pub const TITLE_HEIGHT: usize = 20;

/// Width of a title-bar button.
pub const BUTTON_WIDTH: usize = 16;

/// Height of a title-bar button.
pub const BUTTON_HEIGHT: usize = 14;

/// Distance between two lines of text.
pub const LINE_HEIGHT: usize = 18;

/// Horizontal room the layout reserves for one character.
pub const CELL_WIDTH: usize = 9;

/// Column where a line of text starts.
pub const TEXT_LEFT: usize = 6;

/// Row where the first line of text starts.
pub const TEXT_TOP: usize = 24;

/// Rows an editor window keeps free at its bottom for status and menu.
pub const EDITOR_MARGIN: usize = 55;

/// Narrowest window whose decorations can be drawn.
pub const MIN_WIDTH: usize = 40;

/// Lowest window whose decorations can be drawn.
pub const MIN_HEIGHT: usize = 20;

/// Column of the pixel stored at index `i` of a buffer `width` wide.
pub open spec fn col(i: int, width: int) -> int {
    i % width
}

/// Row of the pixel stored at index `i` of a buffer `width` wide.
pub open spec fn row(i: int, width: int) -> int {
    i / width
}

/// Column `px`, row `py` lies in the rectangle with corner `(x, y)`, width
/// `w` and height `h`.
pub open spec fn in_rect(px: int, py: int, x: int, y: int, w: int, h: int) -> bool {
    x <= px < x + w && y <= py < y + h
}

/// The buffer with the rectangle painted in `color`; what lies outside the
/// buffer is clipped.
pub open spec fn filled(data: Seq<u32>, width: int, x: int, y: int, w: int, h: int, color: u32) -> Seq<
    u32,
> {
    Seq::new(
        data.len(),
        |i: int|
            if in_rect(col(i, width), row(i, width), x, y, w, h) {
                color
            } else {
                data[i]
            },
    )
}

/// Every index of a buffer names one pixel, and every pixel one index.
pub proof fn lemma_pixel_coords(width: int, height: int, i: int)
    requires
        0 <= width,
        0 <= i < width * height,
    ensures
        0 < width,
        0 <= col(i, width) < width,
        0 <= row(i, width) < height,
        i == row(i, width) * width + col(i, width),
{
    assert(0 < width) by (nonlinear_arith)
        requires
            0 <= width,
            0 <= i < width * height,
    ;
    lemma_fundamental_div_mod(i, width);
    lemma_mod_bound(i, width);
    let r = i / width;
    assert(0 <= r < height) by (nonlinear_arith)
        requires
            0 < width,
            0 <= i < width * height,
            i == width * r + i % width,
            0 <= i % width < width,
    ;
    assert(width * r == r * width) by (nonlinear_arith);
}

/// Every index below `n` names a pixel of a buffer `width` by `height`.
pub open spec fn coords_known(n: int, width: int, height: int) -> bool {
    forall|i: int|
        0 <= i < n ==> 0 <= #[trigger] col(i, width) < width && 0 <= row(i, width) < height && i
            == row(i, width) * width + col(i, width)
}

/// Every index of a buffer `width` by `height` names a pixel of it.
pub proof fn lemma_coords_known(width: int, height: int)
    requires
        0 <= width,
    ensures
        coords_known(width * height, width, height),
{
    assert forall|i: int| 0 <= i < width * height implies 0 <= #[trigger] col(i, width) < width
        && 0 <= row(i, width) < height && i == row(i, width) * width + col(i, width) by {
        lemma_pixel_coords(width, height, i);
    }
}

/// The pixel at column `px`, row `py` is stored at index `py * width + px`.
pub proof fn lemma_pixel_index(width: int, height: int, px: int, py: int)
    requires
        0 <= px < width,
        0 <= py < height,
    ensures
        0 <= py * width + px < width * height,
        col(py * width + px, width) == px,
        row(py * width + px, width) == py,
{
    assert(0 <= py * width + px < width * height) by (nonlinear_arith)
        requires
            0 <= px < width,
            0 <= py < height,
    ;
    lemma_fundamental_div_mod_converse(py * width + px, width, py, px);
}

/// A window as a mathematical value.
pub struct WindowView {
    pub x: usize,
    pub y: usize,
    pub width: usize,
    pub height: usize,
    pub data: Seq<u32>,
    pub cursor_x: usize,
    pub cursor_y: usize,
    pub title: Seq<char>,
    pub maximized: bool,
    pub saved_rect: Option<(usize, usize, usize, usize)>,
    pub text: Seq<char>,
    pub cursor_visible: bool,
    pub selection_start: Option<usize>,
    pub selection_end: Option<usize>,
    pub is_selecting: bool,
}

/// A rectangle of pixels on the screen with its decorations, the text
/// printed into it and a selection.
pub struct Window {
    pub x: usize,
    pub y: usize,
    pub width: usize,
    pub height: usize,
    pub data: Vec<u32>,
    pub cursor_x: usize,
    pub cursor_y: usize,
    pub title: String,
    pub maximized: bool,
    /// Position and size to return to when a maximized window is restored.
    pub saved_rect: Option<(usize, usize, usize, usize)>,
    pub text_buffer: String,
    pub cursor_visible: bool,
    pub selection_start: Option<usize>,
    pub selection_end: Option<usize>,
    pub is_selecting: bool,
}

impl View for Window {
    type V = WindowView;

    open spec fn view(&self) -> WindowView {
        WindowView {
            x: self.x,
            y: self.y,
            width: self.width,
            height: self.height,
            data: self.data@,
            cursor_x: self.cursor_x,
            cursor_y: self.cursor_y,
            title: self.title@,
            maximized: self.maximized,
            saved_rect: self.saved_rect,
            text: self.text_buffer@,
            cursor_visible: self.cursor_visible,
            selection_start: self.selection_start,
            selection_end: self.selection_end,
            is_selecting: self.is_selecting,
        }
    }
}

impl WindowView {
    /// The buffer holds exactly one value per pixel.
    pub open spec fn has_buffer(self) -> bool {
        self.data.len() == self.width * self.height
    }

    /// The buffer fits the window, and the window is large enough for its
    /// decorations.
    pub open spec fn wf(self) -> bool {
        &&& self.has_buffer()
        &&& self.width >= MIN_WIDTH
        &&& self.height >= MIN_HEIGHT
    }

    /// The window with a rectangle of its buffer painted.
    pub open spec fn with_rect(self, x: int, y: int, w: int, h: int, color: u32) -> WindowView {
        WindowView { data: filled(self.data, self.width as int, x, y, w, h, color), ..self }
    }

    /// Column where the close button starts.
    pub open spec fn close_button_x(self) -> int {
        self.width - BORDER_WIDTH - BUTTON_WIDTH - 2
    }

    /// Column where the maximize button starts.
    pub open spec fn maximize_button_x(self) -> int {
        self.close_button_x() - BUTTON_WIDTH - 4
    }

    /// The window with its content area painted in the content colour.
    pub open spec fn with_blank_content(self) -> WindowView {
        self.with_rect(
            BORDER_WIDTH as int,
            TITLE_HEIGHT as int,
            self.width - 2 * BORDER_WIDTH,
            self.height - BORDER_WIDTH - TITLE_HEIGHT,
            CONTENT_COLOR,
        )
    }

    /// The window with frame, title bar, both buttons and a blank content
    /// area drawn over whatever the buffer held.
    pub open spec fn decorated(self) -> WindowView {
        WindowView { data: Seq::new(self.data.len(), |i: int| BORDER_COLOR), ..self }.with_rect(
            BORDER_WIDTH as int,
            BORDER_WIDTH as int,
            self.width - 2 * BORDER_WIDTH,
            TITLE_HEIGHT - BORDER_WIDTH,
            TITLE_COLOR,
        ).with_rect(
            self.close_button_x(),
            BORDER_WIDTH + 2,
            BUTTON_WIDTH as int,
            BUTTON_HEIGHT as int,
            CLOSE_BUTTON_COLOR,
        ).with_rect(
            self.maximize_button_x(),
            BORDER_WIDTH + 2,
            BUTTON_WIDTH as int,
            BUTTON_HEIGHT as int,
            MAXIMIZE_BUTTON_COLOR,
        ).with_blank_content()
    }

    /// The window with a blank content area, the cursor at the start of
    /// the first line and no text.
    pub open spec fn cleared(self) -> WindowView {
        WindowView {
            cursor_x: TEXT_LEFT,
            cursor_y: TEXT_TOP,
            text: Seq::empty(),
            ..self.with_blank_content()
        }
    }

    /// The point `(px, py)` of the screen lies on the window, frame
    /// included.
    pub open spec fn covers(self, px: int, py: int) -> bool {
        self.x <= px < self.x + self.width && self.y <= py < self.y + self.height
    }

    /// The point lies on the window's title bar.
    pub open spec fn covers_title_bar(self, px: int, py: int) -> bool {
        self.covers(px, py) && py - self.y < TITLE_HEIGHT
    }

    /// What a click at the point hits: 1 for the close button, 2 for the
    /// maximize button, 0 for anything else.
    pub open spec fn title_bar_hit(self, px: int, py: int) -> u8 {
        if !self.covers_title_bar(px, py) {
            0
        } else if self.close_button_x() <= px - self.x <= self.close_button_x() + BUTTON_WIDTH {
            1
        } else if self.maximize_button_x() <= px - self.x <= self.maximize_button_x()
            + BUTTON_WIDTH {
            2
        } else {
            0
        }
    }
}

impl Window {
    /// See [`WindowView::has_buffer`].
    pub open spec fn has_buffer(&self) -> bool {
        self@.has_buffer()
    }

    /// See [`WindowView::wf`].
    pub open spec fn wf(&self) -> bool {
        self@.wf()
    }

    /// Paints one pixel.
    fn put(&mut self, px: usize, py: usize, color: u32)
        requires
            old(self).has_buffer(),
            px < old(self).width,
            py < old(self).height,
        ensures
            final(self)@ == (WindowView {
                data: old(self)@.data.update(py * old(self).width + px, color),
                ..old(self)@
            }),
            0 <= py * old(self).width + px < old(self).data.len(),
            col(py * old(self).width + px, old(self).width as int) == px,
            row(py * old(self).width + px, old(self).width as int) == py,
    {
        proof {
            lemma_pixel_index(self.width as int, self.height as int, px as int, py as int);
            assert(self.data.len() == self.width * self.height);
            assert(0 <= py * self.width <= py * self.width + px) by (nonlinear_arith)
                requires
                    0 <= py,
                    0 <= self.width,
                    0 <= px,
            ;
        }
        let idx = py * self.width + px;
        self.data[idx] = color;
    }

    /// Paints the rectangle with corner `(x, y)`, width `w` and height `h`
    /// in `color`. Parts outside the window are clipped.
    pub fn draw_rect(&mut self, x: usize, y: usize, w: usize, h: usize, color: u32)
        requires
            old(self).has_buffer(),
        ensures
            final(self)@ == old(self)@.with_rect(x as int, y as int, w as int, h as int, color),
    {
        if x >= self.width || y >= self.height {
            proof {
                assert forall|i: int| 0 <= i < self.data.len() implies !in_rect(
                    #[trigger] col(i, self.width as int),
                    row(i, self.width as int),
                    x as int,
                    y as int,
                    w as int,
                    h as int,
                ) by {
                    lemma_pixel_coords(self.width as int, self.height as int, i);
                }
                assert(self@.data =~= filled(
                    self@.data,
                    self.width as int,
                    x as int,
                    y as int,
                    w as int,
                    h as int,
                    color,
                ));
            }
            return ;
        }
        let x_end = if w > self.width - x {
            self.width
        } else {
            x + w
        };
        let y_end = if h > self.height - y {
            self.height
        } else {
            y + h
        };
        let width = self.width;
        let mut py = y;
        while py < y_end
            invariant
                y <= py <= y_end <= self.height,
                x < x_end <= self.width || (x == x_end && w == 0),
                x_end == if x + w > self.width {
                    self.width as int
                } else {
                    x + w
                },
                y_end == if y + h > self.height {
                    self.height as int
                } else {
                    y + h
                },
                width == self.width,
                self.has_buffer(),
                self@ == (WindowView { data: self@.data, ..old(self)@ }),
                self.data.len() == old(self).data.len(),
                forall|i: int|
                    0 <= i < self.data.len() ==> #[trigger] self.data[i] == if in_rect(
                        col(i, width as int),
                        row(i, width as int),
                        x as int,
                        y as int,
                        w as int,
                        py - y,
                    ) {
                        color
                    } else {
                        old(self).data[i]
                    },
            decreases y_end - py,
        {
            let mut px = x;
            while px < x_end
                invariant
                    y <= py < y_end <= self.height,
                    x <= px <= x_end <= self.width,
                    x_end <= x + w,
                    width == self.width,
                    self.has_buffer(),
                    self@ == (WindowView { data: self@.data, ..old(self)@ }),
                    self.data.len() == old(self).data.len(),
                    forall|i: int|
                        0 <= i < self.data.len() ==> #[trigger] self.data[i] == if in_rect(
                            col(i, width as int),
                            row(i, width as int),
                            x as int,
                            y as int,
                            w as int,
                            py - y,
                        ) || (row(i, width as int) == py && x <= col(i, width as int) < px) {
                            color
                        } else {
                            old(self).data[i]
                        },
                decreases x_end - px,
            {
                proof {
                    assert forall|i: int| 0 <= i < self.data.len() implies i == #[trigger] row(
                        i,
                        width as int,
                    ) * width + col(i, width as int) by {
                        lemma_pixel_coords(width as int, self.height as int, i);
                    }
                }
                self.put(px, py, color);
                px = px + 1;
            }
            proof {
                assert forall|i: int| 0 <= i < self.data.len() implies 0 <= #[trigger] col(
                    i,
                    width as int,
                ) < width by {
                    lemma_pixel_coords(width as int, self.height as int, i);
                }
            }
            py = py + 1;
        }
        proof {
            assert forall|i: int| 0 <= i < self.data.len() implies 0 <= #[trigger] row(
                i,
                width as int,
            ) < self.height by {
                lemma_pixel_coords(width as int, self.height as int, i);
            }
            assert(self@.data =~= filled(
                old(self)@.data,
                width as int,
                x as int,
                y as int,
                w as int,
                h as int,
                color,
            ));
        }
    }
}

/// The characters every editor window's title starts with.
pub open spec fn editor_prefix() -> Seq<char> {
    seq!['N', 'a', 'n', 'o', ' ', '-', ' ']
}

/// `title` is the title of an editor window.
pub open spec fn is_editor_title(title: Seq<char>) -> bool {
    title.len() >= 7 && title.subrange(0, 7) == editor_prefix()
}

/// Rows a window with this title keeps free below its text.
pub open spec fn bottom_margin(title: Seq<char>) -> int {
    if is_editor_title(title) {
        EDITOR_MARGIN as int
    } else {
        BORDER_WIDTH as int
    }
}

/// Tells whether `title` starts with the editor prefix.
pub fn has_editor_title(title: &str) -> (r: bool)
    ensures
        r == is_editor_title(title@),
{
    let prefix = "Nano - ";
    proof {
        reveal_strlit("Nano - ");
        assert(prefix@ =~= editor_prefix());
    }
    if title.unicode_len() < 7 {
        return false;
    }
    let mut i: usize = 0;
    while i < 7
        invariant
            i <= 7,
            title@.len() >= 7,
            prefix@ == editor_prefix(),
            forall|k: int| 0 <= k < i ==> title@[k] == editor_prefix()[k],
        decreases 7 - i,
    {
        if title.get_char(i) != prefix.get_char(i) {
            proof {
                assert(title@.subrange(0, 7)[i as int] != editor_prefix()[i as int]);
            }
            return false;
        }
        i = i + 1;
    }
    proof {
        assert(title@.subrange(0, 7) =~= editor_prefix());
    }
    true
}

impl WindowView {
    /// Rows this window keeps free below its text.
    pub open spec fn margin(self) -> int {
        bottom_margin(self.title)
    }

    /// The window as it is first shown: blank but for its decorations,
    /// the cursor at the start of the first line.
    pub open spec fn fresh(x: usize, y: usize, w: usize, h: usize, title: Seq<char>) -> WindowView {
        WindowView {
            x,
            y,
            width: w,
            height: h,
            data: Seq::new((w * h) as nat, |i: int| CONTENT_COLOR),
            cursor_x: TEXT_LEFT,
            cursor_y: TEXT_TOP,
            title,
            maximized: false,
            saved_rect: None,
            text: Seq::empty(),
            cursor_visible: true,
            selection_start: None,
            selection_end: None,
            is_selecting: false,
        }.decorated()
    }

    /// The window with everything from row `y` down to its bottom margin
    /// painted black between the side borders.
    pub open spec fn cleared_from(self, y: int) -> WindowView {
        if y < self.height - self.margin() {
            self.with_rect(
                BORDER_WIDTH as int,
                y,
                self.width - 2 * BORDER_WIDTH,
                self.height - self.margin() - y,
                CONTENT_COLOR,
            )
        } else {
            self
        }
    }

    /// The selected characters: those between the two ends of the
    /// selection, whichever order they are in, as far as the text reaches.
    pub open spec fn selected_text(self) -> Seq<char> {
        match (self.selection_start, self.selection_end) {
            (Some(start), Some(end)) => {
                let s = if start < end {
                    start
                } else {
                    end
                };
                let e = if start < end {
                    end
                } else {
                    start
                };
                if s < self.text.len() {
                    self.text.subrange(
                        s as int,
                        if e < self.text.len() {
                            e as int
                        } else {
                            self.text.len() as int
                        },
                    )
                } else {
                    Seq::empty()
                }
            },
            _ => Seq::empty(),
        }
    }
}

impl Window {
    /// A new window at `(x, y)`, `w` wide and `h` high, decorated and
    /// without text.
    pub fn new(x: usize, y: usize, w: usize, h: usize, title: &str) -> (r: Window)
        requires
            w >= MIN_WIDTH,
            h >= MIN_HEIGHT,
            w * h <= usize::MAX,
        ensures
            r@ == WindowView::fresh(x, y, w, h, title@),
            r.wf(),
    {
        let size = w * h;
        let mut win = Window {
            x,
            y,
            width: w,
            height: h,
            data: vec![CONTENT_COLOR; size],
            cursor_x: BORDER_WIDTH + 4,
            cursor_y: TITLE_HEIGHT + 4,
            title: title.to_owned(),
            maximized: false,
            saved_rect: None,
            text_buffer: String::new(),
            cursor_visible: true,
            selection_start: None,
            selection_end: None,
            is_selecting: false,
        };
        proof {
            assert(win@.data =~= Seq::new((w * h) as nat, |i: int| CONTENT_COLOR));
        }
        win.draw_decorations();
        win
    }

    /// Draws the frame, the title bar with its two buttons and a blank
    /// content area over the whole buffer.
    pub fn draw_decorations(&mut self)
        requires
            old(self).wf(),
        ensures
            final(self)@ == old(self)@.decorated(),
            final(self).wf(),
    {
        let n = self.data.len();
        let mut i: usize = 0;
        while i < n
            invariant
                i <= n,
                n == self.data.len(),
                self@ == (WindowView { data: self@.data, ..old(self)@ }),
                self.data.len() == old(self).data.len(),
                forall|k: int| 0 <= k < i ==> self.data[k] == BORDER_COLOR,
            decreases n - i,
        {
            self.data[i] = BORDER_COLOR;
            i = i + 1;
        }
        proof {
            assert(self@.data =~= Seq::new(old(self)@.data.len(), |i: int| BORDER_COLOR));
        }
        self.draw_rect(
            BORDER_WIDTH,
            BORDER_WIDTH,
            self.width - 2 * BORDER_WIDTH,
            TITLE_HEIGHT - BORDER_WIDTH,
            TITLE_COLOR,
        );
        let button_y = BORDER_WIDTH + 2;
        let close_x = self.width - BORDER_WIDTH - BUTTON_WIDTH - 2;
        self.draw_rect(close_x, button_y, BUTTON_WIDTH, BUTTON_HEIGHT, CLOSE_BUTTON_COLOR);
        let max_x = close_x - BUTTON_WIDTH - 4;
        self.draw_rect(max_x, button_y, BUTTON_WIDTH, BUTTON_HEIGHT, MAXIMIZE_BUTTON_COLOR);
        self.blank_content();
    }

    /// Paints the content area in the content colour. A window too small
    /// to have a content area stays as it is.
    fn blank_content(&mut self)
        requires
            old(self).has_buffer(),
            old(self).width >= BORDER_WIDTH,
            old(self).height >= BORDER_WIDTH,
        ensures
            final(self)@ == old(self)@.with_blank_content(),
            final(self).has_buffer(),
            old(self).wf() ==> final(self).wf(),
    {
        let bottom = self.height - BORDER_WIDTH;
        let rows = if bottom > TITLE_HEIGHT {
            bottom - TITLE_HEIGHT
        } else {
            0
        };
        let right = self.width - BORDER_WIDTH;
        let columns = if right > BORDER_WIDTH {
            right - BORDER_WIDTH
        } else {
            0
        };
        self.draw_rect(BORDER_WIDTH, TITLE_HEIGHT, columns, rows, CONTENT_COLOR);
        proof {
            assert(self@.data =~= old(self)@.with_blank_content().data);
        }
    }

    /// Blanks the content area, forgets the text and puts the cursor at
    /// the start of the first line. Frame and title bar stay. The window
    /// has to be as wide and as high as a border, no more.
    pub fn clear(&mut self)
        requires
            old(self).has_buffer(),
            old(self).width >= BORDER_WIDTH,
            old(self).height >= BORDER_WIDTH,
        ensures
            final(self)@ == old(self)@.cleared(),
            final(self).has_buffer(),
            old(self).wf() ==> final(self).wf(),
    {
        self.blank_content();
        self.cursor_x = BORDER_WIDTH + 4;
        self.cursor_y = TITLE_HEIGHT + 4;
        self.text_buffer = String::new();
    }

    /// Replaces the buffer by one of zeros that fits the window's present
    /// width and height.
    pub fn realloc_buffer(&mut self)
        requires
            old(self).width * old(self).height <= usize::MAX,
        ensures
            final(self)@ == (WindowView {
                data: Seq::new((old(self).width * old(self).height) as nat, |i: int| 0u32),
                ..old(self)@
            }),
            final(self).has_buffer(),
    {
        let size = self.width * self.height;
        self.data = vec![0u32; size];
        proof {
            assert(self@.data =~= Seq::new((self.width * self.height) as nat, |i: int| 0u32));
        }
    }

    /// Cuts the text down to its first `len` characters; a shorter text
    /// stays as it is.
    pub fn truncate_text_buffer(&mut self, len: usize)
        ensures
            final(self)@ == (WindowView {
                text: if len < old(self)@.text.len() {
                    old(self)@.text.take(len as int)
                } else {
                    old(self)@.text
                },
                ..old(self)@
            }),
    {
        if len < self.text_buffer.as_str().unicode_len() {
            let kept = self.text_buffer.as_str().substring_char(0, len).to_owned();
            self.text_buffer = kept;
        }
    }

    /// Paints everything from row `y` down to the bottom margin black,
    /// between the side borders.
    pub fn clear_from(&mut self, y: usize)
        requires
            y < old(self).height - old(self)@.margin() ==> old(self).has_buffer() && old(self).width
                >= 2 * BORDER_WIDTH,
        ensures
            final(self)@ == old(self)@.cleared_from(y as int),
            old(self).has_buffer() ==> final(self).has_buffer(),
            old(self).wf() ==> final(self).wf(),
    {
        let margin = if has_editor_title(self.title.as_str()) {
            EDITOR_MARGIN
        } else {
            BORDER_WIDTH
        };
        let h = if self.height >= margin {
            self.height - margin
        } else {
            0
        };
        if y < h {
            self.draw_rect(BORDER_WIDTH, y, self.width - 2 * BORDER_WIDTH, h - y, CONTENT_COLOR);
        }
    }

    /// Moves the text cursor.
    pub fn set_cursor(&mut self, x: usize, y: usize)
        ensures
            final(self)@ == (WindowView { cursor_x: x, cursor_y: y, ..old(self)@ }),
    {
        self.cursor_x = x;
        self.cursor_y = y;
    }

    /// Tells whether the point `(px, py)` of the screen lies on the
    /// window, frame included.
    pub fn contains(&self, px: usize, py: usize) -> (r: bool)
        ensures
            r == self@.covers(px as int, py as int),
    {
        px >= self.x && px - self.x < self.width && py >= self.y && py - self.y < self.height
    }

    /// Tells whether the point lies on the title bar, where a drag starts.
    pub fn is_title_bar(&self, px: usize, py: usize) -> (r: bool)
        ensures
            r == self@.covers_title_bar(px as int, py as int),
    {
        if !self.contains(px, py) {
            return false;
        }
        let rel_y = py - self.y;
        rel_y < TITLE_HEIGHT
    }

    /// Says what a click at the point hits: 1 for the close button, 2 for
    /// the maximize button, 0 for anything else. Where the click is on the
    /// title bar, the window has to be wide enough for both buttons.
    pub fn handle_title_bar_click(&self, px: usize, py: usize) -> (r: u8)
        requires
            self@.covers_title_bar(px as int, py as int) ==> self.width >= MIN_WIDTH,
        ensures
            r == self@.title_bar_hit(px as int, py as int),
    {
        if !self.is_title_bar(px, py) {
            return 0;
        }
        let rel_x = px - self.x;
        let close_x_start = self.width - BORDER_WIDTH - BUTTON_WIDTH - 2;
        let close_x_end = close_x_start + BUTTON_WIDTH;
        let max_x_start = close_x_start - BUTTON_WIDTH - 4;
        let max_x_end = max_x_start + BUTTON_WIDTH;
        if rel_x >= close_x_start && rel_x <= close_x_end {
            return 1;
        }
        if rel_x >= max_x_start && rel_x <= max_x_end {
            return 2;
        }
        0
    }

    /// Paints the text cursor, a block of 8 by 16 pixels at the cursor
    /// position, in `color`.
    pub fn draw_cursor(&mut self, color: u32)
        requires
            old(self).has_buffer(),
        ensures
            final(self)@ == old(self)@.with_rect(
                old(self).cursor_x as int,
                old(self).cursor_y as int,
                8,
                16,
                color,
            ),
    {
        self.draw_rect(self.cursor_x, self.cursor_y, 8, 16, color);
    }

    /// Drops the selection.
    pub fn clear_selection(&mut self)
        ensures
            final(self)@ == (WindowView {
                selection_start: None,
                selection_end: None,
                is_selecting: false,
                ..old(self)@
            }),
    {
        self.selection_start = None;
        self.selection_end = None;
        self.is_selecting = false;
    }

    /// The selected part of the text; empty without a selection.
    pub fn get_selected_text(&self) -> (r: String)
        ensures
            r@ == self@.selected_text(),
    {
        match (self.selection_start, self.selection_end) {
            (Some(start), Some(end)) => {
                let (s, e) = if start < end {
                    (start, end)
                } else {
                    (end, start)
                };
                let len = self.text_buffer.as_str().unicode_len();
                if s < len {
                    let end_idx = if e < len {
                        e
                    } else {
                        len
                    };
                    return self.text_buffer.as_str().substring_char(s, end_idx).to_owned();
                }
            },
            _ => {},
        }
        String::new()
    }
}

/// The glyph has a visible pixel at its column `rx`, row `ry`.
pub open spec fn lit(rows: Seq<Seq<u8>>, rx: int, ry: int) -> bool {
    0 <= ry < rows.len() && 0 <= rx < rows[ry].len() && rows[ry][rx] > 0
}

/// The buffer with the glyph's visible pixels painted in `color`, the
/// glyph's corner at `(x, y)`; what lies outside the buffer is clipped.
pub open spec fn stamped(
    data: Seq<u32>,
    width: int,
    rows: Seq<Seq<u8>>,
    x: int,
    y: int,
    color: u32,
) -> Seq<u32> {
    Seq::new(
        data.len(),
        |i: int|
            if lit(rows, col(i, width) - x, row(i, width) - y) {
                color
            } else {
                data[i]
            },
    )
}

/// The buffer with `text` drawn in `color` on one line that starts at
/// `(x, y)`, each character one glyph width right of the one before.
pub open spec fn lettered(
    data: Seq<u32>,
    width: int,
    text: Seq<char>,
    x: int,
    y: int,
    color: u32,
) -> Seq<u32>
    decreases text.len(),
{
    if text.len() == 0 {
        data
    } else {
        stamped(
            lettered(data, width, text.drop_last(), x, y, color),
            width,
            shown_rows(text.last()),
            x + GLYPH_WIDTH * (text.len() - 1),
            y,
            color,
        )
    }
}

impl WindowView {
    /// Row below which no text is drawn.
    pub open spec fn text_bottom(self) -> int {
        self.height - self.margin()
    }

    /// The window after its text area moved up by one line: every row of
    /// the area shows what stood a line below, the last line is blank,
    /// and the cursor is a line higher. A window too low for two lines
    /// stays as it is.
    pub open spec fn scrolled(self) -> WindowView {
        if self.text_bottom() <= TEXT_TOP + LINE_HEIGHT {
            self
        } else {
            WindowView {
                data: Seq::new(
                    self.data.len(),
                    |i: int|
                        {
                            let cx = col(i, self.width as int);
                            let cy = row(i, self.width as int);
                            if BORDER_WIDTH <= cx < self.width - BORDER_WIDTH && TEXT_TOP <= cy
                                < self.text_bottom() {
                                if cy < self.text_bottom() - LINE_HEIGHT {
                                    self.data[(cy + LINE_HEIGHT) * self.width + cx]
                                } else {
                                    CONTENT_COLOR
                                }
                            } else {
                                self.data[i]
                            }
                        },
                ),
                cursor_y: (self.cursor_y - LINE_HEIGHT) as usize,
                ..self
            }
        }
    }

    /// The window with the cursor moved to the start of the next line when
    /// no further character fits on this one.
    pub open spec fn wrapped(self) -> WindowView {
        if self.cursor_x + CELL_WIDTH >= self.width - BORDER_WIDTH {
            WindowView {
                cursor_x: TEXT_LEFT,
                cursor_y: (self.cursor_y + LINE_HEIGHT) as usize,
                ..self
            }
        } else {
            self
        }
    }

    /// The window scrolled by a line when the cursor has reached the
    /// bottom of the text area.
    pub open spec fn scrolled_if_full(self) -> WindowView {
        if self.cursor_y + LINE_HEIGHT >= self.text_bottom() {
            self.scrolled()
        } else {
            self
        }
    }

    /// The window after the cursor alone has taken character `c`: a line
    /// feed starts the next line, a carriage return goes back to the start
    /// of this one, a backspace steps one cell back unless the line has
    /// just begun, and any other character advances by one cell.
    pub open spec fn advanced(self, c: char) -> WindowView {
        if c == '\n' {
            WindowView {
                cursor_x: TEXT_LEFT,
                cursor_y: (self.cursor_y + LINE_HEIGHT) as usize,
                ..self
            }
        } else if c == '\r' {
            WindowView { cursor_x: TEXT_LEFT, ..self }
        } else if c == '\x08' {
            if self.cursor_x >= TEXT_LEFT + CELL_WIDTH {
                WindowView { cursor_x: (self.cursor_x - CELL_WIDTH) as usize, ..self }
            } else {
                self
            }
        } else {
            WindowView { cursor_x: (self.cursor_x + CELL_WIDTH) as usize, ..self }
        }
    }

    /// The window after character `c` was typed at the cursor, before any
    /// wrap or scroll: a line feed is recorded and starts the next line, a
    /// carriage return goes back to the start of the line, a backspace
    /// steps one cell back and blanks it unless the line has just begun,
    /// and any other character is drawn in white, recorded unless it is a
    /// control character, and followed by the cursor one glyph further.
    pub open spec fn typed(self, c: char) -> WindowView {
        if c == '\n' {
            WindowView {
                text: self.text.push(c),
                cursor_x: TEXT_LEFT,
                cursor_y: (self.cursor_y + LINE_HEIGHT) as usize,
                ..self
            }
        } else if c == '\r' {
            WindowView { cursor_x: TEXT_LEFT, ..self }
        } else if c == '\x08' {
            if self.cursor_x >= TEXT_LEFT + CELL_WIDTH {
                WindowView { cursor_x: (self.cursor_x - CELL_WIDTH) as usize, ..self }.with_rect(
                    self.cursor_x - CELL_WIDTH,
                    self.cursor_y as int,
                    CELL_WIDTH as int,
                    16,
                    CONTENT_COLOR,
                )
            } else {
                self
            }
        } else {
            WindowView {
                text: if c as u32 >= 32 {
                    self.text.push(c)
                } else {
                    self.text
                },
                data: stamped(
                    self.data,
                    self.width as int,
                    shown_rows(c),
                    self.cursor_x as int,
                    self.cursor_y as int,
                    TEXT_COLOR,
                ),
                cursor_x: (self.cursor_x + GLYPH_WIDTH) as usize,
                ..self
            }
        }
    }

    /// The window after character `c` was printed: typed, then wrapped
    /// and scrolled as needed.
    pub open spec fn with_char(self, c: char) -> WindowView {
        self.typed(c).wrapped().scrolled_if_full()
    }

    /// The window after the cursor has passed over character `c` without
    /// drawing or recording it.
    pub open spec fn with_char_skipped(self, c: char) -> WindowView {
        self.advanced(c).wrapped().scrolled_if_full()
    }

    /// The window after `text` was printed, character by character.
    pub open spec fn with_text(self, text: Seq<char>) -> WindowView
        decreases text.len(),
    {
        if text.len() == 0 {
            self
        } else {
            self.with_text(text.drop_last()).with_char(text.last())
        }
    }

    /// The window's text area holds at least two lines, so that it
    /// scrolls when it is full.
    pub open spec fn scrolls(self) -> bool {
        self.text_bottom() > TEXT_TOP + LINE_HEIGHT
    }

    /// The window can be written to: its buffer fits it, it is as wide as
    /// a border, and as wide as both where it scrolls, and its sides are
    /// not among the largest machine integers.
    pub open spec fn writable(self) -> bool {
        &&& self.has_buffer()
        &&& self.width >= BORDER_WIDTH
        &&& self.scrolls() ==> self.width >= 2 * BORDER_WIDTH
        &&& self.width + 32 <= usize::MAX
        &&& self.height + 32 <= usize::MAX
    }

    /// The window can take `n` more characters: it can be written to, its
    /// text area does not start below its bottom, and the cursor is far
    /// enough from the largest machine integer. A character moves the
    /// cursor down by two lines at most: a line feed by one, and the wrap
    /// that follows it in a window too narrow for a cell by another.
    pub open spec fn can_type(self, n: int) -> bool {
        &&& self.writable()
        &&& self.height >= self.margin()
        &&& self.data.len() <= usize::MAX
        &&& self.cursor_x + 32 <= usize::MAX
        &&& self.cursor_y + LINE_HEIGHT * (2 * n + 2) <= usize::MAX
    }
}

/// Where the layout puts the cursor after `text`, in a window `width`
/// wide: a line feed starts the next line, any other character takes one
/// cell, and a line that has no room for another cell is left for the
/// next.
pub open spec fn place_after(text: Seq<char>, width: int) -> (int, int)
    decreases text.len(),
{
    if text.len() == 0 {
        (TEXT_LEFT as int, TEXT_TOP as int)
    } else {
        let (x, y) = place_after(text.drop_last(), width);
        if text.last() == '\n' {
            (TEXT_LEFT as int, y + LINE_HEIGHT)
        } else if x + CELL_WIDTH + CELL_WIDTH >= width - BORDER_WIDTH {
            (TEXT_LEFT as int, y + LINE_HEIGHT)
        } else {
            (x + CELL_WIDTH, y)
        }
    }
}

/// Square of the distance between two points.
pub open spec fn squared_distance(ax: int, ay: int, bx: int, by: int) -> int {
    (ax - bx) * (ax - bx) + (ay - by) * (ay - by)
}

/// Square of the distance from `(rx, ry)` to the place of character `k`
/// of the laid-out text.
pub open spec fn distance_to_place(text: Seq<char>, width: int, rx: int, ry: int, k: int) -> int {
    squared_distance(
        rx,
        ry,
        place_after(text.take(k), width).0,
        place_after(text.take(k), width).1,
    )
}

/// Among the places of characters `0..=upto`, the first that is nearest
/// to `(rx, ry)`.
pub open spec fn nearest_place(text: Seq<char>, width: int, rx: int, ry: int, upto: int) -> int
    decreases upto,
{
    if upto <= 0 {
        0
    } else {
        let best = nearest_place(text, width, rx, ry, upto - 1);
        if distance_to_place(text, width, rx, ry, upto) < distance_to_place(
            text,
            width,
            rx,
            ry,
            best,
        ) {
            upto
        } else {
            best
        }
    }
}

/// The nearest place is a place, no other is nearer, and none before it
/// is as near.
pub proof fn lemma_nearest_place(text: Seq<char>, width: int, rx: int, ry: int, upto: int)
    requires
        0 <= upto,
    ensures
        0 <= nearest_place(text, width, rx, ry, upto) <= upto,
        forall|k: int|
            0 <= k <= upto ==> distance_to_place(
                text,
                width,
                rx,
                ry,
                nearest_place(text, width, rx, ry, upto),
            ) <= #[trigger] distance_to_place(text, width, rx, ry, k),
        forall|k: int|
            0 <= k < nearest_place(text, width, rx, ry, upto) ==> distance_to_place(
                text,
                width,
                rx,
                ry,
                nearest_place(text, width, rx, ry, upto),
            ) < #[trigger] distance_to_place(text, width, rx, ry, k),
    decreases upto,
{
    if upto > 0 {
        lemma_nearest_place(text, width, rx, ry, upto - 1);
    }
}

/// Square of the distance between two points of the screen.
fn squared_distance_of(ax: usize, ay: usize, bx: usize, by: usize) -> (d: u128)
    requires
        ax <= u32::MAX,
        ay <= u32::MAX,
        bx <= u32::MAX,
        by <= u32::MAX,
    ensures
        d == squared_distance(ax as int, ay as int, bx as int, by as int),
{
    let dx: u128 = if ax >= bx {
        (ax - bx) as u128
    } else {
        (bx - ax) as u128
    };
    let dy: u128 = if ay >= by {
        (ay - by) as u128
    } else {
        (by - ay) as u128
    };
    proof {
        assert(dx * dx <= 0xffff_ffff * 0xffff_ffff && dx * dx == (ax - bx) * (ax - bx))
            by (nonlinear_arith)
            requires
                0 <= dx <= 0xffff_ffff,
                dx == ax - bx || dx == bx - ax,
        ;
        assert(dy * dy <= 0xffff_ffff * 0xffff_ffff && dy * dy == (ay - by) * (ay - by))
            by (nonlinear_arith)
            requires
                0 <= dy <= 0xffff_ffff,
                dy == ay - by || dy == by - ay,
        ;
    }
    dx * dx + dy * dy
}

impl WindowView {
    /// The window's text can be searched with machine integers: the
    /// window is as wide and as high as a border, and window and laid-out
    /// text stay below 2^31 pixels.
    pub open spec fn selectable(self) -> bool {
        &&& self.width >= BORDER_WIDTH
        &&& self.height >= BORDER_WIDTH
        &&& self.width <= i32::MAX
        &&& self.height <= i32::MAX
        &&& TEXT_TOP + LINE_HEIGHT * self.text.len() <= i32::MAX
    }

    /// The window after the mouse was seen at screen point `(mx, my)`.
    pub open spec fn with_mouse(self, mx: int, my: int, btn: bool) -> WindowView {
        let rel_x = if mx >= self.x {
            mx - self.x
        } else {
            0
        };
        let rel_y = if my >= self.y {
            my - self.y
        } else {
            0
        };
        if !btn {
            WindowView { is_selecting: false, ..self }
        } else if rel_x < BORDER_WIDTH || rel_x >= self.width - BORDER_WIDTH || rel_y
            < TITLE_HEIGHT || rel_y >= self.height - BORDER_WIDTH {
            self
        } else {
            let idx = nearest_place(self.text, self.width as int, rel_x, rel_y, self.text.len() as int) as usize;
            WindowView {
                is_selecting: true,
                selection_start: if self.is_selecting {
                    self.selection_start
                } else {
                    Some(idx)
                },
                selection_end: Some(idx),
                ..self
            }
        }
    }
}

/// A well-formed window is far narrower than the largest machine integer.
pub proof fn lemma_width_bound(v: WindowView)
    requires
        v.wf(),
        v.data.len() <= usize::MAX,
    ensures
        v.width + 32 <= usize::MAX,
        v.height + 32 <= usize::MAX,
{
    assert(v.width * 20 <= usize::MAX && v.height * 40 <= usize::MAX) by (nonlinear_arith)
        requires
            v.width * v.height <= usize::MAX,
            v.width >= 40,
            v.height >= 20,
    ;
}

/// Printing or skipping one character keeps a window fit for typing, with
/// its size, title and place on the screen, and moves the cursor down by
/// no more than a line.
pub proof fn lemma_char_keeps_fit(v: WindowView, c: char, n: int)
    requires
        v.can_type(n),
        n >= 1,
    ensures
        v.with_char(c).can_type(n - 1),
        v.with_char_skipped(c).can_type(n - 1),
        v.with_char(c).data.len() == v.data.len(),
        v.with_char(c).title == v.title,
        v.with_char(c).width == v.width,
        v.with_char(c).height == v.height,
        v.with_char(c).x == v.x,
        v.with_char(c).y == v.y,
        v.with_char_skipped(c) == (WindowView {
            data: v.with_char_skipped(c).data,
            cursor_x: v.with_char_skipped(c).cursor_x,
            cursor_y: v.with_char_skipped(c).cursor_y,
            ..v
        }),
        v.with_char_skipped(c).data.len() == v.data.len(),
{
}

/// Lettering changes pixels, not their number.
pub proof fn lemma_lettered_len(
    data: Seq<u32>,
    width: int,
    text: Seq<char>,
    x: int,
    y: int,
    color: u32,
)
    ensures
        lettered(data, width, text, x, y, color).len() == data.len(),
    decreases text.len(),
{
    if text.len() > 0 {
        lemma_lettered_len(data, width, text.drop_last(), x, y, color);
    }
}

/// Largest size and cursor coordinate of a window that takes text of any
/// length.
pub const STEADY_LIMIT: usize = 0x7fff_0000;

impl WindowView {
    /// The window takes text of any length: it is well formed and no
    /// larger than the limit, its text area holds at least two lines, so
    /// that it scrolls, and its cursor is no further out than the limit.
    pub open spec fn steady(self) -> bool {
        &&& self.wf()
        &&& self.data.len() <= usize::MAX
        &&& self.width <= STEADY_LIMIT
        &&& self.height <= STEADY_LIMIT
        &&& self.height >= self.margin()
        &&& self.text_bottom() > TEXT_TOP + LINE_HEIGHT
        &&& self.cursor_x <= STEADY_LIMIT
        &&& self.cursor_y <= STEADY_LIMIT
        &&& self.saved_rect matches Some(rect) ==> self.can_take(rect.2, rect.3)
    }

    /// The window can take the width `w` and the height `h` and still
    /// take text of any length.
    pub open spec fn can_take(self, w: usize, h: usize) -> bool {
        &&& MIN_WIDTH <= w <= STEADY_LIMIT
        &&& MIN_HEIGHT <= h <= STEADY_LIMIT
        &&& h - self.margin() > TEXT_TOP + LINE_HEIGHT
        &&& w * h <= usize::MAX
    }

    /// The window at another place and of another size, with a buffer
    /// of zeros under new decorations.
    pub open spec fn resized(self, x: usize, y: usize, w: usize, h: usize) -> WindowView {
        (WindowView {
            x,
            y,
            width: w,
            height: h,
            data: Seq::new((w * h) as nat, |i: int| 0u32),
            ..self
        }).decorated()
    }

    /// The window after its maximize button was hit on a screen `width`
    /// by `height`: a maximized window goes back to the place and size
    /// it had, if it remembers them; any other window remembers its place
    /// and size and fills the screen above the task bar.
    pub open spec fn toggled(self, width: usize, height: usize) -> WindowView {
        if self.maximized {
            match self.saved_rect {
                Some((x, y, w, h)) => (WindowView {
                    maximized: false,
                    saved_rect: None,
                    ..self
                }).resized(x, y, w, h),
                None => self,
            }
        } else {
            (WindowView {
                maximized: true,
                saved_rect: Some((self.x, self.y, self.width, self.height)),
                ..self
            }).resized(0, 0, width, (height - 30) as usize)
        }
    }
}

impl WindowView {
    /// The window can be toggled on a screen `width` by `height`: the
    /// size it takes, its remembered one or that of the screen above the
    /// task bar, has room for the decorations and for a buffer.
    pub open spec fn can_toggle(self, width: usize, height: usize) -> bool {
        if self.maximized {
            self.saved_rect matches Some(rect) ==> rect.2 >= MIN_WIDTH && rect.3 >= MIN_HEIGHT
                && rect.2 * rect.3 <= usize::MAX
        } else {
            height >= 30 && width >= MIN_WIDTH && height - 30 >= MIN_HEIGHT && width * (height
                - 30) <= usize::MAX
        }
    }
}

impl Window {
    /// Maximizes the window on a screen `width` by `height`, or puts a
    /// maximized window back to the place and size it remembers. A
    /// window that takes text of any length still does so afterwards
    /// where the screen above the task bar is high enough for that.
    pub fn toggle_maximized(&mut self, width: usize, height: usize)
        requires
            old(self)@.can_toggle(width, height),
        ensures
            final(self)@ == old(self)@.toggled(width, height),
            old(self)@.steady() && height >= 30 && old(self)@.can_take(
                width,
                (height - 30) as usize,
            ) ==> final(self)@.steady(),
    {
        if self.maximized {
            match self.saved_rect {
                Some((x, y, w, h)) => {
                    self.x = x;
                    self.y = y;
                    self.width = w;
                    self.height = h;
                    self.maximized = false;
                    self.saved_rect = None;
                    self.realloc_buffer();
                    self.draw_decorations();
                },
                None => {},
            }
        } else {
            self.saved_rect = Some((self.x, self.y, self.width, self.height));
            self.x = 0;
            self.y = 0;
            self.width = width;
            self.height = height - 30;
            self.maximized = true;
            self.realloc_buffer();
            self.draw_decorations();
        }
    }
}

/// A steady window can take a character and is steady afterwards, with
/// its size, title and place on the screen.
pub proof fn lemma_char_keeps_steady(v: WindowView, c: char)
    requires
        v.steady(),
    ensures
        v.can_type(1),
        v.with_char(c).steady(),
        v.with_char_skipped(c).steady(),
        v.with_char(c).title == v.title,
        v.with_char(c).width == v.width,
        v.with_char(c).height == v.height,
        v.with_char(c).x == v.x,
        v.with_char(c).y == v.y,
        v.with_char(c).data.len() == v.data.len(),
{
}

/// A steady window is steady after any text, with its size, title and
/// place on the screen.
pub proof fn lemma_text_keeps_steady(v: WindowView, text: Seq<char>)
    requires
        v.steady(),
    ensures
        v.with_text(text).steady(),
        v.with_text(text).title == v.title,
        v.with_text(text).width == v.width,
        v.with_text(text).height == v.height,
        v.with_text(text).x == v.x,
        v.with_text(text).y == v.y,
        v.with_text(text).data.len() == v.data.len(),
    decreases text.len(),
{
    if text.len() > 0 {
        lemma_text_keeps_steady(v, text.drop_last());
        lemma_char_keeps_steady(v.with_text(text.drop_last()), text.last());
    }
}

/// Printing two texts one after the other is printing them as one.
pub proof fn lemma_text_in_pieces(v: WindowView, first: Seq<char>, second: Seq<char>)
    ensures
        v.with_text(first + second) == v.with_text(first).with_text(second),
    decreases second.len(),
{
    if second.len() == 0 {
        assert(first + second =~= first);
    } else {
        lemma_text_in_pieces(v, first, second.drop_last());
        assert((first + second).drop_last() =~= first + second.drop_last());
        assert((first + second).last() == second.last());
    }
}

/// A new window of sufficient height takes text of any length.
pub proof fn lemma_fresh_is_steady(x: usize, y: usize, w: usize, h: usize, title: Seq<char>)
    requires
        MIN_WIDTH <= w <= STEADY_LIMIT,
        EDITOR_MARGIN + TEXT_TOP + LINE_HEIGHT < h <= STEADY_LIMIT,
        w * h <= usize::MAX,
    ensures
        WindowView::fresh(x, y, w, h, title).steady(),
        WindowView::fresh(x, y, w, h, title).title == title,
        WindowView::fresh(x, y, w, h, title).width == w,
        WindowView::fresh(x, y, w, h, title).height == h,
        WindowView::fresh(x, y, w, h, title).text == Seq::<char>::empty(),
        WindowView::fresh(x, y, w, h, title).cursor_x == TEXT_LEFT,
        WindowView::fresh(x, y, w, h, title).cursor_y == TEXT_TOP,
{
}

/// Printing a text keeps a window fit for typing, with its size, title
/// and place on the screen.
pub proof fn lemma_text_keeps_fit(v: WindowView, text: Seq<char>, n: int)
    requires
        v.can_type(n),
        n >= text.len(),
    ensures
        v.with_text(text).can_type(n - text.len()),
        v.with_text(text).data.len() == v.data.len(),
        v.with_text(text).title == v.title,
        v.with_text(text).width == v.width,
        v.with_text(text).height == v.height,
        v.with_text(text).x == v.x,
        v.with_text(text).y == v.y,
    decreases text.len(),
{
    if text.len() > 0 {
        lemma_text_keeps_fit(v, text.drop_last(), n);
        lemma_char_keeps_fit(v.with_text(text.drop_last()), text.last(), n - text.len() + 1);
    }
}

impl Window {
    /// Reads one pixel.
    fn get(&self, px: usize, py: usize) -> (color: u32)
        requires
            self.has_buffer(),
            px < self.width,
            py < self.height,
        ensures
            0 <= py * self.width + px < self.data.len(),
            color == self.data[py * self.width + px],
            col(py * self.width + px, self.width as int) == px,
            row(py * self.width + px, self.width as int) == py,
    {
        proof {
            lemma_pixel_index(self.width as int, self.height as int, px as int, py as int);
            assert(self.data.len() == self.width * self.height);
            assert(0 <= py * self.width <= py * self.width + px) by (nonlinear_arith)
                requires
                    0 <= py,
                    0 <= self.width,
                    0 <= px,
            ;
        }
        self.data[py * self.width + px]
    }

    /// Paints the glyph's visible pixels in `color`, the glyph's corner at
    /// `(x, y)`. Pixels outside the window are clipped.
    pub fn stamp(&mut self, glyph: &Glyph, x: usize, y: usize, color: u32)
        requires
            old(self).has_buffer(),
        ensures
            final(self)@ == (WindowView {
                data: stamped(
                    old(self)@.data,
                    old(self).width as int,
                    glyph.pixels(),
                    x as int,
                    y as int,
                    color,
                ),
                ..old(self)@
            }),
    {
        let width = self.width;
        let height = self.height;
        let ghost rows = glyph.pixels();
        proof {
            lemma_coords_known(width as int, height as int);
        }
        let mut ry: usize = 0;
        while ry < glyph.rows.len()
            invariant
                ry <= glyph.rows.len(),
                rows == glyph.pixels(),
                width == self.width,
                height == self.height,
                self.has_buffer(),
                self@ == (WindowView { data: self@.data, ..old(self)@ }),
                self.data.len() == old(self).data.len(),
                coords_known(old(self).data.len() as int, width as int, height as int),
                forall|i: int|
                    0 <= i < self.data.len() ==> #[trigger] self.data[i] == if lit(
                        rows,
                        col(i, width as int) - x,
                        row(i, width as int) - y,
                    ) && row(i, width as int) - y < ry {
                        color
                    } else {
                        old(self).data[i]
                    },
            decreases glyph.rows.len() - ry,
        {
            let mut rx: usize = 0;
            while rx < glyph.rows[ry].len()
                invariant
                    ry < glyph.rows.len(),
                    rx <= glyph.rows[ry as int].len(),
                    rows == glyph.pixels(),
                    width == self.width,
                    height == self.height,
                    self.has_buffer(),
                    self@ == (WindowView { data: self@.data, ..old(self)@ }),
                    self.data.len() == old(self).data.len(),
                    coords_known(old(self).data.len() as int, width as int, height as int),
                    forall|i: int|
                        0 <= i < self.data.len() ==> #[trigger] self.data[i] == if lit(
                            rows,
                            col(i, width as int) - x,
                            row(i, width as int) - y,
                        ) && (row(i, width as int) - y < ry || (row(i, width as int) - y == ry
                            && col(i, width as int) - x < rx)) {
                            color
                        } else {
                            old(self).data[i]
                        },
                decreases glyph.rows[ry as int].len() - rx,
            {
                if glyph.rows[ry][rx] > 0 && x < width && rx < width - x && y < height && ry
                    < height - y {
                    self.put(x + rx, y + ry, color);
                }
                rx = rx + 1;
            }
            ry = ry + 1;
        }
        proof {
            assert(self@.data =~= stamped(
                old(self)@.data,
                width as int,
                rows,
                x as int,
                y as int,
                color,
            ));
        }
    }

    /// Moves the text area up by one line and the cursor with it; a
    /// window too low for two lines stays as it is.
    fn scroll(&mut self)
        requires
            old(self).has_buffer(),
            old(self)@.scrolls() ==> old(self).width >= 2 * BORDER_WIDTH,
            old(self).height >= old(self)@.margin(),
            old(self).cursor_y >= LINE_HEIGHT,
        ensures
            final(self)@ == old(self)@.scrolled(),
    {
        let margin = if has_editor_title(self.title.as_str()) {
            EDITOR_MARGIN
        } else {
            BORDER_WIDTH
        };
        let top = TITLE_HEIGHT + 4;
        let bottom = self.height - margin;
        if bottom <= top + LINE_HEIGHT {
            return ;
        }
        let width = self.width;
        let height = self.height;
        proof {
            lemma_coords_known(width as int, height as int);
        }
        let mut y = top;
        while y < bottom - LINE_HEIGHT
            invariant
                top <= y <= bottom - LINE_HEIGHT,
                bottom <= height,
                width >= 2 * BORDER_WIDTH,
                width == self.width,
                height == self.height,
                self.has_buffer(),
                self@ == (WindowView { data: self@.data, ..old(self)@ }),
                self.data.len() == old(self).data.len(),
                coords_known(old(self).data.len() as int, width as int, height as int),
                forall|i: int|
                    0 <= i < self.data.len() ==> #[trigger] self.data[i] == if BORDER_WIDTH <= col(
                        i,
                        width as int,
                    ) < width - BORDER_WIDTH && top <= row(i, width as int) < y {
                        old(self).data[(row(i, width as int) + LINE_HEIGHT) * width + col(
                            i,
                            width as int,
                        )]
                    } else {
                        old(self).data[i]
                    },
            decreases bottom - y,
        {
            let mut x = BORDER_WIDTH;
            while x < width - BORDER_WIDTH
                invariant
                    top <= y < bottom - LINE_HEIGHT,
                    bottom <= height,
                    BORDER_WIDTH <= x <= width - BORDER_WIDTH,
                    width >= 2 * BORDER_WIDTH,
                    width == self.width,
                    height == self.height,
                    self.has_buffer(),
                    self@ == (WindowView { data: self@.data, ..old(self)@ }),
                    self.data.len() == old(self).data.len(),
                    coords_known(old(self).data.len() as int, width as int, height as int),
                    forall|i: int|
                        0 <= i < self.data.len() ==> #[trigger] self.data[i] == if BORDER_WIDTH
                            <= col(i, width as int) < width - BORDER_WIDTH && (top <= row(
                            i,
                            width as int,
                        ) < y || (row(i, width as int) == y && col(i, width as int) < x)) {
                            old(self).data[(row(i, width as int) + LINE_HEIGHT) * width + col(
                                i,
                                width as int,
                            )]
                        } else {
                            old(self).data[i]
                        },
                decreases width - x,
            {
                let below = self.get(x, y + LINE_HEIGHT);
                self.put(x, y, below);
                x = x + 1;
            }
            y = y + 1;
        }
        self.draw_rect(
            BORDER_WIDTH,
            bottom - LINE_HEIGHT,
            width - 2 * BORDER_WIDTH,
            LINE_HEIGHT,
            CONTENT_COLOR,
        );
        self.cursor_y -= LINE_HEIGHT;
        proof {
            assert(self@.data =~= old(self)@.scrolled().data);
        }
    }

    /// Wraps to the next line when the cursor has reached the right
    /// border, then scrolls when it has reached the bottom.
    fn wrap_and_scroll(&mut self)
        requires
            old(self).has_buffer(),
            old(self).width >= BORDER_WIDTH,
            old(self)@.scrolls() ==> old(self).width >= 2 * BORDER_WIDTH,
            old(self).height >= old(self)@.margin(),
            old(self).cursor_x + 9 <= usize::MAX,
            old(self).cursor_y + 2 * LINE_HEIGHT <= usize::MAX,
        ensures
            final(self)@ == old(self)@.wrapped().scrolled_if_full(),
    {
        let margin = if has_editor_title(self.title.as_str()) {
            EDITOR_MARGIN
        } else {
            BORDER_WIDTH
        };
        if self.cursor_x + CELL_WIDTH >= self.width - BORDER_WIDTH {
            self.cursor_x = BORDER_WIDTH + 4;
            self.cursor_y += LINE_HEIGHT;
        }
        if self.cursor_y + LINE_HEIGHT >= self.height - margin {
            if self.cursor_y >= LINE_HEIGHT {
                self.scroll();
            }
        }
    }

    /// Prints one character at the cursor: draws it, records it in the
    /// text, and moves the cursor, wrapping at the right border and
    /// scrolling at the bottom.
    pub fn draw_char(&mut self, c: char)
        requires
            old(self)@.can_type(1),
        ensures
            final(self)@ == old(self)@.with_char(c),
            final(self)@.can_type(0),
    {
        proof {
            lemma_char_keeps_fit(self@, c, 1);
        }
        if c == '\n' {
            push_char(&mut self.text_buffer, c);
            self.cursor_x = BORDER_WIDTH + 4;
            self.cursor_y += LINE_HEIGHT;
        } else if c == '\r' {
            self.cursor_x = BORDER_WIDTH + 4;
        } else if c == '\x08' {
            if self.cursor_x >= BORDER_WIDTH + 4 + CELL_WIDTH {
                self.cursor_x -= CELL_WIDTH;
                self.draw_rect(self.cursor_x, self.cursor_y, CELL_WIDTH, 16, CONTENT_COLOR);
            }
        } else {
            if c as u32 >= 32 {
                push_char(&mut self.text_buffer, c);
            }
            let glyph = glyph_for(c);
            self.stamp(&glyph, self.cursor_x, self.cursor_y, TEXT_COLOR);
            self.cursor_x += glyph.width;
        }
        self.wrap_and_scroll();
    }

    /// Moves the cursor as printing `c` would, without drawing the
    /// character or recording it.
    pub fn draw_char_no_buf(&mut self, c: char)
        requires
            old(self)@.can_type(1),
        ensures
            final(self)@ == old(self)@.with_char_skipped(c),
            final(self)@.can_type(0),
    {
        proof {
            lemma_char_keeps_fit(self@, c, 1);
        }
        if c == '\n' {
            self.cursor_x = BORDER_WIDTH + 4;
            self.cursor_y += LINE_HEIGHT;
        } else if c == '\r' {
            self.cursor_x = BORDER_WIDTH + 4;
        } else if c == '\x08' {
            if self.cursor_x >= BORDER_WIDTH + 4 + CELL_WIDTH {
                self.cursor_x -= CELL_WIDTH;
            }
        } else {
            self.cursor_x += CELL_WIDTH;
        }
        self.wrap_and_scroll();
    }

    /// Prints `text` at the cursor, character by character.
    pub fn print(&mut self, text: &str)
        requires
            old(self)@.can_type(text@.len() as int) || old(self)@.steady(),
        ensures
            final(self)@ == old(self)@.with_text(text@),
            old(self)@.can_type(text@.len() as int) ==> final(self)@.can_type(0),
            old(self)@.steady() ==> final(self)@.steady(),
    {
        let chars = chars_of(text);
        let mut i: usize = 0;
        proof {
            assert(chars@.take(0) =~= Seq::<char>::empty());
        }
        while i < chars.len()
            invariant
                i <= chars.len(),
                chars@ == text@,
                self@ == old(self)@.with_text(chars@.take(i as int)),
                old(self)@.can_type(chars.len() as int) ==> self@.can_type(chars.len() - i),
                old(self)@.steady() ==> self@.steady(),
                old(self)@.can_type(chars.len() as int) || old(self)@.steady(),
            decreases chars.len() - i,
        {
            proof {
                if self@.steady() {
                    lemma_char_keeps_steady(self@, chars[i as int]);
                }
                if old(self)@.can_type(chars.len() as int) {
                    lemma_char_keeps_fit(self@, chars[i as int], chars.len() - i);
                }
                assert(chars@.take(i + 1).drop_last() =~= chars@.take(i as int));
            }
            self.draw_char(chars[i]);
            i = i + 1;
        }
        proof {
            assert(chars@.take(chars.len() as int) =~= chars@);
        }
    }

    /// Draws `text` in `color` on one line that starts at `(x, y)`. The
    /// cursor and the recorded text are left alone.
    pub fn print_fixed(&mut self, x: usize, y: usize, text: &str, color: u32)
        requires
            old(self).has_buffer(),
            x + GLYPH_WIDTH * text@.len() <= usize::MAX,
        ensures
            final(self)@ == (WindowView {
                data: lettered(
                    old(self)@.data,
                    old(self).width as int,
                    text@,
                    x as int,
                    y as int,
                    color,
                ),
                ..old(self)@
            }),
            final(self).has_buffer(),
    {
        let chars = chars_of(text);
        let mut cur_x = x;
        let mut i: usize = 0;
        proof {
            assert(chars@.take(0) =~= Seq::<char>::empty());
        }
        while i < chars.len()
            invariant
                i <= chars.len(),
                chars@ == text@,
                cur_x == x + GLYPH_WIDTH * i,
                x + GLYPH_WIDTH * chars.len() <= usize::MAX,
                self.has_buffer(),
                self@ == (WindowView {
                    data: lettered(
                        old(self)@.data,
                        old(self).width as int,
                        chars@.take(i as int),
                        x as int,
                        y as int,
                        color,
                    ),
                    ..old(self)@
                }),
            decreases chars.len() - i,
        {
            let glyph = glyph_for(chars[i]);
            self.stamp(&glyph, cur_x, y, color);
            proof {
                assert(chars@.take(i + 1).drop_last() =~= chars@.take(i as int));
                assert(GLYPH_WIDTH * (i + 1) <= GLYPH_WIDTH * chars.len()) by (nonlinear_arith)
                    requires
                        i + 1 <= chars.len(),
                ;
            }
            cur_x += glyph.width;
            i = i + 1;
        }
        proof {
            assert(chars@.take(chars.len() as int) =~= chars@);
        }
    }

    /// Index of the character whose place in the laid-out text is nearest
    /// to the point `(rx, ry)` of the window; the place behind the last
    /// character counts too, and of equally near places the first wins.
    pub fn pos_to_index(&self, rx: usize, ry: usize) -> (r: usize)
        requires
            self@.selectable(),
            rx <= i32::MAX,
            ry <= i32::MAX,
        ensures
            r == nearest_place(self@.text, self.width as int, rx as int, ry as int, self@.text.len() as int),
            r <= self@.text.len(),
    {
        let chars = chars_of(self.text_buffer.as_str());
        let width = self.width;
        let mut cur_x: usize = BORDER_WIDTH + 4;
        let mut cur_y: usize = TITLE_HEIGHT + 4;
        let mut best_idx: usize = 0;
        let mut min_dist: u128 = squared_distance_of(rx, ry, cur_x, cur_y);
        let mut i: usize = 0;
        proof {
            assert(chars@.take(0) =~= Seq::<char>::empty());
        }
        while i < chars.len()
            invariant
                i <= chars.len(),
                chars@ == self@.text,
                width == self.width,
                BORDER_WIDTH <= width <= i32::MAX,
                rx <= i32::MAX,
                ry <= i32::MAX,
                TEXT_TOP + LINE_HEIGHT * chars.len() <= i32::MAX,
                (cur_x as int, cur_y as int) == place_after(chars@.take(i as int), width as int),
                cur_x == TEXT_LEFT || cur_x < width,
                cur_y <= TEXT_TOP + LINE_HEIGHT * i,
                best_idx == nearest_place(chars@, width as int, rx as int, ry as int, i as int),
                best_idx <= i,
                min_dist == distance_to_place(
                    chars@,
                    width as int,
                    rx as int,
                    ry as int,
                    best_idx as int,
                ),
            decreases chars.len() - i,
        {
            proof {
                assert(chars@.take(i + 1).drop_last() =~= chars@.take(i as int));
                assert(LINE_HEIGHT * (i + 1) <= LINE_HEIGHT * chars.len()) by (nonlinear_arith)
                    requires
                        i + 1 <= chars.len(),
                ;
            }
            if chars[i] == '\n' {
                cur_x = BORDER_WIDTH + 4;
                cur_y += LINE_HEIGHT;
            } else {
                cur_x += CELL_WIDTH;
                if cur_x + CELL_WIDTH >= width - BORDER_WIDTH {
                    cur_x = BORDER_WIDTH + 4;
                    cur_y += LINE_HEIGHT;
                }
            }
            i = i + 1;
            let dist = squared_distance_of(rx, ry, cur_x, cur_y);
            if dist < min_dist {
                min_dist = dist;
                best_idx = i;
            }
        }
        proof {
            assert(chars@.take(chars.len() as int) =~= chars@);
        }
        best_idx
    }

    /// Follows the mouse at screen point `(mx, my)`. With the button up
    /// a selection in progress ends. With the button down over the
    /// content area, the selection runs from where the button went down to
    /// the character nearest to the mouse now.
    pub fn handle_mouse(&mut self, mx: usize, my: usize, btn: bool)
        requires
            btn ==> old(self)@.selectable(),
        ensures
            final(self)@ == old(self)@.with_mouse(mx as int, my as int, btn),
    {
        if !btn {
            self.is_selecting = false;
            return ;
        }
        let rel_x = if mx >= self.x {
            mx - self.x
        } else {
            0
        };
        let rel_y = if my >= self.y {
            my - self.y
        } else {
            0
        };
        if rel_x < BORDER_WIDTH || rel_x >= (self.width - BORDER_WIDTH) || rel_y < TITLE_HEIGHT
            || rel_y >= (self.height - BORDER_WIDTH) {
            return ;
        }
        let idx = self.pos_to_index(rel_x, rel_y);
        if !self.is_selecting {
            self.is_selecting = true;
            self.selection_start = Some(idx);
        }
        self.selection_end = Some(idx);
    }

    /// Draws `text` in white on one line that starts at `(x, y)`.
    pub fn print_at(&mut self, x: usize, y: usize, text: &str)
        requires
            old(self).has_buffer(),
            x + GLYPH_WIDTH * text@.len() <= usize::MAX,
        ensures
            final(self)@ == (WindowView {
                data: lettered(
                    old(self)@.data,
                    old(self).width as int,
                    text@,
                    x as int,
                    y as int,
                    TEXT_COLOR,
                ),
                ..old(self)@
            }),
    {
        self.print_fixed(x, y, text, TEXT_COLOR);
    }
}

/// The screen's back buffer, on which the windows are stacked before the
/// picture goes to the display.
pub struct Compositor {
    width: usize,
    height: usize,
    backbuffer: Vec<u32>,
    pub frame_count: u64,
}

/// A compositor as a mathematical value.
pub struct CompositorView {
    pub width: usize,
    pub height: usize,
    pub backbuffer: Seq<u32>,
    pub frame_count: u64,
}

impl View for Compositor {
    type V = CompositorView;

    closed spec fn view(&self) -> CompositorView {
        CompositorView {
            width: self.width,
            height: self.height,
            backbuffer: self.backbuffer@,
            frame_count: self.frame_count,
        }
    }
}

impl CompositorView {
    /// The back buffer holds exactly one value per pixel of the screen.
    pub open spec fn wf(self) -> bool {
        self.backbuffer.len() == self.width * self.height
    }
}

impl Compositor {
    /// A compositor for a screen `width` by `height`, its back buffer
    /// painted in the desktop colour, before the first frame.
    pub fn new(width: usize, height: usize) -> (r: Compositor)
        requires
            width * height <= usize::MAX,
        ensures
            r@ == (CompositorView {
                width,
                height,
                backbuffer: Seq::new((width * height) as nat, |i: int| DESKTOP_COLOR),
                frame_count: 0,
            }),
            r@.wf(),
    {
        let size = width * height;
        let backbuffer = vec![DESKTOP_COLOR; size];
        proof {
            assert(backbuffer@ =~= Seq::new((width * height) as nat, |i: int| DESKTOP_COLOR));
        }
        Compositor { width, height, backbuffer, frame_count: 0 }
    }

    /// Width of the screen.
    pub fn width(&self) -> (w: usize)
        ensures
            w == self@.width,
    {
        self.width
    }

    /// Height of the screen.
    pub fn height(&self) -> (h: usize)
        ensures
            h == self@.height,
    {
        self.height
    }

    /// The picture composed last, row after row.
    pub fn backbuffer(&self) -> (buffer: &Vec<u32>)
        ensures
            buffer@ == self@.backbuffer,
    {
        &self.backbuffer
    }

    /// Composes the next frame: the desktop, the windows from the bottom
    /// of the stack to its top, each with the selected part of its text
    /// highlighted, the text cursor of the top window while it is in the
    /// visible half of its blink and a window is active, and the mouse
    /// pointer at `(mx, my)` over everything.
    pub fn render(&mut self, windows: &[&Window], active_idx: Option<usize>, mx: usize, my: usize)
        requires
            old(self)@.wf(),
            old(self)@.frame_count < u64::MAX,
            forall|i: int| 0 <= i < windows@.len() ==> (#[trigger] windows@[i])@.drawable(),
        ensures
            final(self)@ == old(self)@.rendered(window_views(windows@), active_idx, mx as int, my as int),
            final(self)@.wf(),
    {
        self.frame_count += 1;
        let layout = Layout { width: self.width, height: self.height, pitch: self.width };
        let cursor_on = active_idx.is_some() && (self.frame_count / 30) % 2 == 0;
        let n = self.backbuffer.len();
        let mut k: usize = 0;
        while k < n
            invariant
                k <= n,
                n == self.backbuffer.len(),
                n == old(self).backbuffer.len(),
                self@ == (CompositorView { backbuffer: self@.backbuffer, ..old(self)@.ticked() }),
                forall|j: int| 0 <= j < k ==> self.backbuffer[j] == DESKTOP_COLOR,
            decreases n - k,
        {
            self.backbuffer[k] = DESKTOP_COLOR;
            k = k + 1;
        }
        proof {
            assert(self@.backbuffer =~= old(self)@.blank());
            assert(layout == old(self)@.layout());
        }
        let ghost views = window_views(windows@);
        let mut i: usize = 0;
        while i < windows.len()
            invariant
                i <= windows.len(),
                views == window_views(windows@),
                layout == old(self)@.layout(),
                layout.fits(self@.backbuffer.len()),
                self@.backbuffer.len() == old(self)@.backbuffer.len(),
                cursor_on == old(self)@.cursor_on(active_idx),
                forall|j: int| 0 <= j < windows@.len() ==> (#[trigger] windows@[j])@.drawable(),
                self@ == (CompositorView { backbuffer: self@.backbuffer, ..old(self)@.ticked() }),
                self@.backbuffer == windows_drawn(
                    old(self)@.blank(),
                    layout,
                    views,
                    i as nat,
                    cursor_on,
                ),
            decreases windows.len() - i,
        {
            let win = windows[i];
            proof {
                assert(views[i as int] == win@);
            }
            draw_window(
                self.backbuffer.as_mut_slice(),
                layout,
                win,
                cursor_on && i == windows.len() - 1,
            );
            i = i + 1;
        }
        let ghost stacked = self.backbuffer@;
        paint_square(self.backbuffer.as_mut_slice(), layout, mx, my, &Paint::Pointer);
        proof {
            assert(self.backbuffer@.len() == stacked.len());
        }
    }
}

/// The windows of a list as mathematical values.
pub open spec fn window_views(windows: Seq<&Window>) -> Seq<WindowView> {
    Seq::new(windows.len(), |i: int| windows[i]@)
}

/// The two ends of a window's selection, the lower first.
pub open spec fn selection_bounds(win: WindowView) -> Option<(int, int)> {
    match (win.selection_start, win.selection_end) {
        (Some(a), Some(b)) => Some(
            if a < b {
                (a as int, b as int)
            } else {
                (b as int, a as int)
            },
        ),
        _ => None,
    }
}

/// The buffer with the cells of those among the first `upto` characters
/// of the window's text highlighted that lie from `s` up to `e`.
pub open spec fn highlighted(
    buffer: Seq<u32>,
    layout: Layout,
    win: WindowView,
    s: int,
    e: int,
    upto: nat,
) -> Seq<u32>
    decreases upto,
{
    if upto == 0 || upto > win.text.len() {
        buffer
    } else {
        let before = highlighted(buffer, layout, win, s, e, (upto - 1) as nat);
        if s <= upto - 1 < e {
            rect_tinted(
                before,
                layout,
                win.x + place_after(win.text.take(upto - 1), win.width as int).0,
                win.y + place_after(win.text.take(upto - 1), win.width as int).1,
                CELL_WIDTH as int,
                LINE_HEIGHT as int,
            )
        } else {
            before
        }
    }
}

/// The buffer with a window drawn onto it: its pixels, the highlight of
/// its selection, and its text cursor where `with_cursor` is set.
pub open spec fn window_drawn(buffer: Seq<u32>, layout: Layout, win: WindowView, with_cursor: bool) -> Seq<
    u32,
> {
    let placed = picture_placed(
        buffer,
        layout,
        win.data,
        win.x as int,
        win.y as int,
        win.width as int,
        win.height as int,
    );
    let marked = match selection_bounds(win) {
        Some((s, e)) => highlighted(placed, layout, win, s, e, win.text.len()),
        None => placed,
    };
    if with_cursor {
        rect_painted(
            marked,
            layout,
            win.x + win.cursor_x,
            win.y + win.cursor_y,
            8,
            16,
            TEXT_COLOR,
        )
    } else {
        marked
    }
}

/// The buffer with the first `upto` windows drawn onto it, the last of
/// all windows with its text cursor where `cursor_on` is set.
pub open spec fn windows_drawn(
    buffer: Seq<u32>,
    layout: Layout,
    windows: Seq<WindowView>,
    upto: nat,
    cursor_on: bool,
) -> Seq<u32>
    decreases upto,
{
    if upto == 0 || upto > windows.len() {
        buffer
    } else {
        window_drawn(
            windows_drawn(buffer, layout, windows, (upto - 1) as nat, cursor_on),
            layout,
            windows[upto - 1],
            cursor_on && upto == windows.len(),
        )
    }
}

impl WindowView {
    /// The window can be drawn onto a screen: its buffer fits it, and its
    /// laid-out text stays within machine integers.
    pub open spec fn drawable(self) -> bool {
        &&& self.has_buffer()
        &&& self.width >= BORDER_WIDTH
        &&& self.width + 64 <= usize::MAX
        &&& TEXT_TOP + LINE_HEIGHT * self.text.len() + 64 <= usize::MAX
    }
}

impl Window {
    /// Tells whether the window can be drawn onto a screen.
    pub fn is_drawable(&self) -> (r: bool)
        ensures
            r == self@.drawable(),
    {
        let n = self.text_buffer.as_str().unicode_len();
        let fits = match self.width.checked_mul(self.height) {
            Some(area) => self.data.len() == area,
            None => false,
        };
        let text_fits = match n.checked_mul(LINE_HEIGHT) {
            Some(rows) => rows <= usize::MAX - TEXT_TOP - 64,
            None => false,
        };
        proof {
            assert(self@.data.len() == self.data.len());
        }
        fits && self.width >= BORDER_WIDTH && self.width <= usize::MAX - 64 && text_fits
    }
}

impl CompositorView {
    /// Layout of the back buffer.
    pub open spec fn layout(self) -> Layout {
        Layout { width: self.width, height: self.height, pitch: self.width }
    }

    /// The compositor one frame later.
    pub open spec fn ticked(self) -> CompositorView {
        CompositorView { frame_count: (self.frame_count + 1) as u64, ..self }
    }

    /// The back buffer painted in the desktop colour.
    pub open spec fn blank(self) -> Seq<u32> {
        Seq::new(self.backbuffer.len(), |i: int| DESKTOP_COLOR)
    }

    /// The text cursor shows in the next frame: a window is active and
    /// the frame falls into the visible half of the blink, which changes
    /// every thirty frames.
    pub open spec fn cursor_on(self, active_idx: Option<usize>) -> bool {
        active_idx is Some && ((self.frame_count + 1) / 30) % 2 == 0
    }

    /// The compositor after the next frame was composed.
    pub open spec fn rendered(
        self,
        windows: Seq<WindowView>,
        active_idx: Option<usize>,
        mx: int,
        my: int,
    ) -> CompositorView {
        CompositorView {
            backbuffer: square_painted(
                windows_drawn(
                    self.blank(),
                    self.layout(),
                    windows,
                    windows.len(),
                    self.cursor_on(active_idx),
                ),
                self.layout(),
                mx,
                my,
                Paint::Pointer,
            ),
            ..self.ticked()
        }
    }
}

/// Draws one window onto the buffer.
fn draw_window(buffer: &mut [u32], layout: Layout, win: &Window, with_cursor: bool)
    requires
        layout.fits(old(buffer)@.len()),
        win@.drawable(),
    ensures
        final(buffer)@ == window_drawn(old(buffer)@, layout, win@, with_cursor),
        final(buffer)@.len() == old(buffer)@.len(),
{
    place_picture(buffer, layout, win.data.as_slice(), win.x, win.y, win.width, win.height);
    let ghost placed = buffer@;
    match (win.selection_start, win.selection_end) {
        (Some(start), Some(end)) => {
            let (s, e) = if start < end {
                (start, end)
            } else {
                (end, start)
            };
            let chars = chars_of(win.text_buffer.as_str());
            let mut cur_x: usize = BORDER_WIDTH + 4;
            let mut cur_y: usize = TITLE_HEIGHT + 4;
            let mut idx: usize = 0;
            proof {
                assert(chars@.take(0) =~= Seq::<char>::empty());
            }
            while idx < chars.len()
                invariant
                    idx <= chars.len(),
                    chars@ == win@.text,
                    win@.drawable(),
                    layout.fits(buffer@.len()),
                    buffer@.len() == old(buffer)@.len(),
                    (cur_x as int, cur_y as int) == place_after(
                        chars@.take(idx as int),
                        win.width as int,
                    ),
                    cur_x <= win.width + 16,
                    cur_y <= TEXT_TOP + LINE_HEIGHT * idx,
                    buffer@ == highlighted(placed, layout, win@, s as int, e as int, idx as nat),
                decreases chars.len() - idx,
            {
                proof {
                    assert(chars@.take(idx + 1).drop_last() =~= chars@.take(idx as int));
                    assert(LINE_HEIGHT * (idx + 1) <= LINE_HEIGHT * chars.len())
                        by (nonlinear_arith)
                        requires
                            idx + 1 <= chars.len(),
                    ;
                }
                if idx >= s && idx < e {
                    if cur_x <= usize::MAX - win.x && cur_y <= usize::MAX - win.y {
                        tint_rect(
                            buffer,
                            layout,
                            win.x + cur_x,
                            win.y + cur_y,
                            CELL_WIDTH,
                            LINE_HEIGHT,
                        );
                    } else {
                        proof {
                            assert(buffer@ =~= rect_tinted(
                                buffer@,
                                layout,
                                win.x + cur_x,
                                win.y + cur_y,
                                CELL_WIDTH as int,
                                LINE_HEIGHT as int,
                            ));
                        }
                    }
                }
                if chars[idx] == '\n' {
                    cur_x = BORDER_WIDTH + 4;
                    cur_y += LINE_HEIGHT;
                } else {
                    cur_x += CELL_WIDTH;
                    if cur_x + CELL_WIDTH >= win.width - BORDER_WIDTH {
                        cur_x = BORDER_WIDTH + 4;
                        cur_y += LINE_HEIGHT;
                    }
                }
                idx = idx + 1;
            }
        },
        _ => {},
    }
    if with_cursor {
        if win.cursor_x <= usize::MAX - win.x && win.cursor_y <= usize::MAX - win.y {
            fill_rect(
                buffer,
                layout,
                win.x + win.cursor_x,
                win.y + win.cursor_y,
                8,
                16,
                TEXT_COLOR,
            );
        } else {
            proof {
                assert(buffer@ =~= rect_painted(
                    buffer@,
                    layout,
                    win.x + win.cursor_x,
                    win.y + win.cursor_y,
                    8,
                    16,
                    TEXT_COLOR,
                ));
            }
        }
    }
}

} // verus!
