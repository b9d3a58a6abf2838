//! Drawing on a frame of pixels that lies in memory row after row.
//!
//! A frame is `height` rows of `pitch` pixels, of which the first `width`
//! of each row are visible. A pixel is named by its column and row.

use vstd::prelude::*;
use vstd::arithmetic::div_mod::{
    lemma_fundamental_div_mod, lemma_fundamental_div_mod_converse, lemma_mod_bound,
};
use crate::font::Glyph;

verus! {

/// Column of the pixel stored at index `i` of a frame with the given pitch.
pub open spec fn column(i: int, pitch: int) -> int {
    i % pitch
}

/// Row of the pixel stored at index `i` of a frame with the given pitch.
pub open spec fn line(i: int, pitch: int) -> int {
    i / pitch
}

/// Index `i` holds a visible pixel.
pub open spec fn visible(i: int, pitch: int, width: int, height: int) -> bool {
    0 <= column(i, pitch) < width && 0 <= line(i, pitch) < height
}

/// Size and layout of a frame.
#[derive(Debug, Clone, Copy, PartialEq, Eq, Structural)]
pub struct Layout {
    pub width: usize,
    pub height: usize,
    pub pitch: usize,
}

impl Layout {
    /// A frame of `len` pixels has room for this layout.
    pub open spec fn fits(self, len: nat) -> bool {
        self.width <= self.pitch && self.pitch * self.height <= len
    }

    /// Index `i` holds a visible pixel.
    pub open spec fn shows(self, i: int) -> bool {
        visible(i, self.pitch as int, self.width as int, self.height as int)
    }

    /// Column of index `i`.
    pub open spec fn col(self, i: int) -> int {
        column(i, self.pitch as int)
    }

    /// Row of index `i`.
    pub open spec fn row(self, i: int) -> int {
        line(i, self.pitch as int)
    }
}

/// The frame with the visible part of a rectangle painted in `color`.
pub open spec fn rect_painted(
    frame: Seq<u32>,
    layout: Layout,
    x: int,
    y: int,
    w: int,
    h: int,
    color: u32,
) -> Seq<u32> {
    Seq::new(
        frame.len(),
        |i: int|
            if layout.shows(i) && x <= layout.col(i) < x + w && y <= layout.row(i) < y + h {
                color
            } else {
                frame[i]
            },
    )
}

/// The grey of the given intensity.
pub open spec fn grey(intensity: u8) -> u32 {
    ((intensity as u32) << 16) | ((intensity as u32) << 8) | (intensity as u32)
}

/// Intensity of a glyph at its column `rx`, row `ry`; 0 outside.
pub open spec fn intensity(rows: Seq<Seq<u8>>, rx: int, ry: int) -> u8 {
    if 0 <= ry < rows.len() && 0 <= rx < rows[ry].len() {
        rows[ry][rx]
    } else {
        0
    }
}

/// The frame with the visible part of a glyph drawn at `(x, y)`, every
/// pixel of the glyph that is not background in the grey of its
/// intensity.
pub open spec fn glyph_painted(frame: Seq<u32>, layout: Layout, rows: Seq<Seq<u8>>, x: int, y: int) -> Seq<
    u32,
> {
    Seq::new(
        frame.len(),
        |i: int|
            if layout.shows(i) && intensity(rows, layout.col(i) - x, layout.row(i) - y) > 0 {
                grey(intensity(rows, layout.col(i) - x, layout.row(i) - y))
            } else {
                frame[i]
            },
    )
}

/// Every index below the end of the last row names a pixel by column and
/// row.
pub open spec fn indexed(layout: Layout) -> bool {
    forall|i: int|
        0 <= i < layout.pitch * layout.height ==> 0 <= #[trigger] layout.col(i) < layout.pitch && 0
            <= layout.row(i) < layout.height && i == layout.row(i) * layout.pitch + layout.col(i)
}

/// Indices behind the last row name no visible pixel.
pub open spec fn bounded(layout: Layout, len: int) -> bool {
    forall|i: int| layout.pitch * layout.height <= i < len ==> !#[trigger] layout.shows(i)
}

/// The indices of a frame and its pixels correspond.
pub proof fn lemma_layout(layout: Layout, len: int)
    requires
        layout.width <= layout.pitch,
    ensures
        indexed(layout),
        bounded(layout, len),
{
    let pitch = layout.pitch as int;
    let height = layout.height as int;
    assert forall|i: int| 0 <= i < pitch * height implies 0 <= #[trigger] layout.col(i) < pitch
        && 0 <= layout.row(i) < height && i == layout.row(i) * pitch + layout.col(i) by {
        assert(0 < pitch) by (nonlinear_arith)
            requires
                0 <= pitch,
                0 <= i < pitch * height,
        ;
        lemma_fundamental_div_mod(i, pitch);
        lemma_mod_bound(i, pitch);
        let r = i / pitch;
        assert(0 <= r < height) by (nonlinear_arith)
            requires
                0 < pitch,
                0 <= i < pitch * height,
                i == pitch * r + i % pitch,
                0 <= i % pitch < pitch,
        ;
        assert(pitch * r == r * pitch) by (nonlinear_arith);
    }
    assert forall|i: int| pitch * height <= i < len implies !#[trigger] layout.shows(i) by {
        if pitch > 0 {
            lemma_fundamental_div_mod(i, pitch);
            lemma_mod_bound(i, pitch);
            let r = i / pitch;
            assert(r >= height) by (nonlinear_arith)
                requires
                    0 < pitch,
                    pitch * height <= i,
                    i == pitch * r + i % pitch,
                    0 <= i % pitch < pitch,
            ;
        }
    }
}

/// The pixel at column `px`, row `py` is stored at `py * pitch + px`.
pub proof fn lemma_pixel(layout: Layout, px: int, py: int)
    requires
        0 <= px < layout.pitch,
        0 <= py < layout.height,
    ensures
        0 <= py * layout.pitch + px < layout.pitch * layout.height,
        0 <= py * layout.pitch,
        layout.col(py * layout.pitch + px) == px,
        layout.row(py * layout.pitch + px) == py,
{
    let pitch = layout.pitch as int;
    let height = layout.height as int;
    assert(0 <= py * pitch && 0 <= py * pitch + px < pitch * height) by (nonlinear_arith)
        requires
            0 <= px < pitch,
            0 <= py < height,
    ;
    lemma_fundamental_div_mod_converse(py * pitch + px, pitch, py, px);
}

/// Paints one pixel.
pub fn put_pixel(frame: &mut [u32], layout: Layout, px: usize, py: usize, color: u32)
    requires
        layout.fits(old(frame)@.len()),
        px < layout.pitch,
        py < layout.height,
    ensures
        final(frame)@ == old(frame)@.update(py * layout.pitch + px, color),
        0 <= py * layout.pitch + px < old(frame)@.len(),
        layout.col(py * layout.pitch + px) == px,
        layout.row(py * layout.pitch + px) == py,
{
    let len = frame.len();
    proof {
        lemma_pixel(layout, px as int, py as int);
        assert(py * layout.pitch + px < len);
    }
    let idx = py * layout.pitch + px;
    frame[idx] = color;
}

/// Reads one pixel.
pub fn get_pixel(frame: &[u32], layout: Layout, px: usize, py: usize) -> (color: u32)
    requires
        layout.fits(frame@.len()),
        px < layout.pitch,
        py < layout.height,
    ensures
        0 <= py * layout.pitch + px < frame@.len(),
        color == frame@[py * layout.pitch + px],
        layout.col(py * layout.pitch + px) == px,
        layout.row(py * layout.pitch + px) == py,
{
    let len = frame.len();
    proof {
        lemma_pixel(layout, px as int, py as int);
        assert(py * layout.pitch + px < len);
    }
    frame[py * layout.pitch + px]
}

/// Paints the visible part of the rectangle with corner `(x, y)`, width
/// `w` and height `h`.
pub fn fill_rect(frame: &mut [u32], layout: Layout, x: usize, y: usize, w: usize, h: usize, color: u32)
    requires
        layout.fits(old(frame)@.len()),
    ensures
        final(frame)@ == rect_painted(old(frame)@, layout, x as int, y as int, w as int, h as int, color),
{
    proof {
        lemma_layout(layout, frame@.len() as int);
    }
    if x >= layout.width || y >= layout.height {
        proof {
            assert(frame@ =~= rect_painted(
                old(frame)@,
                layout,
                x as int,
                y as int,
                w as int,
                h as int,
                color,
            ));
        }
        return ;
    }
    let x_end = if w > layout.width - x {
        layout.width
    } else {
        x + w
    };
    let y_end = if h > layout.height - y {
        layout.height
    } else {
        y + h
    };
    let mut py = y;
    while py < y_end
        invariant
            y <= py <= y_end <= layout.height,
            x <= x_end <= layout.width,
            x_end == if x + w > layout.width {
                layout.width as int
            } else {
                x + w
            },
            y_end == if y + h > layout.height {
                layout.height as int
            } else {
                y + h
            },
            layout.fits(frame@.len()),
            frame@.len() == old(frame)@.len(),
            indexed(layout),
            bounded(layout, old(frame)@.len() as int),
            forall|i: int|
                0 <= i < frame@.len() ==> #[trigger] frame@[i] == if layout.shows(i) && x
                    <= layout.col(i) < x + w && y <= layout.row(i) < py {
                    color
                } else {
                    old(frame)@[i]
                },
        decreases y_end - py,
    {
        let mut px = x;
        while px < x_end
            invariant
                y <= py < y_end <= layout.height,
                x <= px <= x_end <= layout.width,
                x_end <= x + w,
                x_end == if x + w > layout.width {
                    layout.width as int
                } else {
                    x + w
                },
                layout.fits(frame@.len()),
                frame@.len() == old(frame)@.len(),
                indexed(layout),
                bounded(layout, old(frame)@.len() as int),
                forall|i: int|
                    0 <= i < frame@.len() ==> #[trigger] frame@[i] == if layout.shows(i) && x
                        <= layout.col(i) < x + w && (y <= layout.row(i) < py || (layout.row(i)
                        == py && layout.col(i) < px)) {
                        color
                    } else {
                        old(frame)@[i]
                    },
            decreases x_end - px,
        {
            put_pixel(frame, layout, px, py, color);
            px = px + 1;
        }
        py = py + 1;
    }
    proof {
        assert(frame@ =~= rect_painted(
            old(frame)@,
            layout,
            x as int,
            y as int,
            w as int,
            h as int,
            color,
        ));
    }
}

/// Draws the visible part of a glyph with its corner at `(x, y)`, every
/// pixel that is not background in the grey of its intensity.
pub fn draw_glyph(frame: &mut [u32], layout: Layout, glyph: &Glyph, x: usize, y: usize)
    requires
        layout.fits(old(frame)@.len()),
    ensures
        final(frame)@ == glyph_painted(old(frame)@, layout, glyph.pixels(), x as int, y as int),
{
    let ghost rows = glyph.pixels();
    proof {
        lemma_layout(layout, frame@.len() as int);
    }
    let mut ry: usize = 0;
    while ry < glyph.rows.len()
        invariant
            ry <= glyph.rows.len(),
            rows == glyph.pixels(),
            layout.fits(frame@.len()),
            frame@.len() == old(frame)@.len(),
            indexed(layout),
            bounded(layout, old(frame)@.len() as int),
            forall|i: int|
                0 <= i < frame@.len() ==> #[trigger] frame@[i] == if layout.shows(i) && intensity(
                    rows,
                    layout.col(i) - x,
                    layout.row(i) - y,
                ) > 0 && layout.row(i) - y < ry {
                    grey(intensity(rows, layout.col(i) - x, layout.row(i) - y))
                } else {
                    old(frame)@[i]
                },
        decreases glyph.rows.len() - ry,
    {
        let mut rx: usize = 0;
        while rx < glyph.rows[ry].len()
            invariant
                ry < glyph.rows.len(),
                rx <= glyph.rows[ry as int].len(),
                rows == glyph.pixels(),
                layout.fits(frame@.len()),
                frame@.len() == old(frame)@.len(),
                indexed(layout),
                bounded(layout, old(frame)@.len() as int),
                forall|i: int|
                    0 <= i < frame@.len() ==> #[trigger] frame@[i] == if layout.shows(i)
                        && intensity(rows, layout.col(i) - x, layout.row(i) - y) > 0 && (
                    layout.row(i) - y < ry || (layout.row(i) - y == ry && layout.col(i) - x < rx)) {
                        grey(intensity(rows, layout.col(i) - x, layout.row(i) - y))
                    } else {
                        old(frame)@[i]
                    },
            decreases glyph.rows[ry as int].len() - rx,
        {
            let byte = glyph.rows[ry][rx];
            if byte > 0 && x < layout.width && rx < layout.width - x && y < layout.height && ry
                < layout.height - y {
                let shade = byte as u32;
                put_pixel(frame, layout, x + rx, y + ry, (shade << 16) | (shade << 8) | shade);
            }
            rx = rx + 1;
        }
        ry = ry + 1;
    }
    proof {
        assert(frame@ =~= glyph_painted(old(frame)@, layout, rows, x as int, y as int));
    }
}

/// Side of the square the mouse pointer covers.
pub const POINTER_SIZE: usize = 10;

/// Colour of the pointer's rim.
pub const POINTER_RIM: u32 = 0xFF000000;

/// Colour of the pointer's inside.
pub const POINTER_FILL: u32 = 0xFFFFFFFF;

/// What a square of ten by ten pixels is painted with.
pub enum Paint {
    /// The mouse pointer: a white square with a black rim.
    Pointer,
    /// Pixels kept earlier, row after row.
    Block([u32; 100]),
}

/// Colour of the pointer at its column `j`, row `i`.
pub open spec fn pointer_color(i: int, j: int) -> u32 {
    if i == 0 || i == 9 || j == 0 || j == 9 {
        POINTER_RIM
    } else {
        POINTER_FILL
    }
}

impl Paint {
    /// The colour for column `j`, row `i` of the square.
    pub open spec fn color_at(self, i: int, j: int) -> u32 {
        match self {
            Paint::Pointer => pointer_color(i, j),
            Paint::Block(block) => block@[i * 10 + j],
        }
    }
}

/// The frame with the visible part of the square at `(x, y)` painted.
pub open spec fn square_painted(frame: Seq<u32>, layout: Layout, x: int, y: int, paint: Paint) -> Seq<
    u32,
> {
    Seq::new(
        frame.len(),
        |i: int|
            if layout.shows(i) && x <= layout.col(i) < x + POINTER_SIZE && y <= layout.row(i) < y
                + POINTER_SIZE {
                paint.color_at(layout.row(i) - y, layout.col(i) - x)
            } else {
                frame[i]
            },
    )
}

/// The pixels of the square at `(x, y)`, row after row.
pub open spec fn square_of(frame: Seq<u32>, layout: Layout, x: int, y: int) -> Seq<u32> {
    Seq::new(100, |k: int| frame[(y + k / 10) * layout.pitch + x + k % 10])
}

/// Paints the visible part of the square of ten by ten pixels at
/// `(x, y)`.
pub fn paint_square(frame: &mut [u32], layout: Layout, x: usize, y: usize, paint: &Paint)
    requires
        layout.fits(old(frame)@.len()),
    ensures
        final(frame)@ == square_painted(old(frame)@, layout, x as int, y as int, *paint),
{
    proof {
        lemma_layout(layout, frame@.len() as int);
    }
    let mut i: usize = 0;
    while i < POINTER_SIZE
        invariant
            i <= POINTER_SIZE,
            layout.fits(frame@.len()),
            frame@.len() == old(frame)@.len(),
            indexed(layout),
            bounded(layout, old(frame)@.len() as int),
            forall|k: int|
                0 <= k < frame@.len() ==> #[trigger] frame@[k] == if layout.shows(k) && x
                    <= layout.col(k) < x + POINTER_SIZE && y <= layout.row(k) < y + i {
                    paint.color_at(layout.row(k) - y, layout.col(k) - x)
                } else {
                    old(frame)@[k]
                },
        decreases POINTER_SIZE - i,
    {
        let mut j: usize = 0;
        while j < POINTER_SIZE
            invariant
                i < POINTER_SIZE,
                j <= POINTER_SIZE,
                layout.fits(frame@.len()),
                frame@.len() == old(frame)@.len(),
                indexed(layout),
                bounded(layout, old(frame)@.len() as int),
                forall|k: int|
                    0 <= k < frame@.len() ==> #[trigger] frame@[k] == if layout.shows(k) && x
                        <= layout.col(k) < x + POINTER_SIZE && (y <= layout.row(k) < y + i || (
                    layout.row(k) == y + i && layout.col(k) < x + j)) {
                        paint.color_at(layout.row(k) - y, layout.col(k) - x)
                    } else {
                        old(frame)@[k]
                    },
            decreases POINTER_SIZE - j,
        {
            if x < layout.width && j < layout.width - x && y < layout.height && i < layout.height
                - y {
                let color = match paint {
                    Paint::Pointer => if i == 0 || i == 9 || j == 0 || j == 9 {
                        POINTER_RIM
                    } else {
                        POINTER_FILL
                    },
                    Paint::Block(block) => block[i * 10 + j],
                };
                put_pixel(frame, layout, x + j, y + i, color);
            }
            j = j + 1;
        }
        i = i + 1;
    }
    proof {
        assert(frame@ =~= square_painted(old(frame)@, layout, x as int, y as int, *paint));
    }
}

/// Copies the square of ten by ten pixels at `(x, y)`, which lies on the
/// screen.
pub fn copy_square(frame: &[u32], layout: Layout, x: usize, y: usize) -> (block: [u32; 100])
    requires
        layout.fits(frame@.len()),
        x + POINTER_SIZE <= layout.width,
        y + POINTER_SIZE <= layout.height,
    ensures
        block@ == square_of(frame@, layout, x as int, y as int),
{
    let mut block: [u32; 100] = [0u32; 100];
    let mut i: usize = 0;
    while i < POINTER_SIZE
        invariant
            i <= POINTER_SIZE,
            layout.fits(frame@.len()),
            x + POINTER_SIZE <= layout.width,
            y + POINTER_SIZE <= layout.height,
            forall|k: int|
                0 <= k < i * 10 ==> #[trigger] block@[k] == frame@[(y + k / 10) * layout.pitch + x
                    + k % 10],
        decreases POINTER_SIZE - i,
    {
        let mut j: usize = 0;
        while j < POINTER_SIZE
            invariant
                i < POINTER_SIZE,
                j <= POINTER_SIZE,
                layout.fits(frame@.len()),
                x + POINTER_SIZE <= layout.width,
                y + POINTER_SIZE <= layout.height,
                forall|k: int|
                    0 <= k < i * 10 + j ==> #[trigger] block@[k] == frame@[(y + k / 10)
                        * layout.pitch + x + k % 10],
            decreases POINTER_SIZE - j,
        {
            let pixel = get_pixel(frame, layout, x + j, y + i);
            block[i * 10 + j] = pixel;
            j = j + 1;
        }
        i = i + 1;
    }
    proof {
        assert(block@ =~= square_of(frame@, layout, x as int, y as int));
    }
    block
}

/// A colour blended half and half with blue: red and green are halved,
/// and blue is halved and raised by 128.
pub open spec fn blended(color: u32) -> u32 {
    ((((color >> 16) & 0xFF) / 2) << 16) | ((((color >> 8) & 0xFF) / 2) << 8) | (((color & 0xFF) / 2
        + 128) as u32)
}

/// The frame with the visible part of a rectangle blended with blue.
pub open spec fn rect_tinted(frame: Seq<u32>, layout: Layout, x: int, y: int, w: int, h: int) -> Seq<
    u32,
> {
    Seq::new(
        frame.len(),
        |i: int|
            if layout.shows(i) && x <= layout.col(i) < x + w && y <= layout.row(i) < y + h {
                blended(frame[i])
            } else {
                frame[i]
            },
    )
}

/// The frame with a picture of `w` by `h` pixels, stored row after row in
/// `picture`, copied to `(x, y)`; what lies outside the screen is
/// clipped.
pub open spec fn picture_placed(
    frame: Seq<u32>,
    layout: Layout,
    picture: Seq<u32>,
    x: int,
    y: int,
    w: int,
    h: int,
) -> Seq<u32> {
    Seq::new(
        frame.len(),
        |i: int|
            if layout.shows(i) && x <= layout.col(i) < x + w && y <= layout.row(i) < y + h {
                picture[(layout.row(i) - y) * w + (layout.col(i) - x)]
            } else {
                frame[i]
            },
    )
}

/// Blends the visible part of a rectangle with blue.
pub fn tint_rect(frame: &mut [u32], layout: Layout, x: usize, y: usize, w: usize, h: usize)
    requires
        layout.fits(old(frame)@.len()),
    ensures
        final(frame)@ == rect_tinted(old(frame)@, layout, x as int, y as int, w as int, h as int),
{
    proof {
        lemma_layout(layout, frame@.len() as int);
    }
    if x >= layout.width || y >= layout.height {
        proof {
            assert(frame@ =~= rect_tinted(old(frame)@, layout, x as int, y as int, w as int, h as int));
        }
        return ;
    }
    let x_end = if w > layout.width - x {
        layout.width
    } else {
        x + w
    };
    let y_end = if h > layout.height - y {
        layout.height
    } else {
        y + h
    };
    let mut py = y;
    while py < y_end
        invariant
            y <= py <= y_end <= layout.height,
            x <= x_end <= layout.width,
            x_end == if x + w > layout.width {
                layout.width as int
            } else {
                x + w
            },
            y_end == if y + h > layout.height {
                layout.height as int
            } else {
                y + h
            },
            layout.fits(frame@.len()),
            frame@.len() == old(frame)@.len(),
            indexed(layout),
            bounded(layout, old(frame)@.len() as int),
            forall|i: int|
                0 <= i < frame@.len() ==> #[trigger] frame@[i] == if layout.shows(i) && x
                    <= layout.col(i) < x + w && y <= layout.row(i) < py {
                    blended(old(frame)@[i])
                } else {
                    old(frame)@[i]
                },
        decreases y_end - py,
    {
        let mut px = x;
        while px < x_end
            invariant
                y <= py < y_end <= layout.height,
                x <= px <= x_end <= layout.width,
                x_end <= x + w,
                x_end == if x + w > layout.width {
                    layout.width as int
                } else {
                    x + w
                },
                layout.fits(frame@.len()),
                frame@.len() == old(frame)@.len(),
                indexed(layout),
                bounded(layout, old(frame)@.len() as int),
                forall|i: int|
                    0 <= i < frame@.len() ==> #[trigger] frame@[i] == if layout.shows(i) && x
                        <= layout.col(i) < x + w && (y <= layout.row(i) < py || (layout.row(i)
                        == py && layout.col(i) < px)) {
                        blended(old(frame)@[i])
                    } else {
                        old(frame)@[i]
                    },
            decreases x_end - px,
        {
            let old_color = get_pixel(frame, layout, px, py);
            let r = (old_color >> 16) & 0xFF;
            let g = (old_color >> 8) & 0xFF;
            let b = old_color & 0xFF;
            proof {
                assert((old_color >> 16) & 0xFF <= 255 && (old_color >> 8) & 0xFF <= 255
                    && old_color & 0xFF <= 255) by (bit_vector);
            }
            let new_r = r / 2;
            let new_g = g / 2;
            let new_b = (b / 2) + 128;
            put_pixel(frame, layout, px, py, (new_r << 16) | (new_g << 8) | new_b);
            px = px + 1;
        }
        py = py + 1;
    }
    proof {
        assert(frame@ =~= rect_tinted(old(frame)@, layout, x as int, y as int, w as int, h as int));
    }
}

/// Copies a picture of `w` by `h` pixels to `(x, y)`; what lies outside
/// the screen is clipped.
pub fn place_picture(
    frame: &mut [u32],
    layout: Layout,
    picture: &[u32],
    x: usize,
    y: usize,
    w: usize,
    h: usize,
)
    requires
        layout.fits(old(frame)@.len()),
        picture@.len() == w * h,
    ensures
        final(frame)@ == picture_placed(
            old(frame)@,
            layout,
            picture@,
            x as int,
            y as int,
            w as int,
            h as int,
        ),
{
    proof {
        lemma_layout(layout, frame@.len() as int);
    }
    if x >= layout.width || y >= layout.height {
        proof {
            assert(frame@ =~= picture_placed(
                old(frame)@,
                layout,
                picture@,
                x as int,
                y as int,
                w as int,
                h as int,
            ));
        }
        return ;
    }
    let x_end = if w > layout.width - x {
        layout.width
    } else {
        x + w
    };
    let y_end = if h > layout.height - y {
        layout.height
    } else {
        y + h
    };
    let source = Layout { width: w, height: h, pitch: w };
    let mut py = y;
    while py < y_end
        invariant
            y <= py <= y_end <= layout.height,
            x <= x_end <= layout.width,
            x_end == if x + w > layout.width {
                layout.width as int
            } else {
                x + w
            },
            y_end == if y + h > layout.height {
                layout.height as int
            } else {
                y + h
            },
            source == (Layout { width: w, height: h, pitch: w }),
            picture@.len() == w * h,
            layout.fits(frame@.len()),
            frame@.len() == old(frame)@.len(),
            indexed(layout),
            bounded(layout, old(frame)@.len() as int),
            forall|i: int|
                0 <= i < frame@.len() ==> #[trigger] frame@[i] == if layout.shows(i) && x
                    <= layout.col(i) < x + w && y <= layout.row(i) < py {
                    picture@[(layout.row(i) - y) * w + (layout.col(i) - x)]
                } else {
                    old(frame)@[i]
                },
        decreases y_end - py,
    {
        let mut px = x;
        while px < x_end
            invariant
                y <= py < y_end <= layout.height,
                x <= px <= x_end <= layout.width,
                x_end <= x + w,
                y_end <= y + h,
                x_end == if x + w > layout.width {
                    layout.width as int
                } else {
                    x + w
                },
                source == (Layout { width: w, height: h, pitch: w }),
                picture@.len() == w * h,
                layout.fits(frame@.len()),
                frame@.len() == old(frame)@.len(),
                indexed(layout),
                bounded(layout, old(frame)@.len() as int),
                forall|i: int|
                    0 <= i < frame@.len() ==> #[trigger] frame@[i] == if layout.shows(i) && x
                        <= layout.col(i) < x + w && (y <= layout.row(i) < py || (layout.row(i)
                        == py && layout.col(i) < px)) {
                        picture@[(layout.row(i) - y) * w + (layout.col(i) - x)]
                    } else {
                        old(frame)@[i]
                    },
            decreases x_end - px,
        {
            let color = get_pixel(picture, source, px - x, py - y);
            put_pixel(frame, layout, px, py, color);
            px = px + 1;
        }
        py = py + 1;
    }
    proof {
        assert(frame@ =~= picture_placed(
            old(frame)@,
            layout,
            picture@,
            x as int,
            y as int,
            w as int,
            h as int,
        ));
    }
}

/// Cycles a frame may take.
pub const FRAME_BUDGET_CYCLES: u64 = 50_000_000;

/// Rows of the gauge at the bottom of the screen.
pub const GAUGE_HEIGHT: usize = 8;

/// Colour of the gauge while the frame is well within its budget.
pub const GAUGE_OK: u32 = 0x0000FF00;

/// Colour of the gauge when more than eight tenths of the budget are
/// used.
pub const GAUGE_HIGH: u32 = 0x00FFFF00;

/// Colour of the gauge when the budget is used up.
pub const GAUGE_OVER: u32 = 0x00FF0000;

/// Colour of the unused part of the gauge.
pub const GAUGE_REST: u32 = 0x00222222;

/// Columns of the gauge that are filled after a frame of `elapsed`
/// cycles on a screen `width` wide: the share of the budget that was
/// used, at most the whole width.
pub open spec fn gauge_width(elapsed: u64, width: usize) -> int {
    if (elapsed * width) / (FRAME_BUDGET_CYCLES as int) > width {
        width as int
    } else {
        (elapsed * width) / (FRAME_BUDGET_CYCLES as int)
    }
}

/// The colour of a gauge with `bar` columns filled.
pub open spec fn gauge_color(bar: int, width: usize) -> u32 {
    if bar < width * 8 / 10 {
        GAUGE_OK
    } else if bar < width {
        GAUGE_HIGH
    } else {
        GAUGE_OVER
    }
}

/// The frame with the gauge drawn in its last eight rows.
pub open spec fn gauge_painted(frame: Seq<u32>, layout: Layout, elapsed: u64) -> Seq<u32> {
    let bar = gauge_width(elapsed, layout.width);
    rect_painted(
        rect_painted(
            frame,
            layout,
            0,
            layout.height - GAUGE_HEIGHT,
            bar,
            GAUGE_HEIGHT as int,
            gauge_color(bar, layout.width),
        ),
        layout,
        bar,
        layout.height - GAUGE_HEIGHT,
        layout.width - bar,
        GAUGE_HEIGHT as int,
        GAUGE_REST,
    )
}

/// Draws the gauge that shows how much of its budget the last frame
/// used: a bar in the last eight rows of the screen, green, yellow or
/// red, on a dark ground.
pub fn draw_gauge(frame: &mut [u32], layout: Layout, elapsed: u64)
    requires
        layout.fits(old(frame)@.len()),
        layout.height >= GAUGE_HEIGHT,
        layout.width * 8 <= usize::MAX,
    ensures
        final(frame)@ == gauge_painted(old(frame)@, layout, elapsed),
{
    let width = layout.width;
    proof {
        assert(0 <= elapsed * width <= 0xFFFF_FFFF_FFFF_FFFF * 0xFFFF_FFFF_FFFF_FFFF)
            by (nonlinear_arith)
            requires
                0 <= elapsed <= 0xFFFF_FFFF_FFFF_FFFF,
                0 <= width <= 0xFFFF_FFFF_FFFF_FFFF,
        ;
    }
    let share: u128 = ((elapsed as u128) * (width as u128)) / (FRAME_BUDGET_CYCLES as u128);
    let bar_width: usize = if share > width as u128 {
        width
    } else {
        share as usize
    };
    let color = if bar_width < (width * 8 / 10) {
        GAUGE_OK
    } else if bar_width < width {
        GAUGE_HIGH
    } else {
        GAUGE_OVER
    };
    let top = layout.height - GAUGE_HEIGHT;
    fill_rect(frame, layout, 0, top, bar_width, GAUGE_HEIGHT, color);
    fill_rect(frame, layout, bar_width, top, width - bar_width, GAUGE_HEIGHT, GAUGE_REST);
}

} // verus!
