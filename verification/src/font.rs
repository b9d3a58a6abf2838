//! The bitmap font: one glyph per character, sixteen rows of pixel
//! intensities each.

use vstd::prelude::*;
use noto_sans_mono_bitmap::{get_raster, FontWeight, RasterHeight};

verus! {

/// Columns every glyph has.
pub const GLYPH_WIDTH: usize = 7;

/// Rows every glyph has.
pub const GLYPH_HEIGHT: usize = 16;

/// A character's picture: rows of pixel intensities, 0 for background.
pub struct Glyph {
    pub rows: Vec<Vec<u8>>,
    /// Columns the cursor advances by after the glyph.
    pub width: usize,
}

/// The rows of intensities the font holds for `c` at regular weight and
/// height 16; `None` for a character the font does not know.
pub uninterp spec fn font_rows(c: char) -> Option<Seq<Seq<u8>>>;

/// Rows of vectors as rows of sequences.
pub open spec fn rows_view(rows: Vec<Vec<u8>>) -> Seq<Seq<u8>> {
    Seq::new(rows@.len(), |i: int| rows@[i]@)
}

/// The rows shown for `c`: its own where the font knows it, else those of
/// the question mark.
pub open spec fn shown_rows(c: char) -> Seq<Seq<u8>> {
    match font_rows(c) {
        Some(rows) => rows,
        None => font_rows('?').unwrap(),
    }
}

impl Glyph {
    /// The glyph's rows as sequences.
    pub open spec fn pixels(&self) -> Seq<Seq<u8>> {
        rows_view(self.rows)
    }
}

/// `noto_sans_mono_bitmap::get_raster` at `FontWeight::Regular` and
/// `RasterHeight::Size16`, its raster copied row by row. Believed of it:
/// the rows are those the font holds for the character, a function of the
/// character alone; a glyph has 16 rows of 7 intensities and its width is
/// 7; the font knows the question mark.
#[verifier::external_body]
fn raster_of(c: char) -> (r: Option<Glyph>)
    ensures
        r is Some <==> font_rows(c) is Some,
        r matches Some(glyph) ==> {
            &&& font_rows(c) == Some(glyph.pixels())
            &&& glyph.width == GLYPH_WIDTH
            &&& glyph.rows@.len() == GLYPH_HEIGHT
            &&& forall|i: int| 0 <= i < glyph.rows@.len() ==> (#[trigger] glyph.rows@[i])@.len()
                == GLYPH_WIDTH
        },
        c == '?' ==> r is Some,
{
    match get_raster(c, FontWeight::Regular, RasterHeight::Size16) {
        Some(raster) => Some(
            Glyph {
                rows: raster.raster().iter().map(|row| row.to_vec()).collect(),
                width: raster.width(),
            },
        ),
        None => None,
    }
}

/// The glyph to draw for `c`: its own, or the question mark's where the
/// font has none.
pub fn glyph_for(c: char) -> (glyph: Glyph)
    ensures
        glyph.pixels() == shown_rows(c),
        glyph.width == GLYPH_WIDTH,
        glyph.rows@.len() == GLYPH_HEIGHT,
        forall|i: int| 0 <= i < glyph.rows@.len() ==> (#[trigger] glyph.rows@[i])@.len()
            == GLYPH_WIDTH,
{
    match raster_of(c) {
        Some(glyph) => glyph,
        None => {
            let fallback = raster_of('?');
            fallback.unwrap()
        },
    }
}

/// Tells whether the font has a glyph of its own for `c`.
pub fn has_glyph(c: char) -> (r: bool)
    ensures
        r == font_rows(c) is Some,
{
    raster_of(c).is_some()
}

} // verus!
