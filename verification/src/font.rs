//! The terminal's glyphs: Noto Sans Mono, regular weight, 16 pixels high,
//! as rasterized by the `noto-sans-mono-bitmap` crate.

use vstd::prelude::*;
use noto_sans_mono_bitmap::{get_raster, FontWeight, RasterHeight};

verus! {

/// Width in pixels of every glyph of the font at this weight and height.
pub const GLYPH_WIDTH: usize = 7;

/// Number of pixel rows of every glyph at this height.
pub const GLYPH_HEIGHT: usize = 16;

/// A pre-rasterized glyph: `raster[row][column]` is the intensity (0 to 255)
/// of one pixel, and `width` the number of columns.
pub struct Glyph {
    pub raster: &'static [&'static [u8]],
    pub width: usize,
}

/// The glyph that `noto_sans_mono_bitmap::get_raster` gives for `c` at
/// regular weight and 16 pixels height, as (width, rows of intensities), or
/// `None` for a character the font does not have.
pub uninterp spec fn regular_16_raster(c: char) -> Option<(usize, Seq<Seq<u8>>)>;

/// What a glyph holds, as plain values.
pub open spec fn glyph_view(g: Option<Glyph>) -> Option<(usize, Seq<Seq<u8>>)> {
    match g {
        Some(glyph) => Some((glyph.width, glyph.raster@.map_values(|row: &[u8]| row@))),
        None => None,
    }
}

/// A raster of this font: `GLYPH_HEIGHT` rows of `GLYPH_WIDTH` intensities.
pub open spec fn is_regular_16_raster(r: (usize, Seq<Seq<u8>>)) -> bool {
    &&& r.0 == GLYPH_WIDTH
    &&& r.1.len() == GLYPH_HEIGHT
    &&& forall|i: int| 0 <= i < r.1.len() ==> (#[trigger] r.1[i]).len() == GLYPH_WIDTH
}

/// Calls `noto_sans_mono_bitmap::get_raster(c, FontWeight::Regular,
/// RasterHeight::Size16)`. Trusted: the result is the named raster of `c`;
/// when there is one, its width is the crate's constant `RASTER_WIDTH` (7)
/// for this weight and height, and it has 16 rows of 7 bytes, as every data
/// file of that size in the crate has. Which characters have a glyph, and
/// their pixels, are left unsaid.
#[verifier::external_body]
pub fn regular_16_glyph(c: char) -> (g: Option<Glyph>)
    ensures
        glyph_view(g) == regular_16_raster(c),
        g matches Some(glyph) ==> is_regular_16_raster(
            (glyph.width, glyph.raster@.map_values(|row: &[u8]| row@)),
        ),
{
    get_raster(c, FontWeight::Regular, RasterHeight::Size16).map(
        |r| Glyph { raster: r.raster(), width: r.width() },
    )
}

} // verus!
