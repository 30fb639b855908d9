//! Decisions of the image-view pipeline: which transfer syntaxes need
//! the raw JPEG 2000 codec path, how decoded bands map onto an image
//! layout, and how many images are opened for display.

use vstd::prelude::*;

use crate::text::str_eq;

verus! {

/// The two transfer syntaxes whose pixel data is decoded through the
/// raw JPEG 2000 codec rather than the generic pixel-data decoder.
pub open spec fn spec_is_jpeg2000_ts(ts: Seq<char>) -> bool {
    ts == "1.2.840.10008.1.2.4.90"@ || ts == "1.2.840.10008.1.2.4.91"@
}

/// Whether the record's transfer syntax takes the raw JPEG 2000 path.
pub fn is_jpeg2000_ts(ts: &str) -> (r: bool)
    ensures
        r == spec_is_jpeg2000_ts(ts@),
{
    str_eq(ts, "1.2.840.10008.1.2.4.90") || str_eq(ts, "1.2.840.10008.1.2.4.91")
}

/// How a decoded raster's bands map onto an image buffer.
#[derive(Clone, Copy, PartialEq, Eq, Debug, Structural)]
pub enum ColorLayout {
    /// One band: a greyscale image.
    Gray,
    /// Three bands: red, green, blue.
    Rgb,
    /// Four bands: red, green, blue, alpha.
    Rgba,
}

/// The image layout for a band count; any other count is unsupported.
pub fn classify_bands(bands: u32) -> (r: Option<ColorLayout>)
    ensures
        bands == 1 ==> r == Some(ColorLayout::Gray),
        bands == 3 ==> r == Some(ColorLayout::Rgb),
        bands == 4 ==> r == Some(ColorLayout::Rgba),
        bands != 1 && bands != 3 && bands != 4 ==> r is None,
{
    match bands {
        1 => Some(ColorLayout::Gray),
        3 => Some(ColorLayout::Rgb),
        4 => Some(ColorLayout::Rgba),
        _ => None,
    }
}

/// How many rendered images are opened for display: when writing into
/// a temporary directory at least one is opened, since the files are
/// deleted on exit.
pub fn effective_open(open: u8, temp: bool) -> (r: u8)
    ensures
        temp && open == 0 ==> r == 1,
        !(temp && open == 0) ==> r == open,
{
    if temp && open == 0 {
        1
    } else {
        open
    }
}

} // verus!
