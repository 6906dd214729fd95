//! Loading the one-bit image that the printer takes.

use crate::codec::{
    frame_rows, frame_shaped, oversize, read_frame, readable_frame, FrameError, FrameModel,
    PngFrame, COLOR_GRAYSCALE,
};
use crate::raster::{
    print_outcome, raster_stream, unpacked_bits, RasterError, PRINTER_BYTES_PER_ROW,
    PRINTER_HORIZ_RES,
};
use vstd::prelude::*;

verus! {

/// Why a file cannot be printed.
#[derive(Debug)]
pub enum BitmapError {
    /// The file is no PNG that the decoder reads.
    Decode(png::DecodingError),
    /// The image needs a buffer of more bytes than one allocation can hold;
    /// holds the size asked for.
    TooLarge(usize),
    /// The samples are not one bit deep; holds the depth found.
    BitDepth(u8),
    /// The samples are not grayscale; holds the colour type code found.
    ColorType(u8),
    /// The rows are not as wide as the printer's; holds the width found.
    Width(u32),
}

/// The fault that keeps a frame from the printer, if it has one: the bit
/// depth is looked at first, then the colour type, then the width.
pub open spec fn frame_fault(frame: FrameModel) -> Option<BitmapError> {
    if frame.bit_depth != 1 {
        Some(BitmapError::BitDepth(frame.bit_depth))
    } else if frame.color_type != COLOR_GRAYSCALE {
        Some(BitmapError::ColorType(frame.color_type))
    } else if frame.width != PRINTER_HORIZ_RES {
        Some(BitmapError::Width(frame.width))
    } else {
        None
    }
}

/// What a frame yields: its fault, or the packed rows to print.
pub open spec fn bitmap_of_frame(frame: FrameModel) -> Result<Seq<u8>, BitmapError> {
    match frame_fault(frame) {
        Some(fault) => Err(fault),
        None => Ok(frame_rows(frame)),
    }
}

/// Whether a result holds what a modelled outcome says.
pub open spec fn bitmap_result_is(
    r: Result<Vec<u8>, BitmapError>,
    outcome: Result<Seq<u8>, BitmapError>,
) -> bool {
    match (r, outcome) {
        (Ok(rows), Ok(expected)) => rows@ == expected,
        (Err(e), Err(expected)) => e == expected,
        _ => false,
    }
}

/// Checks that a decoded frame is one-bit grayscale of the printer's width
/// and hands out its packed rows.
pub fn bitmap_from_frame(frame: PngFrame) -> (r: Result<Vec<u8>, BitmapError>)
    ensures
        bitmap_result_is(r, bitmap_of_frame(frame@)),
{
    if frame.bit_depth != 1 {
        return Err(BitmapError::BitDepth(frame.bit_depth));
    }
    if frame.color_type != COLOR_GRAYSCALE {
        return Err(BitmapError::ColorType(frame.color_type));
    }
    if frame.width as usize != PRINTER_HORIZ_RES {
        return Err(BitmapError::Width(frame.width));
    }
    let rows = frame.into_rows();
    Ok(rows)
}

/// Decodes a PNG file held in memory and hands out its packed rows, if it is
/// a one-bit grayscale image of the printer's width.
pub fn load_bitmap_png(file: &[u8]) -> (r: Result<Vec<u8>, BitmapError>)
    ensures
        match (oversize(file@), readable_frame(file@)) {
            (Some(size), _) => r matches Err(BitmapError::TooLarge(n)) && n == size,
            (None, Some(frame)) => frame_shaped(frame) && bitmap_result_is(
                r,
                bitmap_of_frame(frame),
            ),
            (None, None) => r matches Err(BitmapError::Decode(_)),
        },
{
    match read_frame(file) {
        Ok(frame) => bitmap_from_frame(frame),
        Err(FrameError::TooLarge(size)) => Err(BitmapError::TooLarge(size)),
        Err(FrameError::Decode(e)) => Err(BitmapError::Decode(e)),
    }
}

/// A frame as the decoder shapes it, and without a fault, holds whole
/// printer rows: 48 bytes for each of its rows. Unpacked, its pixels are
/// never refused for their width or for a partial row; they print unless
/// the frame has no row at all.
pub proof fn lemma_faultless_frame_prints(frame: FrameModel)
    requires
        frame_shaped(frame),
        frame_fault(frame).is_none(),
    ensures
        frame_rows(frame).len() == PRINTER_BYTES_PER_ROW * frame.height,
        unpacked_bits(frame_rows(frame)).len() == PRINTER_HORIZ_RES * frame.height,
        print_outcome(unpacked_bits(frame_rows(frame)), PRINTER_HORIZ_RES as int) == (if frame.height
            == 0 {
            Err::<Seq<u8>, RasterError>(RasterError::Empty)
        } else {
            Ok::<Seq<u8>, RasterError>(
                raster_stream(unpacked_bits(frame_rows(frame)), PRINTER_HORIZ_RES as int),
            )
        }),
{
    let h = frame.height as int;
    assert(frame.line_size == 48);
    let bits = unpacked_bits(frame_rows(frame));
    assert(bits.len() == 384 * h);
    assert((384 * h) % 384 == 0) by (nonlinear_arith);
}

} // verus!
