//! PNG decoding and encoding, done by the `png` crate on byte buffers.

use vstd::prelude::*;

verus! {

/// The PNG colour type code of grayscale samples.
pub const COLOR_GRAYSCALE: u8 = 0;

/// The PNG colour type code of red, green, blue and alpha samples.
pub const COLOR_RGBA: u8 = 6;

#[verifier::external_type_specification]
#[verifier::external_body]
pub struct ExDecodingError(png::DecodingError);

#[verifier::external_type_specification]
#[verifier::external_body]
pub struct ExEncodingError(png::EncodingError);

/// One decoded frame: what the decoder reports of it and the buffer that it
/// filled.
pub struct PngFrame {
    /// Width in pixels.
    pub width: u32,
    /// Height in pixels.
    pub height: u32,
    /// The PNG colour type code of the samples.
    pub color_type: u8,
    /// Bits per sample.
    pub bit_depth: u8,
    /// Bytes per row of `data`.
    pub line_size: usize,
    /// The rows, top to bottom; bytes past the last row carry nothing.
    pub data: Vec<u8>,
}

/// A frame as contracts speak of it.
pub struct FrameModel {
    pub width: u32,
    pub height: u32,
    pub color_type: u8,
    pub bit_depth: u8,
    pub line_size: usize,
    pub data: Seq<u8>,
}

impl View for PngFrame {
    type V = FrameModel;

    open spec fn view(&self) -> FrameModel {
        FrameModel {
            width: self.width,
            height: self.height,
            color_type: self.color_type,
            bit_depth: self.bit_depth,
            line_size: self.line_size,
            data: self.data@,
        }
    }
}

/// The bytes of a frame's rows: its buffer cut to `line_size * height`
/// bytes, or whole where it is shorter.
pub open spec fn frame_rows(frame: FrameModel) -> Seq<u8> {
    if frame.line_size * frame.height <= frame.data.len() {
        frame.data.take(frame.line_size * frame.height)
    } else {
        frame.data
    }
}

impl PngFrame {
    /// Gives up the frame for the bytes of its rows.
    pub fn into_rows(self) -> (rows: Vec<u8>)
        ensures
            rows@ == frame_rows(self@),
    {
        let mut rows = self.data;
        let len = rows.len();
        match self.line_size.checked_mul(self.height as usize) {
            Some(size) => {
                if size <= len {
                    rows.truncate(size);
                }
            },
            None => {},
        }
        assert(rows@ =~= frame_rows(self@));
        rows
    }
}

/// The samples that one pixel takes under a PNG colour type code: one for
/// grayscale and for palette indices, two for grayscale with alpha, three
/// for RGB and four for RGBA.
pub open spec fn samples_per_pixel(color_type: u8) -> int {
    if color_type == 2 {
        3
    } else if color_type == 4 {
        2
    } else if color_type == COLOR_RGBA {
        4
    } else {
        1
    }
}

/// The bytes that one row of `width` pixels takes: its samples packed at
/// `bit_depth` bits each, the last byte filled up.
pub open spec fn row_bytes(width: u32, color_type: u8, bit_depth: u8) -> int {
    (width * samples_per_pixel(color_type) * bit_depth + 7) / 8
}

/// Whether a frame has the shape that the decoder gives one: rows of the
/// length that its width, colour type and depth ask for, and a buffer that
/// holds them all.
pub open spec fn frame_shaped(frame: FrameModel) -> bool {
    &&& frame.line_size == row_bytes(frame.width, frame.color_type, frame.bit_depth)
    &&& frame.line_size * frame.height <= frame.data.len()
}

/// The size in bytes of the buffer that the `png` decoder asks for to hold
/// the image of a file, or `None` where it reports an error before it can
/// say.
pub uninterp spec fn png_buffer_size(file: Seq<u8>) -> Option<usize>;

/// Whether the decoder names a buffer size for a file, and one allocation
/// can hold a buffer of that size.
pub open spec fn buffer_fits(file: Seq<u8>) -> bool {
    match png_buffer_size(file) {
        Some(size) => size <= isize::MAX,
        None => false,
    }
}

/// The first frame that the `png` decoder reads from a file's bytes, or
/// `None` where it reports an error. It is spoken of only for files whose
/// buffer fits.
pub uninterp spec fn png_frame(file: Seq<u8>) -> Option<FrameModel>;

/// The PNG file that the `png` encoder writes for eight-bit RGBA rows of the
/// given size, or `None` where it reports an error. It is spoken of only for
/// rows of four bytes per pixel.
pub uninterp spec fn png_rgba_file(width: u32, height: u32, data: Seq<u8>) -> Option<Seq<u8>>;

/// Asks the decoder how large a buffer the image of a PNG file needs.
///
/// Calls `png::Decoder::new` on the bytes, then `read_info` and
/// `Reader::output_buffer_size`. Trusted: the result is the decoder's, which
/// depends on the bytes alone; nothing is claimed of its value.
#[verifier::external_body]
pub(crate) fn frame_buffer_size(file: &[u8]) -> (r: Result<usize, png::DecodingError>)
    ensures
        match r {
            Ok(size) => png_buffer_size(file@) == Some(size),
            Err(_) => png_buffer_size(file@).is_none(),
        },
{
    let reader = png::Decoder::new(file).read_info()?;
    Ok(reader.output_buffer_size())
}

/// Decodes the first frame of a PNG file held in memory.
///
/// Calls `png::Decoder::new` on the bytes, then `read_info`, allocates the
/// buffer that `Reader::output_buffer_size` asks for and fills it with
/// `Reader::next_frame`. Trusted: the result is the decoder's, which depends
/// on the bytes alone. Of a frame it is claimed only that its row length is
/// the one the decoder computes from width, colour type and depth, and that
/// the buffer, which the decoder sized for the whole image, holds the
/// frame's rows; nothing is claimed of the samples. A buffer larger than one
/// allocation can hold makes the allocation panic, which `requires` leaves
/// out.
#[verifier::external_body]
pub(crate) fn decode_frame(file: &[u8]) -> (r: Result<PngFrame, png::DecodingError>)
    requires
        buffer_fits(file@),
    ensures
        match r {
            Ok(frame) => png_frame(file@) == Some(frame@) && frame_shaped(frame@),
            Err(_) => png_frame(file@).is_none(),
        },
{
    let mut reader = png::Decoder::new(file).read_info()?;
    let mut data = vec![0; reader.output_buffer_size()];
    let info = reader.next_frame(&mut data)?;
    Ok(
        PngFrame {
            width: info.width,
            height: info.height,
            color_type: info.color_type as u8,
            bit_depth: info.bit_depth as u8,
            line_size: info.line_size,
            data,
        },
    )
}

/// Encodes eight-bit RGBA rows as a PNG file held in memory.
///
/// Calls `png::Encoder::new` on an empty buffer, sets the colour type and
/// depth, then `write_header` and `Writer::write_image_data`; dropping the
/// writer ends the file. Trusted: the result is the encoder's, which depends
/// on the size and the rows alone; nothing is claimed of what it holds. The
/// encoder multiplies the sides without a check, so `requires` admits only
/// rows of four bytes per pixel, whose length bounds the product.
#[verifier::external_body]
pub(crate) fn encode_rgba(width: u32, height: u32, data: &[u8]) -> (r: Result<
    Vec<u8>,
    png::EncodingError,
>)
    requires
        data@.len() == 4 * width * height,
    ensures
        match r {
            Ok(file) => png_rgba_file(width, height, data@) == Some(file@),
            Err(_) => png_rgba_file(width, height, data@).is_none(),
        },
{
    let mut file = Vec::new();
    let mut encoder = png::Encoder::new(&mut file, width, height);
    encoder.set_color(png::ColorType::Rgba);
    encoder.set_depth(png::BitDepth::Eight);
    let mut writer = encoder.write_header()?;
    writer.write_image_data(data)?;
    drop(writer);
    Ok(file)
}

/// Why no frame could be read from a file.
#[derive(Debug)]
pub enum FrameError {
    /// The file is no PNG that the decoder reads.
    Decode(png::DecodingError),
    /// The image needs a buffer of more bytes than one allocation can hold;
    /// holds the size asked for.
    TooLarge(usize),
}

/// The frame that a file yields: the decoder's first frame, for a file whose
/// buffer fits.
pub open spec fn readable_frame(file: Seq<u8>) -> Option<FrameModel> {
    if buffer_fits(file) {
        png_frame(file)
    } else {
        None
    }
}

/// The size that keeps a file's image from being decoded, where the decoder
/// asks for more than one allocation can hold.
pub open spec fn oversize(file: Seq<u8>) -> Option<usize> {
    match png_buffer_size(file) {
        Some(size) => if size > isize::MAX {
            Some(size)
        } else {
            None
        },
        None => None,
    }
}

/// Reads the first frame of a PNG file held in memory, after making sure
/// that its buffer can be allocated.
pub fn read_frame(file: &[u8]) -> (r: Result<PngFrame, FrameError>)
    ensures
        match r {
            Ok(frame) => readable_frame(file@) == Some(frame@) && frame_shaped(frame@),
            Err(FrameError::TooLarge(size)) => oversize(file@) == Some(size),
            Err(FrameError::Decode(_)) => oversize(file@).is_none() && readable_frame(file@).is_none(),
        },
{
    match frame_buffer_size(file) {
        Ok(size) => {
            if size > isize::MAX as usize {
                return Err(FrameError::TooLarge(size));
            }
        },
        Err(e) => {
            return Err(FrameError::Decode(e));
        },
    }
    match decode_frame(file) {
        Ok(frame) => Ok(frame),
        Err(e) => Err(FrameError::Decode(e)),
    }
}

} // verus!
