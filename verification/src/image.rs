//! Colour images: `egui::ColorImage` as contracts see it, and its way to and
//! from PNG files.

use crate::codec::{
    encode_rgba, frame_rows, frame_shaped, oversize, png_rgba_file, read_frame, readable_frame,
    FrameError, FrameModel, PngFrame, COLOR_RGBA,
};
use vstd::prelude::*;

verus! {

#[verifier::external_type_specification]
#[verifier::external_body]
pub struct ExColorImage(egui::ColorImage);

/// One pixel as an image stores it: red, green and blue already multiplied by
/// alpha.
#[derive(Clone, Copy, Debug, PartialEq, Eq, Structural)]
pub struct Pixel {
    pub r: u8,
    pub g: u8,
    pub b: u8,
    pub a: u8,
}

/// Opaque white, the colour of a strip where the reference image gives none.
pub open spec fn white() -> Pixel {
    Pixel { r: 255, g: 255, b: 255, a: 255 }
}

/// The pixels of an image, row by row from the top.
pub uninterp spec fn image_pixels(image: egui::ColorImage) -> Seq<Pixel>;

/// The width and height that an image declares.
pub uninterp spec fn image_size(image: egui::ColorImage) -> (usize, usize);

/// An image holds exactly the pixels that its size declares.
pub open spec fn image_wf(image: egui::ColorImage) -> bool {
    image_pixels(image).len() == image_size(image).0 * image_size(image).1
}

/// The pixel at column `x` of row `y`.
pub open spec fn pixel_of(image: egui::ColorImage, x: int, y: int) -> Pixel {
    image_pixels(image)[y * image_size(image).0 + x]
}

/// Width of an image. Trusted: `ColorImage::width` returns the first entry
/// of the image's size.
#[verifier::external_body]
pub(crate) fn image_width(image: &egui::ColorImage) -> (w: usize)
    ensures
        w == image_size(*image).0,
{
    image.width()
}

/// Height of an image. Trusted: `ColorImage::height` returns the second
/// entry of the image's size.
#[verifier::external_body]
pub(crate) fn image_height(image: &egui::ColorImage) -> (h: usize)
    ensures
        h == image_size(*image).1,
{
    image.height()
}

/// Reads one pixel. Trusted: indexing a `ColorImage` by `(x, y)` gives the
/// entry `y * width + x` of its pixels; it panics outside the image, which
/// `requires` leaves out. `Color32::to_tuple` hands out the four stored
/// bytes.
#[verifier::external_body]
pub(crate) fn image_get(image: &egui::ColorImage, x: usize, y: usize) -> (p: Pixel)
    requires
        x < image_size(*image).0,
        y < image_size(*image).1,
        y * image_size(*image).0 + x < image_pixels(*image).len(),
    ensures
        p == pixel_of(*image, x as int, y as int),
{
    let (r, g, b, a) = image[(x, y)].to_tuple();
    Pixel { r, g, b, a }
}

/// Writes one pixel. Trusted: assigning through a `ColorImage` index
/// replaces the entry `y * width + x` of its pixels and nothing else; it
/// panics outside the image, which `requires` leaves out.
/// `Color32::from_rgba_premultiplied` stores the four bytes as given.
#[verifier::external_body]
pub(crate) fn image_set(image: &mut egui::ColorImage, x: usize, y: usize, p: Pixel)
    requires
        x < image_size(*old(image)).0,
        y < image_size(*old(image)).1,
        y * image_size(*old(image)).0 + x < image_pixels(*old(image)).len(),
    ensures
        image_size(*final(image)) == image_size(*old(image)),
        image_pixels(*final(image)) == image_pixels(*old(image)).update(
            y * image_size(*old(image)).0 + x,
            p,
        ),
{
    image[(x, y)] = egui::Color32::from_rgba_premultiplied(p.r, p.g, p.b, p.a);
}

/// Whether the pixels of a `width` by `height` image, four bytes each, fit
/// in one allocation.
pub open spec fn image_fits(width: usize, height: usize) -> bool {
    width * height * 4 <= isize::MAX
}

/// An image of one colour. Trusted: `ColorImage::new` keeps the size and
/// makes `width * height` copies of the colour. It multiplies the sides
/// without a check and panics where the pixels exceed what one allocation
/// can hold, which `requires` leaves out.
#[verifier::external_body]
pub(crate) fn image_filled(width: usize, height: usize, fill: Pixel) -> (image: egui::ColorImage)
    requires
        image_fits(width, height),
    ensures
        image_size(image) == (width, height),
        image_pixels(image) == Seq::new((width * height) as nat, |i: int| fill),
{
    let color = egui::Color32::from_rgba_premultiplied(fill.r, fill.g, fill.b, fill.a);
    egui::ColorImage::new([width, height], color)
}

/// What is known of the pixel stored for a sample whose colour is not yet
/// multiplied by its alpha: alpha stays; an opaque sample stays as it is; a
/// fully transparent one becomes all zero.
pub open spec fn stores_sample(p: Pixel, r: u8, g: u8, b: u8, a: u8) -> bool {
    &&& p.a == a
    &&& a == 255 ==> p.r == r && p.g == g && p.b == b
    &&& a == 0 ==> p.r == 0 && p.g == 0 && p.b == 0
}

/// Whether an image of the given size stores the samples of `rgba`, four
/// bytes per pixel.
pub open spec fn stores_samples(
    image: egui::ColorImage,
    width: usize,
    height: usize,
    rgba: Seq<u8>,
) -> bool {
    &&& image_size(image) == (width, height)
    &&& image_pixels(image).len() == width * height
    &&& forall|i: int|
        0 <= i < width * height ==> stores_sample(
            #[trigger] image_pixels(image)[i],
            rgba[4 * i],
            rgba[4 * i + 1],
            rgba[4 * i + 2],
            rgba[4 * i + 3],
        )
}

/// An image from samples not yet multiplied by alpha. Trusted:
/// `ColorImage::from_rgba_unmultiplied` keeps the size and turns each four
/// bytes into one pixel with `Color32::from_rgba_unmultiplied`, which keeps
/// alpha, returns opaque samples unchanged and fully transparent ones as
/// zero; the colour of a partly transparent sample goes through floating
/// point and is not stated. It panics unless the bytes are four per pixel.
#[verifier::external_body]
pub(crate) fn image_from_rgba(width: usize, height: usize, rgba: &[u8]) -> (image:
    egui::ColorImage)
    requires
        width * height * 4 == rgba@.len(),
    ensures
        stores_samples(image, width, height, rgba@),
{
    egui::ColorImage::from_rgba_unmultiplied([width, height], rgba)
}

/// Why an image could not be read or written.
#[derive(Debug)]
pub enum ImageError {
    /// The file is no PNG that the decoder reads.
    Decode(png::DecodingError),
    /// The image needs a buffer of more bytes than one allocation can hold;
    /// holds the size asked for.
    TooLarge(usize),
    /// The samples are not eight bits deep; holds the depth found.
    BitDepth(u8),
    /// The samples are not red, green, blue and alpha; holds the colour type
    /// code found.
    ColorType(u8),
    /// The rows do not hold four bytes per pixel, or a side is longer than a
    /// PNG file can say.
    Size,
    /// The encoder refused the image.
    Encode(png::EncodingError),
}

/// The fault that keeps a frame from becoming a colour image, if it has one:
/// the bit depth is looked at first, then the colour type, then the size of
/// its rows.
pub open spec fn image_fault(frame: FrameModel) -> Option<ImageError> {
    if frame.bit_depth != 8 {
        Some(ImageError::BitDepth(frame.bit_depth))
    } else if frame.color_type != COLOR_RGBA {
        Some(ImageError::ColorType(frame.color_type))
    } else if frame_rows(frame).len() != frame.width * frame.height * 4 {
        Some(ImageError::Size)
    } else {
        None
    }
}

/// Whether a result holds what a frame yields: its fault, or an image of the
/// frame's size that stores the samples of its rows.
pub open spec fn image_result_is(r: Result<egui::ColorImage, ImageError>, frame: FrameModel) -> bool {
    match r {
        Ok(image) => image_fault(frame).is_none() && stores_samples(
            image,
            frame.width as usize,
            frame.height as usize,
            frame_rows(frame),
        ),
        Err(e) => image_fault(frame) == Some(e),
    }
}

/// A cell of a `width` by `height` grid has its own place in the row-major
/// order.
pub proof fn lemma_grid_index(x: int, y: int, width: int, height: int)
    requires
        0 <= x < width,
        0 <= y < height,
    ensures
        0 <= y * width + x < width * height,
        (y * width + x) / width == y,
        (y * width + x) % width == x,
{
    assert(0 <= y * width && y * width + width <= width * height) by (nonlinear_arith)
        requires
            0 <= y < height,
            0 < width,
    ;
    vstd::arithmetic::div_mod::lemma_fundamental_div_mod_converse(y * width + x, width, y, x);
}

/// Turns a decoded frame of eight-bit RGBA samples into a colour image.
pub fn image_from_frame(frame: PngFrame) -> (r: Result<egui::ColorImage, ImageError>)
    ensures
        image_result_is(r, frame@),
{
    if frame.bit_depth != 8 {
        return Err(ImageError::BitDepth(frame.bit_depth));
    }
    if frame.color_type != COLOR_RGBA {
        return Err(ImageError::ColorType(frame.color_type));
    }
    let width = frame.width as usize;
    let height = frame.height as usize;
    let rows = frame.into_rows();
    let len = rows.len();
    match width.checked_mul(height) {
        Some(count) => match count.checked_mul(4) {
            Some(size) => {
                if size == len {
                    Ok(image_from_rgba(width, height, rows.as_slice()))
                } else {
                    Err(ImageError::Size)
                }
            },
            None => Err(ImageError::Size),
        },
        None => {
            assert(width * height * 4 > len) by (nonlinear_arith)
                requires
                    width * height > usize::MAX,
                    len <= usize::MAX,
            ;
            Err(ImageError::Size)
        },
    }
}

/// A frame as the decoder shapes it holds four bytes per pixel when its
/// samples are eight-bit RGBA, so it has no fault of size.
pub proof fn lemma_shaped_rgba_frame_has_no_fault(frame: FrameModel)
    requires
        frame_shaped(frame),
        frame.bit_depth == 8,
        frame.color_type == COLOR_RGBA,
    ensures
        frame_rows(frame).len() == frame.width * frame.height * 4,
        image_fault(frame).is_none(),
{
    assert(frame.line_size == 4 * frame.width);
    assert(frame.line_size * frame.height == frame.width * frame.height * 4) by (nonlinear_arith)
        requires
            frame.line_size == 4 * frame.width,
    ;
}

/// Decodes a PNG file held in memory into a colour image, if its samples are
/// eight-bit RGBA.
pub fn load_image(file: &[u8]) -> (r: Result<egui::ColorImage, ImageError>)
    ensures
        match (oversize(file@), readable_frame(file@)) {
            (Some(size), _) => r matches Err(ImageError::TooLarge(n)) && n == size,
            (None, Some(frame)) => frame_shaped(frame) && image_result_is(r, frame),
            (None, None) => r matches Err(ImageError::Decode(_)),
        },
{
    match read_frame(file) {
        Ok(frame) => image_from_frame(frame),
        Err(FrameError::TooLarge(size)) => Err(ImageError::TooLarge(size)),
        Err(FrameError::Decode(e)) => Err(ImageError::Decode(e)),
    }
}

/// Channel `c` of a pixel, in the order red, green, blue, alpha.
pub open spec fn channel(p: Pixel, c: int) -> u8 {
    if c == 0 {
        p.r
    } else if c == 1 {
        p.g
    } else if c == 2 {
        p.b
    } else {
        p.a
    }
}

/// The stored bytes of a run of pixels, four per pixel.
pub open spec fn pixel_bytes(pixels: Seq<Pixel>) -> Seq<u8> {
    Seq::new(4 * pixels.len(), |j: int| channel(pixels[j / 4], j % 4))
}

/// Whether both sides of an image can be written into a PNG header.
pub open spec fn png_sized(image: egui::ColorImage) -> bool {
    image_size(image).0 <= u32::MAX && image_size(image).1 <= u32::MAX
}

/// The rows of an image as the PNG encoder takes them.
pub fn image_rows(image: &egui::ColorImage) -> (rows: Vec<u8>)
    requires
        image_wf(*image),
    ensures
        rows@ == pixel_bytes(image_pixels(*image)),
{
    let width = image_width(image);
    let height = image_height(image);
    let ghost pixels = image_pixels(*image);
    let mut rows: Vec<u8> = Vec::new();
    let mut y: usize = 0;
    while y < height
        invariant
            y <= height,
            width == image_size(*image).0,
            height == image_size(*image).1,
            pixels == image_pixels(*image),
            pixels.len() == width * height,
            rows@ == pixel_bytes(pixels.take(y * width)),
        decreases height - y,
    {
        let mut x: usize = 0;
        while x < width
            invariant
                x <= width,
                y < height,
                width == image_size(*image).0,
                height == image_size(*image).1,
                pixels == image_pixels(*image),
                pixels.len() == width * height,
                rows@ == pixel_bytes(pixels.take(y * width + x)),
            decreases width - x,
        {
            proof {
                lemma_grid_index(x as int, y as int, width as int, height as int);
            }
            let p = image_get(image, x, y);
            rows.push(p.r);
            rows.push(p.g);
            rows.push(p.b);
            rows.push(p.a);
            proof {
                let i = y * width + x;
                assert(pixels.take(i + 1) =~= pixels.take(i).push(p));
                assert(rows@ =~= pixel_bytes(pixels.take(i + 1)));
            }
            x = x + 1;
        }
        assert((y + 1) * width == y * width + width) by (nonlinear_arith);
        y = y + 1;
    }
    assert(pixels.take(height * width) =~= pixels) by {
        assert(height * width == width * height) by (nonlinear_arith);
    }
    rows
}

/// Encodes a colour image as a PNG file of eight-bit RGBA samples.
pub fn save_image(image: &egui::ColorImage) -> (r: Result<Vec<u8>, ImageError>)
    requires
        image_wf(*image),
    ensures
        match r {
            Ok(file) => png_sized(*image) && png_rgba_file(
                image_size(*image).0 as u32,
                image_size(*image).1 as u32,
                pixel_bytes(image_pixels(*image)),
            ) == Some(file@),
            Err(ImageError::Size) => !png_sized(*image),
            Err(ImageError::Encode(_)) => png_sized(*image) && png_rgba_file(
                image_size(*image).0 as u32,
                image_size(*image).1 as u32,
                pixel_bytes(image_pixels(*image)),
            ).is_none(),
            Err(_) => false,
        },
{
    let width = image_width(image);
    let height = image_height(image);
    if width > u32::MAX as usize || height > u32::MAX as usize {
        return Err(ImageError::Size);
    }
    let rows = image_rows(image);
    proof {
        let n = image_pixels(*image).len();
        assert(rows@.len() == 4 * n);
        assert(n == width * height);
        assert(4 * (width * height) == 4 * width * height) by (nonlinear_arith);
    }
    match encode_rgba(width as u32, height as u32, rows.as_slice()) {
        Ok(file) => Ok(file),
        Err(e) => Err(ImageError::Encode(e)),
    }
}

} // verus!
