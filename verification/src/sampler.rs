//! Nearest-neighbour sampling of a strip from the reference image.
//!
//! The caller resolves each pixel of the strip to a position in the
//! reference image's pixel grid; this module decides which positions count
//! and copies or fills accordingly.

use crate::image::{
    image_filled, image_fits, image_get, image_height, image_pixels, image_set, image_size,
    image_wf, image_width, lemma_grid_index, pixel_of, white, Pixel,
};
use vstd::prelude::*;

verus! {

/// Whether a position in a pixel grid of the given width and height supplies
/// a sample: past the first row and column, and before the width and height.
pub open spec fn has_sample(x: int, y: int, width: int, height: int) -> bool {
    0 < x < width && 0 < y < height
}

/// The pixel index for a position in the grid, or `None` where the position
/// supplies no sample.
pub open spec fn source_index(x: isize, y: isize, width: usize, height: usize) -> Option<
    (usize, usize),
> {
    if has_sample(x as int, y as int, width as int, height as int) {
        Some((x as usize, y as usize))
    } else {
        None
    }
}

/// The colour that a strip pixel takes from the position it resolves to:
/// the image's pixel there, or white where the position supplies no sample
/// at the given resolution or lies outside the image.
pub open spec fn sampled_pixel(
    image: egui::ColorImage,
    resolution: (u32, u32),
    src: (isize, isize),
) -> Pixel {
    if has_sample(src.0 as int, src.1 as int, resolution.0 as int, resolution.1 as int) && src.0
        < image_size(image).0 && src.1 < image_size(image).1 {
        pixel_of(image, src.0 as int, src.1 as int)
    } else {
        white()
    }
}

/// The pixels of a strip whose pixels resolve, in row-major order, to the
/// positions `source`.
pub open spec fn sampled_pixels(
    image: egui::ColorImage,
    resolution: (u32, u32),
    source: Seq<(isize, isize)>,
) -> Seq<Pixel> {
    Seq::new(source.len(), |i: int| sampled_pixel(image, resolution, source[i]))
}

/// Resolves a position in an image's pixel grid to a pixel index. Column 0
/// and row 0 supply no sample, nor does anything at or past the width or
/// the height.
pub fn pixel_index(x: isize, y: isize, width: usize, height: usize) -> (r: Option<(usize, usize)>)
    ensures
        r == source_index(x, y, width, height),
        r.is_some() <==> has_sample(x as int, y as int, width as int, height as int),
{
    if x > 0 && y > 0 {
        let ix = x as usize;
        let iy = y as usize;
        if ix < width && iy < height {
            return Some((ix, iy));
        }
    }
    None
}

/// Samples a strip of `width` by `height` pixels from the reference image,
/// whose pixel grid is `resolution` wide and high. `source` gives, row by
/// row, the position in that grid that each strip pixel resolves to. Returns
/// `None` where `source` does not hold one position per strip pixel, or
/// where the strip's pixels would not fit in one allocation.
pub fn sample_strip(
    input_img: &egui::ColorImage,
    resolution: (u32, u32),
    width: usize,
    height: usize,
    source: &[(isize, isize)],
) -> (r: Option<egui::ColorImage>)
    requires
        image_wf(*input_img),
    ensures
        r.is_some() <==> source@.len() == width * height && image_fits(width, height),
        match r {
            Some(strip) => {
                &&& image_size(strip) == (width, height)
                &&& image_pixels(strip) == sampled_pixels(*input_img, resolution, source@)
            },
            None => true,
        },
{
    let count = source.len();
    match width.checked_mul(height) {
        Some(n) => {
            if n != count || n > isize::MAX as usize / 4 {
                return None;
            }
        },
        None => {
            return None;
        },
    }
    let in_width = image_width(input_img);
    let in_height = image_height(input_img);
    let fill = Pixel { r: 255, g: 255, b: 255, a: 255 };
    let mut strip = image_filled(width, height, fill);
    let mut y: usize = 0;
    while y < height
        invariant
            y <= height,
            image_wf(*input_img),
            in_width == image_size(*input_img).0,
            in_height == image_size(*input_img).1,
            source@.len() == width * height,
            width * height <= usize::MAX,
            image_size(strip) == (width, height),
            image_pixels(strip).len() == width * height,
            forall|i: int|
                0 <= i < y * width ==> #[trigger] image_pixels(strip)[i] == sampled_pixel(
                    *input_img,
                    resolution,
                    source@[i],
                ),
            forall|i: int|
                y * width <= i < width * height ==> #[trigger] image_pixels(strip)[i] == white(),
        decreases height - y,
    {
        let mut x: usize = 0;
        while x < width
            invariant
                x <= width,
                y < height,
                image_wf(*input_img),
                in_width == image_size(*input_img).0,
                in_height == image_size(*input_img).1,
                source@.len() == width * height,
                width * height <= usize::MAX,
                image_size(strip) == (width, height),
                image_pixels(strip).len() == width * height,
                forall|i: int|
                    0 <= i < y * width + x ==> #[trigger] image_pixels(strip)[i] == sampled_pixel(
                        *input_img,
                        resolution,
                        source@[i],
                    ),
                forall|i: int|
                    y * width + x <= i < width * height ==> #[trigger] image_pixels(strip)[i]
                        == white(),
            decreases width - x,
        {
            proof {
                lemma_grid_index(x as int, y as int, width as int, height as int);
            }
            let (sx, sy) = source[y * width + x];
            match pixel_index(sx, sy, resolution.0 as usize, resolution.1 as usize) {
                Some((ix, iy)) => {
                    if ix < in_width && iy < in_height {
                        proof {
                            lemma_grid_index(
                                ix as int,
                                iy as int,
                                in_width as int,
                                in_height as int,
                            );
                        }
                        let p = image_get(input_img, ix, iy);
                        image_set(&mut strip, x, y, p);
                    }
                },
                None => {},
            }
            x = x + 1;
        }
        assert((y + 1) * width == y * width + width) by (nonlinear_arith);
        y = y + 1;
    }
    assert(height * width == width * height) by (nonlinear_arith);
    assert(image_pixels(strip) =~= sampled_pixels(*input_img, resolution, source@));
    Some(strip)
}

/// Whether pixel `(x, y)` of a strip `width` pixels wide resolves to the
/// position `(sx, sy)`.
pub open spec fn resolves_to(
    source: Seq<(isize, isize)>,
    width: int,
    x: int,
    y: int,
    sx: int,
    sy: int,
) -> bool {
    let i = y * width + x;
    0 <= i < source.len() && source[i].0 == sx && source[i].1 == sy
}

/// Where a strip pixel resolves to the position `(dx, dy)` further on, and
/// the strip so displaced lies inside the pixel grid, clear of its first row
/// and column, the pixel is the image's pixel there: such a strip is a crop
/// of the image, pixel for pixel.
pub proof fn lemma_displaced_strip_is_crop(
    image: egui::ColorImage,
    resolution: (u32, u32),
    source: Seq<(isize, isize)>,
    width: int,
    height: int,
    dx: int,
    dy: int,
    x: int,
    y: int,
)
    requires
        resolution.0 <= image_size(image).0,
        resolution.1 <= image_size(image).1,
        0 <= x < width,
        0 <= y < height,
        0 < dx,
        0 < dy,
        dx + width <= resolution.0,
        dy + height <= resolution.1,
        resolves_to(source, width, x, y, x + dx, y + dy),
    ensures
        sampled_pixels(image, resolution, source)[y * width + x] == pixel_of(
            image,
            x + dx,
            y + dy,
        ),
{
}

/// A strip pixel that resolves to the first row or column of the grid, or
/// to a position at or past its width or height, is white.
pub proof fn lemma_no_sample_is_white(
    image: egui::ColorImage,
    resolution: (u32, u32),
    source: Seq<(isize, isize)>,
    i: int,
)
    requires
        0 <= i < source.len(),
        source[i].0 <= 0 || source[i].1 <= 0 || source[i].0 >= resolution.0 || source[i].1
            >= resolution.1,
    ensures
        sampled_pixels(image, resolution, source)[i] == white(),
{
}

} // verus!
