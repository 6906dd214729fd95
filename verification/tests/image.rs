use strip_raster::codec::PngFrame;
use strip_raster::image::{image_from_frame, image_rows, load_image, save_image, ImageError};

fn png_file(
    width: u32,
    height: u32,
    color: png::ColorType,
    depth: png::BitDepth,
    data: &[u8],
) -> Vec<u8> {
    let mut file = Vec::new();
    {
        let mut encoder = png::Encoder::new(&mut file, width, height);
        encoder.set_color(color);
        encoder.set_depth(depth);
        let mut writer = encoder.write_header().unwrap();
        writer.write_image_data(data).unwrap();
    }
    file
}

fn decode(file: &[u8]) -> (u32, u32, png::ColorType, png::BitDepth, Vec<u8>) {
    let mut reader = png::Decoder::new(file).read_info().unwrap();
    let mut data = vec![0; reader.output_buffer_size()];
    let info = reader.next_frame(&mut data).unwrap();
    data.truncate(info.buffer_size());
    (info.width, info.height, info.color_type, info.bit_depth, data)
}

fn gradient(width: usize, height: usize) -> egui::ColorImage {
    let mut image = egui::ColorImage::new([width, height], egui::Color32::BLACK);
    for y in 0..height {
        for x in 0..width {
            image[(x, y)] = egui::Color32::from_rgb(x as u8, y as u8, (x * y) as u8);
        }
    }
    image
}

#[test]
fn image_rows_are_four_bytes_per_pixel() {
    let mut image = egui::ColorImage::new([2, 2], egui::Color32::WHITE);
    image[(1, 0)] = egui::Color32::from_rgba_premultiplied(1, 2, 3, 4);
    image[(0, 1)] = egui::Color32::from_rgb(9, 8, 7);
    assert_eq!(
        image_rows(&image),
        vec![255, 255, 255, 255, 1, 2, 3, 4, 9, 8, 7, 255, 255, 255, 255, 255]
    );
}

#[test]
fn image_rows_of_empty_image() {
    let image = egui::ColorImage::new([0, 5], egui::Color32::WHITE);
    assert_eq!(image_rows(&image), Vec::<u8>::new());
}

#[test]
fn save_image_writes_a_png_of_the_pixels() {
    let image = gradient(5, 3);
    let file = save_image(&image).unwrap();
    assert_eq!(&file[..8], &[137, 80, 78, 71, 13, 10, 26, 10]);
    let (width, height, color, depth, data) = decode(&file);
    assert_eq!((width, height), (5, 3));
    assert_eq!(color, png::ColorType::Rgba);
    assert_eq!(depth, png::BitDepth::Eight);
    assert_eq!(data, image_rows(&image));
}

#[test]
fn save_image_refuses_empty_image() {
    let image = egui::ColorImage::new([0, 0], egui::Color32::WHITE);
    assert!(matches!(save_image(&image), Err(ImageError::Encode(_))));
    let image = egui::ColorImage::new([3, 0], egui::Color32::WHITE);
    assert!(matches!(save_image(&image), Err(ImageError::Encode(_))));
}

#[test]
fn load_image_reads_back_what_save_image_wrote() {
    let image = gradient(7, 4);
    let file = save_image(&image).unwrap();
    let loaded = load_image(&file).unwrap();
    assert_eq!(loaded.size, [7, 4]);
    assert_eq!(loaded.pixels, image.pixels);
}

#[test]
fn load_image_keeps_opaque_and_clears_transparent_samples() {
    let samples = [10, 20, 30, 255, 200, 100, 50, 0, 1, 2, 3, 128];
    let file = png_file(3, 1, png::ColorType::Rgba, png::BitDepth::Eight, &samples);
    let image = load_image(&file).unwrap();
    assert_eq!(image.size, [3, 1]);
    assert_eq!(image.pixels[0].to_array(), [10, 20, 30, 255]);
    assert_eq!(image.pixels[1].to_array(), [0, 0, 0, 0]);
    assert_eq!(image.pixels[2].a(), 128);
}

#[test]
fn load_image_rejects_other_depth() {
    let samples = vec![0u8; 2 * 2 * 8];
    let file = png_file(2, 2, png::ColorType::Rgba, png::BitDepth::Sixteen, &samples);
    assert!(matches!(load_image(&file), Err(ImageError::BitDepth(16))));
}

#[test]
fn load_image_rejects_other_colour_type() {
    let samples = vec![0u8; 2 * 2 * 3];
    let file = png_file(2, 2, png::ColorType::Rgb, png::BitDepth::Eight, &samples);
    assert!(matches!(load_image(&file), Err(ImageError::ColorType(2))));
}

#[test]
fn load_image_rejects_what_is_no_png() {
    assert!(matches!(load_image(b"not an image"), Err(ImageError::Decode(_))));
}

#[test]
fn image_from_frame_checks_depth_then_colour_then_size() {
    let frame = |color_type, bit_depth, data: Vec<u8>| PngFrame {
        width: 2,
        height: 1,
        color_type,
        bit_depth,
        line_size: 8,
        data,
    };
    assert!(matches!(image_from_frame(frame(2, 16, vec![])), Err(ImageError::BitDepth(16))));
    assert!(matches!(image_from_frame(frame(2, 8, vec![])), Err(ImageError::ColorType(2))));
    assert!(matches!(image_from_frame(frame(6, 8, vec![0; 7])), Err(ImageError::Size)));
    let image = image_from_frame(frame(6, 8, vec![1, 2, 3, 255, 4, 5, 6, 255, 9, 9])).unwrap();
    assert_eq!(image.size, [2, 1]);
    assert_eq!(image.pixels[0].to_array(), [1, 2, 3, 255]);
    assert_eq!(image.pixels[1].to_array(), [4, 5, 6, 255]);
}

#[test]
fn load_image_takes_every_eight_bit_rgba_size() {
    for (width, height) in [(1u32, 1u32), (1, 9), (9, 1), (5, 7)] {
        let samples = vec![255u8; (width * height * 4) as usize];
        let file = png_file(width, height, png::ColorType::Rgba, png::BitDepth::Eight, &samples);
        let image = load_image(&file).unwrap();
        assert_eq!(image.size, [width as usize, height as usize]);
        assert_eq!(image.pixels.len(), (width * height) as usize);
        assert!(image.pixels.iter().all(|p| *p == egui::Color32::WHITE));
    }
}
