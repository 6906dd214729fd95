use strip_raster::raster::{
    bits_to_bools, pack_byte, pixel_at, print_bitmap, RasterError, BAND_ROWS, PRINTER_HORIZ_RES,
};

const WIDTH: usize = 384;
const BAND_LEN: usize = 3 + 2 + 3 * WIDTH + 1;

fn band(stream: &[u8], index: usize) -> &[u8] {
    &stream[3 + index * BAND_LEN..3 + (index + 1) * BAND_LEN]
}

fn band_data(stream: &[u8], index: usize) -> &[u8] {
    &band(stream, index)[5..5 + 3 * WIDTH]
}

#[test]
fn printer_constants() {
    assert_eq!(PRINTER_HORIZ_RES, 384);
    assert_eq!(BAND_ROWS, 24);
}

#[test]
fn bits_to_bools_is_msb_first() {
    let bits = bits_to_bools(&[0b1000_0001, 0b0100_0000]);
    let mut expected = vec![false; 16];
    expected[0] = true;
    expected[7] = true;
    expected[9] = true;
    assert_eq!(bits, expected);
}

#[test]
fn bits_to_bools_of_nothing_is_empty() {
    assert_eq!(bits_to_bools(&[]), Vec::<bool>::new());
}

#[test]
fn bits_to_bools_of_full_and_blank_bytes() {
    assert_eq!(bits_to_bools(&[0xff]), vec![true; 8]);
    assert_eq!(bits_to_bools(&[0x00]), vec![false; 8]);
}

#[test]
fn pack_byte_puts_first_pixel_on_top() {
    assert_eq!(pack_byte(&[true, false, false, false, false, false, false, false]), 0x80);
    assert_eq!(pack_byte(&[false, false, false, false, false, false, false, true]), 0x01);
    assert_eq!(pack_byte(&[true, false, true, false, false, true, false, true]), 0xa5);
    assert_eq!(pack_byte(&[true; 8]), 0xff);
    assert_eq!(pack_byte(&[false; 8]), 0x00);
}

#[test]
fn pack_byte_undoes_bits_to_bools() {
    for byte in 0..=255u8 {
        let bits = bits_to_bools(&[byte]);
        let mut eight = [false; 8];
        eight.copy_from_slice(&bits);
        assert_eq!(pack_byte(&eight), byte);
    }
}

#[test]
fn pixel_at_reads_row_major_and_blank_past_the_end() {
    let bitmap = [true, false, false, true, true, true];
    assert!(pixel_at(&bitmap, 3, 0, 0));
    assert!(!pixel_at(&bitmap, 3, 0, 1));
    assert!(pixel_at(&bitmap, 3, 1, 0));
    assert!(pixel_at(&bitmap, 3, 1, 2));
    assert!(!pixel_at(&bitmap, 3, 2, 0));
    assert!(!pixel_at(&bitmap, 3, usize::MAX, 2));
}

#[test]
fn print_rejects_other_widths() {
    let bitmap = vec![true; 383 * 24];
    assert_eq!(print_bitmap(&bitmap, 383), Err(RasterError::WidthMismatch));
    let bitmap = vec![true; 8 * 24];
    assert_eq!(print_bitmap(&bitmap, 8), Err(RasterError::WidthMismatch));
    assert_eq!(print_bitmap(&[], 0), Err(RasterError::WidthMismatch));
}

#[test]
fn print_rejects_partial_rows() {
    let bitmap = vec![true; WIDTH * 24 + 1];
    assert_eq!(print_bitmap(&bitmap, WIDTH), Err(RasterError::PartialRow));
    let bitmap = vec![false; WIDTH - 1];
    assert_eq!(print_bitmap(&bitmap, WIDTH), Err(RasterError::PartialRow));
}

#[test]
fn print_rejects_empty_bitmap() {
    assert_eq!(print_bitmap(&[], WIDTH), Err(RasterError::Empty));
}

#[test]
fn print_all_set_band_end_to_end() {
    let bitmap = vec![true; WIDTH * 24];
    let stream = print_bitmap(&bitmap, WIDTH).unwrap();
    let mut expected = vec![0x1b, 0x33, 0x00, 0x1b, 0x2a, 0x21, 0x80, 0x04];
    expected.extend(std::iter::repeat(0xff).take(1152));
    expected.push(0x0a);
    assert_eq!(stream, expected);
}

#[test]
fn print_height_24_is_one_band() {
    let bitmap = vec![false; WIDTH * 24];
    let stream = print_bitmap(&bitmap, WIDTH).unwrap();
    assert_eq!(stream.len(), 3 + BAND_LEN);
    assert_eq!(&stream[..8], &[0x1b, 0x33, 0x00, 0x1b, 0x2a, 0x21, 0x80, 0x04]);
    assert_eq!(stream[stream.len() - 1], 0x0a);
}

#[test]
fn print_height_48_is_two_bands() {
    let bitmap = vec![true; WIDTH * 48];
    let stream = print_bitmap(&bitmap, WIDTH).unwrap();
    assert_eq!(stream.len(), 3 + 2 * BAND_LEN);
    for index in 0..2 {
        let b = band(&stream, index);
        assert_eq!(&b[..5], &[0x1b, 0x2a, 0x21, 0x80, 0x04]);
        assert_eq!(b[BAND_LEN - 1], 0x0a);
        assert!(band_data(&stream, index).iter().all(|&byte| byte == 0xff));
    }
}

#[test]
fn print_height_25_leaves_rest_of_second_band_blank() {
    let bitmap = vec![true; WIDTH * 25];
    let stream = print_bitmap(&bitmap, WIDTH).unwrap();
    assert_eq!(stream.len(), 3 + 2 * BAND_LEN);
    assert!(band_data(&stream, 0).iter().all(|&byte| byte == 0xff));
    let second = band_data(&stream, 1);
    for x in 0..WIDTH {
        assert_eq!(&second[3 * x..3 * x + 3], &[0x80, 0x00, 0x00]);
    }
}

#[test]
fn print_height_1_is_one_short_band() {
    let bitmap = vec![true; WIDTH];
    let stream = print_bitmap(&bitmap, WIDTH).unwrap();
    assert_eq!(stream.len(), 3 + BAND_LEN);
    let data = band_data(&stream, 0);
    for x in 0..WIDTH {
        assert_eq!(&data[3 * x..3 * x + 3], &[0x80, 0x00, 0x00]);
    }
}

#[test]
fn print_all_unset_is_all_zero() {
    let bitmap = vec![false; WIDTH * 30];
    let stream = print_bitmap(&bitmap, WIDTH).unwrap();
    assert_eq!(stream.len(), 3 + 2 * BAND_LEN);
    for index in 0..2 {
        assert!(band_data(&stream, index).iter().all(|&byte| byte == 0x00));
    }
}

#[test]
fn print_places_single_pixel() {
    let mut bitmap = vec![false; WIDTH * 48];
    // Row 9, column 5: first band, second group of eight rows, second bit.
    bitmap[9 * WIDTH + 5] = true;
    // Row 47, column 383: second band, third group, last bit.
    bitmap[47 * WIDTH + 383] = true;
    let stream = print_bitmap(&bitmap, WIDTH).unwrap();
    let first = band_data(&stream, 0);
    let second = band_data(&stream, 1);
    for (j, &byte) in first.iter().enumerate() {
        assert_eq!(byte, if j == 3 * 5 + 1 { 0x40 } else { 0x00 });
    }
    for (j, &byte) in second.iter().enumerate() {
        assert_eq!(byte, if j == 3 * 383 + 2 { 0x01 } else { 0x00 });
    }
}

#[test]
fn print_reads_columns_not_rows() {
    // Row r is set exactly in column r, for the 24 rows of one band.
    let mut bitmap = vec![false; WIDTH * 24];
    for r in 0..24 {
        bitmap[r * WIDTH + r] = true;
    }
    let stream = print_bitmap(&bitmap, WIDTH).unwrap();
    let data = band_data(&stream, 0);
    for x in 0..WIDTH {
        for k in 0..3 {
            let expected = if x < 24 && x / 8 == k { 0x80u8 >> (x % 8) } else { 0 };
            assert_eq!(data[3 * x + k], expected);
        }
    }
}

#[test]
fn print_of_unpacked_bytes() {
    let packed = vec![0xaau8; 48 * 8];
    let stream = print_bitmap(&bits_to_bools(&packed), WIDTH).unwrap();
    let data = band_data(&stream, 0);
    for x in 0..WIDTH {
        // Even columns are set in each of the eight rows, odd ones in none.
        let expected = if x % 2 == 0 { [0xff, 0x00, 0x00] } else { [0x00, 0x00, 0x00] };
        assert_eq!(&data[3 * x..3 * x + 3], &expected);
    }
}
