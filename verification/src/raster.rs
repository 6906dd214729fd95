//! The printer's raster protocol: unpacking one-bit image rows and packing
//! them into 24-dot band commands.

use vstd::prelude::*;

verus! {

/// Pixels carried by one byte of a one-bit image row.
pub const PIXELS_PER_BYTE: usize = 8;

/// Bytes of one-bit image data per printer row.
pub const PRINTER_BYTES_PER_ROW: usize = 48;

/// Dots across one printer row.
pub const PRINTER_HORIZ_RES: usize = PRINTER_BYTES_PER_ROW * PIXELS_PER_BYTE;

/// Rows printed by one raster command.
pub const BAND_ROWS: usize = 24;

/// The opcode that prints one band of 24-dot raster graphics.
pub const BITMAP_D24: [u8; 3] = [0x1b, 0x2a, 0x21];

/// The opcode that sets the line spacing.
pub const LS_SET: [u8; 2] = [0x1b, 0x33];

/// The value of the bit at position `i` of a byte, position 0 being the most
/// significant bit.
pub open spec fn bit_weight(i: int) -> int {
    if i == 0 {
        128
    } else if i == 1 {
        64
    } else if i == 2 {
        32
    } else if i == 3 {
        16
    } else if i == 4 {
        8
    } else if i == 5 {
        4
    } else if i == 6 {
        2
    } else {
        1
    }
}

/// Whether the bit at position `i` of `byte` is set, position 0 being the
/// most significant bit.
pub open spec fn msb_bit(byte: u8, i: int) -> bool {
    (byte as int / bit_weight(i)) % 2 == 1
}

/// The pixels of a packed one-bit image: eight per byte, most significant
/// bit first.
pub open spec fn unpacked_bits(image: Seq<u8>) -> Seq<bool> {
    Seq::new(8 * image.len(), |j: int| msb_bit(image[j / 8], j % 8))
}

proof fn lemma_shifted_top_bit(b: u8, i: u32)
    requires
        i < 8,
    ensures
        ((b << i) & 0x80 != 0) == msb_bit(b, i as int),
{
    assert(i < 8 ==> (((b << i) & 0x80u8 != 0) == (((b as u32) / (128u32 >> i)) % 2 == 1)))
        by (bit_vector);
    assert(i < 8 ==> (128u32 >> i) == (if i == 0 {
        128u32
    } else if i == 1 {
        64u32
    } else if i == 2 {
        32u32
    } else if i == 3 {
        16u32
    } else if i == 4 {
        8u32
    } else if i == 5 {
        4u32
    } else if i == 6 {
        2u32
    } else {
        1u32
    })) by (bit_vector);
}

/// Expands packed one-bit image data into one `bool` per pixel.
pub fn bits_to_bools(image: &[u8]) -> (bits: Vec<bool>)
    ensures
        bits@ == unpacked_bits(image@),
{
    let mut bits: Vec<bool> = Vec::new();
    let mut k: usize = 0;
    while k < image.len()
        invariant
            k <= image.len(),
            bits@.len() == 8 * k,
            forall|j: int| 0 <= j < 8 * k ==> bits@[j] == msb_bit(#[trigger] image@[j / 8], j % 8),
        decreases image.len() - k,
    {
        let b: u8 = image[k];
        let mut i: u32 = 0;
        while i < 8
            invariant
                i <= 8,
                k < image.len(),
                b == image@[k as int],
                bits@.len() == 8 * k + i,
                forall|j: int|
                    0 <= j < 8 * k + i ==> bits@[j] == msb_bit(#[trigger] image@[j / 8], j % 8),
            decreases 8 - i,
        {
            proof {
                lemma_shifted_top_bit(b, i);
            }
            bits.push((b << i) & 0x80 != 0);
            i = i + 1;
        }
        k = k + 1;
    }
    assert(bits@ =~= unpacked_bits(image@));
    bits
}

/// Why a bitmap was refused before any byte was produced.
#[derive(Clone, Copy, Debug, PartialEq, Eq)]
pub enum RasterError {
    /// The row width is not the printer's.
    WidthMismatch,
    /// The pixel count is not a whole number of rows.
    PartialRow,
    /// The bitmap holds no pixel.
    Empty,
}

/// Whether the pixel at `(row, col)` of a row-major bitmap is set. A position
/// past the end of the bitmap counts as unset.
pub open spec fn pixel_set(bitmap: Seq<bool>, width: int, row: int, col: int) -> bool {
    let idx = row * width + col;
    0 <= idx < bitmap.len() && bitmap[idx]
}

/// The weight that a pixel contributes to its byte when it sits at position
/// `i` of the byte's eight rows.
pub open spec fn bit_value(set: bool, i: int) -> int {
    if set {
        bit_weight(i)
    } else {
        0
    }
}

/// The byte that eight pixels pack into, the first pixel in the most
/// significant bit.
pub open spec fn packed_byte(bits: Seq<bool>) -> int {
    bit_value(bits[0], 0) + bit_value(bits[1], 1) + bit_value(bits[2], 2) + bit_value(bits[3], 3)
        + bit_value(bits[4], 4) + bit_value(bits[5], 5) + bit_value(bits[6], 6) + bit_value(
        bits[7],
        7,
    )
}

/// The eight pixels of column `col` in rows `top..top + 8`.
pub open spec fn column_bits(bitmap: Seq<bool>, width: int, top: int, col: int) -> Seq<bool> {
    Seq::new(8, |i: int| pixel_set(bitmap, width, top + i, col))
}

/// The data byte for column `col` and rows `top..top + 8`.
pub open spec fn column_byte(bitmap: Seq<bool>, width: int, top: int, col: int) -> u8 {
    packed_byte(column_bits(bitmap, width, top, col)) as u8
}

/// The command that selects zero extra line spacing, with its parameter.
pub open spec fn line_spacing_command() -> Seq<u8> {
    LS_SET@.push(0x00u8)
}

/// The opcode of a 24-dot raster band followed by the little-endian count of
/// data bytes, three per column.
pub open spec fn band_header(width: int) -> Seq<u8> {
    BITMAP_D24@.push(((3 * width) % 256) as u8).push(((3 * width) / 256) as u8)
}

/// The data bytes of band `band`: for each column three bytes, one per group
/// of eight rows.
pub open spec fn band_data(bitmap: Seq<bool>, width: int, band: int) -> Seq<u8> {
    Seq::new(
        (3 * width) as nat,
        |j: int| column_byte(bitmap, width, BAND_ROWS * band + 8 * (j % 3), j / 3),
    )
}

/// One whole band command: header, data and the line feed that ends it.
pub open spec fn band_bytes(bitmap: Seq<bool>, width: int, band: int) -> Seq<u8> {
    band_header(width) + band_data(bitmap, width, band) + seq![0x0au8]
}

/// The commands of bands `0..n`, in order.
pub open spec fn bands_bytes(bitmap: Seq<bool>, width: int, n: nat) -> Seq<u8>
    decreases n,
{
    if n == 0 {
        Seq::empty()
    } else {
        bands_bytes(bitmap, width, (n - 1) as nat) + band_bytes(bitmap, width, n - 1)
    }
}

/// The number of rows of a bitmap of `len` pixels.
pub open spec fn row_count(len: int, width: int) -> int {
    len / width
}

/// The number of bands that `rows` rows take; the last may be short.
pub open spec fn band_count(rows: int) -> int {
    (rows + BAND_ROWS - 1) / (BAND_ROWS as int)
}

/// The byte stream that prints a bitmap: the line spacing command, then one
/// command per band.
pub open spec fn raster_stream(bitmap: Seq<bool>, width: int) -> Seq<u8> {
    line_spacing_command() + bands_bytes(
        bitmap,
        width,
        band_count(row_count(bitmap.len() as int, width)) as nat,
    )
}

/// What encoding a bitmap of the given row width must return.
pub open spec fn print_outcome(bitmap: Seq<bool>, width: int) -> Result<Seq<u8>, RasterError> {
    if width != PRINTER_HORIZ_RES {
        Err(RasterError::WidthMismatch)
    } else if bitmap.len() % (width as nat) != 0 {
        Err(RasterError::PartialRow)
    } else if bitmap.len() == 0 {
        Err(RasterError::Empty)
    } else {
        Ok(raster_stream(bitmap, width))
    }
}

spec fn prefix_limit(n: int) -> int {
    if n <= 0 {
        1
    } else if n == 1 {
        2
    } else if n == 2 {
        4
    } else if n == 3 {
        8
    } else if n == 4 {
        16
    } else if n == 5 {
        32
    } else if n == 6 {
        64
    } else if n == 7 {
        128
    } else {
        256
    }
}

spec fn prefix_value(bits: Seq<bool>, n: int) -> int
    decreases n,
{
    if n <= 0 {
        0
    } else {
        2 * prefix_value(bits, n - 1) + if bits[n - 1] {
            1int
        } else {
            0int
        }
    }
}

proof fn lemma_prefix_is_packed(bits: Seq<bool>)
    ensures
        prefix_value(bits, 8) == packed_byte(bits),
{
    reveal_with_fuel(prefix_value, 9);
}

proof fn lemma_shift_in(b: u8, set: bool)
    requires
        b < 128,
    ensures
        (b << 1u8) == 2 * b,
        ((b << 1u8) | 1u8) == 2 * b + 1,
{
    assert(b < 128 ==> (b << 1u8) == 2 * b) by (bit_vector);
    assert(b < 128 ==> ((b << 1u8) | 1u8) == 2 * b + 1) by (bit_vector);
}

/// Reads one pixel of a row-major bitmap; positions past its end are unset.
pub fn pixel_at(bitmap: &[bool], width: usize, row: usize, col: usize) -> (set: bool)
    ensures
        set == pixel_set(bitmap@, width as int, row as int, col as int),
{
    let len = bitmap.len();
    match row.checked_mul(width) {
        Some(base) => match base.checked_add(col) {
            Some(idx) => idx < len && bitmap[idx],
            None => false,
        },
        None => false,
    }
}

/// Packs eight pixels into a byte, the first pixel in the most significant
/// bit.
pub fn pack_byte(bits: &[bool; 8]) -> (b: u8)
    ensures
        b as int == packed_byte(bits@),
{
    let mut b: u8 = 0;
    let mut i: usize = 0;
    while i < 8
        invariant
            i <= 8,
            b as int == prefix_value(bits@, i as int),
            b < prefix_limit(i as int),
        decreases 8 - i,
    {
        proof {
            lemma_shift_in(b, bits[i as int]);
        }
        b = b << 1u8;
        if bits[i] {
            b = b | 1u8;
        }
        i = i + 1;
    }
    proof {
        lemma_prefix_is_packed(bits@);
    }
    b
}

fn pack_column(bitmap: &[bool], width: usize, top: usize, col: usize) -> (b: u8)
    requires
        top + 7 <= usize::MAX,
    ensures
        b == column_byte(bitmap@, width as int, top as int, col as int),
{
    let bits: [bool; 8] = [
        pixel_at(bitmap, width, top, col),
        pixel_at(bitmap, width, top + 1, col),
        pixel_at(bitmap, width, top + 2, col),
        pixel_at(bitmap, width, top + 3, col),
        pixel_at(bitmap, width, top + 4, col),
        pixel_at(bitmap, width, top + 5, col),
        pixel_at(bitmap, width, top + 6, col),
        pixel_at(bitmap, width, top + 7, col),
    ];
    assert(bits@ =~= column_bits(bitmap@, width as int, top as int, col as int));
    pack_byte(&bits)
}

fn push_band(out: &mut Vec<u8>, bitmap: &[bool], width: usize, band: usize)
    requires
        3 * width <= 0xffff,
        BAND_ROWS * band + BAND_ROWS <= usize::MAX,
    ensures
        final(out)@ == old(out)@ + band_bytes(bitmap@, width as int, band as int),
{
    let ghost base = out@;
    let ghost data = band_data(bitmap@, width as int, band as int);
    let count: usize = 3 * width;
    out.push(BITMAP_D24[0]);
    out.push(BITMAP_D24[1]);
    out.push(BITMAP_D24[2]);
    out.push((count % 256) as u8);
    out.push((count / 256) as u8);
    assert(out@ =~= base + band_header(width as int));
    let top: usize = BAND_ROWS * band;
    let mut x: usize = 0;
    while x < width
        invariant
            x <= width,
            3 * width <= 0xffff,
            top == BAND_ROWS * band,
            top + BAND_ROWS <= usize::MAX,
            data == band_data(bitmap@, width as int, band as int),
            out@ == base + band_header(width as int) + data.take(3 * x),
        decreases width - x,
    {
        let b0 = pack_column(bitmap, width, top, x);
        let b1 = pack_column(bitmap, width, top + 8, x);
        let b2 = pack_column(bitmap, width, top + 16, x);
        out.push(b0);
        out.push(b1);
        out.push(b2);
        proof {
            let j = 3 * x as int;
            assert(data[j] == b0);
            assert(data[j + 1] == b1);
            assert(data[j + 2] == b2);
            assert(data.take(j + 3) =~= data.take(j).push(b0).push(b1).push(b2));
            assert(out@ =~= base + band_header(width as int) + data.take(j + 3));
        }
        x = x + 1;
    }
    assert(data.take(3 * width) =~= data);
    out.push(0x0a);
    assert(out@ =~= base + band_bytes(bitmap@, width as int, band as int));
}

/// Encodes a row-major bitmap of the given row width as the byte stream that
/// prints it, or says why the bitmap cannot be printed.
pub fn print_bitmap(bitmap: &[bool], width: usize) -> (r: Result<Vec<u8>, RasterError>)
    ensures
        match r {
            Ok(out) => print_outcome(bitmap@, width as int) == Ok::<Seq<u8>, RasterError>(out@),
            Err(e) => print_outcome(bitmap@, width as int) == Err::<Seq<u8>, RasterError>(e),
        },
{
    if width != PRINTER_HORIZ_RES {
        return Err(RasterError::WidthMismatch);
    }
    if bitmap.len() % width != 0 {
        return Err(RasterError::PartialRow);
    }
    if bitmap.len() == 0 {
        return Err(RasterError::Empty);
    }
    let rows: usize = bitmap.len() / width;
    let bands: usize = (rows + BAND_ROWS - 1) / BAND_ROWS;
    let mut out: Vec<u8> = Vec::new();
    out.push(LS_SET[0]);
    out.push(LS_SET[1]);
    out.push(0x00);
    assert(out@ =~= line_spacing_command());
    let mut band: usize = 0;
    while band < bands
        invariant
            band <= bands,
            width == PRINTER_HORIZ_RES,
            BAND_ROWS * bands + BAND_ROWS <= usize::MAX,
            out@ == line_spacing_command() + bands_bytes(bitmap@, width as int, band as nat),
        decreases bands - band,
    {
        push_band(&mut out, bitmap, width, band);
        assert(out@ =~= line_spacing_command() + bands_bytes(
            bitmap@,
            width as int,
            (band + 1) as nat,
        ));
        band = band + 1;
    }
    Ok(out)
}

/// The length of one band command: five header bytes, three data bytes per
/// column and the line feed.
pub open spec fn band_len(width: int) -> int {
    3 * width + 6
}

/// Every band command has the same length, whatever the band holds.
pub proof fn lemma_band_len(bitmap: Seq<bool>, width: int, band: int)
    requires
        0 <= width,
    ensures
        band_bytes(bitmap, width, band).len() == band_len(width),
{
}

/// The commands of the first `n` bands take `n` band lengths.
pub proof fn lemma_bands_len(bitmap: Seq<bool>, width: int, n: nat)
    requires
        0 <= width,
    ensures
        bands_bytes(bitmap, width, n).len() == n * band_len(width),
    decreases n,
{
    if n > 0 {
        let m = (n - 1) as nat;
        let l = band_len(width);
        lemma_bands_len(bitmap, width, m);
        lemma_band_len(bitmap, width, n - 1);
        assert(n * l == m * l + l) by (nonlinear_arith)
            requires
                n == m + 1,
        ;
    } else {
        assert(n * band_len(width) == 0) by (nonlinear_arith)
            requires
                n == 0,
        ;
    }
}

/// The stream is the three bytes of the line spacing command followed by one
/// band command for every 24 rows begun.
pub proof fn lemma_stream_len(bitmap: Seq<bool>, width: int)
    requires
        0 < width,
    ensures
        raster_stream(bitmap, width).len() == 3 + band_count(
            row_count(bitmap.len() as int, width),
        ) * band_len(width),
{
    let rows = row_count(bitmap.len() as int, width);
    assert(0 <= rows) by (nonlinear_arith)
        requires
            rows == bitmap.len() as int / width,
            0 < width,
    ;
    lemma_bands_len(bitmap, width, band_count(rows) as nat);
}

proof fn lemma_bands_slice(bitmap: Seq<bool>, width: int, n: nat, band: int)
    requires
        0 <= width,
        0 <= band < n,
    ensures
        0 <= band * band_len(width) <= (band + 1) * band_len(width),
        (band + 1) * band_len(width) <= bands_bytes(bitmap, width, n).len(),
        bands_bytes(bitmap, width, n).subrange(
            band * band_len(width),
            (band + 1) * band_len(width),
        ) == band_bytes(bitmap, width, band),
    decreases n,
{
    let l = band_len(width);
    let head = bands_bytes(bitmap, width, (n - 1) as nat);
    let last = band_bytes(bitmap, width, n - 1);
    lemma_bands_len(bitmap, width, (n - 1) as nat);
    lemma_bands_len(bitmap, width, n);
    lemma_band_len(bitmap, width, n - 1);
    assert(0 <= band * l && (band + 1) * l <= n * l && (band + 1) * l == band * l + l)
        by (nonlinear_arith)
        requires
            0 <= band < n,
            0 <= l,
    ;
    if band == n - 1 {
        assert((head + last).subrange(band * l, (band + 1) * l) =~= last);
    } else {
        lemma_bands_slice(bitmap, width, (n - 1) as nat, band);
        assert((band + 1) * l <= (n - 1) * l) by (nonlinear_arith)
            requires
                0 <= band < n - 1,
                0 <= l,
        ;
        assert((head + last).subrange(band * l, (band + 1) * l) =~= head.subrange(
            band * l,
            (band + 1) * l,
        ));
    }
}

/// Band `band` stands in the stream at its own place: after the line spacing
/// command and the bands before it.
pub proof fn lemma_stream_band(bitmap: Seq<bool>, width: int, band: int)
    requires
        0 < width,
        0 <= band < band_count(row_count(bitmap.len() as int, width)),
    ensures
        3 + (band + 1) * band_len(width) <= raster_stream(bitmap, width).len(),
        raster_stream(bitmap, width).subrange(
            3 + band * band_len(width),
            3 + (band + 1) * band_len(width),
        ) == band_bytes(bitmap, width, band),
{
    let n = band_count(row_count(bitmap.len() as int, width)) as nat;
    let body = bands_bytes(bitmap, width, n);
    lemma_bands_slice(bitmap, width, n, band);
    let lo = band * band_len(width);
    let hi = (band + 1) * band_len(width);
    assert((line_spacing_command() + body).subrange(3 + lo, 3 + hi) =~= body.subrange(lo, hi));
}

/// Data byte `j` of band `band` stands in the stream after the line spacing
/// command, the bands before it and its own band's five header bytes; it is
/// the byte of column `j / 3` for the band's rows `8 * (j % 3)` onwards.
pub proof fn lemma_stream_data_byte(bitmap: Seq<bool>, width: int, band: int, j: int)
    requires
        0 < width,
        0 <= band < band_count(row_count(bitmap.len() as int, width)),
        0 <= j < 3 * width,
    ensures
        0 <= 3 + band * band_len(width) + 5 + j < raster_stream(bitmap, width).len(),
        raster_stream(bitmap, width)[3 + band * band_len(width) + 5 + j] == column_byte(
            bitmap,
            width,
            BAND_ROWS * band + 8 * (j % 3),
            j / 3,
        ),
{
    lemma_stream_band(bitmap, width, band);
    let lo = 3 + band * band_len(width);
    let hi = 3 + (band + 1) * band_len(width);
    let stream = raster_stream(bitmap, width);
    assert((band + 1) * band_len(width) == band * band_len(width) + band_len(width))
        by (nonlinear_arith);
    assert(stream.subrange(lo, hi)[5 + j] == stream[lo + 5 + j]);
    assert(band_bytes(bitmap, width, band)[5 + j] == band_data(bitmap, width, band)[j]);
}

/// A row at or below the bitmap's last row holds no set pixel, so the rows
/// that a short final band lacks print blank.
pub proof fn lemma_past_end_unset(bitmap: Seq<bool>, width: int, row: int, col: int)
    requires
        0 < width,
        bitmap.len() % (width as nat) == 0,
        row_count(bitmap.len() as int, width) <= row,
        0 <= col,
    ensures
        !pixel_set(bitmap, width, row, col),
{
    let len = bitmap.len() as int;
    assert(row * width + col >= len) by (nonlinear_arith)
        requires
            0 < width,
            len % width == 0,
            len / width <= row,
            0 <= col,
            0 <= len,
    ;
}

/// Eight set pixels pack to `0xFF`.
pub proof fn lemma_all_set_byte(bitmap: Seq<bool>, width: int, top: int, col: int)
    requires
        0 < width,
        0 <= col < width,
        0 <= top,
        (top + 8) * width <= bitmap.len(),
        forall|i: int| 0 <= i < bitmap.len() ==> bitmap[i],
    ensures
        column_byte(bitmap, width, top, col) == 0xff,
{
    let bits = column_bits(bitmap, width, top, col);
    assert forall|i: int| 0 <= i < 8 implies bits[i] by {
        assert(0 <= (top + i) * width + col < bitmap.len()) by (nonlinear_arith)
            requires
                0 < width,
                0 <= col < width,
                0 <= top,
                0 <= i < 8,
                (top + 8) * width <= bitmap.len(),
        ;
    }
}

/// With every pixel set and a whole number of bands, every data byte of
/// every band is `0xFF`.
pub proof fn lemma_all_set_band(bitmap: Seq<bool>, width: int, band: int)
    requires
        0 < width,
        bitmap.len() % (width as nat) == 0,
        row_count(bitmap.len() as int, width) % (BAND_ROWS as int) == 0,
        0 <= band < band_count(row_count(bitmap.len() as int, width)),
        forall|i: int| 0 <= i < bitmap.len() ==> bitmap[i],
    ensures
        band_data(bitmap, width, band) == Seq::new((3 * width) as nat, |j: int| 0xffu8),
{
    let len = bitmap.len() as int;
    let rows = row_count(len, width);
    assert(rows * width == len) by {
        vstd::arithmetic::div_mod::lemma_fundamental_div_mod(len, width);
        assert(width * rows == rows * width) by (nonlinear_arith);
    }
    assert forall|j: int| 0 <= j < 3 * width implies #[trigger] band_data(bitmap, width, band)[j]
        == 0xffu8 by {
        let top = BAND_ROWS * band + 8 * (j % 3);
        assert((top + 8) * width <= rows * width) by (nonlinear_arith)
            requires
                top + 8 <= rows,
                0 < width,
        ;
        lemma_all_set_byte(bitmap, width, top, j / 3);
    }
    assert(band_data(bitmap, width, band) =~= Seq::new((3 * width) as nat, |j: int| 0xffu8));
}

/// With no pixel set, every data byte of every band is `0x00`.
pub proof fn lemma_all_unset_band(bitmap: Seq<bool>, width: int, band: int)
    requires
        0 <= width,
        forall|i: int| 0 <= i < bitmap.len() ==> !bitmap[i],
    ensures
        band_data(bitmap, width, band) == Seq::new((3 * width) as nat, |j: int| 0x00u8),
{
    assert forall|j: int| 0 <= j < 3 * width implies #[trigger] band_data(bitmap, width, band)[j]
        == 0x00u8 by {
        let bits = column_bits(bitmap, width, BAND_ROWS * band + 8 * (j % 3), j / 3);
        assert forall|i: int| 0 <= i < 8 implies !bits[i] by {}
    }
    assert(band_data(bitmap, width, band) =~= Seq::new((3 * width) as nat, |j: int| 0x00u8));
}

/// The eight pixels that a byte unpacks to, most significant bit first.
pub open spec fn byte_bits(byte: u8) -> Seq<bool> {
    Seq::new(8, |i: int| msb_bit(byte, i))
}

/// Packing the eight pixels that a byte unpacks to gives the byte back.
pub proof fn lemma_pack_unpack(byte: u8)
    ensures
        packed_byte(byte_bits(byte)) == byte,
{
    let b = byte;
    assert(b == ((b / 128) % 2) * 128 + ((b / 64) % 2) * 64 + ((b / 32) % 2) * 32 + ((b / 16) % 2)
        * 16 + ((b / 8) % 2) * 8 + ((b / 4) % 2) * 4 + ((b / 2) % 2) * 2 + ((b / 1) % 2) * 1)
        by (bit_vector);
}

} // verus!
