//! Plain-text portable bitmap output for packed one-bit rows.

use vstd::prelude::*;

verus! {

/// The decimal digits of a number as ASCII, without leading zeros.
pub open spec fn decimal_digits(n: nat) -> Seq<u8>
    decreases n,
{
    if n < 10 {
        seq![(48 + n) as u8]
    } else {
        decimal_digits(n / 10).push((48 + n % 10) as u8)
    }
}

/// The header: the magic number of a plain bitmap, then width and height on
/// a line of their own.
pub open spec fn pbm_header(width: nat, height: nat) -> Seq<u8> {
    seq![0x50u8, 0x31u8, 0x0au8] + decimal_digits(width) + seq![0x20u8] + decimal_digits(height)
        + seq![0x0au8]
}

/// Character `i` of the eight that a byte gives. Only the first follows the
/// byte: `0` where its top bit is set. All others are `1`.
pub open spec fn pbm_cell(k: u8, i: int) -> u8 {
    if i == 0 && k >= 128 {
        0x30
    } else {
        0x31
    }
}

/// The line for row `row` of rows `row_len` bytes long: eight characters per
/// byte, then a line feed.
pub open spec fn pbm_row(data: Seq<u8>, row_len: int, row: int) -> Seq<u8> {
    Seq::new(
        (8 * row_len + 1) as nat,
        |j: int|
            if j == 8 * row_len {
                0x0au8
            } else {
                pbm_cell(data[row * row_len + j / 8], j % 8)
            },
    )
}

/// The lines of rows `0..n`.
pub open spec fn pbm_rows(data: Seq<u8>, row_len: int, n: nat) -> Seq<u8>
    decreases n,
{
    if n == 0 {
        Seq::empty()
    } else {
        pbm_rows(data, row_len, (n - 1) as nat) + pbm_row(data, row_len, n - 1)
    }
}

/// The whole file: the header, then a line for every full row that `data`
/// holds. Bytes after the last full row are left out.
pub open spec fn pbm_text(width: nat, height: nat, data: Seq<u8>) -> Seq<u8> {
    pbm_header(width, height) + pbm_rows(
        data,
        width as int / 8,
        (data.len() as int / (width as int / 8)) as nat,
    )
}

fn push_decimal(out: &mut Vec<u8>, n: usize)
    ensures
        final(out)@ == old(out)@ + decimal_digits(n as nat),
    decreases n,
{
    if n >= 10 {
        push_decimal(out, n / 10);
    }
    let digit: u8 = (n % 10) as u8;
    out.push(48 + digit);
    assert(out@ =~= old(out)@ + decimal_digits(n as nat));
}

proof fn lemma_top_bit_test(k: u8, bit: u32)
    requires
        bit < 8,
    ensures
        (k & (0x80u8 << bit) != 0) == (bit == 0 && k >= 128),
{
    assert(bit < 8 ==> ((k & (0x80u8 << bit) != 0) == (bit == 0 && k >= 128))) by (bit_vector);
}

fn push_row(out: &mut Vec<u8>, data: &[u8], row_len: usize, row: usize)
    requires
        (row + 1) * row_len <= data@.len(),
    ensures
        final(out)@ == old(out)@ + pbm_row(data@, row_len as int, row as int),
{
    let ghost base = out@;
    let ghost line = pbm_row(data@, row_len as int, row as int);
    let len = data.len();
    assert(row * row_len + row_len == (row + 1) * row_len) by (nonlinear_arith);
    let start: usize = row * row_len;
    let mut c: usize = 0;
    while c < row_len
        invariant
            c <= row_len,
            start == row * row_len,
            start + row_len <= data@.len() <= usize::MAX,
            line == pbm_row(data@, row_len as int, row as int),
            out@ == base + line.take(8 * c),
        decreases row_len - c,
    {
        let k: u8 = data[start + c];
        let mut bit: u32 = 0;
        while bit < 8
            invariant
                bit <= 8,
                c < row_len,
                start == row * row_len,
                start + row_len <= data@.len() <= usize::MAX,
                k == data@[start + c],
                line == pbm_row(data@, row_len as int, row as int),
                out@ == base + line.take(8 * c + bit),
            decreases 8 - bit,
        {
            proof {
                lemma_top_bit_test(k, bit);
            }
            if k & (0x80u8 << bit) != 0 {
                out.push(0x30);
            } else {
                out.push(0x31);
            }
            proof {
                let j = 8 * c + bit;
                assert(line[j] == pbm_cell(k, bit as int));
                assert(out@ =~= base + line.take(j + 1));
            }
            bit = bit + 1;
        }
        c = c + 1;
    }
    out.push(0x0a);
    assert(out@ =~= base + line);
}

/// Writes packed one-bit rows of `width` pixels as a plain-text portable
/// bitmap. `height` goes into the header as given.
pub fn write_pbm(width: usize, height: usize, data: &[u8]) -> (text: Vec<u8>)
    requires
        width % 8 == 0,
        width > 0,
    ensures
        text@ == pbm_text(width as nat, height as nat, data@),
{
    let mut text: Vec<u8> = Vec::new();
    text.push(0x50);
    text.push(0x31);
    text.push(0x0a);
    push_decimal(&mut text, width);
    text.push(0x20);
    push_decimal(&mut text, height);
    text.push(0x0a);
    assert(text@ =~= pbm_header(width as nat, height as nat));
    let row_len: usize = width / 8;
    let rows: usize = data.len() / row_len;
    let mut row: usize = 0;
    while row < rows
        invariant
            row <= rows,
            0 < row_len,
            rows == data@.len() / row_len as nat,
            text@ == pbm_header(width as nat, height as nat) + pbm_rows(
                data@,
                row_len as int,
                row as nat,
            ),
        decreases rows - row,
    {
        assert((row + 1) * row_len <= data@.len()) by (nonlinear_arith)
            requires
                row < rows,
                rows == data@.len() / row_len as nat,
                0 < row_len,
        ;
        push_row(&mut text, data, row_len, row);
        assert(text@ =~= pbm_header(width as nat, height as nat) + pbm_rows(
            data@,
            row_len as int,
            (row + 1) as nat,
        ));
        row = row + 1;
    }
    text
}

} // verus!
