//! Screenshots: the row layout of the buffer the GPU copies a frame into,
//! and the conversion of its BGRA rows into the RGBA pixels of the image
//! file. Copying the frame and writing the PNG file is the caller's part.
use vstd::prelude::*;

verus! {

/// The row alignment that copies from a texture to a buffer require, in bytes.
pub const COPY_ROW_ALIGNMENT: u32 = 256;

pub open spec fn is_power_of_two(a: u32) -> bool {
    a > 0 && a & ((a - 1) as u32) == 0
}

/// `value` rounded up to a multiple of `alignment`, by masking: exact when
/// `alignment` is a power of two.
pub fn align_up(value: u32, alignment: u32) -> (r: u32)
    requires
        alignment > 0,
        value + alignment - 1 <= u32::MAX,
    ensures
        r == ((value + alignment - 1) as u32) & !((alignment - 1) as u32),
        is_power_of_two(alignment) ==> r % alignment == 0 && value <= r && r < value + alignment,
{
    let m = alignment - 1;
    let x = value + m;
    let r = x & !m;
    proof {
        if is_power_of_two(alignment) {
            assert(r % alignment == 0 && r <= x && x - r < alignment) by (bit_vector)
                requires
                    alignment > 0,
                    alignment & m == 0,
                    m == alignment - 1,
                    r == x & !m,
            ;
        }
    }
    r
}

/// The position, in a row of 4-byte pixels, of the byte that lands at
/// position `i` once blue and red trade places.
pub open spec fn swapped_index(i: int) -> int {
    let k = i % 4;
    i - k + (if k == 0 {
        2
    } else if k == 2 {
        0
    } else {
        k
    })
}

/// A row of BGRA pixels as RGBA pixels.
pub open spec fn rgba_row(row: Seq<u8>) -> Seq<u8> {
    Seq::new(row.len(), |i: int| row[swapped_index(i)])
}

/// The first `rows` rows of a BGRA image whose rows start every `stride`
/// bytes, as RGBA pixels without the padding.
pub open spec fn rgba_image(data: Seq<u8>, width: nat, rows: nat, stride: nat) -> Seq<u8>
    decreases rows,
{
    if rows == 0 {
        seq![]
    } else {
        let start = (rows - 1) * stride;
        rgba_image(data, width, (rows - 1) as nat, stride) + rgba_row(
            data.subrange(start as int, start + 4 * width),
        )
    }
}

/// The rows of a copied frame, BGRA with `padded_row` bytes from one row to
/// the next, as the RGBA pixels of a `width` by `height` image.
pub fn bgra_to_rgba(data: &[u8], width: u32, height: u32, padded_row: u32) -> (r: Vec<u8>)
    requires
        4 * width <= u32::MAX,
        4 * width * height <= u32::MAX,
        height > 0 ==> (height - 1) * padded_row <= u32::MAX,
        height > 0 ==> (height - 1) * padded_row + 4 * width <= data@.len(),
    ensures
        r@ == rgba_image(data@, width as nat, height as nat, padded_row as nat),
        r@.len() == 4 * width * height,
{
    let unpadded: u32 = width * 4;
    let mut out: Vec<u8> = Vec::new();
    let mut row: u32 = 0;
    while row < height
        invariant
            row <= height,
            unpadded == 4 * width,
            4 * width * height <= u32::MAX,
            height > 0 ==> (height - 1) * padded_row <= u32::MAX,
            height > 0 ==> (height - 1) * padded_row + 4 * width <= data@.len(),
            out@ == rgba_image(data@, width as nat, row as nat, padded_row as nat),
            out@.len() == 4 * width * row,
        decreases height - row,
    {
        assert(row * padded_row <= (height - 1) * padded_row) by (nonlinear_arith)
            requires
                row < height,
        ;
        let start: usize = (row * padded_row) as usize;
        let data_len = data.len();
        assert(start + unpadded as usize <= data_len);
        let end: usize = start + unpadded as usize;
        let ghost line = data@.subrange(start as int, end as int);
        let ghost before = out@;
        let mut j: usize = 0;
        while j < width as usize
            invariant
                j <= width,
                end == start + 4 * width,
                end <= data@.len(),
                line == data@.subrange(start as int, end as int),
                out@ == before + rgba_row(line).take(4 * j),
            decreases width - j,
        {
            let p = start + 4 * j;
            out.push(data[p + 2]);
            out.push(data[p + 1]);
            out.push(data[p]);
            out.push(data[p + 3]);
            proof {
                let rr = rgba_row(line);
                assert((4 * j) % 4 == 0) by (nonlinear_arith);
                assert((4 * j + 1) % 4 == 1) by (nonlinear_arith);
                assert((4 * j + 2) % 4 == 2) by (nonlinear_arith);
                assert((4 * j + 3) % 4 == 3) by (nonlinear_arith);
                assert(rr[4 * j] == data@[p + 2]);
                assert(rr[4 * j + 1] == data@[p + 1]);
                assert(rr[4 * j + 2] == data@[p as int]);
                assert(rr[4 * j + 3] == data@[p + 3]);
                assert(rr.take(4 * (j + 1)) =~= rr.take(4 * j).push(data@[p + 2]).push(
                    data@[p + 1],
                ).push(data@[p as int]).push(data@[p + 3]));
            }
            j += 1;
        }
        proof {
            assert(rgba_row(line).take(4 * j) =~= rgba_row(line));
            assert(4 * width * (row + 1) == 4 * width * row + 4 * width) by (nonlinear_arith);
        }
        row += 1;
    }
    out
}


proof fn lemma_rgba_image_len(data: Seq<u8>, width: nat, rows: nat, stride: nat)
    requires
        4 * width <= stride || rows <= 1,
        rows > 0 ==> (rows - 1) * stride + 4 * width <= data.len(),
    ensures
        rgba_image(data, width, rows, stride).len() == rows * (4 * width),
    decreases rows,
{
    if rows > 0 {
        if rows > 1 {
            assert((rows - 2) * stride + 4 * width <= (rows - 1) * stride + 4 * width)
                by (nonlinear_arith)
                requires
                    rows >= 2,
            ;
        }
        lemma_rgba_image_len(data, width, (rows - 1) as nat, stride);
        assert((rows - 1) * (4 * width) + 4 * width == rows * (4 * width)) by (nonlinear_arith);
    }
}

/// Each pixel of the image keeps its place and trades blue for red: byte
/// `c` of pixel `x` in row `y` of the result is byte `c` of the same pixel
/// in the frame (its row starting `y * stride` bytes in), with bytes 0
/// (blue) and 2 (red) swapped; green and alpha stay.
pub proof fn law_pixels_trade_blue_and_red(
    data: Seq<u8>,
    width: nat,
    rows: nat,
    stride: nat,
    y: nat,
    x: nat,
)
    requires
        4 * width <= stride,
        y < rows,
        x < width,
        (rows - 1) * stride + 4 * width <= data.len(),
    ensures
        ({
            let o = rgba_image(data, width, rows, stride);
            let p: int = (4 * (y * width + x)) as int;
            let q: int = (y * stride + 4 * x) as int;
            &&& o.len() == rows * (4 * width)
            &&& q + 3 < data.len()
            &&& o[p] == data[q + 2]
            &&& o[p + 1] == data[q + 1]
            &&& o[p + 2] == data[q]
            &&& o[p + 3] == data[q + 3]
        }),
    decreases rows,
{
    lemma_rgba_image_len(data, width, rows, stride);
    let o = rgba_image(data, width, rows, stride);
    let p: int = (4 * (y * width + x)) as int;
    let q: int = (y * stride + 4 * x) as int;
    let start = (rows - 1) * stride;
    let prev = rgba_image(data, width, (rows - 1) as nat, stride);
    let line = data.subrange(start as int, start + 4 * width);
    if rows >= 2 {
        assert((rows - 2) * stride + 4 * width <= data.len()) by (nonlinear_arith)
            requires
                (rows - 1) * stride + 4 * width <= data.len(),
                rows >= 2,
        ;
    }
    lemma_rgba_image_len(data, width, (rows - 1) as nat, stride);
    assert(q + 3 < data.len()) by (nonlinear_arith)
        requires
            q == y * stride + 4 * x,
            y < rows,
            x < width,
            (rows - 1) * stride + 4 * width <= data.len(),
    ;
    assert(o == prev + rgba_row(line));
    if y + 1 == rows {
        assert(p == prev.len() + 4 * x) by (nonlinear_arith)
            requires
                p == 4 * (y * width + x),
                prev.len() == (rows - 1) * (4 * width),
                y + 1 == rows,
        ;
        assert((4 * x) % 4 == 0 && (4 * x + 1) % 4 == 1 && (4 * x + 2) % 4 == 2 && (4 * x + 3) % 4
            == 3) by (nonlinear_arith);
        assert(o[p] == rgba_row(line)[(4 * x) as int]);
        assert(o[p + 1] == rgba_row(line)[4 * x + 1 as int]);
        assert(o[p + 2] == rgba_row(line)[4 * x + 2 as int]);
        assert(o[p + 3] == rgba_row(line)[4 * x + 3 as int]);
    } else {
        law_pixels_trade_blue_and_red(data, width, (rows - 1) as nat, stride, y, x);
        assert(p + 3 < prev.len()) by (nonlinear_arith)
            requires
                p == 4 * (y * width + x),
                prev.len() == (rows - 1) * (4 * width),
                y + 1 < rows,
                x < width,
        ;
    }
}

} // verus!
