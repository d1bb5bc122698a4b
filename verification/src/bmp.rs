//! A minimal 1-bit-per-pixel BMP encoder for dithered grayscale images.
use vstd::prelude::*;

verus! {

/// The dithering that turns a grayscale image into black and white before encoding.
#[derive(Debug, Clone, Copy, PartialEq, Eq, Structural)]
pub enum DitherAlgorithm {
    FloydSteinberg,
    Atkinson,
}

/// A grayscale image: `width * height` luma values, row by row from the top.
#[derive(Debug)]
pub struct GrayImage {
    pub width: u32,
    pub height: u32,
    pub pixels: Vec<u8>,
}

impl GrayImage {
    /// One luma value per pixel.
    pub open spec fn wf(&self) -> bool {
        self.pixels@.len() == self.width * self.height
    }

    /// The luma value at column `x`, row `y`.
    pub open spec fn pixel(&self, x: int, y: int) -> u8 {
        self.pixels@[y * self.width + x]
    }
}

/// The bytes of one BMP row: one bit per pixel, padded to a multiple of four bytes.
pub open spec fn row_bytes(width: int) -> int {
    (width + 31) / 32 * 4
}

/// The bit of file row `row` (the bottom image row first) at column `x`: white (1) for a
/// luma of at least 128, black (0) otherwise, and 0 in the padding past the last column.
pub open spec fn bit_at(img: GrayImage, row: int, x: int) -> int {
    if x < img.width && img.pixel(x, img.height - 1 - row) >= 128 {
        1
    } else {
        0
    }
}

/// Byte `j` of file row `row`: eight pixels, the leftmost in the highest bit.
pub open spec fn packed_byte(img: GrayImage, row: int, j: int) -> u8 {
    (128 * bit_at(img, row, 8 * j) + 64 * bit_at(img, row, 8 * j + 1) + 32 * bit_at(
        img,
        row,
        8 * j + 2,
    ) + 16 * bit_at(img, row, 8 * j + 3) + 8 * bit_at(img, row, 8 * j + 4) + 4 * bit_at(
        img,
        row,
        8 * j + 5,
    ) + 2 * bit_at(img, row, 8 * j + 6) + bit_at(img, row, 8 * j + 7)) as u8
}

/// The pixel data: the image's rows from the bottom up, packed.
pub open spec fn pixel_data(img: GrayImage) -> Seq<u8> {
    let rb = row_bytes(img.width as int);
    Seq::new((rb * img.height) as nat, |i: int| packed_byte(img, i / rb, i % rb))
}

/// The little-endian bytes of a 16-bit value.
pub open spec fn le16(v: int) -> Seq<u8> {
    seq![(v % 256) as u8, (v / 256 % 256) as u8]
}

/// The little-endian bytes of a 32-bit value.
pub open spec fn le32(v: int) -> Seq<u8> {
    seq![(v % 256) as u8, (v / 256 % 256) as u8, (v / 65536 % 256) as u8, (v / 16777216 % 256) as u8]
}

/// The 62 bytes before the pixel data: the 14-byte file header ("BM", file size,
/// reserved, data offset), the 40-byte information header (size, width, height, one
/// plane, one bit per pixel, no compression, data size, resolution, two palette colors)
/// and the palette (black, then white).
pub open spec fn bmp_header(width: int, height: int, data_len: int) -> Seq<u8> {
    seq![66u8, 77u8] + le32(62 + data_len) + le16(0) + le16(0) + le32(62) + le32(40) + le32(width)
        + le32(height) + le16(1) + le16(1) + le32(0) + le32(data_len) + le32(0) + le32(0) + le32(2)
        + le32(0) + seq![0u8, 0u8, 0u8, 0u8] + seq![255u8, 255u8, 255u8, 0u8]
}

/// The whole 1-bit BMP file of an image.
pub open spec fn bmp_file(img: GrayImage) -> Seq<u8> {
    bmp_header(img.width as int, img.height as int, pixel_data(img).len() as int) + pixel_data(img)
}

/// The file fits the 32-bit sizes of its header.
pub open spec fn bmp_fits(img: GrayImage) -> bool {
    62 + row_bytes(img.width as int) * img.height <= u32::MAX
}

fn push_le16(out: &mut Vec<u8>, v: u16)
    ensures
        final(out)@ == old(out)@ + le16(v as int),
{
    out.push((v % 256) as u8);
    out.push((v / 256) as u8);
    assert(final(out)@ =~= old(out)@ + le16(v as int));
}

fn push_le32(out: &mut Vec<u8>, v: u32)
    ensures
        final(out)@ == old(out)@ + le32(v as int),
{
    let ghost start = out@;
    out.push((v % 256) as u8);
    out.push((v / 256 % 256) as u8);
    out.push((v / 65536 % 256) as u8);
    out.push((v / 16777216 % 256) as u8);
    assert(out@ =~= start + le32(v as int));
}

fn pixel_bit(img: &GrayImage, row: u32, x: u32) -> (b: u8)
    requires
        img.wf(),
        row < img.height,
        x < img.width + 32,
    ensures
        b == bit_at(*img, row as int, x as int),
{
    if x < img.width {
        let y = img.height - 1 - row;
        proof {
            assert(y * img.width + x < img.width * img.height) by (nonlinear_arith)
                requires
                    y < img.height,
                    x < img.width,
            ;
        }
        let n = img.pixels.len();
        assert((y as usize) * (img.width as usize) <= y * img.width) by (nonlinear_arith)
            requires
                y < img.height,
        ;
        assert(y * img.width + x < n) by (nonlinear_arith)
            requires
                y < img.height,
                x < img.width,
                n == img.width * img.height,
        ;
        let index = (y as usize) * (img.width as usize) + x as usize;
        if img.pixels[index] >= 128 {
            1
        } else {
            0
        }
    } else {
        0
    }
}

/// Encodes a dithered grayscale image as a 1-bit BMP: the rows are written bottom-up
/// (the header gives a positive height), each pixel white when its luma is at least 128.
pub fn encode_1bit_bmp_custom(dithered: &GrayImage) -> (out: Vec<u8>)
    requires
        dithered.wf(),
        bmp_fits(*dithered),
    ensures
        out@ == bmp_file(*dithered),
{
    let width = dithered.width;
    let height = dithered.height;
    let row_bytes_n = (width / 32 + if width % 32 == 0 { 0 } else { 1 }) * 4;
    assert(row_bytes_n == row_bytes(width as int));
    proof {
        assert(row_bytes_n * height <= u32::MAX);
    }
    let mut pixel_data_v: Vec<u8> = Vec::new();
    let mut row: u32 = 0;
    while row < height
        invariant
            dithered.wf(),
            width == dithered.width,
            height == dithered.height,
            row_bytes_n == row_bytes(width as int),
            row_bytes_n * height <= u32::MAX,
            row <= height,
            pixel_data_v@.len() == row * row_bytes_n,
            forall|i: int|
                0 <= i < pixel_data_v@.len() ==> #[trigger] pixel_data_v@[i] == packed_byte(
                    *dithered,
                    i / row_bytes_n as int,
                    i % row_bytes_n as int,
                ),
        decreases height - row,
    {
        let mut j: u32 = 0;
        while j < row_bytes_n
            invariant
                dithered.wf(),
                width == dithered.width,
                height == dithered.height,
                row_bytes_n == row_bytes(width as int),
                row_bytes_n * height <= u32::MAX,
                row < height,
                j <= row_bytes_n,
                pixel_data_v@.len() == row * row_bytes_n + j,
                forall|i: int|
                    0 <= i < pixel_data_v@.len() ==> #[trigger] pixel_data_v@[i] == packed_byte(
                        *dithered,
                        i / row_bytes_n as int,
                        i % row_bytes_n as int,
                    ),
            decreases row_bytes_n - j,
        {
            assert(8 * j + 7 < width + 32) by (nonlinear_arith)
                requires
                    j < row_bytes_n,
                    row_bytes_n == (width + 31) / 32 * 4,
            ;
            let x = 8 * j;
            let byte = 128 * pixel_bit(dithered, row, x) + 64 * pixel_bit(dithered, row, x + 1) + 32
                * pixel_bit(dithered, row, x + 2) + 16 * pixel_bit(dithered, row, x + 3) + 8
                * pixel_bit(dithered, row, x + 4) + 4 * pixel_bit(dithered, row, x + 5) + 2
                * pixel_bit(dithered, row, x + 6) + pixel_bit(dithered, row, x + 7);
            let ghost i = pixel_data_v@.len() as int;
            pixel_data_v.push(byte);
            proof {
                assert(i / row_bytes_n as int == row && i % row_bytes_n as int == j) by (nonlinear_arith)
                    requires
                        i == row * row_bytes_n + j,
                        j < row_bytes_n,
                ;
            }
            j = j + 1;
        }
        proof {
            assert((row + 1) * row_bytes_n <= height * row_bytes_n) by (nonlinear_arith)
                requires
                    row < height,
            ;
            assert((row + 1) * row_bytes_n == row * row_bytes_n + row_bytes_n) by (nonlinear_arith);
        }
        row = row + 1;
    }
    assert(pixel_data_v@ =~= pixel_data(*dithered));
    assert(pixel_data_v@.len() == row_bytes_n * height) by (nonlinear_arith)
        requires
            pixel_data_v@.len() == row * row_bytes_n,
            row == height,
    ;
    let data_len = pixel_data_v.len() as u32;
    assert(data_len == pixel_data(*dithered).len());
    let mut out: Vec<u8> = Vec::new();
    out.push(66);
    out.push(77);
    push_le32(&mut out, 62 + data_len);
    push_le16(&mut out, 0);
    push_le16(&mut out, 0);
    push_le32(&mut out, 62);
    push_le32(&mut out, 40);
    push_le32(&mut out, width);
    push_le32(&mut out, height);
    push_le16(&mut out, 1);
    push_le16(&mut out, 1);
    push_le32(&mut out, 0);
    push_le32(&mut out, data_len);
    push_le32(&mut out, 0);
    push_le32(&mut out, 0);
    push_le32(&mut out, 2);
    push_le32(&mut out, 0);
    out.push(0);
    out.push(0);
    out.push(0);
    out.push(0);
    out.push(255);
    out.push(255);
    out.push(255);
    out.push(0);
    assert(out@ =~= bmp_header(width as int, height as int, data_len as int));
    let mut k: usize = 0;
    let ghost header = out@;
    while k < pixel_data_v.len()
        invariant
            k <= pixel_data_v@.len(),
            out@ == header + pixel_data_v@.subrange(0, k as int),
        decreases pixel_data_v@.len() - k,
    {
        out.push(pixel_data_v[k]);
        k = k + 1;
        assert(out@ =~= header + pixel_data_v@.subrange(0, k as int));
    }
    assert(pixel_data_v@.subrange(0, pixel_data_v@.len() as int) =~= pixel_data_v@);
    out
}

/// The header of every encoded file states the file's length and that the pixel data
/// starts at byte 62, and the pixel data is there: the image's rows, bottom-up, with
/// one row of `row_bytes(width)` bytes each.
pub proof fn lemma_bmp_layout(img: GrayImage)
    requires
        bmp_fits(img),
    ensures
        bmp_file(img).len() == 62 + row_bytes(img.width as int) * img.height,
        bmp_file(img).subrange(0, 2) == seq![66u8, 77u8],
        bmp_file(img).subrange(2, 6) == le32(bmp_file(img).len() as int),
        bmp_file(img).subrange(10, 14) == le32(62),
        bmp_file(img).subrange(62, bmp_file(img).len() as int) == pixel_data(img),
{
    let h = bmp_header(img.width as int, img.height as int, pixel_data(img).len() as int);
    assert(h.len() == 62);
    assert(pixel_data(img).len() == row_bytes(img.width as int) * img.height) by (nonlinear_arith)
        requires
            row_bytes(img.width as int) >= 0,
            pixel_data(img).len() == (row_bytes(img.width as int) * img.height) as nat,
    ;
    assert(bmp_file(img).subrange(0, 2) =~= seq![66u8, 77u8]);
    assert(bmp_file(img).subrange(2, 6) =~= le32(bmp_file(img).len() as int));
    assert(bmp_file(img).subrange(10, 14) =~= le32(62));
    assert(bmp_file(img).subrange(62, bmp_file(img).len() as int) =~= pixel_data(img));
}

} // verus!
