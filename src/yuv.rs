use vstd::arithmetic::div_mod::{lemma_div_is_ordered, lemma_fundamental_div_mod_converse};
use crate::transform::Extent;
use vstd::prelude::*;
use vstd::slice::slice_subrange;

verus! {

/// Clamps a fixed-point channel value (10 fractional bits) to 18 bits.
pub open spec fn clamp_channel(x: int) -> int {
    if x < 0 {
        0
    } else if x > 262143 {
        262143
    } else {
        x
    }
}

/// The 8-bit channel of a fixed-point value with 10 fractional bits.
pub open spec fn channel(x: int) -> u8 {
    (clamp_channel(x) / 1024) as u8
}

/// Luma offset by the video black level, never below zero.
pub open spec fn luma(y: u8) -> int {
    if y < 16 {
        0
    } else {
        y - 16
    }
}

/// The RGBA pixel (fully opaque) of one luma sample and its chroma pair.
pub open spec fn yuv_pixel(y: u8, u: u8, v: u8) -> Seq<u8> {
    let c = 1192 * luma(y);
    let cu = u - 128;
    let cv = v - 128;
    seq![channel(c + 1634 * cv), channel(c - 833 * cv - 400 * cu), channel(c + 2066 * cu), 255u8]
}

/// Index in a semi-planar 4:2:0 frame of the chroma pair (V first, then U)
/// shared by the pixel in row `j`, column `i`: the chroma plane follows the
/// `w` x `h` luma plane, holds one row per two luma rows, and one pair per
/// two luma columns.
pub open spec fn chroma_index(w: int, h: int, j: int, i: int) -> int {
    w * h + (j / 2) * w + 2 * (i / 2)
}

/// The RGBA pixel in row `j`, column `i` of a `w` x `h` semi-planar frame.
pub open spec fn frame_pixel(data: Seq<u8>, w: int, h: int, j: int, i: int) -> Seq<u8> {
    let c = chroma_index(w, h, j, i);
    yuv_pixel(data[j * w + i], data[c + 1], data[c])
}

/// `len` bytes hold a `w` x `h` semi-planar frame: the luma plane and every
/// chroma pair that a pixel reads.
pub open spec fn frame_fits(len: int, w: int, h: int) -> bool {
    w == 0 || h == 0 || len >= w * h + ((h - 1) / 2) * w + 2 * ((w + 1) / 2)
}

/// The four bytes of pixel `p` in an RGBA buffer.
pub open spec fn pixel_at(s: Seq<u8>, p: int) -> Seq<u8> {
    s.subrange(4 * p, 4 * p + 4)
}

/// Extent of the chroma plane of a semi-planar 4:2:0 frame whose luma plane
/// has extent `luma`: half the width and half the height, rounded down.
pub fn chroma_extent(luma: Extent) -> (r: Extent)
    ensures
        r.width == luma.width / 2,
        r.height == luma.height / 2,
{
    Extent { width: luma.width / 2, height: luma.height / 2 }
}

/// Splits a semi-planar frame into its luma plane, the first
/// `width * height` bytes, and the chroma bytes that follow it.
pub fn split_planes<'a>(data: &'a [u8], luma: Extent) -> (r: (&'a [u8], &'a [u8]))
    requires
        luma.width * luma.height <= data@.len(),
    ensures
        r.0@ == data@.subrange(0, luma.width * luma.height),
        r.1@ == data@.subrange(luma.width * luma.height, data@.len() as int),
{
    let len = data.len();
    let n = luma.width as usize * luma.height as usize;
    (slice_subrange(data, 0, n), slice_subrange(data, n, len))
}

/// Clamped fixed-point value to an 8-bit channel.
fn to_channel(x: i32) -> (r: u8)
    ensures
        r == channel(x as int),
{
    let c = if x < 0 {
        0
    } else if x > 262143 {
        262143
    } else {
        x
    };
    (c / 1024) as u8
}

/// Converts a `width` x `height` semi-planar 4:2:0 frame (a luma plane
/// followed by interleaved V/U pairs at half resolution) into interleaved
/// RGBA bytes, with fixed-point BT.601 coefficients.
pub fn yuv_to_rgba_cpu(data: &[u8], width: i32, height: i32) -> (r: Vec<u8>)
    requires
        width >= 0,
        height >= 0,
        width * height <= i32::MAX,
        frame_fits(data@.len() as int, width as int, height as int),
    ensures
        r@.len() == 4 * width * height,
        forall|p: int|
            0 <= p < width * height ==> #[trigger] pixel_at(r@, p) == frame_pixel(
                data@,
                width as int,
                height as int,
                p / width as int,
                p % width as int,
            ),
{
    let len = data.len();
    let frame_size = width * height;
    let w = width as usize;
    let ghost wi = width as int;
    let ghost hi = height as int;
    proof {
        assert(wi * hi >= 0) by (nonlinear_arith)
            requires wi >= 0, hi >= 0;
    }
    let mut yp: usize = 0;
    let mut rgba_data: Vec<u8> = Vec::new();
    let mut j: i32 = 0;
    while j < height
        invariant
            0 <= j <= height,
            width >= 0,
            wi == width,
            hi == height,
            frame_size >= 0,
            w == width,
            frame_size == wi * hi,
            wi * hi <= i32::MAX,
            len == data@.len(),
            frame_fits(len as int, wi, hi),
            yp == j * wi,
            rgba_data@.len() == 4 * (j * wi),
            forall|p: int|
                0 <= p < j * wi ==> #[trigger] pixel_at(rgba_data@, p) == frame_pixel(
                    data@,
                    wi,
                    hi,
                    p / wi,
                    p % wi,
                ),
        decreases height - j,
    {
        proof {
            lemma_div_is_ordered(j as int, hi - 1, 2);
            assert(((hi - 1) / 2) * wi >= 0 && 2 * ((wi + 1) / 2) >= 0) by (nonlinear_arith)
                requires hi >= 1, wi >= 0;
            assert(wi * hi <= len);
            assert((j / 2) * wi <= ((hi - 1) / 2) * wi) by (nonlinear_arith)
                requires j / 2 <= (hi - 1) / 2, wi >= 0;
            assert(j * wi + wi <= wi * hi) by (nonlinear_arith)
                requires j < hi, wi >= 0;
            assert((j / 2) * wi >= 0) by (nonlinear_arith)
                requires j >= 0, wi >= 0;
        }
        let ghost base = wi * hi + (j / 2) * wi;
        let mut uvp: usize = frame_size as usize + (j / 2) as usize * w;
        let mut u: i32 = 0;
        let mut v: i32 = 0;
        let mut i: i32 = 0;
        while i < width
            invariant
                0 <= i <= width,
                0 <= j < height,
                w == width,
                wi == width,
                hi == height,
                len == data@.len(),
                frame_fits(len as int, wi, hi),
                wi * hi <= i32::MAX,
                j * wi + wi <= wi * hi,
                wi * hi <= len,
                (j / 2) * wi <= ((hi - 1) / 2) * wi,
                base == wi * hi + (j / 2) * wi,
                uvp == base + 2 * ((i + 1) / 2),
                i % 2 == 1 ==> v == data@[base + i - 1] - 128 && u == data@[base + i] - 128,
                yp == j * wi + i,
                rgba_data@.len() == 4 * (j * wi + i),
                forall|p: int|
                    0 <= p < j * wi + i ==> #[trigger] pixel_at(rgba_data@, p) == frame_pixel(
                        data@,
                        wi,
                        hi,
                        p / wi,
                        p % wi,
                    ),
            decreases width - i,
        {
            let mut y = data[yp] as i32 - 16;
            if y < 0 {
                y = 0;
            }
            if i % 2 == 0 {
                proof {
                    lemma_div_is_ordered(i as int, wi - 1, 2);
                    assert(i + 2 <= 2 * ((wi + 1) / 2));
                }
                v = data[uvp] as i32 - 128;
                uvp += 1;
                u = data[uvp] as i32 - 128;
                uvp += 1;
            }
            let y1192 = 1192 * y;
            let r = to_channel(y1192 + 1634 * v);
            let g = to_channel(y1192 - 833 * v - 400 * u);
            let b = to_channel(y1192 + 2066 * u);
            let ghost old_rgba = rgba_data@;
            rgba_data.push(r);
            rgba_data.push(g);
            rgba_data.push(b);
            rgba_data.push(255u8);
            proof {
                let q = j * wi + i;
                lemma_fundamental_div_mod_converse(q, wi, j as int, i as int);
                assert(q == j * wi + i);
                assert(chroma_index(wi, hi, j as int, i as int) == base + 2 * (i / 2));
                assert(pixel_at(rgba_data@, q) =~= seq![r, g, b, 255u8]);
                assert(pixel_at(rgba_data@, q) == frame_pixel(data@, wi, hi, q / wi, q % wi));
                assert forall|p: int| 0 <= p < q implies #[trigger] pixel_at(rgba_data@, p)
                    == pixel_at(old_rgba, p) by {
                    assert(pixel_at(rgba_data@, p) =~= pixel_at(old_rgba, p));
                }
            }
            yp += 1;
            i += 1;
        }
        proof {
            assert((j + 1) * wi == j * wi + wi) by (nonlinear_arith);
        }
        j += 1;
    }
    proof {
        assert(j * wi == wi * hi) by (nonlinear_arith)
            requires j == hi;
        assert(4 * width * height == 4 * (wi * hi)) by (nonlinear_arith)
            requires wi == width, hi == height;
    }
    rgba_data
}

} // verus!
