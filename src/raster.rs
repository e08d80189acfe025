use vstd::prelude::*;

verus! {

/// The pixel `(i, j)` emitted at position `k` of the stream: rows run from the
/// top of the image (`j = height - 1`) down, each row from left to right.
pub open spec fn pixel_spec(k: int, width: int, height: int) -> (int, int) {
    (k % width, height - 1 - k / width)
}

/// The position in the stream of pixel `(i, j)`.
pub open spec fn index_spec(i: int, j: int, width: int, height: int) -> int {
    (height - 1 - j) * width + i
}

pub fn pixel_at(k: u64, width: u32, height: u32) -> (r: (u32, u32))
    requires
        width > 0,
        height > 0,
        k < width as int * height as int,
    ensures
        (r.0 as int, r.1 as int) == pixel_spec(k as int, width as int, height as int),
        r.0 < width,
        r.1 < height,
{
    let w = width as u64;
    let row = k / w;
    proof {
        assert(row < height) by (nonlinear_arith)
            requires
                row == k / w,
                w > 0,
                k < w * height,
        {
            if row >= height {
                assert(k >= w * (k / w)) by (nonlinear_arith)
                    requires w > 0;
                assert(w * (k / w) >= w * height) by (nonlinear_arith)
                    requires k / w >= height, w > 0;
            }
        }
    }
    let i = (k % w) as u32;
    let j = (height as u64 - 1 - row) as u32;
    (i, j)
}

pub fn pixel_index(i: u32, j: u32, width: u32, height: u32) -> (k: u64)
    requires
        i < width,
        j < height,
    ensures
        k as int == index_spec(i as int, j as int, width as int, height as int),
        k < width as int * height as int,
{
    let row = (height - 1 - j) as u64;
    proof {
        assert(row * width + i < width as int * height as int) by (nonlinear_arith)
            requires
                row == height - 1 - j,
                i < width,
                j < height,
        {
            assert(row + 1 <= height);
            assert((row + 1) * width <= height * width);
        }
        assert(width as int * height as int <= 0xffff_ffff * 0xffff_ffff) by (nonlinear_arith)
            requires width <= 0xffff_ffff, height <= 0xffff_ffff;
        assert(row * width <= row * width + i);
    }
    row * (width as u64) + i as u64
}

/// Every pixel of the image has exactly one place in the stream: the position
/// of a pixel leads back to it, and so does the pixel at a position.
pub proof fn lemma_raster_round_trip(k: int, i: int, j: int, width: int, height: int)
    requires
        width > 0,
        height > 0,
        0 <= k < width * height,
        0 <= i < width,
        0 <= j < height,
    ensures
        index_spec(pixel_spec(k, width, height).0, pixel_spec(k, width, height).1, width, height) == k,
        pixel_spec(index_spec(i, j, width, height), width, height) == (i, j),
{
    assert(k == (k / width) * width + k % width) by (nonlinear_arith)
        requires width > 0;
    let row = height - 1 - j;
    assert(0 <= row);
    assert((row * width + i) / width == row && (row * width + i) % width == i) by (nonlinear_arith)
        requires 0 <= i < width, 0 <= row;
}

/// Later positions in the stream hold pixels lower in the image, or further
/// right in the same row.
pub proof fn lemma_raster_order(k1: int, k2: int, width: int, height: int)
    requires
        width > 0,
        0 <= k1 < k2,
    ensures
        ({
            let (i1, j1) = pixel_spec(k1, width, height);
            let (i2, j2) = pixel_spec(k2, width, height);
            j2 < j1 || (j2 == j1 && i1 < i2)
        }),
{
    assert(k1 / width <= k2 / width) by (nonlinear_arith)
        requires width > 0, 0 <= k1 < k2;
    if k1 / width == k2 / width {
        assert(k1 % width < k2 % width) by (nonlinear_arith)
            requires width > 0, 0 <= k1 < k2, k1 / width == k2 / width;
    }
}

} // verus!
