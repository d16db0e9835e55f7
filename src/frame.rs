use vstd::arithmetic::div_mod::{lemma_fundamental_div_mod, lemma_fundamental_div_mod_converse};
use vstd::arithmetic::mul::lemma_mul_strict_inequality_converse;
use vstd::prelude::*;

verus! {

/// An RGB color with one byte per channel.
pub type Rgb = (u8, u8, u8);

/// The pixel coordinate `(x, y)` of the `idx`-th pixel of a row-major raster
/// that is `width` pixels wide.
pub open spec fn coord_of(idx: int, width: int) -> (int, int) {
    (idx % width, idx / width)
}

/// A pixel coordinate lies inside a `width` x `height` raster.
pub open spec fn in_frame(p: (u32, u32), width: u32, height: u32) -> bool {
    p.0 < width && p.1 < height
}

/// The coordinates of every pixel of a `width` x `height` raster, row by row,
/// each row from left to right.
pub open spec fn frame_layout(width: u32, height: u32) -> Seq<(u32, u32)> {
    Seq::new(
        (width * height) as nat,
        |i: int| ((i % width as int) as u32, (i / width as int) as u32),
    )
}

pub(crate) proof fn lemma_row_below_height(idx: int, width: int, height: int)
    requires
        width > 0,
        0 <= idx < width * height,
    ensures
        0 <= idx % width < width,
        0 <= idx / width < height,
{
    lemma_fundamental_div_mod(idx, width);
    assert(0 <= idx % width < width) by {
        vstd::arithmetic::div_mod::lemma_mod_bound(idx, width);
    }
    assert(idx / width >= 0) by {
        vstd::arithmetic::div_mod::lemma_div_pos_is_pos(idx, width);
    }
    assert((idx / width) * width < height * width) by (nonlinear_arith)
        requires
            idx == width * (idx / width) + idx % width,
            idx % width >= 0,
            idx < width * height,
    ;
    lemma_mul_strict_inequality_converse(idx / width, height, width);
}

/// In a raster with at least one pixel, the first stored pixel is the top-left
/// corner and the last one the bottom-right corner, and both lie inside the raster.
pub proof fn lemma_frame_corners(width: u32, height: u32)
    requires
        width > 0,
        height > 0,
    ensures
        frame_layout(width, height).len() == width * height,
        frame_layout(width, height)[0] == (0u32, 0u32),
        frame_layout(width, height)[width * height - 1] == ((width - 1) as u32, (height - 1) as u32),
        in_frame(frame_layout(width, height)[0], width, height),
        in_frame(frame_layout(width, height)[width * height - 1], width, height),
{
    let w = width as int;
    let h = height as int;
    assert(w * h >= 1) by (nonlinear_arith)
        requires
            w > 0,
            h > 0,
    ;
    assert(w * h - 1 == (h - 1) * w + (w - 1)) by (nonlinear_arith);
    lemma_fundamental_div_mod_converse(w * h - 1, w, h - 1, w - 1);
    lemma_fundamental_div_mod_converse(0, w, 0, 0);
}

/// Row-major coordinate `(x, y)` of the pixel stored at position `idx`.
pub fn pixel_coord(idx: usize, width: u32, height: u32) -> (r: (u32, u32))
    requires
        width > 0,
        idx < width * height,
    ensures
        r.0 == (idx as int) % (width as int),
        r.1 == (idx as int) / (width as int),
        in_frame(r, width, height),
{
    proof {
        lemma_row_below_height(idx as int, width as int, height as int);
    }
    let w = width as usize;
    ((idx % w) as u32, (idx / w) as u32)
}

/// Every pixel coordinate of a `width` x `height` raster in row-major order.
pub fn frame_coords(width: u32, height: u32) -> (r: Vec<(u32, u32)>)
    requires
        width * height <= usize::MAX,
    ensures
        r@ == frame_layout(width, height),
        r@.len() == width * height,
        forall|i: int| 0 <= i < r@.len() ==> #[trigger] in_frame(r@[i], width, height),
{
    let total: usize = (width as usize) * (height as usize);
    let mut r: Vec<(u32, u32)> = Vec::with_capacity(total);
    let mut idx: usize = 0;
    while idx < total
        invariant
            total == width * height,
            idx <= total,
            r@.len() == idx,
            forall|i: int|
                0 <= i < idx ==> #[trigger] r@[i] == frame_layout(width, height)[i]
                    && in_frame(r@[i], width, height),
        decreases total - idx,
    {
        let p = pixel_coord(idx, width, height);
        r.push(p);
        idx += 1;
    }
    assert(r@ =~= frame_layout(width, height));
    r
}

/// Byte `channel` (0 red, 1 green, 2 blue, 3 alpha) of `c` as an opaque RGBA pixel.
pub open spec fn rgba_channel(c: Rgb, channel: int) -> u8 {
    if channel == 0 {
        c.0
    } else if channel == 1 {
        c.1
    } else if channel == 2 {
        c.2
    } else {
        u8::MAX
    }
}

/// The RGBA8 bytes of a frame of RGB colors: four bytes per pixel, alpha fully opaque.
pub open spec fn rgba_bytes(colors: Seq<Rgb>) -> Seq<u8> {
    Seq::new(4 * colors.len(), |k: int| rgba_channel(colors[k / 4], k % 4))
}

/// Writes a row-major frame of RGB colors into a display buffer that holds four
/// bytes (red, green, blue, alpha) per pixel; every pixel is written opaque.
pub fn draw(frame: &mut [u8], width: u32, height: u32, colors: &[Rgb])
    requires
        colors@.len() == width * height,
        old(frame)@.len() == 4 * colors@.len(),
    ensures
        final(frame)@ == rgba_bytes(colors@),
{
    let n: usize = colors.len();
    let bytes: usize = frame.len();
    let mut idx: usize = 0;
    while idx < n
        invariant
            n == colors@.len(),
            frame@.len() == 4 * n,
            bytes == 4 * n,
            idx <= n,
            forall|k: int| 0 <= k < 4 * idx ==> #[trigger] frame@[k] == rgba_bytes(colors@)[k],
        decreases n - idx,
    {
        let (r, g, b) = colors[idx];
        let base: usize = 4 * idx;
        frame[base] = r;
        frame[base + 1] = g;
        frame[base + 2] = b;
        frame[base + 3] = u8::MAX;
        idx += 1;
    }
    assert(frame@ =~= rgba_bytes(colors@));
}

} // verus!
