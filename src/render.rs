use rayon::iter::{IndexedParallelIterator, IntoParallelIterator, ParallelIterator};
use vstd::prelude::*;

use crate::frame::{frame_coords, frame_layout, in_frame, Rgb};
use crate::sample::colors_of;

verus! {

/// A pixel function is deterministic when it can give only one color for each pixel.
pub open spec fn deterministic<F: Fn((u32, u32)) -> Rgb>(pixel_color: F) -> bool {
    forall|p: (u32, u32), a: Rgb, b: Rgb|
        pixel_color.ensures((p,), a) && pixel_color.ensures((p,), b) ==> a == b
}

/// Relies on rayon: `into_par_iter` on a `Vec` followed by `map` is an indexed
/// parallel iterator, and `collect_into_vec` stores one result per input, in
/// the order of the input, whatever order the workers finish in.
#[verifier::external_body]
fn par_map_pixels<F: Fn((u32, u32)) -> Rgb + Send + Sync>(
    coords: Vec<(u32, u32)>,
    pixel_color: F,
) -> (r: Vec<Rgb>)
    requires
        forall|k: int| 0 <= k < coords@.len() ==> pixel_color.requires((#[trigger] coords@[k],)),
    ensures
        colors_of(pixel_color, coords@, r@),
{
    let mut r = Vec::new();
    coords.into_par_iter().map(pixel_color).collect_into_vec(&mut r);
    r
}

/// Renders a `width` x `height` frame: every pixel is colored by `pixel_color`
/// independently and in parallel, and the colors come back in row-major order.
pub fn calc_frame<F: Fn((u32, u32)) -> Rgb + Send + Sync>(
    width: u32,
    height: u32,
    pixel_color: F,
) -> (r: Vec<Rgb>)
    requires
        width * height <= usize::MAX,
        forall|p: (u32, u32)| in_frame(p, width, height) ==> #[trigger] pixel_color.requires((p,)),
    ensures
        r@.len() == width * height,
        colors_of(pixel_color, frame_layout(width, height), r@),
{
    let coords = frame_coords(width, height);
    par_map_pixels(coords, pixel_color)
}

/// Rendering is repeatable: for a deterministic pixel function, any two frames
/// of the same size that `calc_frame` may return are the same frame.
pub proof fn lemma_render_repeatable<F: Fn((u32, u32)) -> Rgb>(
    pixel_color: F,
    width: u32,
    height: u32,
    a: Seq<Rgb>,
    b: Seq<Rgb>,
)
    requires
        deterministic(pixel_color),
        colors_of(pixel_color, frame_layout(width, height), a),
        colors_of(pixel_color, frame_layout(width, height), b),
    ensures
        a == b,
{
    let points = frame_layout(width, height);
    assert forall|k: int| 0 <= k < a.len() implies a[k] == b[k] by {
        assert(pixel_color.ensures((points[k],), a[k]));
        assert(pixel_color.ensures((points[k],), b[k]));
    }
    assert(a =~= b);
}

} // verus!
