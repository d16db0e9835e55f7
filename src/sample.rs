use vstd::arithmetic::div_mod::{lemma_div_is_ordered, lemma_div_multiples_vanish};
use vstd::prelude::*;

use crate::frame::{lemma_row_below_height, rgba_channel, Rgb};

verus! {

/// Iteration bound of the escape loop for every sub-sample.
pub const ITERATION_BOUND: u32 = 500;

/// Sub-samples per pixel along each axis.
pub const SUBSAMPLES_PER_AXIS: u32 = 2;

/// The sub-sample positions of one pixel on an `n` x `n` grid, as fractions
/// `1 ..= n` of a sub-pixel step along each axis; the horizontal fraction
/// varies slowest.
pub open spec fn grid_layout(n: u32) -> Seq<(u32, u32)> {
    Seq::new((n * n) as nat, |k: int| ((k / n as int + 1) as u32, (k % n as int + 1) as u32))
}

/// Sum of channel `ch` (0 red, 1 green, 2 blue) over all colors of `s`.
pub open spec fn channel_sum(s: Seq<Rgb>, ch: int) -> int
    decreases s.len(),
{
    if s.len() == 0 {
        0
    } else {
        channel_sum(s.drop_last(), ch) + rgba_channel(s.last(), ch) as int
    }
}

/// The channel-wise mean of `s`, each channel truncated toward zero.
pub open spec fn mean_color(s: Seq<Rgb>) -> Rgb {
    (
        (channel_sum(s, 0) / s.len() as int) as u8,
        (channel_sum(s, 1) / s.len() as int) as u8,
        (channel_sum(s, 2) / s.len() as int) as u8,
    )
}

proof fn lemma_channel_sum_bound(s: Seq<Rgb>, ch: int)
    ensures
        0 <= channel_sum(s, ch) <= 255 * s.len(),
    decreases s.len(),
{
    if s.len() > 0 {
        lemma_channel_sum_bound(s.drop_last(), ch);
    }
}

proof fn lemma_mean_fits(s: Seq<Rgb>, ch: int)
    requires
        s.len() > 0,
    ensures
        0 <= channel_sum(s, ch) / s.len() as int <= 255,
{
    let n = s.len() as int;
    lemma_channel_sum_bound(s, ch);
    lemma_div_is_ordered(channel_sum(s, ch), 255 * n, n);
    lemma_div_is_ordered(0, channel_sum(s, ch), n);
    lemma_div_multiples_vanish(255, n);
}

/// The sub-sample grid of one pixel with `n` sub-samples along each axis.
pub fn subsample_grid(n: u32) -> (r: Vec<(u32, u32)>)
    requires
        n * n <= usize::MAX,
    ensures
        r@ == grid_layout(n),
{
    let total: usize = (n as usize) * (n as usize);
    let mut r: Vec<(u32, u32)> = Vec::with_capacity(total);
    let mut k: usize = 0;
    while k < total
        invariant
            total == n * n,
            k <= total,
            r@.len() == k,
            forall|i: int| 0 <= i < k ==> #[trigger] r@[i] == grid_layout(n)[i],
        decreases total - k,
    {
        proof {
            lemma_row_below_height(k as int, n as int, n as int);
        }
        let m = n as usize;
        r.push(((k / m) as u32 + 1, (k % m) as u32 + 1));
        k += 1;
    }
    assert(r@ =~= grid_layout(n));
    r
}

/// The channel-wise mean of a non-empty list of colors, each channel sum
/// divided by the number of colors with truncation toward zero.
pub fn average_color(samples: &[Rgb]) -> (r: Rgb)
    requires
        samples@.len() > 0,
        255 * samples@.len() <= u32::MAX,
    ensures
        r == mean_color(samples@),
{
    let n: usize = samples.len();
    let mut red: u32 = 0;
    let mut green: u32 = 0;
    let mut blue: u32 = 0;
    let mut k: usize = 0;
    while k < n
        invariant
            n == samples@.len(),
            255 * n <= u32::MAX,
            k <= n,
            red == channel_sum(samples@.take(k as int), 0),
            green == channel_sum(samples@.take(k as int), 1),
            blue == channel_sum(samples@.take(k as int), 2),
        decreases n - k,
    {
        let ghost prefix = samples@.take(k as int);
        let ghost next = samples@.take(k + 1);
        proof {
            assert(next.drop_last() =~= prefix);
            lemma_channel_sum_bound(prefix, 0);
            lemma_channel_sum_bound(prefix, 1);
            lemma_channel_sum_bound(prefix, 2);
        }
        let (r, g, b) = samples[k];
        red = red + r as u32;
        green = green + g as u32;
        blue = blue + b as u32;
        k += 1;
    }
    proof {
        assert(samples@.take(n as int) =~= samples@);
        lemma_mean_fits(samples@, 0);
        lemma_mean_fits(samples@, 1);
        lemma_mean_fits(samples@, 2);
    }
    let count = n as u32;
    ((red / count) as u8, (green / count) as u8, (blue / count) as u8)
}

/// `colors` holds, position by position, a color that `sample_color` may
/// return for the sub-sample at the same position of `points`.
pub open spec fn colors_of<F: Fn((u32, u32)) -> Rgb>(
    sample_color: F,
    points: Seq<(u32, u32)>,
    colors: Seq<Rgb>,
) -> bool {
    &&& colors.len() == points.len()
    &&& forall|k: int|
        0 <= k < points.len() ==> sample_color.ensures((points[k],), #[trigger] colors[k])
}

/// Anti-aliases one pixel: colors each point of the `n` x `n` sub-sample grid
/// with `sample_color` and returns the channel-wise mean of those colors.
pub fn supersample<F: Fn((u32, u32)) -> Rgb>(n: u32, sample_color: F) -> (r: Rgb)
    requires
        n > 0,
        255 * (n * n) <= u32::MAX,
        forall|k: int| 0 <= k < n * n ==> sample_color.requires((#[trigger] grid_layout(n)[k],)),
    ensures
        exists|colors: Seq<Rgb>|
            colors_of(sample_color, grid_layout(n), colors) && r == mean_color(colors),
{
    let points = subsample_grid(n);
    let total: usize = points.len();
    let mut colors: Vec<Rgb> = Vec::with_capacity(total);
    let mut k: usize = 0;
    while k < total
        invariant
            points@ == grid_layout(n),
            total == points@.len(),
            forall|j: int| 0 <= j < n * n ==> sample_color.requires((#[trigger] grid_layout(n)[j],)),
            k <= total,
            colors_of(sample_color, points@.take(k as int), colors@),
        decreases total - k,
    {
        let c = sample_color(points[k]);
        colors.push(c);
        k += 1;
        assert(colors_of(sample_color, points@.take(k as int), colors@));
    }
    assert(points@.take(total as int) =~= points@);
    assert(n * n > 0) by (nonlinear_arith)
        requires
            n > 0,
    ;
    average_color(&colors)
}

} // verus!
