//! The integer side of the harness's pixel statistics on RGBA8 buffers:
//! buffer checks, per-channel histograms, nearest-rank lookups and the
//! sums behind image comparisons. Means and fractions are divisions done by
//! the caller.

use vstd::prelude::*;
use crate::text::{chars_of, decimal, extend_chars, push_decimal, string_of};

verus! {

/// Per-pixel channel differences at or below this count as equal in a
/// comparison: codec and rounding jitter, not a tuning difference.
pub const COMPARE_DIFF_TOLERANCE: u8 = 2;

/// Sample `c` (0 red, 1 green, 2 blue) of pixel `p`.
pub open spec fn sample(pixels: Seq<u8>, p: int, c: int) -> u8 {
    pixels[4 * p + c]
}

/// How many of the first `n` pixels have `value` in channel `c`.
pub open spec fn channel_count(pixels: Seq<u8>, c: int, value: int, n: nat) -> nat
    decreases n,
{
    if n == 0 {
        0
    } else {
        channel_count(pixels, c, value, (n - 1) as nat) + if sample(pixels, n - 1, c) == value { 1nat } else { 0nat }
    }
}

/// The histograms of the red, green and blue samples of an image: entry
/// `v` of each counts the pixels with value `v` in that channel.
pub struct ChannelHistograms {
    pub r: Vec<u64>,
    pub g: Vec<u64>,
    pub b: Vec<u64>,
}

pub open spec fn is_histogram_of(h: Seq<u64>, pixels: Seq<u8>, c: int, n: nat) -> bool {
    &&& h.len() == 256
    &&& forall|v: int| 0 <= v < 256 ==> #[trigger] h[v] == channel_count(pixels, c, v, n)
}

/// The error for a buffer that is not `width` x `height` RGBA8 pixels.
pub open spec fn length_error(len: nat, width: u32, height: u32) -> Seq<char> {
    "pixel buffer length "@ + decimal(len) + " does not match "@ + decimal(width as nat) + "x"@
        + decimal(height as nat) + " RGBA ("@ + decimal((width * height * 4) as nat) + ")"@
}

fn length_error_text(len: usize, width: u32, height: u32, expected: usize) -> (r: String)
    requires
        expected == width * height * 4,
    ensures
        r@ == length_error(len as nat, width, height),
{
    let mut m = chars_of("pixel buffer length ");
    push_decimal(&mut m, len as u64);
    extend_chars(&mut m, &chars_of(" does not match "));
    push_decimal(&mut m, width as u64);
    extend_chars(&mut m, &chars_of("x"));
    push_decimal(&mut m, height as u64);
    extend_chars(&mut m, &chars_of(" RGBA ("));
    push_decimal(&mut m, expected as u64);
    extend_chars(&mut m, &chars_of(")"));
    string_of(&m)
}

fn expected_len(width: u32, height: u32) -> (n: usize)
    requires
        width * height * 4 <= usize::MAX,
    ensures
        n == width * height * 4,
{
    assert(width * height <= width * height * 4) by (nonlinear_arith)
        requires width * height >= 0;
    let wh = (width as usize) * (height as usize);
    wh * 4
}

/// Counts one channel into a fresh histogram.
fn channel_histogram(pixels: &[u8], c: usize, n: usize) -> (h: Vec<u64>)
    requires
        c < 3,
        pixels@.len() == 4 * n,
    ensures
        is_histogram_of(h@, pixels@, c as int, n as nat),
{
    let mut h: Vec<u64> = Vec::new();
    let mut v: usize = 0;
    while v < 256
        invariant
            v <= 256,
            h@.len() == v,
            forall|k: int| 0 <= k < v ==> #[trigger] h@[k] == 0,
        decreases 256 - v,
    {
        h.push(0);
        v = v + 1;
    }
    let len = pixels.len();
    let mut p: usize = 0;
    while p < n
        invariant
            c < 3,
            p <= n,
            pixels@.len() == 4 * n,
            len == pixels@.len(),
            h@.len() == 256,
            forall|k: int| 0 <= k < 256 ==> #[trigger] h@[k] == channel_count(pixels@, c as int, k, p as nat),
            forall|k: int| 0 <= k < 256 ==> #[trigger] h@[k] <= p,
        decreases n - p,
    {
        let value = pixels[4 * p + c] as usize;
        let ghost old_h = h@;
        let bumped = h[value] + 1;
        h.set(value, bumped);
        assert forall|k: int| 0 <= k < 256 implies #[trigger] h@[k] == channel_count(pixels@, c as int, k, (p + 1) as nat) by {
            assert(sample(pixels@, p as int, c as int) == value);
        }
        p = p + 1;
    }
    h
}

/// Checks an RGBA8 buffer of `width` x `height` pixels and counts its red,
/// green and blue samples (alpha is ignored).
pub fn channel_histograms(pixels: &[u8], width: u32, height: u32) -> (r: Result<ChannelHistograms, String>)
    requires
        width * height * 4 <= usize::MAX,
    ensures
        pixels@.len() != width * height * 4 ==> (r matches Err(e) && e@ == length_error(pixels@.len(), width, height)),
        pixels@.len() == width * height * 4 && (width == 0 || height == 0) ==> (r matches Err(e)
            && e@ == "image has zero dimensions"@),
        pixels@.len() == width * height * 4 && width > 0 && height > 0 ==> (r matches Ok(h)
            && is_histogram_of(h.r@, pixels@, 0, (width * height) as nat)
            && is_histogram_of(h.g@, pixels@, 1, (width * height) as nat)
            && is_histogram_of(h.b@, pixels@, 2, (width * height) as nat)),
{
    let expected = expected_len(width, height);
    if pixels.len() != expected {
        return Err(length_error_text(pixels.len(), width, height, expected));
    }
    if width == 0 || height == 0 {
        return Err(String::from_str("image has zero dimensions"));
    }
    let n = expected / 4;
    Ok(ChannelHistograms {
        r: channel_histogram(pixels, 0, n),
        g: channel_histogram(pixels, 1, n),
        b: channel_histogram(pixels, 2, n),
    })
}

/// The number of samples with a value up to `v` (inclusive).
pub open spec fn cumulative(h: Seq<u64>, v: int) -> int
    decreases v + 1,
{
    if v < 0 {
        0
    } else {
        cumulative(h, v - 1) + h[v]
    }
}

/// Nearest-rank lookup: the smallest value whose cumulative count reaches
/// `rank`; 255 when none does.
pub open spec fn value_at_rank_spec(h: Seq<u64>, rank: int) -> int {
    if exists|v: int| 0 <= v < 256 && cumulative(h, v) >= rank {
        choose|v: int| 0 <= v < 256 && cumulative(h, v) >= rank && forall|u: int| 0 <= u < v ==> cumulative(h, u) < rank
    } else {
        255
    }
}

/// The histogram value at which the cumulative count first reaches `rank`
/// (the caller turns a percentile into a rank).
pub fn value_at_rank(h: &Vec<u64>, rank: u64) -> (r: u8)
    requires
        h@.len() == 256,
    ensures
        r == value_at_rank_spec(h@, rank as int),
        (exists|v: int| 0 <= v < 256 && cumulative(h@, v) >= rank) ==> cumulative(h@, r as int) >= rank && forall|u: int|
            0 <= u < r ==> cumulative(h@, u) < rank,
{
    let mut acc: u128 = 0;
    let mut v: usize = 0;
    while v < 256
        invariant
            v <= 256,
            h@.len() == 256,
            acc == cumulative(h@, v as int - 1),
            acc <= v * 0xffff_ffff_ffff_ffffu128,
            forall|u: int| 0 <= u < v ==> cumulative(h@, u) < rank,
        decreases 256 - v,
    {
        acc = acc + h[v] as u128;
        if acc >= rank as u128 {
            proof {
                assert(cumulative(h@, v as int) >= rank);
                let w = choose|w: int| 0 <= w < 256 && cumulative(h@, w) >= rank && forall|u: int|
                    0 <= u < w ==> cumulative(h@, u) < rank;
                if w < v {
                    assert(cumulative(h@, w) < rank);
                } else if w > v {
                    assert(cumulative(h@, v as int) < rank);
                }
            }
            return v as u8;
        }
        v = v + 1;
    }
    proof {
        assert forall|u: int| 0 <= u < 256 implies !(cumulative(h@, u) >= rank) by {}
    }
    255
}

/// The sum of value times count over a histogram (the numerator of the
/// channel mean).
pub open spec fn weighted_sum(h: Seq<u64>, v: int) -> int
    decreases v + 1,
{
    if v < 0 {
        0
    } else {
        weighted_sum(h, v - 1) + v * h[v]
    }
}

pub fn histogram_value_sum(h: &Vec<u64>) -> (s: u128)
    requires
        h@.len() == 256,
    ensures
        s == weighted_sum(h@, 255),
{
    let mut acc: u128 = 0;
    let mut v: usize = 0;
    while v < 256
        invariant
            v <= 256,
            h@.len() == 256,
            acc == weighted_sum(h@, v as int - 1),
            acc <= v * 255 * 0xffff_ffff_ffff_ffffu128,
        decreases 256 - v,
    {
        let count = h[v] as u128;
        let vv = v as u128;
        assert(vv * count <= 255 * 0xffff_ffff_ffff_ffffu128) by (nonlinear_arith)
            requires
                vv < 256,
                count <= 0xffff_ffff_ffff_ffffu128;
        let term = vv * count;
        acc = acc + term;
        v = v + 1;
    }
    acc
}

/// The absolute difference of two samples.
pub open spec fn abs_diff(a: u8, b: u8) -> int {
    if a >= b { a - b } else { b - a }
}

/// Sum over the first `n` pixels of the absolute differences in channel `c`.
pub open spec fn diff_sum(a: Seq<u8>, b: Seq<u8>, c: int, n: nat) -> int
    decreases n,
{
    if n == 0 {
        0
    } else {
        diff_sum(a, b, c, (n - 1) as nat) + abs_diff(sample(a, n - 1, c), sample(b, n - 1, c))
    }
}

/// The largest absolute difference in channel `c` over the first `n` pixels.
pub open spec fn diff_max(a: Seq<u8>, b: Seq<u8>, c: int, n: nat) -> int
    decreases n,
{
    if n == 0 {
        0
    } else {
        let m = diff_max(a, b, c, (n - 1) as nat);
        let d = abs_diff(sample(a, n - 1, c), sample(b, n - 1, c));
        if d > m { d } else { m }
    }
}

/// Whether pixel `p` differs beyond the tolerance in some color channel.
pub open spec fn pixel_differs(a: Seq<u8>, b: Seq<u8>, p: int) -> bool {
    exists|c: int| 0 <= c < 3 && abs_diff(sample(a, p, c), sample(b, p, c)) > COMPARE_DIFF_TOLERANCE
}

/// How many of the first `n` pixels differ beyond the tolerance.
pub open spec fn differing_count(a: Seq<u8>, b: Seq<u8>, n: nat) -> nat
    decreases n,
{
    if n == 0 {
        0
    } else {
        differing_count(a, b, (n - 1) as nat) + if pixel_differs(a, b, n - 1) { 1nat } else { 0nat }
    }
}

/// The integer measures of a comparison of two images.
#[derive(Debug, Clone, Copy)]
pub struct CompareCounts {
    pub width: u32,
    pub height: u32,
    /// Sum of absolute per-pixel differences, per channel (R, G, B).
    pub abs_diff_sum: (u128, u128, u128),
    /// Largest absolute per-pixel difference, per channel (R, G, B).
    pub max_abs_diff: (u8, u8, u8),
    /// Pixels where some channel differs by more than the tolerance.
    pub differing: u64,
    pub pixels: u64,
}

fn sample_diff(a: u8, b: u8) -> (d: u8)
    ensures
        d == abs_diff(a, b),
{
    if a >= b { a - b } else { b - a }
}

/// Compares two RGBA8 buffers (alpha is ignored).
pub fn compare_counts(
    pixels_a: &[u8],
    width_a: u32,
    height_a: u32,
    pixels_b: &[u8],
    width_b: u32,
    height_b: u32,
) -> (r: Result<CompareCounts, String>)
    requires
        width_a * height_a * 4 <= usize::MAX,
    ensures
        (width_a != width_b || height_a != height_b) ==> (r matches Err(e) && e@ == "image dimensions differ: "@
            + decimal(width_a as nat) + "x"@ + decimal(height_a as nat) + " vs "@ + decimal(width_b as nat) + "x"@
            + decimal(height_b as nat)),
        (width_a == width_b && height_a == height_b && (pixels_a@.len() != width_a * height_a * 4
            || pixels_b@.len() != width_a * height_a * 4)) ==> (r matches Err(e)
            && e@ == "pixel buffer length does not match dimensions"@),
        (width_a == width_b && height_a == height_b && pixels_a@.len() == width_a * height_a * 4
            && pixels_b@.len() == width_a * height_a * 4 && (width_a == 0 || height_a == 0)) ==> (r matches Err(e)
            && e@ == "image has zero dimensions"@),
        r matches Ok(k) ==> ({
            let n = (width_a * height_a) as nat;
            &&& width_a == width_b && height_a == height_b && width_a > 0 && height_a > 0
            &&& pixels_a@.len() == 4 * n && pixels_b@.len() == 4 * n
            &&& k.width == width_a && k.height == height_a && k.pixels == n
            &&& k.abs_diff_sum.0 == diff_sum(pixels_a@, pixels_b@, 0, n)
            &&& k.abs_diff_sum.1 == diff_sum(pixels_a@, pixels_b@, 1, n)
            &&& k.abs_diff_sum.2 == diff_sum(pixels_a@, pixels_b@, 2, n)
            &&& k.max_abs_diff.0 == diff_max(pixels_a@, pixels_b@, 0, n)
            &&& k.max_abs_diff.1 == diff_max(pixels_a@, pixels_b@, 1, n)
            &&& k.max_abs_diff.2 == diff_max(pixels_a@, pixels_b@, 2, n)
            &&& k.differing == differing_count(pixels_a@, pixels_b@, n)
        }),
        (width_a == width_b && height_a == height_b && pixels_a@.len() == width_a * height_a * 4
            && pixels_b@.len() == width_a * height_a * 4 && width_a > 0 && height_a > 0) ==> r is Ok,
{
    if width_a != width_b || height_a != height_b {
        let mut m = chars_of("image dimensions differ: ");
        push_decimal(&mut m, width_a as u64);
        extend_chars(&mut m, &chars_of("x"));
        push_decimal(&mut m, height_a as u64);
        extend_chars(&mut m, &chars_of(" vs "));
        push_decimal(&mut m, width_b as u64);
        extend_chars(&mut m, &chars_of("x"));
        push_decimal(&mut m, height_b as u64);
        return Err(string_of(&m));
    }
    let expected = expected_len(width_a, height_a);
    if pixels_a.len() != expected || pixels_b.len() != expected {
        return Err(String::from_str("pixel buffer length does not match dimensions"));
    }
    if width_a == 0 || height_a == 0 {
        return Err(String::from_str("image has zero dimensions"));
    }
    let n = expected / 4;
    let len = pixels_a.len();
    let mut sums: (u128, u128, u128) = (0, 0, 0);
    let mut maxes: (u8, u8, u8) = (0, 0, 0);
    let mut differing: u64 = 0;
    let mut p: usize = 0;
    while p < n
        invariant
            p <= n,
            n == width_a * height_a,
            pixels_a@.len() == 4 * n,
            pixels_b@.len() == 4 * n,
            len == pixels_a@.len(),
            sums.0 == diff_sum(pixels_a@, pixels_b@, 0, p as nat),
            sums.1 == diff_sum(pixels_a@, pixels_b@, 1, p as nat),
            sums.2 == diff_sum(pixels_a@, pixels_b@, 2, p as nat),
            sums.0 <= 255 * p,
            sums.1 <= 255 * p,
            sums.2 <= 255 * p,
            maxes.0 == diff_max(pixels_a@, pixels_b@, 0, p as nat),
            maxes.1 == diff_max(pixels_a@, pixels_b@, 1, p as nat),
            maxes.2 == diff_max(pixels_a@, pixels_b@, 2, p as nat),
            differing == differing_count(pixels_a@, pixels_b@, p as nat),
            differing <= p,
        decreases n - p,
    {
        let d0 = sample_diff(pixels_a[4 * p], pixels_b[4 * p]);
        let d1 = sample_diff(pixels_a[4 * p + 1], pixels_b[4 * p + 1]);
        let d2 = sample_diff(pixels_a[4 * p + 2], pixels_b[4 * p + 2]);
        proof {
            assert(sample(pixels_a@, p as int, 0) == pixels_a@[4 * p as int]);
            assert(sample(pixels_b@, p as int, 0) == pixels_b@[4 * p as int]);
        }
        sums = (sums.0 + d0 as u128, sums.1 + d1 as u128, sums.2 + d2 as u128);
        maxes = (
            if d0 > maxes.0 { d0 } else { maxes.0 },
            if d1 > maxes.1 { d1 } else { maxes.1 },
            if d2 > maxes.2 { d2 } else { maxes.2 },
        );
        let differs = d0 > COMPARE_DIFF_TOLERANCE || d1 > COMPARE_DIFF_TOLERANCE || d2 > COMPARE_DIFF_TOLERANCE;
        proof {
            if differs {
                if d0 > COMPARE_DIFF_TOLERANCE {
                    assert(abs_diff(sample(pixels_a@, p as int, 0), sample(pixels_b@, p as int, 0)) > COMPARE_DIFF_TOLERANCE);
                } else if d1 > COMPARE_DIFF_TOLERANCE {
                    assert(abs_diff(sample(pixels_a@, p as int, 1), sample(pixels_b@, p as int, 1)) > COMPARE_DIFF_TOLERANCE);
                } else {
                    assert(abs_diff(sample(pixels_a@, p as int, 2), sample(pixels_b@, p as int, 2)) > COMPARE_DIFF_TOLERANCE);
                }
                assert(pixel_differs(pixels_a@, pixels_b@, p as int));
            } else {
                assert forall|c: int| 0 <= c < 3 implies !(abs_diff(sample(pixels_a@, p as int, c), sample(pixels_b@, p as int, c))
                    > COMPARE_DIFF_TOLERANCE) by {
                    if c == 1 {
                    } else if c == 2 {
                    }
                }
            }
        }
        if differs {
            differing = differing + 1;
        }
        p = p + 1;
    }
    Ok(CompareCounts {
        width: width_a,
        height: height_a,
        abs_diff_sum: sums,
        max_abs_diff: maxes,
        differing,
        pixels: n as u64,
    })
}


/// How many of `values` equal `v`.
pub open spec fn value_count(values: Seq<u8>, v: int) -> nat
    decreases values.len(),
{
    if values.len() == 0 {
        0
    } else {
        value_count(values.drop_last(), v) + if values.last() == v { 1nat } else { 0nat }
    }
}

/// The 256-bin histogram of a list of 8-bit values (such as the luma of
/// each pixel).
pub fn value_histogram(values: &[u8]) -> (h: Vec<u64>)
    ensures
        h@.len() == 256,
        forall|v: int| 0 <= v < 256 ==> #[trigger] h@[v] == value_count(values@, v),
{
    let mut h: Vec<u64> = Vec::new();
    let mut v: usize = 0;
    while v < 256
        invariant
            v <= 256,
            h@.len() == v,
            forall|k: int| 0 <= k < v ==> #[trigger] h@[k] == 0,
        decreases 256 - v,
    {
        h.push(0);
        v = v + 1;
    }
    let mut i: usize = 0;
    while i < values.len()
        invariant
            i <= values@.len(),
            h@.len() == 256,
            forall|k: int| 0 <= k < 256 ==> #[trigger] h@[k] == value_count(values@.subrange(0, i as int), k),
            forall|k: int| 0 <= k < 256 ==> #[trigger] h@[k] <= i,
        decreases values.len() - i,
    {
        let value = values[i] as usize;
        let bumped = h[value] + 1;
        h.set(value, bumped);
        proof {
            let pre = values@.subrange(0, i + 1);
            assert(pre.drop_last() == values@.subrange(0, i as int));
            assert(pre.last() == values@[i as int]);
        }
        i = i + 1;
    }
    assert(values@.subrange(0, values@.len() as int) == values@);
    h
}

/// Number of bins of the coarse luma histogram.
pub const LUMA_HISTOGRAM_BINS: usize = 64;

/// A 256-bin histogram folded into 64 bins of four values each.
pub fn coarse_bins(h: &Vec<u64>) -> (bins: Vec<u64>)
    requires
        h@.len() == 256,
        forall|v: int| 0 <= v < 256 ==> #[trigger] h@[v] <= 0x3fff_ffff_ffff_ffffu64,
    ensures
        bins@.len() == LUMA_HISTOGRAM_BINS,
        forall|k: int| 0 <= k < 64 ==> #[trigger] bins@[k] == h@[4 * k] + h@[4 * k + 1] + h@[4 * k + 2] + h@[4 * k + 3],
{
    let mut bins: Vec<u64> = Vec::new();
    let mut k: usize = 0;
    while k < LUMA_HISTOGRAM_BINS
        invariant
            k <= 64,
            h@.len() == 256,
            forall|v: int| 0 <= v < 256 ==> #[trigger] h@[v] <= 0x3fff_ffff_ffff_ffffu64,
            bins@.len() == k,
            forall|j: int| 0 <= j < k ==> #[trigger] bins@[j] == h@[4 * j] + h@[4 * j + 1] + h@[4 * j + 2] + h@[4 * j + 3],
        decreases 64 - k,
    {
        let a = h[4 * k];
        let b = h[4 * k + 1];
        let c = h[4 * k + 2];
        let d = h[4 * k + 3];
        bins.push(a + b + c + d);
        k = k + 1;
    }
    bins
}


/// Nearest-rank percentiles are ordered: a higher rank never finds a
/// smaller value (so min <= p1 <= p5 <= p50 <= p95 <= p99 <= max).
pub proof fn law_percentiles_are_ordered(h: Seq<u64>, low: int, high: int)
    requires
        h.len() == 256,
        low <= high,
    ensures
        value_at_rank_spec(h, low) <= value_at_rank_spec(h, high),
{
    if exists|v: int| 0 <= v < 256 && cumulative(h, v) >= high {
        let vh = choose|v: int| 0 <= v < 256 && cumulative(h, v) >= high && forall|u: int|
            0 <= u < v ==> cumulative(h, u) < high;
        lemma_first_reaching(h, high);
        assert(cumulative(h, vh) >= low);
        lemma_first_reaching(h, low);
        let vl = choose|v: int| 0 <= v < 256 && cumulative(h, v) >= low && forall|u: int|
            0 <= u < v ==> cumulative(h, u) < low;
        if vl > vh {
            assert(cumulative(h, vh) < low);
        }
    } else {
        if exists|v: int| 0 <= v < 256 && cumulative(h, v) >= low {
            lemma_first_reaching(h, low);
        }
    }
}

/// When some value reaches `rank`, the first one that does is chosen.
proof fn lemma_first_reaching(h: Seq<u64>, rank: int)
    requires
        exists|v: int| 0 <= v < 256 && cumulative(h, v) >= rank,
    ensures
        exists|v: int| 0 <= v < 256 && cumulative(h, v) >= rank && forall|u: int| 0 <= u < v ==> cumulative(h, u) < rank,
        0 <= value_at_rank_spec(h, rank) < 256,
        cumulative(h, value_at_rank_spec(h, rank)) >= rank,
        forall|u: int| 0 <= u < value_at_rank_spec(h, rank) ==> cumulative(h, u) < rank,
{
    let w = choose|v: int| 0 <= v < 256 && cumulative(h, v) >= rank;
    lemma_first_below(h, rank, w);
}

proof fn lemma_first_below(h: Seq<u64>, rank: int, w: int)
    requires
        0 <= w < 256,
        cumulative(h, w) >= rank,
    ensures
        exists|v: int| 0 <= v < 256 && cumulative(h, v) >= rank && forall|u: int| 0 <= u < v ==> cumulative(h, u) < rank,
    decreases w,
{
    if forall|u: int| 0 <= u < w ==> cumulative(h, u) < rank {
    } else {
        let u = choose|u: int| 0 <= u < w && !(cumulative(h, u) < rank);
        lemma_first_below(h, rank, u);
    }
}

} // verus!
