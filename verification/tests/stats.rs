use photo::stats::{
    channel_histograms, coarse_bins, compare_counts, histogram_value_sum, value_at_rank, value_histogram,
    COMPARE_DIFF_TOLERANCE,
};

fn solid_rgba(r: u8, g: u8, b: u8, count: usize) -> Vec<u8> {
    [r, g, b, 255].repeat(count)
}

fn rank(percentile: f64, total: u64) -> u64 {
    ((percentile / 100.0) * total as f64).ceil().max(1.0) as u64
}

#[test]
fn histograms_count_each_channel() {
    let mut pixels = solid_rgba(0, 0, 0, 10);
    pixels.extend_from_slice(&solid_rgba(128, 128, 128, 90));
    let h = channel_histograms(&pixels, 10, 10).unwrap();
    assert_eq!(h.b[0], 10);
    assert_eq!(h.b[128], 90);
    assert_eq!(h.b[255], 0);
    assert_eq!(h.r.iter().sum::<u64>(), 100);
    assert_eq!(value_at_rank(&h.b, 1), 0);
    assert_eq!(value_at_rank(&h.b, 100), 128);
}

#[test]
fn ramp_percentiles_are_exact() {
    let mut pixels = Vec::with_capacity(256 * 4);
    for value in 0..=255u8 {
        pixels.extend_from_slice(&[value, 0, 0, 255]);
    }
    let h = channel_histograms(&pixels, 16, 16).unwrap();
    assert_eq!(value_at_rank(&h.r, rank(0.0, 256)), 0);
    assert_eq!(value_at_rank(&h.r, rank(1.0, 256)), 2);
    assert_eq!(value_at_rank(&h.r, rank(5.0, 256)), 12);
    assert_eq!(value_at_rank(&h.r, rank(50.0, 256)), 127);
    assert_eq!(value_at_rank(&h.r, rank(95.0, 256)), 243);
    assert_eq!(value_at_rank(&h.r, rank(99.0, 256)), 253);
    assert_eq!(value_at_rank(&h.r, rank(100.0, 256)), 255);
    assert_eq!(histogram_value_sum(&h.r), 255 * 256 / 2);
    assert_eq!(value_at_rank(&h.r, 1000), 255);
}

#[test]
fn bad_buffers_are_refused() {
    assert_eq!(
        channel_histograms(&[0, 0, 0], 1, 1).err().unwrap(),
        "pixel buffer length 3 does not match 1x1 RGBA (4)"
    );
    assert_eq!(channel_histograms(&[], 0, 0).err().unwrap(), "image has zero dimensions");
}

#[test]
fn luma_bins_fold_four_values() {
    let mut values = vec![0u8; 3];
    values.extend_from_slice(&[255u8; 5]);
    values.push(6);
    let h = value_histogram(&values);
    assert_eq!(h[0], 3);
    assert_eq!(h[255], 5);
    let bins = coarse_bins(&h);
    assert_eq!(bins.len(), 64);
    assert_eq!(bins[0], 3);
    assert_eq!(bins[1], 1);
    assert_eq!(bins[63], 5);
    assert_eq!(bins.iter().sum::<u64>(), 9);
}

#[test]
fn identical_images_have_no_difference() {
    let a = solid_rgba(10, 20, 30, 16);
    let counts = compare_counts(&a, 4, 4, &a, 4, 4).unwrap();
    assert_eq!(counts.abs_diff_sum, (0, 0, 0));
    assert_eq!(counts.max_abs_diff, (0, 0, 0));
    assert_eq!(counts.differing, 0);
    assert_eq!(counts.pixels, 16);
}

#[test]
fn a_single_changed_pixel_is_found() {
    let a = solid_rgba(10, 20, 30, 16);
    let mut b = a.clone();
    b[4 * 7 + 1] = 25;
    let counts = compare_counts(&a, 4, 4, &b, 4, 4).unwrap();
    assert_eq!(counts.max_abs_diff, (0, 5, 0));
    assert_eq!(counts.abs_diff_sum, (0, 5, 0));
    assert_eq!(counts.differing, 1);
}

#[test]
fn jitter_within_tolerance_does_not_count() {
    let a = solid_rgba(10, 20, 30, 16);
    let mut b = a.clone();
    for pixel in b.chunks_exact_mut(4) {
        pixel[0] += COMPARE_DIFF_TOLERANCE;
    }
    let counts = compare_counts(&a, 4, 4, &b, 4, 4).unwrap();
    assert_eq!(counts.differing, 0);
    assert_eq!(counts.max_abs_diff.0, COMPARE_DIFF_TOLERANCE);
    assert_eq!(counts.abs_diff_sum.0, 32);
}

#[test]
fn comparisons_need_matching_buffers() {
    let a = solid_rgba(0, 0, 0, 16);
    let b = solid_rgba(0, 0, 0, 4);
    assert_eq!(compare_counts(&a, 4, 4, &b, 2, 2).err().unwrap(), "image dimensions differ: 4x4 vs 2x2");
    assert_eq!(
        compare_counts(&a, 4, 4, &b, 4, 4).err().unwrap(),
        "pixel buffer length does not match dimensions"
    );
    assert_eq!(compare_counts(&[], 0, 3, &[], 0, 3).err().unwrap(), "image has zero dimensions");
}
