//! Sample planes: bars, signatures, block distances and masks.

use av_scenechange::active::{detect_active_region, ActiveRegion, IMPORTANCE_BLOCK_SIZE};
use av_scenechange::blocks::{
    block_region_index, mark_cached_top_blocks, mark_top_blocks, mark_top_blocks_spatially_capped,
    BlockGrid, BlockShare,
};
use av_scenechange::detector::segments::{
    bound_counts, forward_segment_similarity_delta_8bit, segment_pairs, settled_by_bound, settled_by_luma, transient_frames,
    two_sided_masked_similarity, FramePair, GuardedBound, TransientFrames,
};
use av_scenechange::masking::{unmasked_blocks, MaskCounts};
use av_scenechange::measure::Measure;
use av_scenechange::options::{ForwardSimilarityOptions, TransientSimilarityOptions};
use av_scenechange::picture::{frame_luma_signature_8bit, sampled_cell_position, LumaPlane};
use av_scenechange::prefilter::{
    block_bounds, block_distances, build_forward_prefilter_signature, plane_distance,
    ForwardPrefilterSignature,
};

const SAMPLES_PER_BLOCK: f64 = 64.0;
const ROUNDING_GUARD_8BIT: f64 = 1e-6;

fn num(value: f64) -> Measure {
    Measure { bits: value.to_bits() }
}

fn value(measure: Measure) -> f64 {
    f64::from_bits(measure.bits)
}

fn sums(cols: usize, rows: usize, fill: u64, bar_rows: usize) -> Vec<u64> {
    let block_pixels = (IMPORTANCE_BLOCK_SIZE * IMPORTANCE_BLOCK_SIZE) as u64;
    let mut v = vec![fill * block_pixels; cols * rows];
    for y in (0..bar_rows).chain(rows - bar_rows..rows) {
        for x in 0..cols {
            v[y * cols + x] = 16 * block_pixels;
        }
    }
    v
}

#[test]
fn no_bars_detects_full() {
    let s = sums(16, 9, 60, 0);
    let region = detect_active_region(&s, &s, 16, 9, 8);
    assert!(region.is_full());
    let (part, whole) = region.fraction();
    assert!((part as f64 / whole as f64 - 1.0).abs() < f64::EPSILON);
}

#[test]
fn letterbox_stripped_both_sides() {
    let s = sums(16, 10, 60, 2);
    let region = detect_active_region(&s, &s, 16, 10, 8);
    assert_eq!((region.top, region.bottom), (2, 8));
    assert_eq!((region.left, region.right), (0, 16));
    assert_eq!(region.count(), 16 * 6);
}

#[test]
fn bar_only_in_one_frame_is_not_stripped() {
    let bared = sums(16, 10, 60, 2);
    let clean = sums(16, 10, 60, 0);
    let region = detect_active_region(&bared, &clean, 16, 10, 8);
    assert!(region.is_full());
}

#[test]
fn near_black_frame_falls_back_to_full() {
    let s = sums(16, 10, 60, 5);
    let region = detect_active_region(&s, &s, 16, 10, 8);
    assert!(region.is_full());
}

#[test]
fn high_bit_depth_scales_black_level() {
    let block_pixels = (IMPORTANCE_BLOCK_SIZE * IMPORTANCE_BLOCK_SIZE) as u64;
    let mut s = vec![240u64 * block_pixels; 16 * 10];
    for y in [0usize, 1, 8, 9] {
        for x in 0..16 {
            s[y * 16 + x] = 64 * block_pixels; // 10-bit limited black
        }
    }
    let region = detect_active_region(&s, &s, 16, 10, 10);
    assert_eq!((region.top, region.bottom), (2, 8));
}

#[test]
fn indices_are_row_major_within_region() {
    let s = sums(4, 4, 60, 1);
    let region = detect_active_region(&s, &s, 4, 4, 8);
    assert_eq!((region.top, region.bottom), (1, 3));
    let idx: Vec<usize> = region.indices();
    assert_eq!(idx, vec![4, 5, 6, 7, 8, 9, 10, 11]);
}

#[test]
fn pillars_are_stripped_and_bars_do_not_depend_on_order() {
    let block_pixels = (IMPORTANCE_BLOCK_SIZE * IMPORTANCE_BLOCK_SIZE) as u64;
    let mut s = sums(10, 10, 60, 0);
    for y in 0..10 {
        s[y * 10] = 16 * block_pixels;
        s[y * 10 + 9] = 16 * block_pixels;
    }
    let mut other = s.clone();
    other[45] = 200 * block_pixels;
    let region = detect_active_region(&s, &other, 10, 10, 8);
    assert_eq!((region.left, region.right), (1, 9));
    assert_eq!(region.fraction(), (80, 100));
    assert_eq!(detect_active_region(&other, &s, 10, 10, 8), region);
    assert_eq!(ActiveRegion::full(0, 0).fraction(), (1, 1));
    // At the highest depths the black level is above every sum, then runs out of bits.
    assert!(detect_active_region(&s, &other, 10, 10, 61).is_full());
    let bright = vec![u64::MAX; 100];
    assert_eq!(
        detect_active_region(&s, &bright, 10, 10, 71),
        detect_active_region(&bright, &s, 10, 10, 71)
    );
    // Without blocks there are no bars, whatever the depth.
    assert_eq!(detect_active_region(&[], &[], 0, 7, 3), ActiveRegion::full(0, 7));
}

/// A picture in 4:2:0 format.
struct Picture {
    luma: LumaPlane,
    chroma: LumaPlane,
}

fn plane(width: usize, height: usize, sample: impl Fn(usize, usize) -> i32) -> LumaPlane {
    // A border of one sample, so that origin and stride matter.
    let stride = width + 2;
    let mut data = vec![9999u16; stride * (height + 2)];
    let origin = stride + 1;
    for y in 0..height {
        for x in 0..width {
            data[origin + y * stride + x] = sample(y, x) as u16;
        }
    }
    let made = LumaPlane { width, height, stride, origin, data };
    assert!(made.is_sound());
    made
}

fn yuv420_frame(
    width: usize,
    height: usize,
    luma: impl Fn(usize, usize) -> i32,
    chroma: impl Fn(usize, usize) -> i32,
) -> Picture {
    Picture {
        luma: plane(width, height, luma),
        chroma: plane(width / 2, height / 2, chroma),
    }
}

fn sample_range_scale(bit_depth: usize) -> f64 {
    (2.0_f64.powi(bit_depth as i32) - 1.0) / 255.0
}

fn plane_delta_8bit(left: &LumaPlane, right: &LumaPlane, bit_depth: usize) -> f64 {
    let (distance, pixels) = plane_distance(left, right);
    distance as f64 / pixels as f64 / sample_range_scale(bit_depth)
}

fn kept_mean(distances: &[u32], kept: &[bool], bit_depth: usize) -> f64 {
    let scale = sample_range_scale(bit_depth);
    let mut total = 0.0;
    let mut count = 0usize;
    for (distance, keep) in distances.iter().zip(kept) {
        if *keep {
            total += f64::from(*distance) / SAMPLES_PER_BLOCK / scale;
            count += 1;
        }
    }
    total / count as f64
}

fn masked_luma_delta_8bit(
    left: &LumaPlane,
    right: &LumaPlane,
    bit_depth: usize,
    mask_percent: f64,
    region_cols: usize,
    region_rows: usize,
) -> f64 {
    let cols = left.width.min(right.width) / 32;
    let rows = left.height.min(right.height) / 32;
    if cols == 0 || rows == 0 {
        return plane_delta_8bit(left, right, bit_depth);
    }
    let distances = block_distances(left, right);
    let blocks = distances.len() as f64;
    let percent = mask_percent.clamp(0.0, 0.95);
    let counts = MaskCounts {
        keep: ((blocks * (1.0 - percent)).ceil() as usize).max(1).min(distances.len()),
        mask: ((blocks * percent).ceil() as usize).min(distances.len() - 1),
    };
    let grid = BlockGrid { cols, rows, region_cols, region_rows };
    kept_mean(&distances, &unmasked_blocks(&distances, counts, &grid), bit_depth)
}

fn prefilter_bound(
    reference: &ForwardPrefilterSignature,
    post: &ForwardPrefilterSignature,
    bit_depth: usize,
    mask_percent: f64,
) -> Option<f64> {
    let bounds = block_bounds(reference, post)?;
    let percent = mask_percent.clamp(0.0, 0.95);
    let masked = (bounds.len() as f64 * percent).ceil() as usize;
    let counts = bound_counts(masked, bounds.len());
    let grid = BlockGrid {
        cols: reference.cols.min(post.cols),
        rows: reference.rows.min(post.rows),
        region_cols: 1,
        region_rows: 1,
    };
    Some(kept_mean(&bounds, &unmasked_blocks(&bounds, counts, &grid), bit_depth))
}

fn forward_test_options() -> ForwardSimilarityOptions {
    ForwardSimilarityOptions {
        enabled: true,
        frames: 80,
        window_frames: 3,
        min_offset: 4,
        threshold_8bit: num(6.0),
        relaxed_threshold_8bit: num(8.5),
        mask_percent: num(0.20),
        mask_region_cols: 8,
        mask_region_rows: 4,
        chroma_weight: num(0.25),
        ..ForwardSimilarityOptions::default()
    }
}

fn exact_delta_8bit(
    left: &Picture,
    right: &Picture,
    options: &ForwardSimilarityOptions,
) -> (f64, f64) {
    let luma = masked_luma_delta_8bit(
        &left.luma,
        &right.luma,
        8,
        value(options.mask_percent),
        options.mask_region_cols,
        options.mask_region_rows,
    );
    let chroma =
        plane_delta_8bit(&left.chroma, &right.chroma, 8) * value(options.chroma_weight);
    (luma, chroma)
}

/// The delta of a segment of one pair, by the stages that settle it.
fn segment_delta_8bit(
    left: &Picture,
    right: &Picture,
    options: &ForwardSimilarityOptions,
    confirmation: f64,
    with_signatures: bool,
) -> f64 {
    let pairs = segment_pairs(1, 0, 0);
    assert_eq!(pairs, vec![FramePair { reference: 0, later: 0 }]);
    let mut guarded = None;
    if with_signatures {
        let bound = prefilter_bound(
            &build_forward_prefilter_signature(&left.luma),
            &build_forward_prefilter_signature(&right.luma),
            8,
            value(options.mask_percent),
        );
        guarded = bound.map(|bound| GuardedBound {
            bound: num(bound),
            guarded: num(bound - ROUNDING_GUARD_8BIT),
        });
    }
    let (luma, chroma) = exact_delta_8bit(left, right, options);
    value(forward_segment_similarity_delta_8bit(
        guarded,
        num(luma),
        num(luma + chroma),
        num(confirmation),
    ))
}

#[test]
fn forward_segment_uses_exact_masked_metric_not_full_sad() {
    let (w, h) = (96, 64);
    let options = forward_test_options();
    let f1 = yuv420_frame(w, h, |_, _| 0, |_, _| 128);
    // Lattice points (y%4==0 && x%4==0) stay 0; everything else jumps to 255.
    let f2 = yuv420_frame(
        w,
        h,
        |y, x| if y % 4 == 0 && x % 4 == 0 { 0 } else { 255 },
        |_, _| 128,
    );
    let masked = masked_luma_delta_8bit(&f1.luma, &f2.luma, 8, value(options.mask_percent), 8, 4);
    let full = plane_delta_8bit(&f1.luma, &f2.luma, 8);
    assert!(masked < 1.0, "masked metric should see a near-identical pair");
    assert!(full > 200.0, "full SAD should see a very different pair");
    // The segment delta must follow the masked metric (accept), not the SAD.
    let got = segment_delta_8bit(&f1, &f2, &options, 8.5, false);
    assert!(
        got < 1.0,
        "segment delta must track the exact masked metric, got {got}"
    );
}

#[test]
fn forward_segment_matches_always_exact_reference() {
    let (w, h) = (96, 64);
    let options = forward_test_options();
    let pairs = [
        // identical luma + chroma
        (
            yuv420_frame(w, h, |_, _| 100, |_, _| 128),
            yuv420_frame(w, h, |_, _| 100, |_, _| 128),
        ),
        // shifted gradient (small-ish luma + chroma change)
        (
            yuv420_frame(w, h, |y, x| ((y + x) % 256) as i32, |_, _| 128),
            yuv420_frame(w, h, |y, x| ((y + x + 30) % 256) as i32, |_, _| 150),
        ),
        // lattice-identical luma, huge off-lattice change (masked ~0)
        (
            yuv420_frame(w, h, |_, _| 0, |_, _| 128),
            yuv420_frame(
                w,
                h,
                |y, x| if y % 4 == 0 && x % 4 == 0 { 0 } else { 255 },
                |_, _| 128,
            ),
        ),
        // chroma-only difference (identical luma -> luma prefilter must not skip)
        (
            yuv420_frame(w, h, |_, _| 80, |_, _| 100),
            yuv420_frame(w, h, |_, _| 80, |_, _| 200),
        ),
        // large luma difference (rejected high above threshold)
        (
            yuv420_frame(w, h, |_, _| 10, |_, _| 128),
            yuv420_frame(w, h, |_, _| 240, |_, _| 128),
        ),
    ];
    for &confirmation in &[6.0_f64, 8.5, 50.0] {
        for (f1, f2) in &pairs {
            let got = segment_delta_8bit(f1, f2, &options, confirmation, false);
            let (exact_luma, exact_chroma) = exact_delta_8bit(f1, f2, &options);
            let exact = exact_luma + exact_chroma;
            if got <= confirmation {
                assert_eq!(
                    got.to_bits(),
                    exact.to_bits(),
                    "consumable delta must be bit-exact (conf {confirmation})"
                );
            } else {
                assert!(
                    exact > confirmation,
                    "a delta reported above {confirmation} must be exactly above it (exact {exact})"
                );
            }
        }
    }
}

/// The bound from the block sums is never above the exact masked metric, across bit
/// depths, dimensions, masks, regions and patterns.
fn check_prefilter_lower_bound(bit_depth: usize) {
    let max = (1i32 << bit_depth) - 1;
    let half = max / 2;
    let quarter = max / 4;
    let dims = [(64usize, 64usize), (96, 64), (100, 70)];
    let masks = [0.01f64, 0.20, 0.95];
    let regions = [(1usize, 1usize), (8usize, 4usize)];
    for &(w, h) in &dims {
        let cases: Vec<(&str, LumaPlane, LumaPlane)> = vec![
            ("identical", plane(w, h, |_, _| half), plane(w, h, |_, _| half)),
            ("uniform_max", plane(w, h, |_, _| 0), plane(w, h, |_, _| max)),
            (
                "gradient",
                plane(w, h, |_, _| 0),
                plane(w, h, |y, x| (((y + x) as i32) * 7) % (max + 1)),
            ),
            (
                "checker",
                plane(w, h, |_, _| 0),
                plane(w, h, |y, x| if (x / 4 + y / 4) % 2 == 0 { 0 } else { max }),
            ),
            (
                "lattice_identical",
                plane(w, h, |_, _| 0),
                plane(w, h, |y, x| if y % 4 == 0 && x % 4 == 0 { 0 } else { max }),
            ),
            (
                "sign_cancel",
                plane(w, h, |_, _| half),
                plane(w, h, |y, x| {
                    if (x / 4 + y / 4) % 2 == 0 {
                        (half + quarter).min(max)
                    } else {
                        (half - quarter).max(0)
                    }
                }),
            ),
        ];
        for (name, f1, f2) in &cases {
            for &mask in &masks {
                for &(rc, rr) in &regions {
                    let bound = prefilter_bound(
                        &build_forward_prefilter_signature(f1),
                        &build_forward_prefilter_signature(f2),
                        bit_depth,
                        mask,
                    )
                    .expect("full block grid present");
                    let exact = masked_luma_delta_8bit(f1, f2, bit_depth, mask, rc, rr);
                    assert!(
                        bound <= exact + 1e-9,
                        "{name} {w}x{h} bd{bit_depth} mask {mask} region {rc}x{rr}: \
                         bound {bound} exceeded exact {exact}"
                    );
                }
            }
        }
    }
}

#[test]
fn forward_prefilter_bound_is_below_exact_masked_luma() {
    check_prefilter_lower_bound(8);
    check_prefilter_lower_bound(10);
}

#[test]
fn forward_prefilter_preserves_consumable_deltas() {
    let (w, h) = (96, 64);
    let options = forward_test_options();
    let pairs = [
        (
            yuv420_frame(w, h, |_, _| 100, |_, _| 128),
            yuv420_frame(w, h, |_, _| 100, |_, _| 128),
        ),
        (
            yuv420_frame(w, h, |_, _| 80, |_, _| 100),
            yuv420_frame(w, h, |_, _| 80, |_, _| 200),
        ),
        (
            yuv420_frame(w, h, |_, _| 10, |_, _| 128),
            yuv420_frame(w, h, |_, _| 240, |_, _| 128),
        ),
        (
            yuv420_frame(w, h, |y, x| ((y + x) % 256) as i32, |_, _| 128),
            yuv420_frame(w, h, |y, x| ((y + x + 14) % 256) as i32, |_, _| 150),
        ),
    ];
    for &confirmation in &[6.0_f64, 8.5, 50.0] {
        for (f1, f2) in &pairs {
            let got_without = segment_delta_8bit(f1, f2, &options, confirmation, false);
            let got_with = segment_delta_8bit(f1, f2, &options, confirmation, true);
            if got_without <= confirmation {
                assert_eq!(
                    got_without.to_bits(),
                    got_with.to_bits(),
                    "prefilter changed a consumable delta (conf {confirmation})"
                );
            } else {
                assert!(
                    got_with > confirmation,
                    "prefilter reported a consumable value for a rejected pair"
                );
            }
        }
    }
}

#[test]
fn signatures_average_each_cell() {
    let flat = plane(64, 32, |_, _| 77);
    assert_eq!(frame_luma_signature_8bit(&flat, 8), [77; 32]);
    let halves = plane(64, 32, |_, x| if x < 32 { 0 } else { 1023 });
    let signature = frame_luma_signature_8bit(&halves, 10);
    for (cell, level) in signature.iter().enumerate() {
        assert_eq!(*level, if cell % 8 < 4 { 0 } else { 255 });
    }
    assert_eq!(sampled_cell_position(8, 16, 64, 0, 4), 9);
    assert_eq!(sampled_cell_position(8, 16, 64, 3, 4), 15);
    assert_eq!(sampled_cell_position(8, 8, 8, 3, 4), 7);
    // Any number of samples, in order and within the stretch.
    let places: Vec<usize> =
        (0..1000).map(|sample| sampled_cell_position(5, 17, 20, sample, 1000)).collect();
    assert!(places.windows(2).all(|pair| pair[0] <= pair[1]));
    assert_eq!((places[0], places[999]), (5, 16));
    assert_eq!(sampled_cell_position(0, usize::MAX / 4, usize::MAX, 1, 2), 3 * (usize::MAX / 4) / 4);
}

#[test]
fn block_sums_tell_quarters_apart() {
    let left = plane(32, 32, |_, _| 0);
    let right = plane(32, 32, |y, x| if y < 16 && x >= 16 { 3 } else { 0 });
    let a = build_forward_prefilter_signature(&left);
    let b = build_forward_prefilter_signature(&right);
    assert_eq!((b.cols, b.rows), (1, 1));
    assert_eq!(b.sub_sums, vec![[0, 48, 0, 0]]);
    assert_eq!(block_bounds(&a, &b), Some(vec![48]));
    assert_eq!(block_distances(&left, &right), vec![48]);
    let small = build_forward_prefilter_signature(&plane(31, 40, |_, _| 5));
    assert_eq!(block_bounds(&a, &small), None);
    assert_eq!(plane_distance(&left, &right), (16 * 16 * 3, 1024));
}

#[test]
fn masks_keep_the_closest_blocks() {
    let distances: Vec<u32> = vec![90, 10, 50, 30];
    let whole = BlockGrid { cols: 4, rows: 1, region_cols: 1, region_rows: 1 };
    assert_eq!(
        unmasked_blocks(&distances, MaskCounts { keep: 2, mask: 2 }, &whole),
        vec![false, true, false, true]
    );
    assert_eq!(
        unmasked_blocks(&distances, MaskCounts { keep: 4, mask: 2 }, &whole),
        vec![true; 4]
    );
    // One block of each half can be masked.
    let halves = BlockGrid { cols: 4, rows: 1, region_cols: 2, region_rows: 1 };
    let close: Vec<u32> = vec![90, 80, 50, 30];
    assert_eq!(
        unmasked_blocks(&close, MaskCounts { keep: 2, mask: 2 }, &halves),
        vec![false, true, false, true]
    );
    assert_eq!(bound_counts(1, 4).keep, 3);
    assert_eq!(bound_counts(9, 4).keep, 1);
}

#[test]
fn top_blocks_are_marked() {
    let source: Vec<Measure> = [1.0, 9.0, 4.0, 8.0].iter().map(|v| num(*v)).collect();
    let share = BlockShare { percent: num(0.5), blocks: 2 };
    let mut selected = vec![false, false, true, false];
    mark_top_blocks(&source, share, &mut selected);
    assert_eq!(selected, vec![false, true, true, true]);

    let nothing = BlockShare { percent: num(0.0), blocks: 0 };
    let mut untouched = vec![false; 4];
    mark_top_blocks(&source, nothing, &mut untouched);
    assert_eq!(untouched, vec![false; 4]);

    // One block of each half.
    let grid = BlockGrid { cols: 4, rows: 1, region_cols: 2, region_rows: 1 };
    let uneven: Vec<Measure> = [1.0, 2.0, 7.0, 8.0].iter().map(|v| num(*v)).collect();
    let mut capped = vec![false; 4];
    mark_top_blocks_spatially_capped(&uneven, share, &grid, &mut capped);
    assert_eq!(capped, vec![false, true, false, true]);

    let mut joined = vec![true, false, false];
    mark_cached_top_blocks(&[false, true], &mut joined);
    assert_eq!(joined, vec![true, true, false]);

    let wide = BlockGrid { cols: 10, rows: 4, region_cols: 5, region_rows: 2 };
    assert_eq!(block_region_index(0, &wide), 0);
    assert_eq!(block_region_index(9, &wide), 4);
    assert_eq!(block_region_index(39, &wide), 9);
}

#[test]
fn transient_comparison_takes_the_closest_pair() {
    let options = TransientSimilarityOptions {
        enabled: true,
        frames: 3,
        ..TransientSimilarityOptions::default()
    };
    assert_eq!(
        transient_frames(&options, 5, 9),
        Some(TransientFrames { pre_start: 2, post_count: 3 })
    );
    assert_eq!(
        transient_frames(&options, 2, 3),
        Some(TransientFrames { pre_start: 0, post_count: 2 })
    );
    assert_eq!(transient_frames(&options, 0, 9), None);
    assert_eq!(transient_frames(&options, 5, 1), None);
    let off = TransientSimilarityOptions { enabled: false, ..options };
    assert_eq!(transient_frames(&off, 5, 9), None);

    let deltas = [num(4.0), num(f64::NAN), num(2.5), num(3.0)];
    assert_eq!(value(two_sided_masked_similarity(&deltas)), 2.5);
    assert_eq!(value(two_sided_masked_similarity(&[])), f64::MAX);
}

#[test]
fn settled_deltas_are_above_the_threshold() {
    let bound = GuardedBound { bound: num(9.0), guarded: num(9.0 - ROUNDING_GUARD_8BIT) };
    assert_eq!(settled_by_bound(Some(bound), num(8.5)), Some(num(9.0)));
    assert_eq!(settled_by_bound(Some(bound), num(9.0)), None);
    assert_eq!(settled_by_bound(None, num(1.0)), None);
    assert_eq!(settled_by_luma(num(8.6), num(8.5)), Some(num(8.6)));
    assert_eq!(settled_by_luma(num(8.5), num(8.5)), None);
    assert_eq!(
        segment_pairs(3, 4, 5),
        vec![FramePair { reference: 1, later: 4 }, FramePair { reference: 2, later: 5 }]
    );
}
