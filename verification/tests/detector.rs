//! The detector: windows, importance, verdicts and returning scenes.

use av_scenechange::active::ActiveRegion;
use av_scenechange::blocks::{
    mark_top_blocks, mark_top_blocks_spatially_capped, BlockGrid, BlockShare,
};
use av_scenechange::detector::analysis::ScenecutAnalysis;
use av_scenechange::detector::compare::{adjusted_peak_cost, CostDifferences, ImportanceShares};
use av_scenechange::detector::cost::{
    active_crop, active_intra_cost, active_rect, active_signature, cost_scenecut, CostBlocks,
    CostEstimates, CostThresholds, MatchingBlocks, SampleRect, StructureEstimates,
};
use av_scenechange::detector::frame::OpenVerdict;
use av_scenechange::detector::search::{
    forward_similarity_post_start_offset, record_forward_similarity_candidate, ForwardSearch,
    ReferenceFrames,
};
use av_scenechange::detector::segments::confirmation_threshold;
use av_scenechange::detector::state::{fast_idiv, FramePlan, SceneChangeDetector};
use av_scenechange::detector::verdict::{judge_transient, RelaxedRatios, Verdict};
use av_scenechange::measure::Measure;
use av_scenechange::options::{
    DetectionOptions, DetectionTuning, ForwardSimilarityOptions, ImportanceAggregation,
    SceneDetectionSpeed,
};
use av_scenechange::picture::{frame_luma_signature_8bit, LumaPlane};
use av_scenechange::score::{
    ForwardSimilarityCandidate, ForwardSimilarityCandidateDecision, RatioQuotients,
    ScenecutDecision, ScenecutResult,
};
use av_scenechange::video::{ChromaSampling, Fraction, VideoDetails};

fn num(value: f64) -> Measure {
    Measure { bits: value.to_bits() }
}

fn value(measure: Measure) -> f64 {
    f64::from_bits(measure.bits)
}

fn detector_with(
    mode: SceneDetectionSpeed,
    tuning: DetectionTuning,
    lookahead: usize,
    min: usize,
    max: usize,
) -> SceneChangeDetector {
    SceneChangeDetector::new(
        (256, 128),
        8,
        Fraction { numer: 30, denom: 1 },
        ChromaSampling::Yuv420,
        lookahead,
        mode,
        tuning,
        min,
        max,
        1,
        num(18.0),
    )
}

fn quotients(
    result: &ScenecutResult,
    imp_block_cost: f64,
    global_imp_block_cost: f64,
    imp_block_threshold: f64,
) -> RatioQuotients {
    let threshold = value(result.threshold);
    let cost = value(result.forward_adjusted_cost) / threshold;
    let imp_block = imp_block_cost / imp_block_threshold;
    let global_imp_block = global_imp_block_cost / imp_block_threshold;
    RatioQuotients {
        cost: num(cost),
        motion_cost: num(value(result.motion_forward_adjusted_cost) / threshold),
        imp_block: num(imp_block),
        global_imp_block: num(global_imp_block),
        return_cost_ceiling: num(cost * 4.0),
        refined_peak_rank: num(cost + 0.05 * imp_block + 0.03 * global_imp_block),
        shift_margin_floor: num(global_imp_block + 1.0),
    }
}

fn shares_of(tuning: &DetectionTuning, blocks: usize) -> ImportanceShares {
    let share = |percent: Measure| BlockShare {
        percent,
        blocks: (blocks as f64 * value(percent)).ceil() as usize,
    };
    match tuning.importance_aggregation {
        ImportanceAggregation::Mean => {
            let none = BlockShare { percent: num(0.0), blocks: 0 };
            ImportanceShares { previous: none, current: none, next: none }
        }
        ImportanceAggregation::TemporalTopBlocks {
            previous_percent,
            current_percent,
            next_percent,
        }
        | ImportanceAggregation::SpatialTemporalTopBlocks {
            previous_percent,
            current_percent,
            next_percent,
            ..
        } => ImportanceShares {
            previous: share(previous_percent),
            current: share(current_percent),
            next: share(next_percent),
        },
    }
}

fn relaxed_ratios(detector: &SceneChangeDetector) -> Vec<RelaxedRatios> {
    let base = detector.tuning.importance_cut_relaxed_ratio.map_or(0.0, value);
    detector
        .score_deque
        .iter()
        .map(|_| RelaxedRatios {
            ratio: num(base),
            raised: num(base + 0.35),
            lowered: num(base * 0.75),
        })
        .collect()
}

/// Puts a comparison into the window of a detector.
fn compare(detector: &mut SceneChangeDetector, mut analysis: ScenecutAnalysis, frame: usize) {
    let held = detector.deque_offset.min(detector.score_deque.len());
    let cost = value(analysis.result.inter_cost);
    let motion = value(analysis.result.motion_inter_cost);
    let costs: Vec<(f64, f64)> = detector
        .score_deque
        .iter()
        .take(held)
        .map(|other| (value(other.result.inter_cost), value(other.result.motion_inter_cost)))
        .collect();
    let differences = CostDifferences {
        above: costs.iter().map(|other| num(cost - other.0)).collect(),
        below: costs.iter().map(|other| num(other.0 - cost)).collect(),
        motion_above: costs.iter().map(|other| num(motion - other.1)).collect(),
        motion_below: costs.iter().map(|other| num(other.1 - motion)).collect(),
    };
    let changed = detector.adjust_costs(&mut analysis, &differences, frame);
    let renewed: Vec<RatioQuotients> = detector.score_deque[..changed]
        .iter()
        .map(|entry| {
            quotients(
                &entry.result,
                value(entry.result.imp_block_cost),
                value(entry.result.global_imp_block_cost),
                value(entry.result.imp_block_threshold),
            )
        })
        .collect();
    let shares = shares_of(&detector.tuning, analysis.importance_blocks.len());
    detector.finish_comparison(analysis, &renewed, &shares);
}

fn selected_mean(blocks: &[Measure], selected: &[bool]) -> Option<f64> {
    let chosen: Vec<f64> = blocks
        .iter()
        .zip(selected)
        .filter(|(_, is_selected)| **is_selected)
        .map(|(block, _)| value(*block))
        .collect();
    if chosen.is_empty() {
        return None;
    }
    let mut total = 0.0;
    for block in &chosen {
        total += block;
    }
    Some(total / chosen.len() as f64)
}

/// Brings the importance of every frame of the window up to date.
fn refresh(detector: &mut SceneChangeDetector) {
    for index in 0..detector.score_deque.len() {
        let Some(neighbors) = detector.stale_importance(index) else {
            continue;
        };
        let entry = &detector.score_deque[index];
        let shares = shares_of(&detector.tuning, entry.importance_blocks.len());
        let (global_rule, spatial_rule) = detector.importance_rules(&shares);
        let mean = |rule: Option<_>| {
            let selected = detector.selected_blocks(index, &rule?)?;
            selected_mean(&entry.importance_blocks, &selected)
        };
        let (global, spatial) = (mean(global_rule), mean(spatial_rule));
        let result = entry.result;
        let raw = value(result.imp_block_cost_raw);
        let threshold = value(result.imp_block_threshold);
        let global_cost = global.unwrap_or(raw);
        let renewed =
            quotients(&result, spatial.unwrap_or(global_cost), global_cost, threshold);
        detector.refresh_importance_metrics(
            index,
            neighbors,
            global.map(num),
            spatial.map(num),
            num(threshold),
            &renewed,
        );
    }
}

/// Takes a detector through one frame, up to where the frame can be judged.
fn advance(
    detector: &mut SceneChangeDetector,
    frames: usize,
    frame: usize,
    distance: usize,
    comparison: &dyn Fn(usize) -> ScenecutAnalysis,
) {
    let FramePlan::Compare { initial, offset } = detector.plan_frame(frames, distance) else {
        panic!("the frame is compared");
    };
    for pair in 0..initial {
        compare(detector, comparison(frame + pair), frame + pair);
    }
    if let Some(pair) = detector.move_on(frames, offset) {
        compare(detector, comparison(frame + pair), frame + pair);
    }
    assert!(detector.deque_offset < detector.score_deque.len());
    refresh(detector);
}

fn record(cost: f64, importance: f64) -> ScenecutResult {
    ScenecutResult::new(
        num(cost),
        num(importance),
        num(7.0),
        num(10.0),
        num(50.0),
        num(importance / 7.0),
    )
}

/// A comparison with one cost and one importance.
fn plain(cost: f64, importance: f64) -> ScenecutAnalysis {
    ScenecutAnalysis::from_result(record(cost, importance))
}

#[test]
fn high_importance_refresh_matches_bruteforce() {
    // The score of one entry from scratch: always ranked anew, without masks that were
    // carried along and without a memo.
    fn top_score(
        deque: &[ScenecutAnalysis],
        index: usize,
        capped: bool,
        previous_percent: f64,
        current_percent: f64,
        next_percent: f64,
        region_cols: usize,
        region_rows: usize,
    ) -> Option<f64> {
        let current = deque.get(index)?;
        let block_count = current.importance_blocks.len();
        if block_count == 0 {
            return None;
        }
        if capped && (current.importance_cols == 0 || current.importance_rows == 0) {
            return None;
        }
        let mut selected = vec![false; block_count];
        let grid = BlockGrid {
            cols: current.importance_cols,
            rows: current.importance_rows,
            region_cols,
            region_rows,
        };
        let mark = |src: &[Measure], percent: f64, sel: &mut Vec<bool>| {
            let share = BlockShare {
                percent: num(percent),
                blocks: (src.len() as f64 * percent).ceil() as usize,
            };
            if capped {
                mark_top_blocks_spatially_capped(src, share, &grid, sel);
            } else {
                mark_top_blocks(src, share, sel);
            }
        };
        if let Some(previous) = deque.get(index + 1) {
            mark(&previous.importance_blocks, previous_percent, &mut selected);
        }
        mark(&current.importance_blocks, current_percent, &mut selected);
        if index > 0 {
            if let Some(next) = deque.get(index - 1) {
                mark(&next.importance_blocks, next_percent, &mut selected);
            }
        }
        selected_mean(&current.importance_blocks, &selected)
    }

    let (previous_percent, current_percent, next_percent) = (0.10_f64, 0.15_f64, 0.10_f64);
    let (region_cols, region_rows) = (8usize, 4usize);
    let (w, h) = (256, 128);

    let mut tuning = DetectionTuning::high_quality();
    tuning.importance_aggregation = ImportanceAggregation::SpatialTemporalTopBlocks {
        previous_percent: num(previous_percent),
        current_percent: num(current_percent),
        next_percent: num(next_percent),
        region_cols,
        region_rows,
    };
    tuning.forward_similarity.enabled = false;
    let mut det = detector_with(SceneDetectionSpeed::High, tuning, 5, 0, 1000);

    // Varied content so different blocks win the selection on different frames.
    let sample = |t: usize, y: usize, x: usize| {
        let stripe = (x + y * 2 + t * 7) as u32 % 64;
        let patch = if x / 16 == (t * 3) % (w / 16) && y / 16 == t % (h / 16) { 210 } else { 0 };
        f64::from((stripe + patch) % 256)
    };
    let frames = 24usize;
    // The importance of a block is the change of its mean.
    let comparison = |frame: usize| {
        let mean = |t: usize, bx: usize, by: usize| {
            let mut total = 0.0;
            for y in by * 8..by * 8 + 8 {
                for x in bx * 8..bx * 8 + 8 {
                    total += sample(t, y, x);
                }
            }
            total / 64.0
        };
        let mut blocks = Vec::new();
        for by in 0..h / 8 {
            for bx in 0..w / 8 {
                blocks.push(num((mean(frame, bx, by) - mean(frame - 1, bx, by)).abs()));
            }
        }
        let raw = blocks.iter().map(|block| value(*block)).sum::<f64>() / blocks.len() as f64;
        ScenecutAnalysis::with_blocks(record(raw, raw), blocks, w / 8, h / 8)
    };

    let lookahead = 5usize;
    let mut saw_divergence = false;
    for frameno in 1..frames {
        let start = frameno - 1;
        let end = (start + lookahead + 2).min(frames);
        let window = end - start;
        if window < 2 {
            break;
        }
        if !matches!(det.plan_frame(window, frameno), FramePlan::Compare { .. }) {
            continue;
        }
        advance(&mut det, window, frameno, frameno, &comparison);
        let relaxed = relaxed_ratios(&det);
        let first = det.first_verdict(&relaxed, 0, window);
        let open = det.open_search(&first, num(f64::MAX), num(6.0), frameno, frameno, window, 0);
        det.final_verdict(open, frameno);

        // The window may just have let go of its oldest frame.
        refresh(&mut det);

        for idx in 0..det.score_deque.len() {
            let raw = value(det.score_deque[idx].result.imp_block_cost_raw);
            let want_imp = top_score(
                &det.score_deque,
                idx,
                true,
                previous_percent,
                current_percent,
                next_percent,
                region_cols,
                region_rows,
            )
            .unwrap_or(raw);
            let want_global = top_score(
                &det.score_deque,
                idx,
                false,
                previous_percent,
                current_percent,
                next_percent,
                region_cols,
                region_rows,
            )
            .unwrap_or(raw);

            let got = det.score_deque[idx].result;
            assert_eq!(
                got.imp_block_cost.bits,
                want_imp.to_bits(),
                "imp_block_cost mismatch: frameno={frameno} idx={idx}"
            );
            assert_eq!(
                got.global_imp_block_cost.bits,
                want_global.to_bits(),
                "global_imp_block_cost mismatch: frameno={frameno} idx={idx}"
            );
            if (want_imp - want_global).abs() > 1e-9 {
                saw_divergence = true;
            }
        }
    }
    assert!(
        saw_divergence,
        "content too uniform: capped and global scores never diverged"
    );
}

#[test]
fn detector_turns_the_frame_rate_over() {
    let video = VideoDetails {
        width: 1920,
        height: 1080,
        bit_depth: 10,
        chroma_sampling: ChromaSampling::Yuv420,
        frame_rate: Fraction { numer: 30000, denom: 1001 },
        total_frames: None,
    };
    let mut opts = DetectionOptions::default();
    opts.analysis_speed = SceneDetectionSpeed::Fast;
    opts.min_scenecut_distance = Some(24);
    let detector = SceneChangeDetector::from_video_details(&video, &opts, false, 8, num(22.5));
    assert_eq!(detector.frame_rate, Fraction { numer: 1001, denom: 30000 });
    assert_eq!(detector.scaled_pixels, 240 * 135);
    assert_eq!(detector.min_key_frame_interval, 24);
    assert_eq!(detector.max_key_frame_interval, u32::MAX as usize);
    assert_eq!(detector.lookahead_offset, 5);
    assert_eq!(detector.threshold, num(22.5));
    assert!(!detector.use_cost_parallelism);
    assert!(!detector.frames_pre_downscaled);
    assert!(detector.intra_costs.is_none());

    let negative = VideoDetails { frame_rate: Fraction { numer: -25, denom: 2 }, ..video };
    let turned = SceneChangeDetector::from_video_details(&negative, &opts, true, 1, num(1.0));
    assert_eq!(turned.frame_rate, Fraction { numer: -2, denom: 25 });
    assert_eq!(fast_idiv(1080, 8), 135);
}

#[test]
fn detector_switches_change_one_thing() {
    let tuning = DetectionTuning::default();
    let mut detector = detector_with(SceneDetectionSpeed::Standard, tuning, 3, 10, 20);
    assert_eq!(detector.lookahead_offset, 0);
    detector.keep_intra_costs(4, vec![9]);
    assert!(detector.intra_costs.is_none());
    detector.enable_cache();
    detector.keep_intra_costs(4, vec![1, 2]);
    detector.keep_intra_costs(2, vec![7]);
    // Enabling the cache again drops nothing.
    detector.enable_cache();
    detector.keep_intra_costs(4, vec![3, 5]);
    let kept = detector.intra_costs.as_ref().expect("costs are kept");
    assert_eq!(kept.frames(), vec![2, 4]);
    assert_eq!(kept.get(4), Some(&vec![3, 5]));
    assert_eq!(kept.get(2), Some(&vec![7]));
    detector.set_cost_parallelism(false);
    assert!(!detector.use_cost_parallelism);
    detector.set_frames_pre_downscaled(true);
    assert!(detector.frames_pre_downscaled);
    assert_eq!(detector.handle_min_max_intervals(9), Some(false));
    assert_eq!(detector.handle_min_max_intervals(10), None);
    assert_eq!(detector.handle_min_max_intervals(20), Some(true));
}

#[test]
fn plans_follow_the_frames_at_hand() {
    let tuning = DetectionTuning::default();
    let detector = detector_with(SceneDetectionSpeed::Standard, tuning, 5, 0, 100);
    assert_eq!(detector.plan_frame(0, 1), FramePlan::NoVerdict);
    assert_eq!(detector.plan_frame(1, 1), FramePlan::NoVerdict);
    assert_eq!(detector.plan_frame(5, 1), FramePlan::NoVerdict);
    assert_eq!(detector.plan_frame(6, 1), FramePlan::Compare { initial: 5, offset: 4 });
    assert_eq!(detector.plan_frame(7, 1), FramePlan::Compare { initial: 5, offset: 5 });
    let short = detector_with(SceneDetectionSpeed::Off, tuning, 3, 0, 100);
    assert_eq!(short.plan_frame(1, 100), FramePlan::Decided { cut: true });
    let off = detector_with(SceneDetectionSpeed::Off, tuning, 5, 0, 100);
    assert_eq!(off.plan_frame(7, 99), FramePlan::Decided { cut: false });
    assert_eq!(off.plan_frame(7, 100), FramePlan::Decided { cut: true });
}

#[test]
fn peak_costs_stand_out_from_those_before() {
    assert_eq!(value(adjusted_peak_cost(&[])), 0.0);
    assert_eq!(value(adjusted_peak_cost(&[num(7.0), num(3.0), num(5.0)])), 3.0);
    assert_eq!(value(adjusted_peak_cost(&[num(7.0), num(-1.0), num(5.0)])), 0.0);
}

/// Judges the frame at which costs peak, in a window of twelve frames.
fn verdict_on_peak(
    detector: &mut SceneChangeDetector,
    peak: usize,
    costs: &dyn Fn(usize) -> (f64, f64),
) -> Verdict {
    let mut last = None;
    for frame in 1..=peak {
        advance(detector, 7, frame, frame, &|number| {
            let (cost, importance) = costs(number);
            plain(cost, importance)
        });
        let relaxed = relaxed_ratios(detector);
        let first = detector.first_verdict(&relaxed, 0, 7);
        let open = detector.open_search(&first, num(f64::MAX), num(6.0), frame, frame, 7, 0);
        last = Some(detector.final_verdict(open, frame));
    }
    last.expect("a frame was judged")
}

#[test]
fn lone_peaks_are_cuts() {
    let tuning = DetectionTuning::default();
    let mut detector = detector_with(SceneDetectionSpeed::Standard, tuning, 5, 0, 1000);
    let verdict =
        verdict_on_peak(&mut detector, 8, &|frame| if frame == 8 { (40.0, 9.0) } else { (5.0, 1.0) });
    assert!(verdict.cut);
    assert_eq!(verdict.score.decision, ScenecutDecision::Cut);
    assert_eq!(value(verdict.score.cost_ratio), 3.5);

    let mut quiet = detector_with(SceneDetectionSpeed::Standard, tuning, 5, 0, 1000);
    let verdict = verdict_on_peak(&mut quiet, 8, &|_| (5.0, 1.0));
    assert!(!verdict.cut);
    assert_eq!(verdict.score.decision, ScenecutDecision::SuppressedImportance);
}

#[test]
fn flashes_are_no_cuts() {
    let tuning = DetectionTuning::default();
    let mut detector = detector_with(SceneDetectionSpeed::Standard, tuning, 5, 0, 1000);
    // Two peaks close together: the first is not taken for a cut.
    let verdict = verdict_on_peak(&mut detector, 8, &|frame| match frame {
        8 => (60.0, 9.0),
        10 => (30.0, 9.0),
        _ => (5.0, 1.0),
    });
    assert!(!verdict.cut);
    assert_eq!(verdict.score.decision, ScenecutDecision::SuppressedFlash);
}

#[test]
fn distance_has_the_last_word() {
    let tuning = DetectionTuning::default();
    let mut near = detector_with(SceneDetectionSpeed::Standard, tuning, 5, 9, 1000);
    let peak = |frame: usize| if frame == 8 { (40.0, 9.0) } else { (5.0, 1.0) };
    let verdict = verdict_on_peak(&mut near, 8, &peak);
    assert!(!verdict.cut);
    assert_eq!(verdict.score.decision, ScenecutDecision::SuppressedMinDistance);
    let mut far = detector_with(SceneDetectionSpeed::Standard, tuning, 5, 0, 7);
    let verdict = verdict_on_peak(&mut far, 7, &peak);
    assert!(verdict.cut);
    assert_eq!(verdict.score.decision, ScenecutDecision::ForcedMaxDistance);
}

#[test]
fn importance_alone_can_cut() {
    let mut tuning = DetectionTuning::high_quality();
    tuning.importance_aggregation = ImportanceAggregation::Mean;
    tuning.importance_cut_max_me_good_ratio = num(0.0);
    tuning.forward_similarity.enabled = false;
    let mut detector = detector_with(SceneDetectionSpeed::High, tuning, 5, 0, 1000);
    // The cost stays below its threshold, importance is four times its own.
    let verdict = verdict_on_peak(&mut detector, 8, &|frame| {
        if frame == 8 { (9.0, 28.0) } else { (5.0, 1.0) }
    });
    assert!(verdict.cut);
    assert_eq!(verdict.score.decision, ScenecutDecision::CutImportance);
}

#[test]
fn alike_frames_take_an_importance_cut_back() {
    let mut score = record(9.0, 28.0);
    score.decision = ScenecutDecision::CutImportance;
    let verdict = Verdict { cut: true, score };
    let kept = judge_transient(verdict, Some(num(6.1)), num(6.0));
    assert!(kept.cut);
    assert_eq!(kept.score.transient_similarity_score, Some(num(6.1)));
    let gone = judge_transient(verdict, Some(num(6.0)), num(6.0));
    assert!(!gone.cut);
    assert_eq!(gone.score.decision, ScenecutDecision::SuppressedTransientSimilarity);
    let unseen = judge_transient(verdict, None, num(6.0));
    assert!(unseen.cut);
}

#[test]
fn cuts_inside_a_returning_scene_are_suppressed() {
    let tuning = DetectionTuning::default();
    let mut detector = detector_with(SceneDetectionSpeed::Standard, tuning, 5, 0, 1000);
    detector.forward_suppress_until = Some(20);
    let verdict = Verdict { cut: true, score: record(40.0, 9.0) };
    let inside = detector.judge_suppression(verdict, 20);
    assert!(!inside.cut);
    assert_eq!(inside.score.decision, ScenecutDecision::SuppressedForwardSimilarity);
    assert_eq!(detector.forward_suppress_until, Some(20));
    let outside = detector.judge_suppression(verdict, 21);
    assert!(outside.cut);
    assert_eq!(detector.forward_suppress_until, None);
}

/// A detector at a cut, whose window shows another cut candidate after it.
fn detector_at_cut(options: ForwardSimilarityOptions) -> SceneChangeDetector {
    let mut tuning = DetectionTuning::default();
    tuning.forward_similarity = options;
    let mut detector = detector_with(SceneDetectionSpeed::Standard, tuning, 5, 0, 1000);
    let frame = 30;
    advance(&mut detector, 7, frame, 30, &|number| match number {
        30 => plain(60.0, 9.0),
        33 => plain(30.0, 9.0),
        _ => plain(5.0, 1.0),
    });
    detector
}

fn search_options() -> ForwardSimilarityOptions {
    ForwardSimilarityOptions {
        enabled: true,
        frames: 10,
        window_frames: 2,
        min_offset: 3,
        threshold_8bit: num(6.0),
        require_return_candidate: true,
        suppress_inside: true,
        ..ForwardSimilarityOptions::default()
    }
}

#[test]
fn returning_scenes_take_a_cut_back() {
    let mut detector = detector_at_cut(search_options());
    let relaxed = relaxed_ratios(&detector);
    let mut score = detector.score_deque[detector.deque_offset].result;
    score.decision = ScenecutDecision::Cut;
    let mut search = ForwardSearch::start(&search_options(), score, 30, 9, 4)
        .expect("frames follow the cut");
    assert_eq!(search.compared, 2);
    assert_eq!((search.min_offset, search.max_offset), (3, 8));
    assert_eq!(search.reference_frames(4), ReferenceFrames::Previous { from: 2 });
    assert_eq!(search.reference_frames(1), ReferenceFrames::Previous { from: 0 });
    assert_eq!(search.reference_frames(0), ReferenceFrames::BeforeCut);
    let mut judged = Vec::new();
    while let Some(segment) = search.next_segment(&detector, &relaxed) {
        assert_eq!(segment.end + 1 - segment.start, 2);
        judged.push(segment.end);
        let delta = if segment.end == 6 { 4.0 } else { 9.0 };
        search.judge_segment(&detector, &relaxed, num(delta));
    }
    assert_eq!(judged.last(), Some(&6));
    let found = search.accepted.expect("the scene returns");
    assert_eq!(found.frame, 35);
    assert_eq!(found.delta, num(4.0));

    let open = OpenVerdict { verdict: Verdict { cut: true, score }, search: Some(search) };
    let verdict = detector.final_verdict(open, 30);
    assert!(!verdict.cut);
    assert_eq!(verdict.score.decision, ScenecutDecision::SuppressedForwardSimilarity);
    assert_eq!(verdict.score.forward_return_frame, Some(35));
    assert_eq!(verdict.score.forward_similarity_score, Some(num(4.0)));
    assert_eq!(detector.forward_suppress_until, Some(35));
}

#[test]
fn searches_begin_only_where_they_are_due() {
    let mut options = search_options();
    options.min_previous_scene_len = 31;
    let mut detector = detector_at_cut(options);
    let relaxed = relaxed_ratios(&detector);
    let first = detector.first_verdict(&relaxed, 0, 7);
    assert!(first.transient.is_none());
    let cut = av_scenechange::detector::frame::FirstVerdict {
        verdict: Verdict { cut: true, score: first.verdict.score },
        transient: None,
    };
    let open = detector.open_search(&cut, num(1.0), num(6.0), 30, 30, 7, 0);
    assert!(open.search.is_none());
    let open = detector.open_search(&cut, num(1.0), num(6.0), 30, 31, 7, 0);
    assert!(open.search.is_some());
    assert!(ForwardSearch::start(&options, first.verdict.score, 30, 2, 0).is_none());
}

#[test]
fn segments_start_after_the_return_candidate() {
    assert_eq!(forward_similarity_post_start_offset(5, None, 0), None);
    assert_eq!(forward_similarity_post_start_offset(2, None, 3), None);
    assert_eq!(forward_similarity_post_start_offset(5, None, 3), Some(3));
    assert_eq!(forward_similarity_post_start_offset(5, Some(3), 3), Some(3));
    assert_eq!(forward_similarity_post_start_offset(5, Some(4), 3), None);
}

#[test]
fn closest_candidates_are_recorded() {
    let candidate = |frame: usize, delta: f64, decision| ForwardSimilarityCandidate {
        frame,
        offset: frame,
        delta: num(delta),
        threshold: num(6.0),
        candidate_frame: None,
        candidate_offset: None,
        decision,
    };
    let rejected = ForwardSimilarityCandidateDecision::DeltaAboveThreshold;
    let mut candidates = Vec::new();
    for frame in 0..12 {
        let delta = 20.0 - frame as f64;
        record_forward_similarity_candidate(&mut candidates, candidate(frame, delta, rejected));
    }
    let frames: Vec<usize> = candidates.iter().map(|c| c.frame).collect();
    assert_eq!(frames, vec![11, 10, 9, 8, 7, 6, 5, 4]);
    // A match is recorded though it is not among the closest.
    let accepted = ForwardSimilarityCandidateDecision::Accepted;
    record_forward_similarity_candidate(&mut candidates, candidate(50, 30.0, accepted));
    assert_eq!(candidates.len(), 8);
    assert!(candidates.iter().any(|c| c.frame == 50));
}

#[test]
fn confirmation_is_never_below_what_corrections_use() {
    assert_eq!(value(confirmation_threshold(num(8.5))), 8.5);
    assert_eq!(value(confirmation_threshold(num(4.0))), 6.0);
    assert_eq!(value(confirmation_threshold(num(f64::NAN))), 6.0);
}

#[test]
fn masks_are_carried_along() {
    let blocks: Vec<Measure> = [3.0, 9.0, 1.0, 7.0].iter().map(|v| num(*v)).collect();
    let mut analysis = ScenecutAnalysis::with_blocks(record(5.0, 5.0), blocks, 4, 1);
    let share = BlockShare { percent: num(0.5), blocks: 2 };
    assert!(analysis.cached_top_block_mask(share, 1, 1, false).is_none());
    analysis.cache_top_block_mask(share, 1, 1, false);
    let selected: &[bool] = &[false, true, false, true];
    assert_eq!(analysis.cached_top_block_mask(share, 1, 1, false), Some(selected));
    assert!(analysis.cached_top_block_mask(share, 2, 1, true).is_none());
    analysis.cache_top_block_mask(share, 2, 1, true);
    let spread: &[bool] = &[false, true, false, true];
    assert_eq!(analysis.cached_top_block_mask(share, 2, 1, true), Some(spread));
    // The blocks that are selected are the same with and without the mask.
    let bare = ScenecutAnalysis::with_blocks(
        record(5.0, 5.0),
        [3.0, 9.0, 1.0, 7.0].iter().map(|v| num(*v)).collect(),
        4,
        1,
    );
    let (mut with, mut without) = (vec![false; 4], vec![false; 4]);
    analysis.add_selection(&bare, share, 1, 1, false, &mut with);
    bare.add_selection(&bare, share, 1, 1, false, &mut without);
    assert_eq!(with, without);
}

fn plane(width: usize, height: usize, sample: impl Fn(usize, usize) -> u16) -> LumaPlane {
    let mut data = Vec::new();
    for y in 0..height {
        for x in 0..width {
            data.push(sample(x, y));
        }
    }
    LumaPlane { width, height, stride: width, origin: 0, data }
}

#[test]
fn costs_become_a_record() {
    let region = ActiveRegion { top: 1, bottom: 3, left: 0, right: 4, cols: 4, rows: 4 };
    // Bars above and below the picture.
    let picture = plane(32, 32, |_, y| if (8..24).contains(&y) { 120 } else { 16 });
    let intra: Vec<u32> = (0..16).collect();
    assert_eq!(active_intra_cost(&region, &intra), ((4..12).sum::<u32>() as u64, 8));
    assert_eq!(active_intra_cost(&ActiveRegion::full(4, 4), &intra), (120, 16));
    assert_eq!(active_crop(&region), Some([1, 1, 0, 0]));
    assert_eq!(active_crop(&ActiveRegion::full(4, 4)), None);
    assert_eq!(
        active_rect(&region),
        Some(SampleRect { left: 0, right: 32, top: 8, bottom: 24 })
    );
    assert_eq!(active_signature(&region, &picture, 8), [120; 32]);
    let full = ActiveRegion::full(4, 4);
    assert_eq!(
        active_signature(&full, &picture, 8),
        frame_luma_signature_8bit(&picture, 8)
    );

    let estimates = CostEstimates {
        inter_mean: num(30.0),
        motion_mean: num(20.0),
        motion_cost_computed: true,
        static_bad_block_ratio: num(0.5),
        static_good_block_ratio: num(0.25),
        me_bad_block_ratio: num(0.125),
        me_good_block_ratio: num(0.75),
        importance_mean: num(14.0),
        avg_luma_8bit: num(60.0),
        structure: StructureEstimates {
            dc_free_good_block_ratio: num(0.1),
            me_dc_free_good_block_ratio: num(0.2),
            me_dc_free_cost: num(0.3),
            structure_match_ratio: num(0.4),
            structure_coverage: num(0.5),
        },
    };
    let thresholds =
        CostThresholds { cost: num(9.0), importance: num(7.0), importance_quotient: num(2.0) };
    let mut blocks = CostBlocks {
        region,
        inter_costs: (0..16).map(|cost| num(f64::from(cost))).collect(),
        intra_costs: (0..16).map(|cost| num(f64::from(cost))).collect(),
        min_intra_ratio: num(0.5),
        good_threshold: num(9.0),
        intra_floor: num(6.0),
    };
    let (analysis, details) = cost_scenecut(
        SceneDetectionSpeed::High,
        &estimates,
        &thresholds,
        &blocks,
        &picture,
        8,
        vec![num(14.0)],
        1,
        1,
    );
    assert_eq!(analysis.result.inter_cost, num(30.0));
    assert_eq!(analysis.result.motion_inter_cost, num(20.0));
    assert_eq!(analysis.result.imp_block_ratio, num(2.0));
    assert_eq!(analysis.result.threshold, num(9.0));
    assert_eq!(analysis.result.frame_luma_signature, Some([120; 32]));
    assert_eq!(details.active_blocks, (8, 16));
    assert_eq!(details.active_crop, Some([1, 1, 0, 0]));
    // Blocks 6 to 9 match and have detail.
    assert_eq!(details.matching, MatchingBlocks::Textured { good: 4, active: 8 });
    assert_eq!(details.structure, estimates.structure);

    blocks.min_intra_ratio = num(0.0);
    let (analysis, details) = cost_scenecut(
        SceneDetectionSpeed::Standard,
        &estimates,
        &thresholds,
        &blocks,
        &picture,
        8,
        Vec::new(),
        0,
        0,
    );
    assert_eq!(details.matching, MatchingBlocks::Any { ratio: num(0.25) });
    assert_eq!(analysis.result.frame_luma_signature, None);
}

#[test]
fn ratios_to_nothing_are_zero() {
    let mut score =
        ScenecutResult::new(num(5.0), num(3.0), num(0.0), num(2.0), num(40.0), num(9.0));
    assert_eq!(score.imp_block_ratio, num(0.0));
    score.forward_adjusted_cost = num(5.0);
    let renewed = RatioQuotients {
        cost: num(2.5),
        motion_cost: num(1.5),
        imp_block: num(9.0),
        global_imp_block: num(9.0),
        return_cost_ceiling: num(10.0),
        refined_peak_rank: num(2.5),
        shift_margin_floor: num(1.0),
    };
    score.refresh_ratios(&renewed);
    assert_eq!(score.cost_ratio, num(2.5));
    assert_eq!(score.motion_cost_ratio, num(1.5));
    assert_eq!(score.imp_block_ratio, num(0.0));
    assert_eq!(score.global_imp_block_ratio, num(0.0));
    assert_eq!(score.return_cost_ceiling, num(10.0));
}
