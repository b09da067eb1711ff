//! Planning of parallel runs, and putting their parts together.

use av_scenechange::decimal::decimal;
use av_scenechange::cursor::{AnalysisCursor, AnalysisTask};
use av_scenechange::measure::Measure;
use av_scenechange::options::{DetectionOptions, SceneDetectionSpeed};
use av_scenechange::parallel::driver::{
    initial_needs, limited_to_produced, needed_frames, plan_own_decoders, plan_shared_reader,
    streamed_reader_gate, IndexedReader, ParallelPlan, PlanError, ReaderGate,
};
use av_scenechange::parallel::handoff::{
    find_parallel_handoff, ParallelFrameDecision, ParallelWorkerOutput,
};
use av_scenechange::parallel::plan::{
    estimated_frame_bytes, minimum_parallel_needed_frame, no_cut_parallel_warmup,
    parallel_active_needed_window, parallel_chunk_starts, parallel_frame_history,
    parallel_frame_reducer, parallel_initial_fetch_start, parallel_reader_buffer_frames,
    parallel_streamed_reader_buffer_frames, parallel_worker_cost_parallelism,
    resolve_parallel_frame_count, resolve_parallel_workers, ParallelFrameReducer,
    PARALLEL_READER_FRAME_ENTRY_OVERHEAD_BYTES, PARALLEL_READER_MAX_BUFFER_FRAMES,
    PARALLEL_READER_TARGET_BUFFER_BYTES,
};
use av_scenechange::parallel::reconcile::{
    append_parallel_range, report_parallel_progress, ParallelWorkerMessage, ReconcileAction,
    ReconcileError, Reconciler,
};
use av_scenechange::parallel::store::{FrameLookup, SharedFrameStore};
use av_scenechange::parallel::window::FrameWindow;
use av_scenechange::results::DetectionResults;
use av_scenechange::score::{ScenecutDecision, ScenecutResult};
use av_scenechange::serial::SerialDetection;
use av_scenechange::timeline::FrameSet;
use av_scenechange::frame_map::FrameMap;
use av_scenechange::video::{ChromaSampling, Fraction, VideoDetails};

fn num(value: f64) -> Measure {
    Measure { bits: value.to_bits() }
}

fn standard_options() -> DetectionOptions {
    DetectionOptions {
        min_scenecut_distance: Some(24),
        max_scenecut_distance: None,
        ..DetectionOptions::default()
    }
}

fn small_video() -> VideoDetails {
    VideoDetails {
        width: 352,
        height: 240,
        bit_depth: 8,
        chroma_sampling: ChromaSampling::Yuv420,
        frame_rate: Fraction { numer: 30000, denom: 1001 },
        total_frames: None,
    }
}

/// A decision that depends on the frame alone: a cut at every hundredth frame.
fn verdict(frame: usize) -> ParallelFrameDecision {
    if frame == 0 {
        return ParallelFrameDecision { is_scene_change: true, score: None };
    }
    let cut = frame % 100 == 0;
    let mut score = ScenecutResult::new(
        num(frame as f64),
        num(0.0),
        num(1.0),
        num(1.0),
        num(90.0),
        num(0.0),
    );
    score.cost_ratio = if cut { num(2.0) } else { num(0.25) };
    score.decision = if cut { ScenecutDecision::Cut } else { ScenecutDecision::NoCut };
    ParallelFrameDecision { is_scene_change: cut, score: Some(score) }
}

fn serial_run(opts: DetectionOptions, frames: usize) -> DetectionResults {
    let mut run = SerialDetection::new(opts, None);
    loop {
        while let Some(frame) = run.needed_frame() {
            if frame >= frames {
                break;
            }
            run.supply(frame);
        }
        match run.next_task() {
            AnalysisTask::Done => break,
            AnalysisTask::FirstFrame => {
                run.record(verdict(0));
            }
            AnalysisTask::Compare { frame, .. } => {
                run.record(verdict(frame));
            }
        }
    }
    run.finish()
}

fn same_results(left: &DetectionResults, right: &DetectionResults) -> bool {
    left.scene_changes == right.scene_changes
        && left.frame_count == right.frame_count
        && left.scores.frames() == right.scores.frames()
        && left.scores.frames().iter().all(|frame| {
            match (left.scores.get(*frame), right.scores.get(*frame)) {
                (Some(l), Some(r)) => l.matches(r),
                _ => false,
            }
        })
}

#[test]
fn resolve_parallel_frame_count_clamps_sentinel_and_falls_back() {
    // `usize::MAX` is the serial "no limit" sentinel: with a known length it
    // collapses to that length, without one it signals serial fallback (None).
    assert_eq!(
        resolve_parallel_frame_count(Some(usize::MAX), Some(100)),
        Some(100)
    );
    assert_eq!(resolve_parallel_frame_count(Some(usize::MAX), None), None);
    // A real limit is clamped by a smaller known length, else kept as-is.
    assert_eq!(resolve_parallel_frame_count(Some(500), Some(100)), Some(100));
    assert_eq!(resolve_parallel_frame_count(Some(40), Some(100)), Some(40));
    assert_eq!(resolve_parallel_frame_count(Some(40), None), Some(40));
    // No limit: use the known length, or fall back when neither is known.
    assert_eq!(resolve_parallel_frame_count(None, Some(100)), Some(100));
    assert_eq!(resolve_parallel_frame_count(None, None), None);
}

#[test]
fn parallel_chunk_starts_no_overflow_on_sentinel_count() {
    for &workers in &[2usize, 3, 7, 8, 64] {
        let starts = parallel_chunk_starts(usize::MAX, workers);
        assert_eq!(starts.first().copied(), Some(0));
        assert!(starts.windows(2).all(|w| w[0] < w[1]));
        assert!(starts.len() <= workers + 1);
    }
}

#[test]
fn parallel_chunk_starts_matches_naive_formula_for_normal_inputs() {
    for frame_count in 0usize..512 {
        for workers in 0usize..9 {
            let expected: Vec<usize> = if workers <= 1 || frame_count == 0 {
                vec![0]
            } else {
                let mut starts: Vec<usize> =
                    (0..workers).map(|idx| idx * frame_count / workers).collect();
                starts.dedup();
                if starts.first().copied() != Some(0) {
                    starts.insert(0, 0);
                }
                starts
            };
            assert_eq!(parallel_chunk_starts(frame_count, workers), expected);
        }
    }
}

#[test]
fn reconcile_caps_progress_bitmap_for_sentinel_limit() {
    // With no messages the run ends before it is complete. The point is that no
    // memory is taken for the whole limit.
    let chunk_starts = vec![0usize, 1];
    let run = Reconciler::new(standard_options(), chunk_starts, usize::MAX);
    let result = run.finish();
    assert!(result.is_err());
}

#[test]
fn streamed_reader_buffer_budget_scales_with_active_workers() {
    // The resident range of a stream is one window per active worker (at least
    // one), saturating.
    assert_eq!(parallel_streamed_reader_buffer_frames(123, 0), 123);
    assert_eq!(parallel_streamed_reader_buffer_frames(123, 1), 123);
    assert_eq!(parallel_streamed_reader_buffer_frames(123, 4), 492);
    assert_eq!(
        parallel_streamed_reader_buffer_frames(usize::MAX / 2 + 1, 2),
        usize::MAX
    );
}

#[test]
fn parallel_active_needed_window_reports_min_and_active_count() {
    let all_retired = [usize::MAX, usize::MAX];
    assert_eq!(parallel_active_needed_window(&all_retired), None);
    assert_eq!(minimum_parallel_needed_frame(&all_retired), None);

    let mixed = [usize::MAX, 500, 100, usize::MAX];
    assert_eq!(parallel_active_needed_window(&mixed), Some((100, 2)));
    assert_eq!(minimum_parallel_needed_frame(&mixed), Some(100));
}

#[test]
fn parallel_reader_buffer_frames_uses_byte_budget_not_old_512_cap() {
    let video_details = small_video();
    let opts = standard_options();
    let reducer = parallel_frame_reducer(&opts, &video_details, 1);
    let per_worker = parallel_reader_buffer_frames(&opts, &video_details, &reducer);

    assert!(
        per_worker > 512,
        "per-worker budget {per_worker} should exceed 512 frames"
    );
    assert!(per_worker <= PARALLEL_READER_MAX_BUFFER_FRAMES);
    let frame_bytes = estimated_frame_bytes(&video_details, &reducer)
        .saturating_add(PARALLEL_READER_FRAME_ENTRY_OVERHEAD_BYTES)
        .max(1);
    assert_eq!(per_worker, PARALLEL_READER_TARGET_BUFFER_BYTES / frame_bytes);
}

#[test]
fn parallel_frame_reducer_gate_keys_off_tuning_not_speed() {
    // Fast + similarity disabled => drop chroma AND pre-downscale (>240p).
    let fast =
        ParallelFrameReducer::new((1920, 1080), 8, SceneDetectionSpeed::Fast, false, false);
    assert!(fast.drops_chroma());
    assert_eq!(fast.scale_factor(), Some(8));
    assert!(fast.is_prescaled());

    // forward-similarity on => keep chroma and never pre-downscale, even Fast.
    let fast_forward =
        ParallelFrameReducer::new((1920, 1080), 8, SceneDetectionSpeed::Fast, true, false);
    assert!(!fast_forward.drops_chroma());
    assert!(!fast_forward.is_prescaled());

    // transient-only on => may drop chroma (transient is luma-only) but must
    // not pre-downscale (transient needs full-res luma).
    let fast_transient =
        ParallelFrameReducer::new((1920, 1080), 8, SceneDetectionSpeed::Fast, false, true);
    assert!(fast_transient.drops_chroma());
    assert!(!fast_transient.is_prescaled());

    // Standard => never pre-downscale; chroma dropped when forward off.
    let standard =
        ParallelFrameReducer::new((1920, 1080), 8, SceneDetectionSpeed::Standard, false, false);
    assert!(standard.drops_chroma());
    assert!(!standard.is_prescaled());

    // <=240p Fast => no downscale factor, so chroma-drop only.
    let small_fast =
        ParallelFrameReducer::new((352, 240), 8, SceneDetectionSpeed::Fast, false, false);
    assert!(!small_fast.is_prescaled());
    assert!(small_fast.drops_chroma());
}

#[test]
fn worker_count_is_asked_for_or_derived() {
    assert_eq!(resolve_parallel_workers(3, 1000, 16), 3);
    assert_eq!(resolve_parallel_workers(1, 1000, 16), 1);
    // No worker for fewer than 256 frames, and no split of fewer than twice that.
    assert_eq!(resolve_parallel_workers(3, 511, 16), 1);
    assert_eq!(resolve_parallel_workers(3, 512, 16), 2);
    // No more than the machine runs at once.
    assert_eq!(resolve_parallel_workers(12, 100_000, 4), 4);
    assert_eq!(resolve_parallel_workers(12, 100_000, 0), 1);
    // Without a request: what the machine runs at once, at most eight.
    assert_eq!(resolve_parallel_workers(0, 100_000, 16), 8);
    assert_eq!(resolve_parallel_workers(0, 100_000, 6), 6);
    assert_eq!(resolve_parallel_workers(0, 1024, 16), 4);
}

#[test]
fn cost_parallelism_ends_at_the_configured_worker_count() {
    let mut opts = standard_options();
    opts.disable_rayon_on_workers = 0;
    assert!(parallel_worker_cost_parallelism(&opts, 50));
    opts.disable_rayon_on_workers = 4;
    assert!(parallel_worker_cost_parallelism(&opts, 3));
    assert!(!parallel_worker_cost_parallelism(&opts, 4));
}

#[test]
fn history_covers_the_enabled_rules() {
    let mut opts = DetectionOptions::high_quality();
    opts.tuning.transient_similarity.enabled = true;
    opts.tuning.transient_similarity.frames = 6;
    opts.tuning.forward_similarity.enabled = true;
    opts.tuning.forward_similarity.window_frames = 9;
    assert_eq!(parallel_frame_history(&opts), 8);
    assert_eq!(parallel_initial_fetch_start(100, &opts), 91);
    assert_eq!(parallel_initial_fetch_start(5, &opts), 0);
    opts.tuning.forward_similarity.enabled = false;
    assert_eq!(parallel_frame_history(&opts), 6);
    opts.tuning.transient_similarity.enabled = false;
    assert_eq!(parallel_frame_history(&opts), 0);
    opts.lookahead_distance = 5;
    opts.min_scenecut_distance = Some(24);
    assert_eq!(no_cut_parallel_warmup(&opts), 24 + 8);
}

#[test]
fn frame_bytes_follow_depth_chroma_and_scale() {
    let mut video = small_video();
    let keep = ParallelFrameReducer::new((352, 240), 1, SceneDetectionSpeed::High, true, false);
    assert_eq!(estimated_frame_bytes(&video, &keep), 352 * 240 * 3 / 2);
    let luma = ParallelFrameReducer::new((352, 240), 1, SceneDetectionSpeed::High, false, false);
    assert_eq!(estimated_frame_bytes(&video, &luma), 352 * 240);
    video.bit_depth = 10;
    assert_eq!(estimated_frame_bytes(&video, &luma), 352 * 240 * 2);
    video.chroma_sampling = ChromaSampling::Yuv444;
    assert_eq!(estimated_frame_bytes(&video, &keep), 352 * 240 * 6);
    video.width = 1920;
    video.height = 1080;
    let scaled =
        ParallelFrameReducer::new((1920, 1080), 8, SceneDetectionSpeed::Fast, false, false);
    assert_eq!(estimated_frame_bytes(&video, &scaled), 240 * 135 * 2);
}

#[test]
fn shared_reader_plans_split_long_videos_only() {
    let opts = standard_options();
    assert!(matches!(
        plan_shared_reader(&opts, None, None, 3, 8),
        ParallelPlan::Serial { frame_limit: None }
    ));
    assert!(matches!(
        plan_shared_reader(&opts, None, Some(90), 1, 8),
        ParallelPlan::Serial { frame_limit: Some(90) }
    ));
    match plan_shared_reader(&opts, Some(900), Some(1000), 3, 8) {
        ParallelPlan::Split { frame_count, chunk_starts, cost_parallelism } => {
            assert_eq!(frame_count, 900);
            assert_eq!(chunk_starts, vec![0, 300, 600]);
            assert_eq!(cost_parallelism, parallel_worker_cost_parallelism(&opts, 3));
            assert_eq!(initial_needs(&chunk_starts, &opts).len(), 3);
            assert_eq!(
                initial_needs(&chunk_starts, &opts)[1],
                parallel_initial_fetch_start(300, &opts)
            );
        }
        ParallelPlan::Serial { .. } => panic!("a long video is split"),
    }
}

#[test]
fn own_decoder_plans_need_a_length_to_start_inside() {
    let opts = standard_options();
    assert!(matches!(
        plan_own_decoders(&opts, 10, None, None, 2, 8),
        Err(PlanError::UnknownLength)
    ));
    assert!(matches!(
        plan_own_decoders(&opts, 0, None, None, 2, 8),
        Ok(ParallelPlan::Serial { frame_limit: None })
    ));
    assert!(matches!(
        plan_own_decoders(&opts, 99, None, Some(100), 2, 8),
        Ok(ParallelPlan::Serial { frame_limit: Some(1) })
    ));
    match plan_own_decoders(&opts, 100, None, Some(700), 2, 8) {
        Ok(ParallelPlan::Split { frame_count, chunk_starts, .. }) => {
            assert_eq!(frame_count, 600);
            assert_eq!(chunk_starts, vec![0, 300]);
        }
        _ => panic!("the rest of the video is split"),
    }
}

#[test]
fn reader_gate_keeps_to_the_budget() {
    assert_eq!(streamed_reader_gate(50, 50, &[0], 10), ReaderGate::Finished);
    assert_eq!(streamed_reader_gate(5, 50, &[usize::MAX], 10), ReaderGate::Unneeded);
    assert_eq!(
        streamed_reader_gate(20, 50, &[0, 15], 10),
        ReaderGate::Read { keep_from: 0 }
    );
    assert_eq!(
        streamed_reader_gate(21, 50, &[0, 15], 10),
        ReaderGate::Wait { keep_from: 0 }
    );
    assert_eq!(
        streamed_reader_gate(21, 50, &[usize::MAX, 15], 10),
        ReaderGate::Read { keep_from: 15 }
    );
    assert_eq!(needed_frames(&[4, usize::MAX, 9]), vec![4, 9]);
}

#[test]
fn indexed_reader_skips_held_and_missing_frames() {
    let mut reader = IndexedReader::new(10);
    assert!(reader.wants(9, false));
    assert!(!reader.wants(9, true));
    assert!(!reader.wants(10, false));
    reader.ended_at(7);
    assert_eq!(reader.frame_count(), 7);
    assert!(!reader.wants(7, false));
    reader.ended_at(8);
    assert_eq!(reader.frame_count(), 7);
}

#[test]
fn window_hands_out_what_it_holds() {
    let mut window = FrameWindow::new(4);
    for frame in 4..10 {
        window.push_next(frame, frame + 100);
    }
    assert_eq!(window.next_frame(), 10);
    assert_eq!(window.refs_from(2, 3).frames().to_vec(), vec![104, 105, 106]);
    assert_eq!(window.refs_from(8, 30).frames().to_vec(), vec![108, 109]);
    assert_eq!(window.refs_range(3, 6).frames().to_vec(), vec![104, 105]);
    let later = window.refs_range(7, 10).frames().to_vec();
    window.prune_before(7);
    assert_eq!(window.refs_range(7, 10).frames().to_vec(), later);
    assert_eq!(window.refs_from(0, 1).frames().to_vec(), vec![107]);
}

#[test]
fn store_tells_frames_ends_and_failures_apart() {
    let mut store: SharedFrameStore<u32> = SharedFrameStore::new();
    assert!(matches!(store.get(0, 10), FrameLookup::Wait));
    store.push(0, 70);
    store.push(1, 71);
    assert!(matches!(store.get(1, 10), FrameLookup::Ready(71)));
    assert!(matches!(store.get(1, 1), FrameLookup::Ended));
    assert_eq!(store.produced_or_error(), Ok(2));
    store.prune_before(1);
    assert!(!store.contains(0));
    assert!(store.contains(1));
    // A frame that was let go may come again.
    assert!(matches!(store.get(0, 10), FrameLookup::Wait));
    store.finish(2);
    assert!(matches!(store.get(2, 10), FrameLookup::Ended));
    store.retain_only(&[5]);
    assert!(!store.contains(1));
    store.fail("broken stream".to_string());
    assert!(matches!(store.get(2, 10), FrameLookup::Failed(reason) if reason == "broken stream"));
    assert_eq!(store.produced_or_error(), Err(&"broken stream".to_string()));
}

#[test]
fn worker_output_knows_its_stretches() {
    let mut output = ParallelWorkerOutput::new();
    for frame in [3usize, 4, 5, 7] {
        output.insert(frame, verdict(frame));
    }
    assert_eq!(output.contiguous_end_from(3, 100), 6);
    assert_eq!(output.contiguous_end_from(3, 5), 5);
    assert_eq!(output.contiguous_end_from(6, 100), 6);
    assert!(!output.reaches_end_from(3, 6));
    output.finish();
    assert!(output.reaches_end_from(3, 6));
    output.prune_before(5);
    assert!(output.get(4).is_none());
    assert!(output.get(5).is_some());
    output.clear();
    assert!(output.get(7).is_none());
}

#[test]
fn handoff_lies_where_both_workers_agree() {
    let opts = standard_options();
    let mut left = ParallelWorkerOutput::new();
    let mut right = ParallelWorkerOutput::new();
    for frame in 0..900 {
        left.insert(frame, verdict(frame));
    }
    for frame in 300..900 {
        right.insert(frame, verdict(frame));
    }
    let handoff = find_parallel_handoff(&left, &right, 300, &opts, 900);
    match handoff {
        Some(frame) => assert!(300 < frame && frame <= 900),
        None => panic!("the workers agree on all frames"),
    }
    // A worker that never agrees is never handed over to.
    let mut other = ParallelWorkerOutput::new();
    for frame in 300..900 {
        other.insert(
            frame,
            ParallelFrameDecision { is_scene_change: false, score: None },
        );
    }
    assert!(find_parallel_handoff(&left, &other, 300, &opts, 900).is_none());
}

#[test]
fn appended_range_holds_the_decisions() {
    let mut output = ParallelWorkerOutput::new();
    for frame in 95..105 {
        output.insert(frame, verdict(frame));
    }
    let mut keyframes = FrameSet::new();
    let mut scores: FrameMap<ScenecutResult> = FrameMap::new();
    assert!(append_parallel_range(&output, 98, 103, &mut keyframes, &mut scores).is_ok());
    assert_eq!(keyframes.to_vec(), vec![100]);
    assert_eq!(scores.frames(), vec![98, 99, 100, 101, 102]);
    // Nothing to settle.
    assert!(append_parallel_range(&output, 300, 200, &mut keyframes, &mut scores).is_ok());
    assert_eq!(scores.len(), 5);
    // A frame that is missing ends it; what comes before it is settled.
    match append_parallel_range(&output, 103, 110, &mut keyframes, &mut scores) {
        Err(ReconcileError::MissingFrame { frame }) => assert_eq!(frame, 105),
        _ => panic!("frame 105 is missing"),
    }
    assert_eq!(scores.frames(), vec![98, 99, 100, 101, 102, 103, 104]);
}

#[test]
fn progress_is_reported_where_it_grows() {
    let mut reported: usize = 10;
    assert_eq!(report_parallel_progress(&mut reported, 10, 3), None);
    assert_eq!(
        report_parallel_progress(&mut reported, 14, 3),
        Some(ReconcileAction::Report { frames: 14, keyframes: 3 })
    );
    assert_eq!(report_parallel_progress(&mut reported, 12, 4), None);
    assert_eq!(reported, 14);
}

#[test]
fn reconcile_errors_read_as_sentences() {
    let failed = ReconcileError::WorkerFailed { worker: 12, error: "no frames".to_string() };
    assert_eq!(failed.message(), "scene detection worker 12 failed: no frames");
    assert_eq!(
        ReconcileError::EndedEarly.message(),
        "parallel scene detection ended before the authoritative worker reached EOF"
    );
    assert_eq!(
        ReconcileError::MissingFrame { frame: 1050 }.message(),
        "parallel scene detection missing frame 1050 during reconciliation"
    );
    for number in [0, 9, 10, 99, 100, usize::MAX] {
        assert_eq!(decimal(number), number.to_string());
    }
}

#[test]
fn serial_run_counts_frames_and_cuts() {
    let results = serial_run(standard_options(), 450);
    assert_eq!(results.scene_changes, vec![0, 100, 200, 300, 400]);
    assert_eq!(results.frame_count, 450);
    assert_eq!(results.scores.len(), 449);
    assert!(results.scores.frames().iter().all(|frame| 1 <= *frame && *frame < 450));
    // A single frame has nothing to be compared with.
    let single = serial_run(standard_options(), 1);
    assert_eq!(single.scene_changes, vec![0]);
    assert_eq!(single.frame_count, 0);
}

#[test]
fn parallel_run_gives_the_serial_result() {
    let opts = standard_options();
    let frames: usize = 900;
    let starts = parallel_chunk_starts(frames, 3);
    let mut run = Reconciler::new(opts, starts.clone(), frames);
    let mut stops = vec![usize::MAX; starts.len()];
    let mut at = starts.clone();
    let mut finished = vec![false; starts.len()];
    let mut reported: Vec<(usize, usize)> = Vec::new();
    while !run.is_complete() {
        let mut moved = false;
        for worker in 0..starts.len() {
            if run.is_complete() || finished[worker] {
                continue;
            }
            moved = true;
            let message = if at[worker] >= frames || at[worker] >= stops[worker] {
                finished[worker] = true;
                ParallelWorkerMessage::Done { worker, error: None }
            } else {
                at[worker] += 1;
                ParallelWorkerMessage::Frame {
                    worker,
                    frame: at[worker] - 1,
                    decision: verdict(at[worker] - 1),
                }
            };
            assert!(run.step(message).is_ok());
            for action in run.take_actions() {
                match action {
                    ReconcileAction::Report { frames, keyframes } => {
                        reported.push((frames, keyframes));
                    }
                    ReconcileAction::Stop { worker, after } => stops[worker] = after,
                }
            }
        }
        assert!(moved);
    }
    let parallel = match run.finish() {
        Ok(results) => results,
        Err(_) => panic!("every worker went to its end"),
    };
    assert!(same_results(&parallel, &serial_run(opts, frames)));
    assert!(!reported.is_empty());
    assert!(reported.windows(2).all(|pair| pair[0].0 <= pair[1].0));
}

#[test]
fn failed_worker_ends_the_run() {
    let mut run = Reconciler::new(standard_options(), vec![0, 100], 200);
    let outcome = run.step(ParallelWorkerMessage::Done {
        worker: 1,
        error: Some("decoder stopped".to_string()),
    });
    match outcome {
        Err(ReconcileError::WorkerFailed { worker, error }) => {
            assert_eq!(worker, 1);
            assert_eq!(error, "decoder stopped");
        }
        _ => panic!("the failure is reported"),
    }
    assert!(matches!(run.finish(), Err(ReconcileError::EndedEarly)));
}

#[test]
fn cursor_asks_for_the_lookahead_and_keeps_the_history() {
    let mut opts = standard_options();
    opts.lookahead_distance = 3;
    opts.tuning.transient_similarity.enabled = true;
    opts.tuning.transient_similarity.frames = 2;
    opts.tuning.forward_similarity.enabled = false;
    let ahead = opts.effective_lookahead_distance();
    let behind = parallel_frame_history(&opts);
    let mut cursor = AnalysisCursor::new(&opts, 50, false, 1000);
    assert_eq!(cursor.current_frame(), 50);
    assert_eq!(cursor.needed_frame(), Some(50 - behind - 1));
    while let Some(frame) = cursor.needed_frame() {
        cursor.supply(frame);
    }
    match cursor.next_task(usize::MAX) {
        AnalysisTask::Compare { frame_set, previous_set, frame, previous_keyframe } => {
            let ahead_frames: Vec<usize> = (49..51 + ahead).collect();
            let behind_frames: Vec<usize> = (50 - behind - 1..50).collect();
            assert_eq!(frame_set.frames().to_vec(), ahead_frames);
            assert_eq!(previous_set.frames().to_vec(), behind_frames);
            assert_eq!(frame, 50);
            assert_eq!(previous_keyframe, 50);
        }
        _ => panic!("a frame inside the video is compared"),
    }
    cursor.advance(true);
    assert_eq!(cursor.current_frame(), 51);
    assert_eq!(cursor.needed_frame(), Some(51 + ahead));
    cursor.supply(51 + ahead);
    match cursor.next_task(usize::MAX) {
        AnalysisTask::Compare { previous_set, previous_keyframe, .. } => {
            let behind_frames: Vec<usize> = (51 - behind - 1..51).collect();
            assert_eq!(previous_set.frames().to_vec(), behind_frames);
            assert_eq!(previous_keyframe, 50);
        }
        _ => panic!("a frame inside the video is compared"),
    }
    assert!(matches!(cursor.next_task(51), AnalysisTask::Done));
    cursor.end_at(51);
    assert!(matches!(cursor.next_task(usize::MAX), AnalysisTask::Done));
}

#[test]
fn results_cover_no_more_than_was_read() {
    let results = DetectionResults {
        scene_changes: vec![0],
        scores: FrameMap::new(),
        frame_count: 90,
        speed: num(0.0),
    };
    let limited = limited_to_produced(results, 60);
    assert_eq!(limited.frame_count, 60);
    assert_eq!(limited.scene_changes, vec![0]);
    assert_eq!(limited_to_produced(limited, 100).frame_count, 60);
}

#[test]
fn left_worker_counts_until_both_agree() {
    // The second worker never decides as the first one does, so it never takes over.
    let opts = standard_options();
    let frames: usize = 400;
    let mut run = Reconciler::new(opts, vec![0, 200], frames);
    let mut steps: Vec<ParallelWorkerMessage> = Vec::new();
    for frame in 200..frames {
        steps.push(ParallelWorkerMessage::Frame {
            worker: 1,
            frame,
            decision: ParallelFrameDecision { is_scene_change: false, score: None },
        });
    }
    for frame in 0..frames {
        steps.push(ParallelWorkerMessage::Frame { worker: 0, frame, decision: verdict(frame) });
    }
    steps.push(ParallelWorkerMessage::Done { worker: 1, error: None });
    steps.push(ParallelWorkerMessage::Done { worker: 0, error: None });
    for message in steps {
        if run.is_complete() {
            break;
        }
        assert!(run.step(message).is_ok());
        for action in run.take_actions() {
            assert!(!matches!(action, ReconcileAction::Stop { .. }));
        }
    }
    assert!(run.is_complete());
    match run.finish() {
        Ok(results) => assert!(same_results(&results, &serial_run(opts, frames))),
        Err(_) => panic!("the first worker went to its end"),
    }
}

#[test]
fn video_may_end_before_its_announced_length() {
    let opts = standard_options();
    let mut run = Reconciler::new(opts, vec![0], 1000);
    for frame in 0..350 {
        assert!(run
            .step(ParallelWorkerMessage::Frame { worker: 0, frame, decision: verdict(frame) })
            .is_ok());
    }
    assert!(!run.is_complete());
    assert!(run.step(ParallelWorkerMessage::ReaderDone { frame_count: 350 }).is_ok());
    assert!(run.is_complete());
    match run.finish() {
        Ok(results) => {
            assert_eq!(results.frame_count, 350);
            assert_eq!(results.scene_changes, vec![0, 100, 200, 300]);
        }
        Err(_) => panic!("all frames were decided"),
    }
}
