use ooosplat::progress::{
    brush_progress_message, format_duration, friendly_engine_line, is_useful_line, parse_bracket_progress,
    parse_ffmpeg_frame, parse_mapper_progress, MapperProgress,
};
use ooosplat::progress::{
    extraction_message, image_preparation_message, observe_line, FilterSummary, ObservedLine,
    ObserverMode,
};
use ooosplat::checkpoint::PipelineStage;
use ooosplat::progress::{observer_event, EventKind, EventUnit, PipelineEngine, StageShare};

#[test]
fn parses_ffmpeg_progress() {
    assert_eq!(parse_ffmpeg_frame("frame=127"), Some(127));
    assert_eq!(parse_ffmpeg_frame("progress=continue"), None);
}

#[test]
fn ffmpeg_frame_counts_are_trimmed_and_strict() {
    assert_eq!(parse_ffmpeg_frame("frame=  42 "), Some(42));
    assert_eq!(parse_ffmpeg_frame("frame=+7"), Some(7));
    assert_eq!(parse_ffmpeg_frame("frame="), None);
    assert_eq!(parse_ffmpeg_frame("frame=-1"), None);
    assert_eq!(parse_ffmpeg_frame("frame=18446744073709551616"), None);
    assert_eq!(
        parse_ffmpeg_frame("frame=18446744073709551615"),
        Some(u64::MAX)
    );
    assert_eq!(parse_ffmpeg_frame(" frame=3"), None);
}

#[test]
fn parses_colmap_file_progress() {
    assert_eq!(
        parse_bracket_progress("Processed file [23/533]"),
        Some((23, 533))
    );
    assert_eq!(
        parse_bracket_progress("Processing image [4/10]"),
        Some((4, 10))
    );
}

#[test]
fn bracket_progress_needs_both_counts() {
    assert_eq!(parse_bracket_progress("Matching block [ 1 / 2 ] done"), Some((1, 2)));
    assert_eq!(parse_bracket_progress("no brackets"), None);
    assert_eq!(parse_bracket_progress("[12]"), None);
    assert_eq!(parse_bracket_progress("[a/2]"), None);
    assert_eq!(parse_bracket_progress("[3/4"), None);
    assert_eq!(parse_bracket_progress("x [1/2] [3/4]"), Some((1, 2)));
}

fn registered(progress: Option<MapperProgress>) -> (u64, Option<u64>, String) {
    match progress {
        Some(MapperProgress::Registered {
            current,
            total,
            message,
        }) => (current, total, message),
        Some(MapperProgress::Stage { .. }) => panic!("expected a registration count"),
        None => panic!("expected a registration count"),
    }
}

#[test]
fn parses_mapper_registration() {
    let mut counter = 0;
    let parsed = parse_mapper_progress(
        "Registering image #90 (num_reg_frames=86)",
        &mut counter,
        Some(100),
    );
    assert_eq!(registered(parsed).0, 86);
    assert_eq!(counter, 86);
}

#[test]
fn parses_global_mapper_stages_as_progress() {
    let mut counter = 0;
    let expected = [
        "I20260913 03:56:56.504001 32524 global_mapper.cc:465] === Running rotation averaging ===",
        "I20260913 03:56:56.504001 32524 global_mapper.cc:477] === Running track establishment ===",
        "I20260913 03:56:56.504001 32524 global_mapper.cc:487] === Running global positioning ===",
        "I20260913 03:56:56.504001 32524 global_mapper.cc:502] === Running iterative bundle adjustment ===",
        "I20260913 03:56:56.504001 32524 global_mapper.cc:519] === Running iterative retriangulation and refinement ===",
    ];
    let mut previous = 0_u32;
    let mut first = true;
    for line in expected {
        let Some(MapperProgress::Stage { percent, .. }) =
            parse_mapper_progress(line, &mut counter, Some(295))
        else {
            panic!("global mapper stage line was not recognised: {line}");
        };
        assert!(first || percent > previous, "stage progress must advance: {line}");
        first = false;
        previous = percent;
    }
    assert!(previous < 100, "the stage walk must leave room for completion");
    assert!(parse_mapper_progress("Loading images...", &mut counter, None).is_none());
}

#[test]
fn mapper_refinement_keeps_the_latest_registered_count() {
    let mut counter = 0;
    parse_mapper_progress(
        "Registering image #90 (num_reg_frames=86)",
        &mut counter,
        Some(100),
    )
    .unwrap();
    let (current, total, message) = registered(parse_mapper_progress(
        "Retriangulation and Global bundle adjustment",
        &mut counter,
        Some(100),
    ));
    assert_eq!(current, 86);
    assert_eq!(total, Some(100));
    assert_eq!(message, "Retriangulation and Global bundle adjustment");
    let (current, total, _) = registered(parse_mapper_progress(
        "Global bundle adjustment",
        &mut counter,
        Some(100),
    ));
    assert_eq!(current, 86);
    assert_eq!(total, Some(100));
}

#[test]
fn mapper_refinement_without_a_registration_count_stays_indeterminate() {
    let mut counter = 0;
    assert!(parse_mapper_progress(
        "Retriangulation and Global bundle adjustment",
        &mut counter,
        Some(100),
    )
    .is_none());
}

#[test]
fn mapper_registration_count_only_moves_forward() {
    let mut counter = 0;
    parse_mapper_progress("num_reg_frames=86", &mut counter, Some(100)).unwrap();
    parse_mapper_progress("num_reg_frames=91", &mut counter, Some(100)).unwrap();
    parse_mapper_progress("num_reg_frames=89", &mut counter, Some(100)).unwrap();
    let (current, _, _) = registered(parse_mapper_progress(
        "Retriangulation and Global bundle adjustment",
        &mut counter,
        Some(100),
    ));
    assert_eq!(current, 91);
}

#[test]
fn bare_registration_lines_count_one_by_one() {
    let mut counter = 3;
    let (current, total, message) = registered(parse_mapper_progress(
        "Registering image #17",
        &mut counter,
        None,
    ));
    assert_eq!(current, 4);
    assert_eq!(total, None);
    assert_eq!(message, "正在注册第 4 张图像");
    let (_, _, message) = registered(parse_mapper_progress(
        "num_reg_frames = 12 images",
        &mut counter,
        None,
    ));
    assert_eq!(message, "已注册 12 张图像");
    assert_eq!(counter, 12);
}

#[test]
fn stage_banners_carry_their_share_and_label() {
    let mut counter = 5;
    match parse_mapper_progress("=== Running global positioning ===", &mut counter, None) {
        Some(MapperProgress::Stage { percent, message }) => {
            assert_eq!(percent, 30);
            assert_eq!(message, "全局重建：全局定位（最耗时）");
        }
        _ => panic!("expected a stage"),
    }
    assert_eq!(counter, 5);
}

#[test]
fn useful_lines_are_recognised_without_regard_to_case() {
    assert!(is_useful_line("Bundle adjustment report"));
    assert!(is_useful_line("WARNING: low overlap"));
    assert!(is_useful_line("Elapsed time: 0.1 [minutes]"));
    assert!(!is_useful_line("Processing..."));
}

#[test]
fn engine_lines_are_trimmed_and_capped() {
    assert_eq!(friendly_engine_line("  hello  \n"), "hello");
    let long = "界".repeat(400);
    let shown = friendly_engine_line(&long);
    assert_eq!(shown.chars().count(), 361);
    assert!(shown.ends_with('…'));
    let exact = "a".repeat(360);
    assert_eq!(friendly_engine_line(&exact), exact);
}

#[test]
fn durations_are_shown_as_clock_time() {
    assert_eq!(format_duration(0), "00:00:00");
    assert_eq!(format_duration(61_999), "00:01:01");
    assert_eq!(format_duration(3_723_000), "01:02:03");
    assert_eq!(format_duration(360_000_000), "100:00:00");
}

#[test]
fn brush_progress_message_names_an_overrun_estimate() {
    // Inside the estimate the bar carries the percentage.
    let within = brush_progress_message(30_000, 144_000, 20);
    assert!(within.contains("估算进度 20%"), "{within}");

    // Past the estimate the bar is pinned at 95%, so the message has to say
    // the run is over budget rather than looking frozen.
    let overrun = brush_progress_message(300_000, 144_000, 95);
    assert!(overrun.contains("已超过预估时间"), "{overrun}");
    assert!(!overrun.contains("估算进度"), "{overrun}");

    // An unknown estimate must not be reported as an overrun.
    let unknown = brush_progress_message(300_000, 0, 0);
    assert!(!unknown.contains("已超过预估时间"), "{unknown}");
}

#[test]
fn brush_progress_message_spells_out_the_elapsed_time() {
    assert_eq!(
        brush_progress_message(3_723_000, 7_200_000, 49),
        "Brush 训练中 · 估算进度 49% · 已用时 01:02:03"
    );
    assert_eq!(
        brush_progress_message(144_001, 144_000, 95),
        "Brush 训练中 · 已超过预估时间 · 已用时 00:02:24（训练仍在继续，可查看日志确认）"
    );
}

#[test]
fn ffmpeg_lines_report_the_frames_written() {
    let mut counter = 0;
    match observe_line(ObserverMode::Ffmpeg, "frame=42", &mut counter, Some(100)) {
        ObservedLine::Progress(MapperProgress::Registered { current, total, message }) => {
            assert_eq!(current, 42);
            assert_eq!(total, Some(100));
            assert_eq!(message, "FFmpeg 已输出 42 帧");
        }
        _ => panic!("expected a frame count"),
    }
    assert_eq!(counter, 0);
}

#[test]
fn bracket_lines_report_their_own_total() {
    let mut counter = 0;
    match observe_line(
        ObserverMode::BracketProgress,
        "  Processed file [3/10]  ",
        &mut counter,
        Some(99),
    ) {
        ObservedLine::Progress(MapperProgress::Registered { current, total, message }) => {
            assert_eq!((current, total), (3, Some(10)));
            assert_eq!(message, "Processed file [3/10]");
        }
        _ => panic!("expected a bracket counter"),
    }
}

#[test]
fn mapper_lines_move_the_registration_counter() {
    let mut counter = 4;
    match observe_line(
        ObserverMode::Mapper,
        "Registering image #17",
        &mut counter,
        Some(20),
    ) {
        ObservedLine::Progress(MapperProgress::Registered { current, total, .. }) => {
            assert_eq!((current, total), (5, Some(20)))
        }
        _ => panic!("expected a registration"),
    }
    assert_eq!(counter, 5);
}

#[test]
fn other_lines_are_logged_only_when_useful_or_from_brush() {
    let mut counter = 0;
    assert!(matches!(
        observe_line(ObserverMode::BracketProgress, "", &mut counter, None),
        ObservedLine::Quiet
    ));
    assert!(matches!(
        observe_line(ObserverMode::BracketProgress, "reading images", &mut counter, None),
        ObservedLine::Quiet
    ));
    match observe_line(ObserverMode::Mapper, " WARNING: low overlap ", &mut counter, None) {
        ObservedLine::Log(line) => assert_eq!(line, "WARNING: low overlap"),
        _ => panic!("a warning is worth logging"),
    }
    match observe_line(ObserverMode::Brush, " loading ", &mut counter, None) {
        ObservedLine::Log(line) => assert_eq!(line, "loading"),
        _ => panic!("Brush output is always logged"),
    }
    assert_eq!(counter, 0);
}

#[test]
fn filter_summaries_report_every_reason() {
    let summary = FilterSummary {
        total_frames: 120,
        kept_frames: 40,
        rejected_blur: 30,
        rejected_exposure: 5,
        rejected_redundant: 45,
        forced_keeps: 12,
    };
    assert_eq!(
        summary.message(),
        "已智能筛选 40 / 120 帧（模糊 30 · 曝光 5 · 冗余 45 · 兜底 12）"
    );
    assert!(!summary.too_many_forced_keeps());
    let worse = FilterSummary {
        forced_keeps: 13,
        ..summary
    };
    assert!(worse.too_many_forced_keeps());
}

#[test]
fn preparation_lines_mention_masks_only_with_transparency() {
    assert_eq!(extraction_message(48, 0, false), "已提取 48 帧");
    assert_eq!(
        extraction_message(48, 48, true),
        "已提取 48 张透明 PNG 和 48 张 Mask"
    );
    assert_eq!(image_preparation_message(9, 0, false), "已准备 9 张图片");
    assert_eq!(
        image_preparation_message(9, 9, true),
        "已准备 9 张图片和 9 张 Mask"
    );
}

#[test]
fn an_ffmpeg_frame_line_becomes_one_progress_event() {
    let mut counter = 0;
    let observed = observe_line(ObserverMode::Ffmpeg, "frame=42", &mut counter, Some(120));
    let event = observer_event(
        PipelineStage::ExtractingFrames,
        PipelineEngine::Ffmpeg,
        ObserverMode::Ffmpeg,
        observed,
        Some(120),
        0,
    )
    .unwrap();
    assert_eq!(event.stage, PipelineStage::ExtractingFrames);
    assert_eq!(event.engine, PipelineEngine::Ffmpeg);
    assert_eq!(event.kind, EventKind::Progress);
    assert_eq!(event.share, Some(StageShare::Count { done: 42, of: 120 }));
    assert!(!event.indeterminate);
    assert_eq!(event.message, "FFmpeg 已输出 42 帧");
    assert_eq!((event.current, event.total), (Some(42), Some(120)));
    assert_eq!(event.unit.map(|unit| unit.name()), Some("张"));

    let quiet = observe_line(ObserverMode::Ffmpeg, "", &mut counter, Some(120));
    assert!(observer_event(
        PipelineStage::ExtractingFrames,
        PipelineEngine::Ffmpeg,
        ObserverMode::Ffmpeg,
        quiet,
        Some(120),
        0
    )
    .is_none());
}

#[test]
fn log_lines_carry_brushs_estimate_only_for_brush() {
    let mut counter = 0;
    let line = observe_line(ObserverMode::Brush, "step 10", &mut counter, Some(30_000));
    let event = observer_event(
        PipelineStage::TrainingSplats,
        PipelineEngine::Brush,
        ObserverMode::Brush,
        line,
        Some(30_000),
        2_500,
    )
    .unwrap();
    assert_eq!(event.kind, EventKind::Log);
    assert_eq!(event.share, Some(StageShare::BasisPoints(2_500)));
    assert!(!event.indeterminate);
    assert_eq!(event.unit, Some(EventUnit::EstimatedProgress));

    let warning = observe_line(ObserverMode::Mapper, "Warning: slow", &mut counter, None);
    let event = observer_event(
        PipelineStage::Reconstructing,
        PipelineEngine::Colmap,
        ObserverMode::Mapper,
        warning,
        Some(80),
        0,
    )
    .unwrap();
    assert_eq!(event.share, None);
    assert!(event.indeterminate);
    assert_eq!(event.total, Some(80));
    assert_eq!(event.unit, None);
}

#[test]
fn mapper_stages_carry_their_percentage() {
    let mut counter = 0;
    let line = observe_line(
        ObserverMode::Mapper,
        "=== Running global positioning ===",
        &mut counter,
        Some(80),
    );
    let event = observer_event(
        PipelineStage::Reconstructing,
        PipelineEngine::Colmap,
        ObserverMode::Mapper,
        line,
        Some(80),
        0,
    )
    .unwrap();
    assert_eq!(event.share, Some(StageShare::Percent(30)));
    assert!(!event.indeterminate);
    assert_eq!(event.current, None);
    assert_eq!(event.total, Some(80));
}
