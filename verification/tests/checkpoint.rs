use ooosplat::checkpoint::{
    best_sparse_model, checkpoint_stage, colmap_input_paths, created_for,
    ensure_trainable_reconstruction, filter_checkpoint_complete, global_mapper_fallback,
    mark_state_terminal,
    needs_view_graph_calibration, normalize_checkpoints, should_recover_publish,
    smart_filter_enabled, CheckpointProbe, FrameCheckpoint, PipelineCheckpoint, PipelineStage,
    GlobalMapperFallback, ProjectInputType, ReconstructionQuality, ReconstructionReport,
};
use ooosplat::checkpoint::{
    filter_step, frames_on_disk_match, record_filter_run, record_filter_skipped,
    frames_still_valid, reshoot_checkpoint, FilterStep, FramePlanRecord, ImageSequenceRecord,
    VideoRecord,
};
use ooosplat::frames::masks_pair_with_frames;
use ooosplat::presets::{MapperBackend, Quality};

fn frames(extracted: u64) -> FrameCheckpoint {
    FrameCheckpoint {
        plan: FramePlanRecord {
            retention_ratio_bits: 0.5_f64.to_bits(),
            sampling_fps_bits: 22.5_f64.to_bits(),
            estimated_frames: extracted,
        },
        extracted_frames: Some(extracted),
        image_format: Some("jpeg".into()),
        mask_count: Some(0),
        has_alpha: false,
        filtered_frames: None,
        filter_config_hash: None,
    }
}

fn video_state() -> PipelineCheckpoint {
    let mut state = created_for(Quality::Balanced, ProjectInputType::Video);
    state.video = Some(VideoRecord {
        total_frames: 30,
        width: 1920,
        height: 1080,
        has_alpha: false,
    });
    state
}

#[test]
fn reports_the_latest_durable_checkpoint_instead_of_terminal_status() {
    let mut state = video_state();
    state.stage = PipelineStage::Cancelled;
    assert_eq!(checkpoint_stage(&state), PipelineStage::Created);
    state.frames = Some(frames(100));
    state.features_complete = true;
    state.matching_complete = true;
    assert_eq!(checkpoint_stage(&state), PipelineStage::Matching);
    state.reconstruction_complete = true;
    state.brush_complete = true;
    assert_eq!(checkpoint_stage(&state), PipelineStage::TrainingSplats);
}

#[test]
fn terminal_state_preserves_every_checkpoint() {
    let mut state = video_state();
    state.frames = Some(frames(100));
    state.features_complete = true;
    state.matching_complete = true;
    state.reconstruction_complete = true;
    state.brush_complete = true;
    let failed = mark_state_terminal(state.clone(), false);
    let cancelled = mark_state_terminal(state, true);
    assert_eq!(failed.stage, PipelineStage::Failed);
    assert_eq!(cancelled.stage, PipelineStage::Cancelled);
    for terminal in [failed, cancelled] {
        assert_eq!(
            terminal.frames.as_ref().unwrap().extracted_frames,
            Some(100)
        );
        assert!(terminal.features_complete);
        assert!(terminal.matching_complete);
        assert!(terminal.reconstruction_complete);
        assert!(terminal.brush_complete);
    }
}

fn report(registered: u64, input: u64) -> ReconstructionReport {
    ReconstructionReport {
        input_images: input,
        registered_images: registered,
        points_3d: registered * 100,
        quality: ReconstructionQuality::Warning,
    }
}

#[test]
fn degenerate_reconstructions_never_reach_training() {
    let degenerate = report(2, 367);
    let error = ensure_trainable_reconstruction(&degenerate).unwrap_err();
    assert!(error.message().contains("注册率"), "{}", error.message());
    assert!(ensure_trainable_reconstruction(&report(0, 367)).is_err());
    assert!(ensure_trainable_reconstruction(&report(60, 100)).is_ok());
    assert!(ensure_trainable_reconstruction(&report(59, 100)).is_err());
    assert!(ensure_trainable_reconstruction(&report(295, 295)).is_ok());
}

#[test]
fn untrainable_message_names_the_registration_share() {
    let error = ensure_trainable_reconstruction(&report(2, 367)).unwrap_err();
    assert_eq!(
        error.message(),
        "重建注册率仅 0.5%（2 / 367 张图像），低于 60% 的可训练下限：两个重建后端都未达标。请检查素材清晰度与重叠度，或改用更充分的匹配参数后重试。"
    );
    let error = ensure_trainable_reconstruction(&report(59, 100)).unwrap_err();
    assert!(error.message().starts_with("重建注册率仅 59.0%（59 / 100 张图像）"));
    assert!(ensure_trainable_reconstruction(&report(0, 0)).is_err());
}

#[test]
fn view_graph_calibration_only_prepares_the_global_mapper() {
    assert!(needs_view_graph_calibration(MapperBackend::Global, true));
    assert!(!needs_view_graph_calibration(MapperBackend::Incremental, true));
    assert!(!needs_view_graph_calibration(MapperBackend::Global, false));
}

#[test]
fn pipeline_paths_select_filtered_video_and_raw_images() {
    let video = video_state();
    assert!(smart_filter_enabled(&video));
    assert_eq!(colmap_input_paths(&video).0, "../frames_filtered");
    assert_eq!(colmap_input_paths(&video).1, "../masks_filtered");
    let images = created_for(Quality::Balanced, ProjectInputType::Images);
    assert!(!smart_filter_enabled(&images));
    assert_eq!(colmap_input_paths(&images).0, "../frames");
    assert_eq!(colmap_input_paths(&images).1, "../masks");
}

fn probe() -> CheckpointProbe {
    CheckpointProbe {
        legacy_filter_summary: false,
        frames_valid: true,
        filter_valid: true,
        database_nonempty: true,
        sparse_model_valid: true,
        brush_output_valid: true,
    }
}

#[test]
fn empty_colmap_database_downgrades_the_feature_checkpoint() {
    let mut state = video_state();
    state.frames = Some(frames(1));
    state.features_complete = true;
    state.matching_complete = true;
    normalize_checkpoints(
        &mut state,
        CheckpointProbe {
            database_nonempty: false,
            ..probe()
        },
    );
    assert!(!state.features_complete);
    assert!(!state.matching_complete);
    assert_eq!(state.stage, PipelineStage::ExtractingFrames);
}

#[test]
fn invalid_filter_checkpoint_invalidates_features_without_invalidating_raw_frames() {
    let mut state = video_state();
    let mut recorded = frames(1);
    recorded.filtered_frames = Some(1);
    recorded.filter_config_hash = Some("stale".into());
    state.frames = Some(recorded);
    state.features_complete = true;
    state.matching_complete = true;
    normalize_checkpoints(
        &mut state,
        CheckpointProbe {
            filter_valid: false,
            ..probe()
        },
    );
    assert!(state.frames.is_some());
    assert!(!state.filter_complete);
    assert!(!state.features_complete);
    assert!(!state.matching_complete);
}

#[test]
fn legacy_overwritten_filter_checkpoint_forces_raw_reextraction() {
    let mut state = video_state();
    state.frames = Some(frames(1));
    state.features_complete = true;
    normalize_checkpoints(
        &mut state,
        CheckpointProbe {
            legacy_filter_summary: true,
            ..probe()
        },
    );
    assert!(state.frames.is_none());
    assert!(!state.filter_complete);
    assert!(!state.features_complete);
}

#[test]
fn intact_checkpoints_survive_normalisation() {
    let mut state = video_state();
    state.frames = Some(frames(4));
    state.features_complete = true;
    state.matching_complete = true;
    state.reconstruction_complete = true;
    state.brush_complete = true;
    state.mapper_backend = Some(MapperBackend::Global);
    normalize_checkpoints(&mut state, probe());
    assert!(state.filter_complete && state.brush_complete);
    assert_eq!(state.stage, PipelineStage::TrainingSplats);
    normalize_checkpoints(
        &mut state,
        CheckpointProbe {
            sparse_model_valid: false,
            ..probe()
        },
    );
    assert!(state.matching_complete);
    assert!(!state.reconstruction_complete && !state.brush_complete);
    assert_eq!(state.stage, PipelineStage::Matching);
}

#[test]
fn image_inputs_treat_filter_completion_as_raw_frame_completion() {
    let mut state = created_for(Quality::Balanced, ProjectInputType::Images);
    let mut recorded = frames(1);
    recorded.image_format = Some("images".into());
    state.frames = Some(recorded);
    assert!(filter_checkpoint_complete(&state, "unused", 0, false));
}

#[test]
fn filter_checkpoint_requires_matching_hash_and_directory_count() {
    let mut state = video_state();
    let mut recorded = frames(2);
    recorded.filtered_frames = Some(1);
    recorded.filter_config_hash = Some("hash-2".into());
    state.frames = Some(recorded);
    assert!(filter_checkpoint_complete(&state, "hash-2", 1, false));
    assert!(!filter_checkpoint_complete(&state, "hash-3", 1, false));
    assert!(!filter_checkpoint_complete(&state, "hash-2", 2, false));
    state.frames = None;
    assert!(!filter_checkpoint_complete(&state, "hash-2", 1, false));
}

#[test]
fn alpha_filter_checkpoint_requires_exact_mask_pairing() {
    let mut state = video_state();
    let mut recorded = frames(1);
    recorded.has_alpha = true;
    recorded.mask_count = Some(1);
    recorded.filtered_frames = Some(1);
    recorded.filter_config_hash = Some("hash-1".into());
    state.frames = Some(recorded);
    let frame_names = vec!["frame_000001.png".to_string()];
    let stray_mask = vec!["frame_999999.png.png".to_string()];
    let own_mask = vec!["frame_000001.png.png".to_string()];
    let masks_match = masks_pair_with_frames(&frame_names, &stray_mask);
    assert!(!filter_checkpoint_complete(&state, "hash-1", 1, masks_match));
    let masks_match = masks_pair_with_frames(&frame_names, &own_mask);
    assert!(filter_checkpoint_complete(&state, "hash-1", 1, masks_match));
}

#[test]
fn interrupted_publish_restores_a_valid_orphan_as_a_brush_checkpoint() {
    let mut state = video_state();
    state.brush_complete = true;
    assert!(should_recover_publish(&state, false));
    assert!(!should_recover_publish(&state, true));
    state.stage = PipelineStage::Completed;
    assert!(!should_recover_publish(&state, false));
}

#[test]
fn the_model_that_registered_most_images_wins() {
    assert_eq!(best_sparse_model(&[]), None);
    assert_eq!(best_sparse_model(&[None, None]), None);
    assert_eq!(best_sparse_model(&[Some(3), None, Some(9), Some(9)]), Some(2));
    assert_eq!(best_sparse_model(&[None, Some(0)]), Some(1));
}

#[test]
fn global_mapper_keeps_a_model_that_meets_the_floor() {
    assert_eq!(global_mapper_fallback(true, Some(report(60, 100))), None);
    assert_eq!(global_mapper_fallback(true, Some(report(100, 100))), None);
}

#[test]
fn global_mapper_falls_back_below_the_floor_or_without_a_model() {
    assert_eq!(
        global_mapper_fallback(true, Some(report(59, 100))),
        Some(GlobalMapperFallback::BelowFloor)
    );
    assert_eq!(
        global_mapper_fallback(true, None),
        Some(GlobalMapperFallback::BelowFloor)
    );
    assert_eq!(
        GlobalMapperFallback::BelowFloor.reason(),
        "global_mapper 输出无效或注册率低于 60%"
    );
}

#[test]
fn a_failed_global_mapper_run_always_falls_back() {
    assert_eq!(
        global_mapper_fallback(false, Some(report(100, 100))),
        Some(GlobalMapperFallback::Failed)
    );
    assert_eq!(GlobalMapperFallback::Failed.reason(), "global_mapper 执行失败");
}

#[test]
fn image_inputs_skip_the_smart_filter() {
    let mut state = created_for(Quality::Balanced, ProjectInputType::Images);
    state.frames = Some(frames(1));
    assert_eq!(filter_step(&state, false), FilterStep::Skip);
}

#[test]
fn filtering_preserves_raw_frames_and_extracted_count() {
    let mut state = video_state();
    state.frames = Some(frames(4));
    assert_eq!(filter_step(&state, false), FilterStep::Run);
    record_filter_run(&mut state, 2, "abc".to_string());
    let recorded = state.frames.as_ref().unwrap();
    assert_eq!(recorded.extracted_frames, Some(4));
    assert_eq!(recorded.filtered_frames, Some(2));
    assert_eq!(recorded.filter_config_hash.as_deref(), Some("abc"));
    assert!(state.filter_complete);
    assert!(filter_checkpoint_complete(&state, "abc", 2, false));
    assert_eq!(filter_step(&state, true), FilterStep::Reuse);
}

#[test]
fn skipping_the_filter_clears_its_record() {
    let mut state = created_for(Quality::Balanced, ProjectInputType::Images);
    let mut recorded = frames(6);
    recorded.filtered_frames = Some(3);
    recorded.filter_config_hash = Some("old".into());
    state.frames = Some(recorded);
    record_filter_skipped(&mut state);
    let frames = state.frames.as_ref().unwrap();
    assert_eq!(frames.filtered_frames, None);
    assert_eq!(frames.filter_config_hash, None);
    assert_eq!(frames.extracted_frames, Some(6));
    assert!(state.filter_complete);
}

#[test]
fn reused_frames_must_match_what_was_recorded() {
    let recorded = frames(10);
    assert!(frames_on_disk_match(&recorded, 10, Some("jpeg"), 0));
    assert!(frames_on_disk_match(&recorded, 10, None, 0));
    assert!(!frames_on_disk_match(&recorded, 9, Some("jpeg"), 0));
    assert!(!frames_on_disk_match(&recorded, 10, Some("png"), 0));
    assert!(!frames_on_disk_match(&recorded, 10, Some("jpeg"), 1));
    assert!(!frames_on_disk_match(&frames(0), 0, Some("jpeg"), 0));
    let mut unrecorded = frames(10);
    unrecorded.image_format = None;
    unrecorded.mask_count = None;
    assert!(frames_on_disk_match(&unrecorded, 10, Some("png"), 7));
}

#[test]
fn a_reshoot_project_starts_from_its_merged_frames() {
    let state = reshoot_checkpoint(Quality::High, 40, 12, 50);
    let sequence = state.image_sequence.unwrap();
    assert_eq!(sequence.image_count, 52);
    assert!(sequence.requires_large_sequence_confirmation);
    assert!(state.video.is_none());
    assert!(
        !reshoot_checkpoint(Quality::High, 40, 12, 52)
            .image_sequence
            .unwrap()
            .requires_large_sequence_confirmation
    );
    assert_eq!(state.preset, Quality::High);
    assert_eq!(state.input_type, ProjectInputType::Images);
    assert_eq!(state.stage, PipelineStage::ExtractingFrames);
    let frames = state.frames.as_ref().unwrap();
    assert_eq!(frames.extracted_frames, Some(52));
    assert_eq!(frames.plan.retention_ratio_bits, 1.0_f64.to_bits());
    assert_eq!(frames.plan.sampling_fps_bits, 0.0_f64.to_bits());
    assert_eq!(frames.plan.estimated_frames, 52);
    assert_eq!(frames.image_format.as_deref(), Some("merged"));
    assert_eq!(frames.mask_count, Some(0));
    assert!(!frames.has_alpha);
    assert!(!state.features_complete && !state.brush_complete);
    assert_eq!(checkpoint_stage(&state), PipelineStage::ExtractingFrames);
}

#[test]
fn frame_checkpoint_requires_every_recorded_frame() {
    let mut recorded = frames(2);
    recorded.image_format = Some("jpeg".into());
    assert!(frames_on_disk_match(&recorded, 2, Some("jpeg"), 0));
    // One of the two recorded frames went missing.
    assert!(!frames_on_disk_match(&recorded, 1, Some("jpeg"), 0));
}

#[test]
fn image_sequence_checkpoint_requires_every_image_and_mask() {
    let mut recorded = frames(2);
    recorded.image_format = Some("images".into());
    recorded.mask_count = Some(2);
    recorded.has_alpha = true;
    assert!(frames_on_disk_match(&recorded, 2, None, 2));
    // A mask went missing.
    assert!(!frames_on_disk_match(&recorded, 2, None, 1));
}

#[test]
fn transparent_frame_checkpoint_requires_matching_masks() {
    let mut recorded = frames(1);
    recorded.image_format = Some("png".into());
    recorded.mask_count = Some(1);
    recorded.has_alpha = true;
    assert!(frames_on_disk_match(&recorded, 1, Some("png"), 1));
    assert!(!frames_on_disk_match(&recorded, 1, Some("png"), 0));
}

#[test]
fn normalizing_again_keeps_what_the_first_pass_kept() {
    let mut state = video_state();
    state.frames = Some(frames(12));
    state.features_complete = true;
    state.matching_complete = true;
    state.reconstruction_complete = true;
    state.brush_complete = true;
    let damaged = CheckpointProbe {
        sparse_model_valid: false,
        ..probe()
    };
    normalize_checkpoints(&mut state, damaged);
    let once = state.clone();
    normalize_checkpoints(&mut state, damaged);
    assert_eq!(state, once);
    assert!(state.matching_complete && !state.reconstruction_complete);
    assert_eq!(state.stage, PipelineStage::Matching);
}

#[test]
fn dropped_frames_take_their_source_record_with_them() {
    let mut state = video_state();
    state.video = Some(VideoRecord {
        total_frames: 30,
        width: 1920,
        height: 1080,
        has_alpha: false,
    });
    state.frames = Some(frames(2));
    let kept = state.clone();
    normalize_checkpoints(&mut state, probe());
    assert_eq!(state.video, kept.video);
    let missing = CheckpointProbe {
        frames_valid: false,
        ..probe()
    };
    normalize_checkpoints(&mut state, missing);
    assert_eq!(state.frames, None);
    assert_eq!(state.video, None);
    assert_eq!(state.image_sequence, None);
}

#[test]
fn frame_checkpoint_is_invalidated_when_the_frame_plan_changes() {
    let mut state = video_state();
    state.frames = Some(frames(1));
    // The recorded sampling rate no longer matches the one the preset gives.
    assert!(!frames_still_valid(&state, 1, Some("jpeg"), 0, false));
    assert!(frames_still_valid(&state, 1, Some("jpeg"), 0, true));
}

#[test]
fn frames_without_their_source_record_are_not_reused() {
    let mut state = video_state();
    state.frames = Some(frames(2));
    assert!(frames_still_valid(&state, 2, Some("jpeg"), 0, true));
    state.video = None;
    assert!(!frames_still_valid(&state, 2, Some("jpeg"), 0, true));
    state.features_complete = true;
    normalize_checkpoints(&mut state, probe());
    assert_eq!(state.frames, None);
    assert!(!state.features_complete);

    let mut images = created_for(Quality::Balanced, ProjectInputType::Images);
    images.frames = Some(frames(2));
    assert!(!frames_still_valid(&images, 2, None, 0, true));
    images.image_sequence = Some(ImageSequenceRecord {
        image_count: 2,
        width: 1920,
        height: 1080,
        has_alpha: false,
        requires_large_sequence_confirmation: false,
    });
    assert!(frames_still_valid(&images, 2, None, 0, false));
}
