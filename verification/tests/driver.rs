use ooosplat::checkpoint::{
    created_for, normalize_checkpoints, CheckpointProbe, FramePlanRecord, ImageSequenceRecord, PipelineCheckpoint,
    PipelineStage, ProjectInputType, ReconstructionQuality, ReconstructionReport,
    UntrainableReconstruction, VideoRecord,
};
use ooosplat::driver::{
    begin_run, next_action, pipeline_step, resume_refusal, resume_source_available,
    PipelineAction, PipelineEvent, PreparedFrames, ResumeRefusal, StepError,
};
use ooosplat::ply::{PlyError, PlyInfo};
use ooosplat::presets::{MapperBackend, Quality};
use ooosplat::driver::{check_recovery_source, recovered_reshoot_frames};
use ooosplat::reshoot::ReshootError;

fn report(registered: u64, input: u64) -> ReconstructionReport {
    ReconstructionReport {
        input_images: input,
        registered_images: registered,
        points_3d: 500,
        quality: ReconstructionQuality::Good,
    }
}

fn video_frames() -> PreparedFrames {
    PreparedFrames {
        input_type: ProjectInputType::Video,
        video: Some(VideoRecord {
            total_frames: 752,
            width: 3840,
            height: 2160,
            has_alpha: false,
        }),
        image_sequence: None,
        plan: FramePlanRecord {
            retention_ratio_bits: 0.5_f64.to_bits(),
            sampling_fps_bits: 22.5_f64.to_bits(),
            estimated_frames: 120,
        },
        extracted_frames: 120,
        image_format: "jpeg".to_string(),
        mask_count: 0,
        has_alpha: false,
    }
}

fn image_frames() -> PreparedFrames {
    PreparedFrames {
        input_type: ProjectInputType::Images,
        video: None,
        image_sequence: Some(ImageSequenceRecord {
            image_count: 40,
            width: 1920,
            height: 1080,
            has_alpha: false,
            requires_large_sequence_confirmation: false,
        }),
        plan: FramePlanRecord {
            retention_ratio_bits: 1.0_f64.to_bits(),
            sampling_fps_bits: 0,
            estimated_frames: 40,
        },
        extracted_frames: 40,
        image_format: "images".to_string(),
        mask_count: 0,
        has_alpha: false,
    }
}

fn step(state: &mut PipelineCheckpoint, event: PipelineEvent) -> PipelineAction {
    let (next, action) = pipeline_step(state, event);
    *state = next;
    action
}

fn trained(input_type: ProjectInputType) -> PipelineCheckpoint {
    let (mut state, action) = begin_run(created_for(Quality::Balanced, input_type), input_type);
    assert_eq!(action, PipelineAction::PrepareFrames);
    let prepared = match input_type {
        ProjectInputType::Video => video_frames(),
        ProjectInputType::Images => image_frames(),
    };
    let after_frames = step(&mut state, PipelineEvent::FramesPrepared(prepared));
    if after_frames == PipelineAction::RunFilter {
        step(
            &mut state,
            PipelineEvent::FilterDone {
                kept_frames: 60,
                config_hash: "hash".to_string(),
            },
        );
    }
    step(&mut state, PipelineEvent::StageDone(PipelineStage::ExtractingFeatures));
    step(&mut state, PipelineEvent::StageDone(PipelineStage::Matching));
    step(&mut state, PipelineEvent::MapperProbed { global_available: true });
    step(
        &mut state,
        PipelineEvent::GlobalMapped {
            succeeded: true,
            best: Some(report(90, 100)),
        },
    );
    step(&mut state, PipelineEvent::StageDone(PipelineStage::TrainingSplats));
    state
}

#[test]
fn a_fresh_video_run_walks_every_stage_in_order() {
    let (mut state, action) =
        begin_run(created_for(Quality::Balanced, ProjectInputType::Video), ProjectInputType::Video);
    assert_eq!(action, PipelineAction::PrepareFrames);
    assert_eq!(
        step(&mut state, PipelineEvent::FramesPrepared(video_frames())),
        PipelineAction::RunFilter
    );
    assert_eq!(state.stage, PipelineStage::ExtractingFrames);
    assert_eq!(state.video.unwrap().total_frames, 752);
    assert_eq!(
        step(
            &mut state,
            PipelineEvent::FilterDone {
                kept_frames: 60,
                config_hash: "hash".to_string(),
            }
        ),
        PipelineAction::ExtractFeatures
    );
    assert_eq!(state.frames.as_ref().unwrap().filtered_frames, Some(60));
    assert_eq!(
        step(&mut state, PipelineEvent::StageDone(PipelineStage::ExtractingFeatures)),
        PipelineAction::Match
    );
    assert_eq!(
        step(&mut state, PipelineEvent::StageDone(PipelineStage::Matching)),
        PipelineAction::ProbeMapper
    );
    assert_eq!(
        step(&mut state, PipelineEvent::MapperProbed { global_available: true }),
        PipelineAction::MapGlobal
    );
    // A global model below the 60% floor falls back to the incremental mapper.
    assert_eq!(
        step(
            &mut state,
            PipelineEvent::GlobalMapped {
                succeeded: true,
                best: Some(report(59, 100)),
            }
        ),
        PipelineAction::MapIncremental
    );
    assert!(!state.reconstruction_complete);
    assert_eq!(
        step(
            &mut state,
            PipelineEvent::IncrementalMapped {
                best: Some(report(80, 100)),
            }
        ),
        PipelineAction::Train
    );
    assert_eq!(state.mapper_backend, Some(MapperBackend::Incremental));
    assert_eq!(state.stage, PipelineStage::Reconstructing);
    assert_eq!(
        step(&mut state, PipelineEvent::StageDone(PipelineStage::TrainingSplats)),
        PipelineAction::Publish
    );
    let info = PlyInfo {
        file_size: 4096,
        splat_count: 12,
    };
    assert_eq!(
        step(&mut state, PipelineEvent::Published { output: Some(Ok(info)) }),
        PipelineAction::Done
    );
    assert_eq!(state.stage, PipelineStage::Completed);
    assert_eq!(next_action(&state), PipelineAction::Done);
}

#[test]
fn image_sequences_skip_the_smart_filter() {
    let (mut state, _) =
        begin_run(created_for(Quality::Balanced, ProjectInputType::Images), ProjectInputType::Images);
    assert_eq!(
        step(&mut state, PipelineEvent::FramesPrepared(image_frames())),
        PipelineAction::ExtractFeatures
    );
    assert!(state.filter_complete);
    assert_eq!(state.frames.as_ref().unwrap().filtered_frames, None);
    assert_eq!(state.image_sequence.unwrap().image_count, 40);
}

#[test]
fn the_engine_without_a_global_mapper_goes_straight_to_incremental() {
    let mut state = trained(ProjectInputType::Video);
    state.reconstruction_complete = false;
    state.brush_complete = false;
    assert_eq!(
        step(&mut state, PipelineEvent::MapperProbed { global_available: false }),
        PipelineAction::MapIncremental
    );
    assert_eq!(
        step(
            &mut state,
            PipelineEvent::GlobalMapped {
                succeeded: false,
                best: Some(report(100, 100)),
            }
        ),
        PipelineAction::MapIncremental
    );
}

#[test]
fn a_resumed_run_starts_at_the_first_missing_checkpoint() {
    let mut state = trained(ProjectInputType::Video);
    state.stage = PipelineStage::Failed;
    let probe = CheckpointProbe {
        legacy_filter_summary: false,
        frames_valid: true,
        filter_valid: true,
        database_nonempty: true,
        sparse_model_valid: false,
        brush_output_valid: true,
    };
    normalize_checkpoints(&mut state, probe);
    let (state, action) = begin_run(state, ProjectInputType::Video);
    assert_eq!(action, PipelineAction::ProbeMapper);
    assert!(state.features_complete && state.matching_complete);
}

#[test]
fn a_completed_training_checkpoint_only_publishes() {
    let mut state = trained(ProjectInputType::Images);
    state.stage = PipelineStage::Cancelled;
    let (mut state, action) = begin_run(state, ProjectInputType::Images);
    assert_eq!(action, PipelineAction::Publish);
    assert_eq!(
        step(&mut state, PipelineEvent::Published { output: None }),
        PipelineAction::Refuse(StepError::MissingBrushOutput)
    );
    assert_eq!(
        step(
            &mut state,
            PipelineEvent::Published {
                output: Some(Err(PlyError::NoVertices))
            }
        ),
        PipelineAction::Refuse(StepError::InvalidOutput(PlyError::NoVertices))
    );
    assert_eq!(state.stage, PipelineStage::Cancelled);
}

#[test]
fn the_incremental_mapper_is_the_last_resort() {
    let mut state = trained(ProjectInputType::Video);
    state.reconstruction_complete = false;
    state.brush_complete = false;
    assert_eq!(
        step(&mut state, PipelineEvent::IncrementalMapped { best: None }),
        PipelineAction::Refuse(StepError::NoSparseModel)
    );
    let refused = step(
        &mut state,
        PipelineEvent::IncrementalMapped {
            best: Some(report(10, 100)),
        },
    );
    assert_eq!(
        refused,
        PipelineAction::Refuse(StepError::Untrainable(UntrainableReconstruction {
            registered_images: 10,
            input_images: 100,
        }))
    );
    assert!(!state.reconstruction_complete);
}

#[test]
fn events_out_of_turn_and_foreign_checkpoints_are_refused() {
    let (mut state, _) =
        begin_run(created_for(Quality::Fast, ProjectInputType::Video), ProjectInputType::Video);
    let before = state.clone();
    assert_eq!(
        step(&mut state, PipelineEvent::StageDone(PipelineStage::Matching)),
        PipelineAction::Refuse(StepError::UnexpectedEvent)
    );
    assert_eq!(state, before);
    let (_, action) = begin_run(
        created_for(Quality::Fast, ProjectInputType::Video),
        ProjectInputType::Images,
    );
    assert_eq!(action, PipelineAction::Refuse(StepError::InputTypeMismatch));
    assert_eq!(
        StepError::InputTypeMismatch.message(),
        "项目输入类型与检查点不一致，无法安全继续"
    );
}

#[test]
fn preparing_frames_again_drops_every_later_checkpoint() {
    let mut state = trained(ProjectInputType::Video);
    let probe = CheckpointProbe {
        legacy_filter_summary: false,
        frames_valid: false,
        filter_valid: true,
        database_nonempty: true,
        sparse_model_valid: true,
        brush_output_valid: true,
    };
    normalize_checkpoints(&mut state, probe);
    let (mut state, action) = begin_run(state, ProjectInputType::Video);
    assert_eq!(action, PipelineAction::PrepareFrames);
    step(&mut state, PipelineEvent::FramesPrepared(video_frames()));
    assert!(!state.features_complete && !state.matching_complete);
    assert!(!state.reconstruction_complete && !state.brush_complete);
    assert_eq!(state.mapper_backend, Some(MapperBackend::Global));
}

#[test]
fn resume_checks_completion_source_and_preset_in_order() {
    assert_eq!(
        resume_refusal(true, false, Quality::Fast, Quality::High),
        Some(ResumeRefusal::AlreadyCompleted)
    );
    assert_eq!(
        resume_refusal(false, false, Quality::Fast, Quality::High),
        Some(ResumeRefusal::SourceMissing)
    );
    assert_eq!(
        resume_refusal(false, true, Quality::Fast, Quality::High),
        Some(ResumeRefusal::PresetMismatch)
    );
    assert_eq!(resume_refusal(false, true, Quality::High, Quality::High), None);
    assert_eq!(
        ResumeRefusal::PresetMismatch.message(),
        "项目档位与检查点不一致，无法安全继续"
    );
}

#[test]
fn a_resume_needs_the_kind_of_source_the_project_was_made_from() {
    assert!(resume_source_available(false, ProjectInputType::Video, true, true, false));
    assert!(!resume_source_available(false, ProjectInputType::Video, true, false, true));
    assert!(resume_source_available(false, ProjectInputType::Images, true, false, true));
    assert!(resume_source_available(true, ProjectInputType::Images, true, true, false));
    assert!(!resume_source_available(true, ProjectInputType::Video, false, false, false));
}

#[test]
fn a_resumed_reshoot_rebuilds_its_merged_frames() {
    assert_eq!(check_recovery_source(true), Ok(()));
    assert_eq!(check_recovery_source(false), Err(ReshootError::SourceFramesLost));
    assert_eq!(
        recovered_reshoot_frames(true, 30),
        Err(ReshootError::TransparentRecovery)
    );
    assert_eq!(
        ReshootError::TransparentRecovery.message(),
        "高清补拍恢复不支持透明素材"
    );
    let prepared = recovered_reshoot_frames(false, 30).unwrap();
    assert_eq!(prepared.input_type, ProjectInputType::Images);
    assert_eq!(prepared.extracted_frames, 30);
    assert_eq!(prepared.image_format, "merged");
    assert_eq!(prepared.image_sequence.unwrap().image_count, 30);
    assert_eq!(f64::from_bits(prepared.plan.retention_ratio_bits), 1.0);
    assert_eq!(f64::from_bits(prepared.plan.sampling_fps_bits), 0.0);
    assert_eq!(prepared.plan.estimated_frames, 30);

    let (mut state, _) =
        begin_run(created_for(Quality::Balanced, ProjectInputType::Images), ProjectInputType::Images);
    assert_eq!(
        step(&mut state, PipelineEvent::FramesPrepared(prepared)),
        PipelineAction::ExtractFeatures
    );
}
