//! The pipeline's decisions between its outside steps: which stage runs next
//! on a (possibly resumed) checkpoint, what each finished step records, when
//! the mapper falls back, and when a run or a resume is refused.
//!
//! The caller performs each action (extracting frames, running COLMAP or
//! Brush, publishing the PLY), reports what came of it as an event, and gets
//! back the updated checkpoint and the next action.
use vstd::prelude::*;

use crate::checkpoint::{
    checkpoint_stage_spec, checkpoints_chained, lemma_normalize_only_downgrades,
    meets_registration_floor, normalize_spec, record_filter_run, record_filter_skipped,
    registration_floor_met, smart_filter_enabled, smart_filter_enabled_spec, with_filter_record,
    CheckpointProbe, FrameCheckpoint, FramePlanRecord, ONE_BITS, ImageSequenceRecord, PipelineCheckpoint, PipelineStage,
    ProjectInputType, ReconstructionReport, UntrainableReconstruction, VideoRecord,
};
use crate::ply::{PlyError, PlyInfo};
use crate::reshoot::ReshootError;
use crate::presets::{backend_spec, preset_spec, MapperBackend, Quality};

verus! {

/// Frames made ready for COLMAP, fresh from the source.
#[derive(Debug, Clone, PartialEq, Eq)]
pub struct PreparedFrames {
    pub input_type: ProjectInputType,
    pub video: Option<VideoRecord>,
    pub image_sequence: Option<ImageSequenceRecord>,
    /// The plan the frames were extracted under.
    pub plan: FramePlanRecord,
    pub extracted_frames: u64,
    pub image_format: String,
    pub mask_count: u64,
    pub has_alpha: bool,
}

/// Why a run stops on a decision of its own rather than an engine failure.
#[derive(Debug, Clone, Copy, PartialEq, Eq, Structural)]
pub enum StepError {
    /// The checkpoint was written for another kind of input.
    InputTypeMismatch,
    /// A step reported an outcome that the run did not ask for.
    UnexpectedEvent,
    /// COLMAP left no sparse model that validates.
    NoSparseModel,
    /// The reconstruction is too degenerate to train on.
    Untrainable(UntrainableReconstruction),
    /// The Brush checkpoint names an output that is gone.
    MissingBrushOutput,
    /// Brush's output is not a usable Gaussian PLY.
    InvalidOutput(PlyError),
}

impl StepError {
    /// The message shown to the user.
    pub fn message(&self) -> (s: String)
        ensures
            s@ == step_error_message(*self),
    {
        match self {
            StepError::InputTypeMismatch => String::from_str("项目输入类型与检查点不一致，无法安全继续"),
            StepError::UnexpectedEvent => String::from_str("流水线收到与当前步骤不符的结果"),
            StepError::NoSparseModel => String::from_str("COLMAP 未生成完整的稀疏模型"),
            StepError::Untrainable(e) => e.message(),
            StepError::MissingBrushOutput => String::from_str("Brush 检查点文件缺失，无法继续发布"),
            StepError::InvalidOutput(e) => e.message(),
        }
    }
}

pub open spec fn step_error_message(e: StepError) -> Seq<char> {
    match e {
        StepError::InputTypeMismatch => "项目输入类型与检查点不一致，无法安全继续"@,
        StepError::UnexpectedEvent => "流水线收到与当前步骤不符的结果"@,
        StepError::NoSparseModel => "COLMAP 未生成完整的稀疏模型"@,
        StepError::Untrainable(u) => crate::checkpoint::untrainable_message(u),
        StepError::MissingBrushOutput => "Brush 检查点文件缺失，无法继续发布"@,
        StepError::InvalidOutput(p) => crate::ply::ply_error_message(p),
    }
}

/// What the caller does next.
#[derive(Debug, Clone, Copy, PartialEq, Eq, Structural)]
pub enum PipelineAction {
    /// Extract (video) or prepare (images) the frames afresh.
    PrepareFrames,
    /// Run the smart filter over the frames.
    RunFilter,
    ExtractFeatures,
    Match,
    /// Ask COLMAP whether it has the global mapper.
    ProbeMapper,
    MapGlobal,
    MapIncremental,
    Train,
    /// Validate Brush's output and publish it as the final PLY.
    Publish,
    Done,
    Refuse(StepError),
}

/// What came of the last action.
pub enum PipelineEvent {
    FramesPrepared(PreparedFrames),
    /// The smart filter kept `kept_frames` frames under the configuration
    /// whose hash is `config_hash`.
    FilterDone { kept_frames: u64, config_hash: String },
    /// Feature extraction, matching or training finished.
    StageDone(PipelineStage),
    MapperProbed { global_available: bool },
    /// The global mapper ran; `best` is the best model that validated.
    GlobalMapped { succeeded: bool, best: Option<ReconstructionReport> },
    /// The incremental mapper ran; `best` is the best model that validated.
    IncrementalMapped { best: Option<ReconstructionReport> },
    /// Publishing looked for Brush's output (`None` when there is none) and
    /// validated it.
    Published { output: Option<Result<PlyInfo, PlyError>> },
}

/// Where the smart filter does not apply, the filter step is complete with
/// nothing recorded, on every run.
pub open spec fn settle_filter(state: PipelineCheckpoint) -> PipelineCheckpoint {
    if state.frames is Some && !smart_filter_enabled_spec(state) {
        with_filter_record(state, None, None)
    } else {
        state
    }
}

/// The first stage whose checkpoint is missing, in pipeline order.
pub open spec fn next_action_spec(state: PipelineCheckpoint) -> PipelineAction {
    if state.frames is None {
        PipelineAction::PrepareFrames
    } else if !state.filter_complete {
        PipelineAction::RunFilter
    } else if !state.features_complete {
        PipelineAction::ExtractFeatures
    } else if !state.matching_complete {
        PipelineAction::Match
    } else if !state.reconstruction_complete {
        PipelineAction::ProbeMapper
    } else if !state.brush_complete {
        PipelineAction::Train
    } else if state.stage != PipelineStage::Completed {
        PipelineAction::Publish
    } else {
        PipelineAction::Done
    }
}

/// The checkpoint after fresh frames: they and their source record replace
/// the old ones, and every later checkpoint is dropped.
pub open spec fn prepared_state(state: PipelineCheckpoint, prepared: PreparedFrames) -> PipelineCheckpoint {
    settle_filter(
        PipelineCheckpoint {
            input_type: prepared.input_type,
            stage: PipelineStage::ExtractingFrames,
            video: prepared.video,
            image_sequence: prepared.image_sequence,
            frames: Some(
                FrameCheckpoint {
                    plan: prepared.plan,
                    extracted_frames: Some(prepared.extracted_frames),
                    image_format: Some(prepared.image_format),
                    mask_count: Some(prepared.mask_count),
                    has_alpha: prepared.has_alpha,
                    filtered_frames: None,
                    filter_config_hash: None,
                },
            ),
            filter_complete: false,
            features_complete: false,
            matching_complete: false,
            reconstruction_complete: false,
            brush_complete: false,
            ..state
        },
    )
}

/// The checkpoint after a mapper produced a trainable model.
pub open spec fn mapped_state(state: PipelineCheckpoint, backend: MapperBackend) -> PipelineCheckpoint {
    PipelineCheckpoint {
        reconstruction_complete: true,
        mapper_backend: Some(backend),
        stage: PipelineStage::Reconstructing,
        ..state
    }
}

pub open spec fn advance(state: PipelineCheckpoint) -> (PipelineCheckpoint, PipelineAction) {
    (state, next_action_spec(state))
}

pub open spec fn unexpected(state: PipelineCheckpoint) -> (PipelineCheckpoint, PipelineAction) {
    (state, PipelineAction::Refuse(StepError::UnexpectedEvent))
}

pub open spec fn step_prepared_spec(state: PipelineCheckpoint, prepared: PreparedFrames) -> (
    PipelineCheckpoint,
    PipelineAction,
) {
    if next_action_spec(state) == PipelineAction::PrepareFrames {
        advance(prepared_state(state, prepared))
    } else {
        unexpected(state)
    }
}

pub open spec fn step_filter_spec(state: PipelineCheckpoint, kept_frames: u64, config_hash: String) -> (
    PipelineCheckpoint,
    PipelineAction,
) {
    if next_action_spec(state) == PipelineAction::RunFilter {
        advance(with_filter_record(state, Some(kept_frames), Some(config_hash)))
    } else {
        unexpected(state)
    }
}

pub open spec fn step_stage_spec(state: PipelineCheckpoint, stage: PipelineStage) -> (
    PipelineCheckpoint,
    PipelineAction,
) {
    let pending = next_action_spec(state);
    if stage == PipelineStage::ExtractingFeatures && pending == PipelineAction::ExtractFeatures {
        advance(
            PipelineCheckpoint {
                features_complete: true,
                stage: PipelineStage::ExtractingFeatures,
                ..state
            },
        )
    } else if stage == PipelineStage::Matching && pending == PipelineAction::Match {
        advance(PipelineCheckpoint { matching_complete: true, stage: PipelineStage::Matching, ..state })
    } else if stage == PipelineStage::TrainingSplats && pending == PipelineAction::Train {
        advance(
            PipelineCheckpoint { brush_complete: true, stage: PipelineStage::TrainingSplats, ..state },
        )
    } else {
        unexpected(state)
    }
}

/// The mapper the preset prefers, given whether COLMAP has the global one.
pub open spec fn mapper_action(state: PipelineCheckpoint, global_available: bool) -> PipelineAction {
    match backend_spec(preset_spec(state.preset).mapper_backend, global_available) {
        MapperBackend::Global => PipelineAction::MapGlobal,
        MapperBackend::Incremental => PipelineAction::MapIncremental,
    }
}

pub open spec fn step_probe_spec(state: PipelineCheckpoint, global_available: bool) -> (
    PipelineCheckpoint,
    PipelineAction,
) {
    if next_action_spec(state) == PipelineAction::ProbeMapper {
        (state, mapper_action(state, global_available))
    } else {
        unexpected(state)
    }
}

/// Whether a mapper's best model can be trained on.
pub open spec fn trainable(best: Option<ReconstructionReport>) -> bool {
    best matches Some(report) && meets_registration_floor(
        report.registered_images,
        report.input_images,
    )
}

/// The global mapper's model is kept when the run succeeded and its best
/// model meets the registration floor; otherwise the incremental mapper runs.
pub open spec fn step_global_spec(
    state: PipelineCheckpoint,
    succeeded: bool,
    best: Option<ReconstructionReport>,
) -> (PipelineCheckpoint, PipelineAction) {
    if next_action_spec(state) != PipelineAction::ProbeMapper {
        unexpected(state)
    } else if succeeded && trainable(best) {
        advance(mapped_state(state, MapperBackend::Global))
    } else {
        (state, PipelineAction::MapIncremental)
    }
}

/// The incremental mapper is the last resort: without a model, or with one
/// below the registration floor, the run stops.
pub open spec fn step_incremental_spec(state: PipelineCheckpoint, best: Option<ReconstructionReport>) -> (
    PipelineCheckpoint,
    PipelineAction,
) {
    if next_action_spec(state) != PipelineAction::ProbeMapper {
        unexpected(state)
    } else {
        match best {
            None => (state, PipelineAction::Refuse(StepError::NoSparseModel)),
            Some(report) => if meets_registration_floor(
                report.registered_images,
                report.input_images,
            ) {
                advance(mapped_state(state, MapperBackend::Incremental))
            } else {
                (
                    state,
                    PipelineAction::Refuse(
                        StepError::Untrainable(
                            UntrainableReconstruction {
                                registered_images: report.registered_images,
                                input_images: report.input_images,
                            },
                        ),
                    ),
                )
            },
        }
    }
}

pub open spec fn step_published_spec(
    state: PipelineCheckpoint,
    output: Option<Result<PlyInfo, PlyError>>,
) -> (PipelineCheckpoint, PipelineAction) {
    if next_action_spec(state) != PipelineAction::Publish {
        unexpected(state)
    } else {
        match output {
            None => (state, PipelineAction::Refuse(StepError::MissingBrushOutput)),
            Some(Err(e)) => (state, PipelineAction::Refuse(StepError::InvalidOutput(e))),
            Some(Ok(_)) => (
                PipelineCheckpoint { stage: PipelineStage::Completed, ..state },
                PipelineAction::Done,
            ),
        }
    }
}

/// One decision: an event answers the action the checkpoint asks for, and
/// any other event is refused with the checkpoint unchanged.
pub open spec fn pipeline_step_spec(state: PipelineCheckpoint, event: PipelineEvent) -> (
    PipelineCheckpoint,
    PipelineAction,
) {
    match event {
        PipelineEvent::FramesPrepared(prepared) => step_prepared_spec(state, prepared),
        PipelineEvent::FilterDone { kept_frames, config_hash } => step_filter_spec(
            state,
            kept_frames,
            config_hash,
        ),
        PipelineEvent::StageDone(stage) => step_stage_spec(state, stage),
        PipelineEvent::MapperProbed { global_available } => step_probe_spec(
            state,
            global_available,
        ),
        PipelineEvent::GlobalMapped { succeeded, best } => step_global_spec(state, succeeded, best),
        PipelineEvent::IncrementalMapped { best } => step_incremental_spec(state, best),
        PipelineEvent::Published { output } => step_published_spec(state, output),
    }
}

fn duplicate_frames(frames: &FrameCheckpoint) -> (r: FrameCheckpoint)
    ensures
        r == *frames,
{
    FrameCheckpoint {
        plan: frames.plan,
        extracted_frames: frames.extracted_frames,
        image_format: frames.image_format.clone(),
        mask_count: frames.mask_count,
        has_alpha: frames.has_alpha,
        filtered_frames: frames.filtered_frames,
        filter_config_hash: frames.filter_config_hash.clone(),
    }
}

fn duplicate(state: &PipelineCheckpoint) -> (r: PipelineCheckpoint)
    ensures
        r == *state,
{
    PipelineCheckpoint {
        preset: state.preset,
        input_type: state.input_type,
        stage: state.stage,
        video: state.video,
        image_sequence: state.image_sequence,
        frames: match &state.frames {
            Some(frames) => Some(duplicate_frames(frames)),
            None => None,
        },
        filter_complete: state.filter_complete,
        features_complete: state.features_complete,
        matching_complete: state.matching_complete,
        reconstruction_complete: state.reconstruction_complete,
        brush_complete: state.brush_complete,
        mapper_backend: state.mapper_backend,
    }
}

fn settle(state: PipelineCheckpoint) -> (r: PipelineCheckpoint)
    ensures
        r == settle_filter(state),
{
    let mut state = state;
    if state.frames.is_some() && !smart_filter_enabled(&state) {
        record_filter_skipped(&mut state);
    }
    state
}

/// The next action on a checkpoint: the first stage, in pipeline order, whose
/// checkpoint is missing, publishing once training is done, and nothing once
/// the run has completed.
pub fn next_action(state: &PipelineCheckpoint) -> (a: PipelineAction)
    ensures
        a == next_action_spec(*state),
{
    if state.frames.is_none() {
        PipelineAction::PrepareFrames
    } else if !state.filter_complete {
        PipelineAction::RunFilter
    } else if !state.features_complete {
        PipelineAction::ExtractFeatures
    } else if !state.matching_complete {
        PipelineAction::Match
    } else if !state.reconstruction_complete {
        PipelineAction::ProbeMapper
    } else if !state.brush_complete {
        PipelineAction::Train
    } else if state.stage != PipelineStage::Completed {
        PipelineAction::Publish
    } else {
        PipelineAction::Done
    }
}

/// Starts a run on a normalised checkpoint for a project of `input_type`: a
/// checkpoint of another input type is refused; otherwise the filter step is
/// settled where the filter does not apply, and the first missing stage is
/// next.
pub fn begin_run(state: PipelineCheckpoint, input_type: ProjectInputType) -> (r: (
    PipelineCheckpoint,
    PipelineAction,
))
    ensures
        r == if state.input_type != input_type {
            (state, PipelineAction::Refuse(StepError::InputTypeMismatch))
        } else {
            advance(settle_filter(state))
        },
{
    if state.input_type != input_type {
        return (state, PipelineAction::Refuse(StepError::InputTypeMismatch));
    }
    let settled = settle(state);
    let action = next_action(&settled);
    (settled, action)
}

fn step_prepared(state: &PipelineCheckpoint, prepared: PreparedFrames) -> (r: (
    PipelineCheckpoint,
    PipelineAction,
))
    ensures
        r == step_prepared_spec(*state, prepared),
{
    if next_action(state) != PipelineAction::PrepareFrames {
        return (duplicate(state), PipelineAction::Refuse(StepError::UnexpectedEvent));
    }
    let fresh = PipelineCheckpoint {
        preset: state.preset,
        input_type: prepared.input_type,
        stage: PipelineStage::ExtractingFrames,
        video: prepared.video,
        image_sequence: prepared.image_sequence,
        frames: Some(
            FrameCheckpoint {
                plan: prepared.plan,
                extracted_frames: Some(prepared.extracted_frames),
                image_format: Some(prepared.image_format),
                mask_count: Some(prepared.mask_count),
                has_alpha: prepared.has_alpha,
                filtered_frames: None,
                filter_config_hash: None,
            },
        ),
        filter_complete: false,
        features_complete: false,
        matching_complete: false,
        reconstruction_complete: false,
        brush_complete: false,
        mapper_backend: state.mapper_backend,
    };
    let next = settle(fresh);
    let action = next_action(&next);
    (next, action)
}

fn step_filter(state: &PipelineCheckpoint, kept_frames: u64, config_hash: String) -> (r: (
    PipelineCheckpoint,
    PipelineAction,
))
    ensures
        r == step_filter_spec(*state, kept_frames, config_hash),
{
    if next_action(state) != PipelineAction::RunFilter {
        return (duplicate(state), PipelineAction::Refuse(StepError::UnexpectedEvent));
    }
    let mut next = duplicate(state);
    record_filter_run(&mut next, kept_frames, config_hash);
    let action = next_action(&next);
    (next, action)
}

fn step_stage(state: &PipelineCheckpoint, stage: PipelineStage) -> (r: (
    PipelineCheckpoint,
    PipelineAction,
))
    ensures
        r == step_stage_spec(*state, stage),
{
    let pending = next_action(state);
    let mut next = duplicate(state);
    if stage == PipelineStage::ExtractingFeatures && pending == PipelineAction::ExtractFeatures {
        next.features_complete = true;
        next.stage = PipelineStage::ExtractingFeatures;
    } else if stage == PipelineStage::Matching && pending == PipelineAction::Match {
        next.matching_complete = true;
        next.stage = PipelineStage::Matching;
    } else if stage == PipelineStage::TrainingSplats && pending == PipelineAction::Train {
        next.brush_complete = true;
        next.stage = PipelineStage::TrainingSplats;
    } else {
        return (next, PipelineAction::Refuse(StepError::UnexpectedEvent));
    }
    let action = next_action(&next);
    (next, action)
}

fn step_probe(state: &PipelineCheckpoint, global_available: bool) -> (r: (
    PipelineCheckpoint,
    PipelineAction,
))
    ensures
        r == step_probe_spec(*state, global_available),
{
    if next_action(state) != PipelineAction::ProbeMapper {
        return (duplicate(state), PipelineAction::Refuse(StepError::UnexpectedEvent));
    }
    let action = match state.preset.preset().mapper_backend.backend(global_available) {
        MapperBackend::Global => PipelineAction::MapGlobal,
        MapperBackend::Incremental => PipelineAction::MapIncremental,
    };
    (duplicate(state), action)
}

fn is_trainable(best: Option<ReconstructionReport>) -> (b: bool)
    ensures
        b == trainable(best),
{
    match best {
        Some(report) => registration_floor_met(report.registered_images, report.input_images),
        None => false,
    }
}

fn mapped(state: &PipelineCheckpoint, backend: MapperBackend) -> (r: (
    PipelineCheckpoint,
    PipelineAction,
))
    ensures
        r == advance(mapped_state(*state, backend)),
{
    let mut next = duplicate(state);
    next.reconstruction_complete = true;
    next.mapper_backend = Some(backend);
    next.stage = PipelineStage::Reconstructing;
    let action = next_action(&next);
    (next, action)
}

fn step_global(state: &PipelineCheckpoint, succeeded: bool, best: Option<ReconstructionReport>) -> (r:
    (PipelineCheckpoint, PipelineAction))
    ensures
        r == step_global_spec(*state, succeeded, best),
{
    if next_action(state) != PipelineAction::ProbeMapper {
        (duplicate(state), PipelineAction::Refuse(StepError::UnexpectedEvent))
    } else if succeeded && is_trainable(best) {
        mapped(state, MapperBackend::Global)
    } else {
        (duplicate(state), PipelineAction::MapIncremental)
    }
}

fn step_incremental(state: &PipelineCheckpoint, best: Option<ReconstructionReport>) -> (r: (
    PipelineCheckpoint,
    PipelineAction,
))
    ensures
        r == step_incremental_spec(*state, best),
{
    if next_action(state) != PipelineAction::ProbeMapper {
        return (duplicate(state), PipelineAction::Refuse(StepError::UnexpectedEvent));
    }
    match best {
        None => (duplicate(state), PipelineAction::Refuse(StepError::NoSparseModel)),
        Some(report) => {
            if registration_floor_met(report.registered_images, report.input_images) {
                mapped(state, MapperBackend::Incremental)
            } else {
                (
                    duplicate(state),
                    PipelineAction::Refuse(
                        StepError::Untrainable(
                            UntrainableReconstruction {
                                registered_images: report.registered_images,
                                input_images: report.input_images,
                            },
                        ),
                    ),
                )
            }
        },
    }
}

fn step_published(state: &PipelineCheckpoint, output: Option<Result<PlyInfo, PlyError>>) -> (r: (
    PipelineCheckpoint,
    PipelineAction,
))
    ensures
        r == step_published_spec(*state, output),
{
    if next_action(state) != PipelineAction::Publish {
        return (duplicate(state), PipelineAction::Refuse(StepError::UnexpectedEvent));
    }
    match output {
        None => (duplicate(state), PipelineAction::Refuse(StepError::MissingBrushOutput)),
        Some(Err(e)) => (duplicate(state), PipelineAction::Refuse(StepError::InvalidOutput(e))),
        Some(Ok(_)) => {
            let mut next = duplicate(state);
            next.stage = PipelineStage::Completed;
            (next, PipelineAction::Done)
        },
    }
}

/// Records what came of the pending action and decides the next one.
pub fn pipeline_step(state: &PipelineCheckpoint, event: PipelineEvent) -> (r: (
    PipelineCheckpoint,
    PipelineAction,
))
    ensures
        r == pipeline_step_spec(*state, event),
{
    match event {
        PipelineEvent::FramesPrepared(prepared) => step_prepared(state, prepared),
        PipelineEvent::FilterDone { kept_frames, config_hash } => step_filter(
            state,
            kept_frames,
            config_hash,
        ),
        PipelineEvent::StageDone(stage) => step_stage(state, stage),
        PipelineEvent::MapperProbed { global_available } => step_probe(state, global_available),
        PipelineEvent::GlobalMapped { succeeded, best } => step_global(state, succeeded, best),
        PipelineEvent::IncrementalMapped { best } => step_incremental(state, best),
        PipelineEvent::Published { output } => step_published(state, output),
    }
}


/// Why a project cannot be resumed.
#[derive(Debug, Clone, Copy, PartialEq, Eq, Structural)]
pub enum ResumeRefusal {
    /// The project already completed and its output is in place.
    AlreadyCompleted,
    /// The source footage or images are gone.
    SourceMissing,
    /// The checkpoint was written for another quality tier.
    PresetMismatch,
}

pub open spec fn resume_refusal_message(r: ResumeRefusal) -> Seq<char> {
    match r {
        ResumeRefusal::AlreadyCompleted => "该项目已经完成，无需继续"@,
        ResumeRefusal::SourceMissing => "项目源素材缺失，无法继续"@,
        ResumeRefusal::PresetMismatch => "项目档位与检查点不一致，无法安全继续"@,
    }
}

impl ResumeRefusal {
    /// The message shown to the user.
    pub fn message(&self) -> (s: &'static str)
        ensures
            s@ == resume_refusal_message(*self),
    {
        match self {
            ResumeRefusal::AlreadyCompleted => "该项目已经完成，无需继续",
            ResumeRefusal::SourceMissing => "项目源素材缺失，无法继续",
            ResumeRefusal::PresetMismatch => "项目档位与检查点不一致，无法安全继续",
        }
    }
}

/// Whether a project's source is still there to resume from: a reshoot keeps
/// either a video file or an image folder, so any existing path will do; a
/// video project needs its file and an image project its folder.
pub fn resume_source_available(
    is_reshoot: bool,
    input_type: ProjectInputType,
    exists: bool,
    is_file: bool,
    is_dir: bool,
) -> (b: bool)
    ensures
        b == if is_reshoot {
            exists
        } else {
            match input_type {
                ProjectInputType::Video => is_file,
                ProjectInputType::Images => is_dir,
            }
        },
{
    if is_reshoot {
        exists
    } else {
        match input_type {
            ProjectInputType::Video => is_file,
            ProjectInputType::Images => is_dir,
        }
    }
}

/// Refuses to resume a project that already completed durably, whose source
/// is gone, or whose checkpoint was written for another tier, checked in
/// that order.
pub fn resume_refusal(
    durably_completed: bool,
    source_available: bool,
    checkpoint_preset: Quality,
    project_quality: Quality,
) -> (r: Option<ResumeRefusal>)
    ensures
        r == if durably_completed {
            Some(ResumeRefusal::AlreadyCompleted)
        } else if !source_available {
            Some(ResumeRefusal::SourceMissing)
        } else if checkpoint_preset != project_quality {
            Some(ResumeRefusal::PresetMismatch)
        } else {
            None
        },
{
    if durably_completed {
        Some(ResumeRefusal::AlreadyCompleted)
    } else if !source_available {
        Some(ResumeRefusal::SourceMissing)
    } else if checkpoint_preset != project_quality {
        Some(ResumeRefusal::PresetMismatch)
    } else {
        None
    }
}


/// Whether `action` would redo a stage whose checkpoint `state` keeps.
pub open spec fn reruns(state: PipelineCheckpoint, action: PipelineAction) -> bool {
    ||| action == PipelineAction::PrepareFrames && state.frames is Some
    ||| action == PipelineAction::RunFilter && state.filter_complete
    ||| action == PipelineAction::ExtractFeatures && state.features_complete
    ||| action == PipelineAction::Match && state.matching_complete
    ||| (action == PipelineAction::ProbeMapper || action == PipelineAction::MapGlobal || action
        == PipelineAction::MapIncremental) && state.reconstruction_complete
    ||| action == PipelineAction::Train && state.brush_complete
}

/// Every checkpoint that `earlier` keeps, `later` keeps too.
pub open spec fn keeps_checkpoints(earlier: PipelineCheckpoint, later: PipelineCheckpoint) -> bool {
    &&& earlier.frames is Some ==> later.frames is Some
    &&& earlier.filter_complete ==> later.filter_complete
    &&& earlier.features_complete ==> later.features_complete
    &&& earlier.matching_complete ==> later.matching_complete
    &&& earlier.reconstruction_complete ==> later.reconstruction_complete
    &&& earlier.brush_complete ==> later.brush_complete
}

/// The checkpoint after a run of `events`.
pub open spec fn run_spec(state: PipelineCheckpoint, events: Seq<PipelineEvent>) -> PipelineCheckpoint
    decreases events.len(),
{
    if events.len() == 0 {
        state
    } else {
        pipeline_step_spec(run_spec(state, events.drop_last()), events.last()).0
    }
}

/// One step keeps the checkpoints chained, drops none of them, and never
/// asks to redo a stage whose checkpoint it keeps.
pub proof fn lemma_step_keeps_checkpoints(state: PipelineCheckpoint, event: PipelineEvent)
    requires
        checkpoints_chained(state),
    ensures
        checkpoints_chained(pipeline_step_spec(state, event).0),
        keeps_checkpoints(state, pipeline_step_spec(state, event).0),
        !reruns(pipeline_step_spec(state, event).0, pipeline_step_spec(state, event).1),
{
    match event {
        PipelineEvent::FramesPrepared(prepared) => {},
        PipelineEvent::FilterDone { kept_frames, config_hash } => {},
        PipelineEvent::StageDone(stage) => {},
        PipelineEvent::MapperProbed { global_available } => {},
        PipelineEvent::GlobalMapped { succeeded, best } => {},
        PipelineEvent::IncrementalMapped { best } => {},
        PipelineEvent::Published { output } => {},
    }
}

proof fn lemma_run_keeps_checkpoints(state: PipelineCheckpoint, events: Seq<PipelineEvent>)
    requires
        checkpoints_chained(state),
    ensures
        checkpoints_chained(run_spec(state, events)),
        keeps_checkpoints(state, run_spec(state, events)),
    decreases events.len(),
{
    if events.len() > 0 {
        lemma_run_keeps_checkpoints(state, events.drop_last());
        lemma_step_keeps_checkpoints(run_spec(state, events.drop_last()), events.last());
    }
}

/// A resumed run never redoes a stage whose checkpoint survived
/// normalisation: neither its first action nor the action after any run of
/// events that follows.
pub proof fn lemma_resumed_run_never_redoes_a_kept_stage(
    old: PipelineCheckpoint,
    probe: CheckpointProbe,
    events: Seq<PipelineEvent>,
    event: PipelineEvent,
)
    ensures
        ({
            let kept = normalize_spec(old, probe);
            let start = settle_filter(kept);
            &&& !reruns(kept, next_action_spec(start))
            &&& !reruns(kept, pipeline_step_spec(run_spec(start, events), event).1)
        }),
{
    let kept = normalize_spec(old, probe);
    let start = settle_filter(kept);
    lemma_normalize_only_downgrades(old, probe);
    assert(checkpoints_chained(start));
    assert(keeps_checkpoints(kept, start));
    lemma_run_keeps_checkpoints(start, events);
    let before = run_spec(start, events);
    lemma_step_keeps_checkpoints(before, event);
}

/// Fresh frames drop the feature, matching, reconstruction and Brush
/// checkpoints, and the frames and source record they bring replace the old.
pub proof fn lemma_preparing_frames_clears_later_checkpoints(
    state: PipelineCheckpoint,
    prepared: PreparedFrames,
)
    requires
        next_action_spec(state) == PipelineAction::PrepareFrames,
    ensures
        ({
            let next = pipeline_step_spec(state, PipelineEvent::FramesPrepared(prepared)).0;
            &&& !next.features_complete && !next.matching_complete
            &&& !next.reconstruction_complete && !next.brush_complete
            &&& next.frames is Some && next.frames->0.extracted_frames == Some(
                prepared.extracted_frames,
            )
            &&& next.video == prepared.video && next.image_sequence == prepared.image_sequence
            &&& next.stage == PipelineStage::ExtractingFrames
        }),
{
}

/// Finishing feature extraction, matching or training sets exactly that
/// stage's checkpoint, and the recorded stage is the latest durable one.
pub proof fn lemma_finishing_a_stage_sets_its_checkpoint(state: PipelineCheckpoint, stage: PipelineStage)
    requires
        checkpoints_chained(state),
        (stage == PipelineStage::ExtractingFeatures && next_action_spec(state)
            == PipelineAction::ExtractFeatures) || (stage == PipelineStage::Matching
            && next_action_spec(state) == PipelineAction::Match) || (stage
            == PipelineStage::TrainingSplats && next_action_spec(state) == PipelineAction::Train),
    ensures
        ({
            let next = pipeline_step_spec(state, PipelineEvent::StageDone(stage)).0;
            &&& next == (if stage == PipelineStage::ExtractingFeatures {
                PipelineCheckpoint { features_complete: true, stage, ..state }
            } else if stage == PipelineStage::Matching {
                PipelineCheckpoint { matching_complete: true, stage, ..state }
            } else {
                PipelineCheckpoint { brush_complete: true, stage, ..state }
            })
            &&& next.stage == checkpoint_stage_spec(next)
        }),
{
}

/// A trainable mapper model sets the reconstruction checkpoint, with the
/// mapper that made it, and the recorded stage is the latest durable one.
pub proof fn lemma_a_trainable_model_completes_reconstruction(
    state: PipelineCheckpoint,
    global: bool,
    best: Option<ReconstructionReport>,
)
    requires
        checkpoints_chained(state),
        next_action_spec(state) == PipelineAction::ProbeMapper,
        trainable(best),
    ensures
        ({
            let event = if global {
                PipelineEvent::GlobalMapped { succeeded: true, best }
            } else {
                PipelineEvent::IncrementalMapped { best }
            };
            let next = pipeline_step_spec(state, event).0;
            let backend = if global {
                MapperBackend::Global
            } else {
                MapperBackend::Incremental
            };
            &&& next == PipelineCheckpoint {
                reconstruction_complete: true,
                mapper_backend: Some(backend),
                stage: PipelineStage::Reconstructing,
                ..state
            }
            &&& next.stage == checkpoint_stage_spec(next)
            &&& pipeline_step_spec(state, event).1 == PipelineAction::Train
        }),
{
}

/// A global mapper run that fails, leaves no valid model, or falls below the
/// registration floor leads to the incremental mapper, exactly when the
/// fallback check says so, and records nothing.
pub proof fn lemma_global_mapper_falls_back(
    state: PipelineCheckpoint,
    succeeded: bool,
    best: Option<ReconstructionReport>,
)
    requires
        next_action_spec(state) == PipelineAction::ProbeMapper,
    ensures
        !(succeeded && trainable(best)) ==> pipeline_step_spec(
            state,
            PipelineEvent::GlobalMapped { succeeded, best },
        ) == (state, PipelineAction::MapIncremental),
        (pipeline_step_spec(state, PipelineEvent::GlobalMapped { succeeded, best }).1
            == PipelineAction::MapIncremental) <==> !(succeeded && trainable(best)),
{
}

/// Training is only asked for on a reconstruction checkpoint, and a step
/// that sets that checkpoint does so only for a mapper model that passed the
/// trainability check.
pub proof fn lemma_training_follows_a_trainable_model(state: PipelineCheckpoint, event: PipelineEvent)
    requires
        checkpoints_chained(state),
        pipeline_step_spec(state, event).1 == PipelineAction::Train,
    ensures
        pipeline_step_spec(state, event).0.reconstruction_complete,
        !state.reconstruction_complete ==> (event matches PipelineEvent::GlobalMapped {
            succeeded,
            best,
        } && succeeded && trainable(best)) || (event matches PipelineEvent::IncrementalMapped {
            best,
        } && trainable(best)),
{
    match event {
        PipelineEvent::FramesPrepared(prepared) => {},
        PipelineEvent::FilterDone { kept_frames, config_hash } => {},
        PipelineEvent::StageDone(stage) => {},
        PipelineEvent::MapperProbed { global_available } => {},
        PipelineEvent::GlobalMapped { succeeded, best } => {},
        PipelineEvent::IncrementalMapped { best } => {},
        PipelineEvent::Published { output } => {},
    }
}


/// A resumed reshoot whose merged frames are gone rebuilds them from its
/// source project's frames, which must still be there.
pub fn check_recovery_source(source_frames_present: bool) -> (r: Result<(), ReshootError>)
    ensures
        r == if source_frames_present {
            Ok(())
        } else {
            Err(ReshootError::SourceFramesLost)
        },
{
    if source_frames_present {
        Ok(())
    } else {
        Err(ReshootError::SourceFramesLost)
    }
}

/// The frames a resumed reshoot rebuilt: `merged_frames` images, the source
/// project's followed by the reshoot's, as an image sequence that keeps every
/// frame, with no masks. Footage with transparency, prepared again, is
/// refused.
pub fn recovered_reshoot_frames(recovered_has_alpha: bool, merged_frames: u64) -> (r: Result<
    PreparedFrames,
    ReshootError,
>)
    ensures
        recovered_has_alpha ==> r == Err::<PreparedFrames, ReshootError>(
            ReshootError::TransparentRecovery,
        ),
        !recovered_has_alpha ==> r is Ok && ({
            let p = r->Ok_0;
            &&& p.input_type == ProjectInputType::Images
            &&& p.video is None
            &&& p.image_sequence == Some(
                ImageSequenceRecord {
                    image_count: merged_frames,
                    width: 0,
                    height: 0,
                    has_alpha: false,
                    requires_large_sequence_confirmation: false,
                },
            )
            &&& p.plan == (FramePlanRecord {
                retention_ratio_bits: ONE_BITS,
                sampling_fps_bits: 0,
                estimated_frames: merged_frames,
            })
            &&& p.extracted_frames == merged_frames
            &&& p.image_format@ == "merged"@
            &&& p.mask_count == 0
            &&& !p.has_alpha
        }),
{
    if recovered_has_alpha {
        return Err(ReshootError::TransparentRecovery);
    }
    Ok(
        PreparedFrames {
            input_type: ProjectInputType::Images,
            video: None,
            image_sequence: Some(
                ImageSequenceRecord {
                    image_count: merged_frames,
                    width: 0,
                    height: 0,
                    has_alpha: false,
                    requires_large_sequence_confirmation: false,
                },
            ),
            plan: FramePlanRecord {
                retention_ratio_bits: ONE_BITS,
                sampling_fps_bits: 0,
                estimated_frames: merged_frames,
            },
            extracted_frames: merged_frames,
            image_format: String::from_str("merged"),
            mask_count: 0,
            has_alpha: false,
        },
    )
}


/// A resumed run whose reconstruction survived normalisation but whose Brush
/// output is missing or invalid trains again: it neither publishes nor
/// redoes the reconstruction.
pub proof fn lemma_missing_brush_output_is_retrained(old: PipelineCheckpoint, probe: CheckpointProbe)
    requires
        normalize_spec(old, probe).reconstruction_complete,
        !probe.brush_output_valid,
    ensures
        next_action_spec(settle_filter(normalize_spec(old, probe))) == PipelineAction::Train,
        !settle_filter(normalize_spec(old, probe)).brush_complete,
{
    lemma_normalize_only_downgrades(old, probe);
}

} // verus!
