//! Pipeline stages and the durable checkpoints that let an interrupted run
//! resume where it stopped.
use vstd::prelude::*;

use crate::presets::{preset_spec, MapperBackend, MapperPreference, Quality};
use crate::text::{decimal, push_decimal, push_decimal_wide};

verus! {

#[derive(Debug, Clone, Copy, PartialEq, Eq, Structural)]
pub enum PipelineStage {
    Created,
    ProbingVideo,
    PlanningFrames,
    ExtractingFrames,
    ExtractingFeatures,
    Matching,
    Reconstructing,
    ValidatingReconstruction,
    TrainingSplats,
    Exporting,
    Completed,
    Failed,
    Cancelled,
}

#[derive(Debug, Clone, Copy, PartialEq, Eq, Structural)]
pub enum ProjectInputType {
    Video,
    Images,
}

/// The frame plan that frames were extracted under. The two rates are the
/// IEEE 754 bits of the planner's `f64` values, kept so that a resumed run can
/// compare them with the plan the preset gives now.
#[derive(Debug, Clone, Copy, PartialEq, Eq, Structural)]
pub struct FramePlanRecord {
    pub retention_ratio_bits: u64,
    pub sampling_fps_bits: u64,
    pub estimated_frames: u64,
}

/// What the checkpoint records about the prepared frames.
#[derive(Debug, Clone, PartialEq, Eq)]
pub struct FrameCheckpoint {
    pub plan: FramePlanRecord,
    pub extracted_frames: Option<u64>,
    pub image_format: Option<String>,
    pub mask_count: Option<u64>,
    pub has_alpha: bool,
    pub filtered_frames: Option<u64>,
    pub filter_config_hash: Option<String>,
}

/// What probing a video source recorded, as far as the pipeline reads it.
#[derive(Debug, Clone, Copy, PartialEq, Eq, Structural)]
pub struct VideoRecord {
    pub total_frames: u64,
    pub width: u32,
    pub height: u32,
    pub has_alpha: bool,
}

/// What analysing an image-sequence source recorded.
#[derive(Debug, Clone, Copy, PartialEq, Eq, Structural)]
pub struct ImageSequenceRecord {
    pub image_count: u64,
    pub width: u32,
    pub height: u32,
    pub has_alpha: bool,
    /// The sequence is large enough that the user confirms it first.
    pub requires_large_sequence_confirmation: bool,
}

/// The resumable state of one project's pipeline.
#[derive(Debug, Clone, PartialEq, Eq)]
pub struct PipelineCheckpoint {
    pub preset: Quality,
    pub input_type: ProjectInputType,
    pub stage: PipelineStage,
    /// The probed video, recorded together with the frames extracted from it.
    pub video: Option<VideoRecord>,
    /// The analysed image sequence, recorded together with its frames.
    pub image_sequence: Option<ImageSequenceRecord>,
    pub frames: Option<FrameCheckpoint>,
    pub filter_complete: bool,
    pub features_complete: bool,
    pub matching_complete: bool,
    pub reconstruction_complete: bool,
    pub brush_complete: bool,
    pub mapper_backend: Option<MapperBackend>,
}

/// The frame count a checkpoint records, when it records frames at all.
pub open spec fn recorded_frames(state: PipelineCheckpoint) -> Option<u64> {
    match state.frames {
        Some(frames) => frames.extracted_frames,
        None => None,
    }
}

/// The latest stage whose output a checkpoint keeps.
pub open spec fn checkpoint_stage_spec(state: PipelineCheckpoint) -> PipelineStage {
    if state.brush_complete {
        PipelineStage::TrainingSplats
    } else if state.reconstruction_complete {
        PipelineStage::Reconstructing
    } else if state.matching_complete {
        PipelineStage::Matching
    } else if state.features_complete {
        PipelineStage::ExtractingFeatures
    } else if recorded_frames(state) matches Some(count) && count > 0 {
        PipelineStage::ExtractingFrames
    } else {
        PipelineStage::Created
    }
}

/// The state a new project starts from.
pub fn created_for(quality: Quality, input_type: ProjectInputType) -> (state: PipelineCheckpoint)
    ensures
        state == (PipelineCheckpoint {
            preset: quality,
            input_type,
            stage: PipelineStage::Created,
            video: None,
            image_sequence: None,
            frames: None,
            filter_complete: false,
            features_complete: false,
            matching_complete: false,
            reconstruction_complete: false,
            brush_complete: false,
            mapper_backend: None,
        }),
{
    PipelineCheckpoint {
        preset: quality,
        input_type,
        stage: PipelineStage::Created,
        video: None,
        image_sequence: None,
        frames: None,
        filter_complete: false,
        features_complete: false,
        matching_complete: false,
        reconstruction_complete: false,
        brush_complete: false,
        mapper_backend: None,
    }
}

/// The latest durable checkpoint, whatever terminal status the run ended in.
pub fn checkpoint_stage(state: &PipelineCheckpoint) -> (stage: PipelineStage)
    ensures
        stage == checkpoint_stage_spec(*state),
{
    if state.brush_complete {
        PipelineStage::TrainingSplats
    } else if state.reconstruction_complete {
        PipelineStage::Reconstructing
    } else if state.matching_complete {
        PipelineStage::Matching
    } else if state.features_complete {
        PipelineStage::ExtractingFeatures
    } else {
        let frames_recorded = match &state.frames {
            Some(frames) => match frames.extracted_frames {
                Some(count) => count > 0,
                None => false,
            },
            None => false,
        };
        if frames_recorded {
            PipelineStage::ExtractingFrames
        } else {
            PipelineStage::Created
        }
    }
}

/// Marks a failed or cancelled run: only the stage changes, so every
/// checkpoint survives for the next attempt.
pub fn mark_state_terminal(state: PipelineCheckpoint, cancelled: bool) -> (r: PipelineCheckpoint)
    ensures
        r == (PipelineCheckpoint {
            stage: if cancelled {
                PipelineStage::Cancelled
            } else {
                PipelineStage::Failed
            },
            ..state
        }),
{
    let mut state = state;
    state.stage = if cancelled {
        PipelineStage::Cancelled
    } else {
        PipelineStage::Failed
    };
    state
}

/// Whether the project's frames go through the smart filter: only video
/// input is filtered.
pub open spec fn smart_filter_enabled_spec(state: PipelineCheckpoint) -> bool {
    state.input_type == ProjectInputType::Video && preset_spec(state.preset).enable_smart_filter
}

/// Whether this project's frames go through the smart filter.
pub fn smart_filter_enabled(state: &PipelineCheckpoint) -> (b: bool)
    ensures
        b == smart_filter_enabled_spec(*state),
{
    state.input_type == ProjectInputType::Video && state.preset.preset().enable_smart_filter
}

/// Whether to calibrate the view graph before mapping: only the global mapper
/// consumes the focal-length priors, and only a COLMAP build that has the
/// calibrator can produce them.
pub fn needs_view_graph_calibration(backend: MapperBackend, supports_calibrator: bool) -> (b: bool)
    ensures
        b == (backend == MapperBackend::Global && supports_calibrator),
{
    backend == MapperBackend::Global && supports_calibrator
}

/// The image and mask directories COLMAP reads, relative to its working
/// directory `work/colmap`.
pub fn colmap_input_paths(state: &PipelineCheckpoint) -> (r: (&'static str, &'static str))
    ensures
        smart_filter_enabled_spec(*state) ==> r.0@ == "../frames_filtered"@ && r.1@
            == "../masks_filtered"@,
        !smart_filter_enabled_spec(*state) ==> r.0@ == "../frames"@ && r.1@ == "../masks"@,
{
    if smart_filter_enabled(state) {
        ("../frames_filtered", "../masks_filtered")
    } else {
        ("../frames", "../masks")
    }
}

/// What the files of a project show about its checkpoints.
#[derive(Debug, Clone, Copy, PartialEq, Eq, Structural)]
pub struct CheckpointProbe {
    /// `frames/filter_summary.json` exists: a filter from before the filtered
    /// directory existed overwrote the raw frames.
    pub legacy_filter_summary: bool,
    /// What `frames_still_valid` says of the frames found on disk and the
    /// frame plan the preset gives now (consulted only when the checkpoint
    /// records frames).
    pub frames_valid: bool,
    /// The filtered frames match the recorded filter run.
    pub filter_valid: bool,
    /// The COLMAP database exists and is not empty.
    pub database_nonempty: bool,
    /// A complete sparse model exists.
    pub sparse_model_valid: bool,
    /// A Brush output exists and passes PLY validation.
    pub brush_output_valid: bool,
}

/// Whether the recorded mapper is one the preset still accepts: a preset that
/// prefers the global mapper accepts either, one that forces the incremental
/// mapper accepts only that.
pub open spec fn mapper_matches_preference(state: PipelineCheckpoint) -> bool {
    match preset_spec(state.preset).mapper_backend {
        MapperPreference::PreferGlobal => true,
        MapperPreference::ForceIncremental => state.mapper_backend is None || state.mapper_backend
            == Some(MapperBackend::Incremental),
    }
}

pub open spec fn legacy_overwritten_filter(state: PipelineCheckpoint, probe: CheckpointProbe) -> bool {
    &&& state.input_type == ProjectInputType::Video
    &&& preset_spec(state.preset).enable_smart_filter
    &&& state.frames matches Some(frames) && frames.filtered_frames is None
        && frames.filter_config_hash is None
    &&& probe.legacy_filter_summary
}

/// Whether the checkpoint records the source its frames came from: the probed
/// video for a video project, the analysed sequence for an image project.
pub open spec fn source_recorded(state: PipelineCheckpoint) -> bool {
    match state.input_type {
        ProjectInputType::Video => state.video is Some,
        ProjectInputType::Images => state.image_sequence is Some,
    }
}

/// The checkpoints a resumed run may reuse: each one only while every earlier
/// one holds and its own files are intact.
pub open spec fn normalize_spec(state: PipelineCheckpoint, probe: CheckpointProbe) -> PipelineCheckpoint {
    let frames_complete = !legacy_overwritten_filter(state, probe) && state.frames is Some
        && source_recorded(state) && probe.frames_valid;
    let filter_complete = frames_complete && probe.filter_valid;
    let features_complete = filter_complete && state.features_complete && probe.database_nonempty;
    let matching_complete = features_complete && state.matching_complete;
    let reconstruction_complete = matching_complete && state.reconstruction_complete
        && mapper_matches_preference(state) && probe.sparse_model_valid;
    let brush_complete = reconstruction_complete && state.brush_complete && probe.brush_output_valid;
    let next = PipelineCheckpoint {
        video: if frames_complete {
            state.video
        } else {
            None
        },
        image_sequence: if frames_complete {
            state.image_sequence
        } else {
            None
        },
        frames: if frames_complete {
            state.frames
        } else {
            None
        },
        filter_complete,
        features_complete,
        matching_complete,
        reconstruction_complete,
        brush_complete,
        ..state
    };
    PipelineCheckpoint { stage: checkpoint_stage_spec(next), ..next }
}

/// Downgrades every checkpoint that the project's files no longer back.
pub fn normalize_checkpoints(state: &mut PipelineCheckpoint, probe: CheckpointProbe)
    ensures
        *final(state) == normalize_spec(*old(state), probe),
{
    let legacy = state.input_type == ProjectInputType::Video && state.preset.preset().enable_smart_filter
        && match &state.frames {
        Some(frames) => frames.filtered_frames.is_none() && frames.filter_config_hash.is_none(),
        None => false,
    } && probe.legacy_filter_summary;
    let source = match state.input_type {
        ProjectInputType::Video => state.video.is_some(),
        ProjectInputType::Images => state.image_sequence.is_some(),
    };
    let frames_complete = !legacy && state.frames.is_some() && source && probe.frames_valid;
    if !frames_complete {
        state.video = None;
        state.image_sequence = None;
        state.frames = None;
    }
    let filter_complete = frames_complete && probe.filter_valid;
    state.filter_complete = filter_complete;
    state.features_complete = filter_complete && state.features_complete && probe.database_nonempty;
    state.matching_complete = state.features_complete && state.matching_complete;
    let mapper_matches = match state.preset.preset().mapper_backend {
        MapperPreference::PreferGlobal => true,
        MapperPreference::ForceIncremental => match state.mapper_backend {
            None => true,
            Some(MapperBackend::Incremental) => true,
            Some(MapperBackend::Global) => false,
        },
    };
    state.reconstruction_complete = state.matching_complete && state.reconstruction_complete
        && mapper_matches && probe.sparse_model_valid;
    state.brush_complete = state.reconstruction_complete && state.brush_complete
        && probe.brush_output_valid;
    state.stage = checkpoint_stage(state);
}

/// Each reusable checkpoint implies every earlier one.
pub open spec fn checkpoints_chained(state: PipelineCheckpoint) -> bool {
    &&& state.brush_complete ==> state.reconstruction_complete
    &&& state.reconstruction_complete ==> state.matching_complete
    &&& state.matching_complete ==> state.features_complete
    &&& state.features_complete ==> state.filter_complete
    &&& state.filter_complete ==> state.frames is Some
}

/// Normalizing never promotes a checkpoint, leaves them chained, and sets the
/// stage to the latest durable one; frames are kept only with the record of
/// their source and valid on disk, and the source records go with the frames
/// they describe; the preset, input type and recorded mapper are kept.
pub proof fn lemma_normalize_only_downgrades(state: PipelineCheckpoint, probe: CheckpointProbe)
    ensures
        ({
            let next = normalize_spec(state, probe);
            &&& next.features_complete ==> state.features_complete
            &&& next.matching_complete ==> state.matching_complete
            &&& next.reconstruction_complete ==> state.reconstruction_complete
            &&& next.brush_complete ==> state.brush_complete
            &&& next.frames is Some ==> next.frames == state.frames
                && next.video == state.video && next.image_sequence == state.image_sequence
            &&& next.frames is None ==> next.video is None && next.image_sequence is None
            &&& next.frames is Some ==> source_recorded(next) && probe.frames_valid
            &&& checkpoints_chained(next)
            &&& next.stage == checkpoint_stage_spec(next)
            &&& next.preset == state.preset
            &&& next.input_type == state.input_type
            &&& next.mapper_backend == state.mapper_backend
        }),
{
}

/// A checkpoint survives normalisation only with the files that back it: the
/// frames with a valid frame record and the record of their source, the
/// filter with its filtered frames, features with a non-empty database, the
/// reconstruction with a complete sparse model from a mapper the preset
/// accepts, and Brush's checkpoint with a Brush output that passes PLY
/// validation.
pub proof fn lemma_normalize_keeps_only_backed_checkpoints(
    state: PipelineCheckpoint,
    probe: CheckpointProbe,
)
    ensures
        ({
            let next = normalize_spec(state, probe);
            &&& next.frames is Some ==> probe.frames_valid && source_recorded(state)
                && !legacy_overwritten_filter(state, probe)
            &&& next.filter_complete ==> probe.filter_valid
            &&& next.features_complete ==> probe.database_nonempty
            &&& next.reconstruction_complete ==> probe.sparse_model_valid
                && mapper_matches_preference(state)
            &&& next.brush_complete ==> probe.brush_output_valid
            &&& !probe.brush_output_valid && next.reconstruction_complete ==> !next.brush_complete
                && next.stage == PipelineStage::Reconstructing
        }),
{
}

/// Normalizing is stable: while the project's files stay as they are, a
/// resumed run that normalizes again keeps every checkpoint the previous
/// normalization kept.
pub proof fn lemma_normalize_is_stable(state: PipelineCheckpoint, probe: CheckpointProbe)
    ensures
        normalize_spec(normalize_spec(state, probe), probe) == normalize_spec(state, probe),
{
}

/// A frame checkpoint is only reused when the raw frames are intact, so a
/// broken filter checkpoint downgrades features and matching but keeps the
/// raw frames.
pub proof fn lemma_broken_filter_keeps_raw_frames(state: PipelineCheckpoint, probe: CheckpointProbe)
    requires
        !legacy_overwritten_filter(state, probe),
        state.frames is Some,
        source_recorded(state),
        probe.frames_valid,
        !probe.filter_valid,
    ensures
        normalize_spec(state, probe).frames == state.frames,
        !normalize_spec(state, probe).filter_complete,
        !normalize_spec(state, probe).features_complete,
        !normalize_spec(state, probe).matching_complete,
{
}

/// What the checkpoint of a terminal run reports is the latest durable stage,
/// never the terminal status itself.
pub proof fn lemma_terminal_state_resumes_from_checkpoint(state: PipelineCheckpoint, cancelled: bool)
    ensures
        ({
            let terminal = PipelineCheckpoint {
                stage: if cancelled {
                    PipelineStage::Cancelled
                } else {
                    PipelineStage::Failed
                },
                ..state
            };
            &&& checkpoint_stage_spec(terminal) == checkpoint_stage_spec(state)
            &&& checkpoint_stage_spec(terminal) != PipelineStage::Failed
            &&& checkpoint_stage_spec(terminal) != PipelineStage::Cancelled
        }),
{
}

/// Whether the recorded smart-filter run still describes the filtered frames
/// on disk.
pub open spec fn filter_checkpoint_complete_spec(
    state: PipelineCheckpoint,
    expected_hash: Seq<char>,
    filtered_on_disk: u64,
    masks_match: bool,
) -> bool {
    match state.frames {
        None => false,
        Some(frames) => if !smart_filter_enabled_spec(state) {
            true
        } else {
            &&& frames.extracted_frames matches Some(extracted) && extracted > 0
            &&& frames.filtered_frames matches Some(filtered) && filtered > 0
            &&& frames.filter_config_hash matches Some(hash) && hash@ == expected_hash
            &&& frames.filtered_frames == Some(filtered_on_disk)
            &&& frames.has_alpha ==> masks_match
        },
    }
}

/// Decides whether the filter checkpoint is intact, given the hash of the
/// preset's filter configuration for the recorded frame count, the number of
/// images in the filtered directory, and whether every filtered frame has
/// exactly its mask.
pub fn filter_checkpoint_complete(
    state: &PipelineCheckpoint,
    expected_hash: &str,
    filtered_on_disk: u64,
    masks_match: bool,
) -> (b: bool)
    ensures
        b == filter_checkpoint_complete_spec(*state, expected_hash@, filtered_on_disk, masks_match),
{
    let frames = match &state.frames {
        None => {
            return false;
        },
        Some(frames) => frames,
    };
    if !smart_filter_enabled(state) {
        return true;
    }
    match frames.extracted_frames {
        Some(count) if count > 0 => {},
        _ => {
            return false;
        },
    }
    let filtered = match frames.filtered_frames {
        Some(count) if count > 0 => count,
        _ => {
            return false;
        },
    };
    match &frames.filter_config_hash {
        Some(hash) => {
            if !string_eq_str(hash, expected_hash) {
                return false;
            }
        },
        None => {
            return false;
        },
    }
    if filtered != filtered_on_disk {
        return false;
    }
    if frames.has_alpha && !masks_match {
        return false;
    }
    true
}

fn string_eq_str(a: &String, b: &str) -> (r: bool)
    ensures
        r == (a@ == b@),
{
    let x = crate::text::str_chars(a.as_str());
    let y = crate::text::str_chars(b);
    crate::text::chars_eq(x.as_slice(), y.as_slice())
}

/// Whether an interrupted publish left a final PLY that should become the
/// Brush checkpoint again: training completed, the run did not, and no Brush
/// output remains.
pub fn should_recover_publish(state: &PipelineCheckpoint, brush_output_present: bool) -> (b: bool)
    ensures
        b == (state.stage != PipelineStage::Completed && state.brush_complete
            && !brush_output_present),
{
    state.stage != PipelineStage::Completed && state.brush_complete && !brush_output_present
}

/// Registration share below which a reconstruction is refused: 60%.
pub open spec fn meets_registration_floor(registered: u64, input: u64) -> bool {
    5 * (registered as int) >= 3 * (input as int) && registered > 0
}

/// Whether `registered / input` reaches 60%, compared exactly.
pub fn registration_floor_met(registered: u64, input: u64) -> (b: bool)
    ensures
        b == meets_registration_floor(registered, input),
{
    5 * (registered as u128) >= 3 * (input as u128) && registered > 0
}

#[derive(Debug, Clone, Copy, PartialEq, Eq, Structural)]
pub enum ReconstructionQuality {
    Good,
    Warning,
}

/// What validating a sparse model found.
#[derive(Debug, Clone, Copy, PartialEq, Eq, Structural)]
pub struct ReconstructionReport {
    pub input_images: u64,
    pub registered_images: u64,
    pub points_3d: u64,
    pub quality: ReconstructionQuality,
}

/// A reconstruction too degenerate to train on.
#[derive(Debug, Clone, Copy, PartialEq, Eq, Structural)]
pub struct UntrainableReconstruction {
    pub registered_images: u64,
    pub input_images: u64,
}

/// Registration in tenths of a percent, rounded half to even.
pub open spec fn ratio_tenths(registered: u64, input: u64) -> nat {
    let num = registered as nat * 1000;
    let q = num / (input as nat);
    let r = num % (input as nat);
    if 2 * r > input || (2 * r == input && q % 2 == 1) {
        q + 1
    } else {
        q
    }
}

/// The registration share as the message prints it: a percentage with one
/// decimal, or `NaN` for a model of no input images.
pub open spec fn ratio_text(registered: u64, input: u64) -> Seq<char> {
    if input > 0 {
        decimal(ratio_tenths(registered, input) / 10) + seq!['.'] + decimal(
            ratio_tenths(registered, input) % 10,
        )
    } else {
        "NaN"@
    }
}

/// The message shown for a reconstruction too degenerate to train on.
pub open spec fn untrainable_message(u: UntrainableReconstruction) -> Seq<char> {
    "重建注册率仅 "@ + ratio_text(u.registered_images, u.input_images) + "%（"@ + decimal(
        u.registered_images as nat,
    ) + " / "@ + decimal(u.input_images as nat)
        + " 张图像），低于 60% 的可训练下限：两个重建后端都未达标。请检查素材清晰度与重叠度，或改用更充分的匹配参数后重试。"@
}

impl UntrainableReconstruction {
    /// The message shown to the user.
    pub fn message(&self) -> (s: String)
        ensures
            s@ == untrainable_message(*self),
    {
        let mut s = String::from_str("重建注册率仅 ");
        if self.input_images > 0 {
            let num = self.registered_images as u128 * 1000;
            let input = self.input_images as u128;
            let q = num / input;
            let r = num % input;
            let tenths = if 2 * r > input || (2 * r == input && q % 2 == 1) {
                q + 1
            } else {
                q
            };
            proof {
                assert(tenths == ratio_tenths(self.registered_images, self.input_images));
            }
            push_decimal_wide(&mut s, tenths / 10);
            crate::text::string_push(&mut s, '.');
            push_decimal_wide(&mut s, tenths % 10);
        } else {
            s.append("NaN");
        }
        s.append("%（");
        push_decimal(&mut s, self.registered_images);
        s.append(" / ");
        push_decimal(&mut s, self.input_images);
        s.append(
            " 张图像），低于 60% 的可训练下限：两个重建后端都未达标。请检查素材清晰度与重叠度，或改用更充分的匹配参数后重试。",
        );
        s
    }
}

/// Rejects a reconstruction that is too degenerate to train on: COLMAP
/// reports an empty reconstruction as a successful exit, so the registration
/// share of the model decides, with the same 60% bar that already triggers
/// the mapper fallback.
pub fn ensure_trainable_reconstruction(report: &ReconstructionReport) -> (r: Result<
    (),
    UntrainableReconstruction,
>)
    ensures
        meets_registration_floor(report.registered_images, report.input_images) ==> r is Ok,
        !meets_registration_floor(report.registered_images, report.input_images) ==> r == Err::<
            (),
            UntrainableReconstruction,
        >(
            UntrainableReconstruction {
                registered_images: report.registered_images,
                input_images: report.input_images,
            },
        ),
{
    if registration_floor_met(report.registered_images, report.input_images) {
        Ok(())
    } else {
        Err(
            UntrainableReconstruction {
                registered_images: report.registered_images,
                input_images: report.input_images,
            },
        )
    }
}

/// Index of the sparse model that registered the most images; of equally
/// good models the first wins. `None` entries are models that failed
/// validation.
pub open spec fn best_model_spec(models: Seq<Option<u64>>, best: int) -> bool {
    &&& 0 <= best < models.len()
    &&& models[best] is Some
    &&& forall|i: int| 0 <= i < models.len() && models[i] is Some ==> models[i]->0 <= models[best]->0
    &&& forall|i: int| 0 <= i < best && models[i] is Some ==> models[i]->0 < models[best]->0
}

/// Picks the sparse model to train from, given the images each model
/// registered (`None` for a model that failed validation).
pub fn best_sparse_model(models: &[Option<u64>]) -> (r: Option<usize>)
    ensures
        match r {
            Some(best) => best_model_spec(models@, best as int),
            None => forall|i: int| 0 <= i < models@.len() ==> models@[i] is None,
        },
{
    let mut best: Option<usize> = None;
    let mut i: usize = 0;
    while i < models.len()
        invariant
            i <= models@.len(),
            match best {
                Some(b) => b < i && models@[b as int] is Some && (forall|j: int|
                    0 <= j < i && models@[j] is Some ==> models@[j]->0 <= models@[b as int]->0)
                    && (forall|j: int|
                    0 <= j < b && models@[j] is Some ==> models@[j]->0 < models@[b as int]->0),
                None => forall|j: int| 0 <= j < i ==> models@[j] is None,
            },
        decreases models.len() - i,
    {
        if let Some(registered) = models[i] {
            let better = match best {
                None => true,
                Some(b) => match models[b] {
                    Some(current) => registered > current,
                    None => true,
                },
            };
            if better {
                best = Some(i);
            }
        }
        i = i + 1;
    }
    best
}


/// Why the Global Mapper's model is set aside for the Incremental Mapper.
#[derive(Debug, Clone, Copy, PartialEq, Eq, Structural)]
pub enum GlobalMapperFallback {
    /// The mapper process failed.
    Failed,
    /// No valid model, or its best model registers under 60% of the images.
    BelowFloor,
}

impl GlobalMapperFallback {
    /// The reason logged with the fallback.
    pub fn reason(&self) -> (s: &'static str)
        ensures
            s@ == match self {
                GlobalMapperFallback::Failed => "global_mapper 执行失败"@,
                GlobalMapperFallback::BelowFloor => "global_mapper 输出无效或注册率低于 60%"@,
            },
    {
        match self {
            GlobalMapperFallback::Failed => "global_mapper 执行失败",
            GlobalMapperFallback::BelowFloor => "global_mapper 输出无效或注册率低于 60%",
        }
    }
}

/// After a Global Mapper run: `None` keeps its model, which needs a run that
/// succeeded and a best model (`best`, `None` when no model validated) that
/// meets the 60% registration floor; otherwise the reason to rerun with the
/// Incremental Mapper.
pub fn global_mapper_fallback(succeeded: bool, best: Option<ReconstructionReport>) -> (r: Option<
    GlobalMapperFallback,
>)
    ensures
        !succeeded ==> r == Some(GlobalMapperFallback::Failed),
        succeeded ==> (r is None <==> (best matches Some(report) && meets_registration_floor(
            report.registered_images,
            report.input_images,
        ))),
        succeeded && r is Some ==> r == Some(GlobalMapperFallback::BelowFloor),
{
    if !succeeded {
        return Some(GlobalMapperFallback::Failed);
    }
    match best {
        Some(report) => {
            if registration_floor_met(report.registered_images, report.input_images) {
                None
            } else {
                Some(GlobalMapperFallback::BelowFloor)
            }
        },
        None => Some(GlobalMapperFallback::BelowFloor),
    }
}


/// The bits of `1.0_f64`: a merged image set keeps every frame.
pub const ONE_BITS: u64 = 0x3ff0000000000000;

/// The checkpoint a reshoot project starts from: an image project whose
/// frames, the source project's followed by the reshoot's, are already
/// extracted, with no masks and no smart filter run; its plan keeps every
/// frame at no sampling rate. A merged sequence longer than
/// `large_sequence_threshold` images is flagged for confirmation.
pub fn reshoot_checkpoint(
    quality: Quality,
    source_frames: u64,
    reshoot_frames: u64,
    large_sequence_threshold: u64,
) -> (state: PipelineCheckpoint)
    requires
        source_frames + reshoot_frames <= u64::MAX,
    ensures
        state.preset == quality,
        state.input_type == ProjectInputType::Images,
        state.stage == PipelineStage::ExtractingFrames,
        state.video is None,
        state.image_sequence == Some(
            ImageSequenceRecord {
                image_count: (source_frames + reshoot_frames) as u64,
                width: 0,
                height: 0,
                has_alpha: false,
                requires_large_sequence_confirmation: source_frames + reshoot_frames
                    > large_sequence_threshold,
            },
        ),
        state.frames matches Some(frames) && frames.plan == (FramePlanRecord {
            retention_ratio_bits: ONE_BITS,
            sampling_fps_bits: 0,
            estimated_frames: (source_frames + reshoot_frames) as u64,
        }) && frames.extracted_frames == Some(
            (source_frames + reshoot_frames) as u64,
        ) && frames.image_format is Some && frames.image_format->0@ == "merged"@
            && frames.mask_count == Some(0u64) && !frames.has_alpha && frames.filtered_frames is None
            && frames.filter_config_hash is None,
        !state.filter_complete && !state.features_complete && !state.matching_complete
            && !state.reconstruction_complete && !state.brush_complete,
        state.mapper_backend is None,
{
    let mut state = created_for(quality, ProjectInputType::Images);
    let merged = source_frames + reshoot_frames;
    state.stage = PipelineStage::ExtractingFrames;
    state.image_sequence = Some(
        ImageSequenceRecord {
            image_count: merged,
            width: 0,
            height: 0,
            has_alpha: false,
            requires_large_sequence_confirmation: merged > large_sequence_threshold,
        },
    );
    state.frames = Some(
        FrameCheckpoint {
            plan: FramePlanRecord {
                retention_ratio_bits: ONE_BITS,
                sampling_fps_bits: 0,
                estimated_frames: merged,
            },
            extracted_frames: Some(merged),
            image_format: Some(String::from_str("merged")),
            mask_count: Some(0),
            has_alpha: false,
            filtered_frames: None,
            filter_config_hash: None,
        },
    );
    state
}


/// Whether the frames found on disk are the ones the checkpoint recorded: a
/// positive recorded count equal to what was found, the recorded image format
/// where both sides name one (`found_format` is `None` for inputs without a
/// format of their own), and the recorded mask count where one is recorded.
pub fn frames_on_disk_match(
    frames: &FrameCheckpoint,
    found_frames: u64,
    found_format: Option<&str>,
    found_masks: u64,
) -> (b: bool)
    ensures
        b == (frames.extracted_frames is Some && frames.extracted_frames->0 > 0
            && frames.extracted_frames->0 == found_frames && (found_format is Some
            && frames.image_format is Some ==> frames.image_format->0@ == found_format->0@)
            && (frames.mask_count is Some ==> frames.mask_count->0 == found_masks)),
{
    match frames.extracted_frames {
        Some(n) => {
            if n == 0 || n != found_frames {
                return false;
            }
        },
        None => {
            return false;
        },
    }
    match (found_format, &frames.image_format) {
        (Some(found), Some(recorded)) => {
            if !string_eq_str(recorded, found) {
                return false;
            }
        },
        _ => {},
    }
    match frames.mask_count {
        Some(m) => m == found_masks,
        None => true,
    }
}

/// Whether the frames a checkpoint records can be reused, which the probe
/// reports as `CheckpointProbe::frames_valid`: the frames found on disk match
/// the record (`frames_on_disk_match`), the checkpoint records the source of
/// the project's input type, and for video the recorded frame plan is still
/// the one the preset gives (`plan_matches`, a comparison of the rates that
/// the caller makes).
pub open spec fn frames_still_valid_spec(
    state: PipelineCheckpoint,
    found_frames: u64,
    found_format: Option<Seq<char>>,
    found_masks: u64,
    plan_matches: bool,
) -> bool {
    match state.frames {
        None => false,
        Some(frames) => {
            &&& frames.extracted_frames is Some && frames.extracted_frames->0 > 0
                && frames.extracted_frames->0 == found_frames
            &&& (found_format is Some && frames.image_format is Some ==> frames.image_format->0@
                == found_format->0)
            &&& (frames.mask_count is Some ==> frames.mask_count->0 == found_masks)
            &&& match state.input_type {
                ProjectInputType::Video => state.video is Some && plan_matches,
                ProjectInputType::Images => state.image_sequence is Some,
            }
        },
    }
}

pub fn frames_still_valid(
    state: &PipelineCheckpoint,
    found_frames: u64,
    found_format: Option<&str>,
    found_masks: u64,
    plan_matches: bool,
) -> (b: bool)
    ensures
        b == frames_still_valid_spec(
            *state,
            found_frames,
            match found_format {
                Some(f) => Some(f@),
                None => None,
            },
            found_masks,
            plan_matches,
        ),
{
    match &state.frames {
        None => false,
        Some(frames) => {
            if !frames_on_disk_match(frames, found_frames, found_format, found_masks) {
                return false;
            }
            match state.input_type {
                ProjectInputType::Video => state.video.is_some() && plan_matches,
                ProjectInputType::Images => state.image_sequence.is_some(),
            }
        },
    }
}

/// What a run does about the smart filter.
#[derive(Debug, Clone, Copy, PartialEq, Eq, Structural)]
pub enum FilterStep {
    /// The filter does not apply to this input or preset.
    Skip,
    /// The recorded filter run still holds.
    Reuse,
    /// The frames must be filtered again.
    Run,
}

/// Skips the filter where it does not apply, reuses an intact filter
/// checkpoint (`checkpoint_intact`), and reruns it otherwise.
pub fn filter_step(state: &PipelineCheckpoint, checkpoint_intact: bool) -> (step: FilterStep)
    ensures
        step == if !smart_filter_enabled_spec(*state) {
            FilterStep::Skip
        } else if checkpoint_intact {
            FilterStep::Reuse
        } else {
            FilterStep::Run
        },
{
    if !smart_filter_enabled(state) {
        FilterStep::Skip
    } else if checkpoint_intact {
        FilterStep::Reuse
    } else {
        FilterStep::Run
    }
}

/// The checkpoint after a step that leaves `filtered` frames with `hash` as
/// its filter record: only those two fields and the filter flag change.
pub open spec fn with_filter_record(
    state: PipelineCheckpoint,
    filtered: Option<u64>,
    hash: Option<String>,
) -> PipelineCheckpoint {
    PipelineCheckpoint {
        frames: match state.frames {
            Some(frames) => Some(
                FrameCheckpoint { filtered_frames: filtered, filter_config_hash: hash, ..frames },
            ),
            None => None,
        },
        filter_complete: true,
        ..state
    }
}

/// Records that the filter does not apply: no filtered frames, no filter
/// hash, and the filter stage complete.
pub fn record_filter_skipped(state: &mut PipelineCheckpoint)
    ensures
        *final(state) == with_filter_record(*old(state), None, None),
{
    let frames = match &state.frames {
        Some(frames) => Some(
            FrameCheckpoint {
                plan: frames.plan,
                extracted_frames: frames.extracted_frames,
                image_format: frames.image_format.clone(),
                mask_count: frames.mask_count,
                has_alpha: frames.has_alpha,
                filtered_frames: None,
                filter_config_hash: None,
            },
        ),
        None => None,
    };
    state.frames = frames;
    state.filter_complete = true;
}


/// Records a filter run that kept `kept_frames` frames under the filter
/// configuration whose hash is `config_hash`.
pub fn record_filter_run(state: &mut PipelineCheckpoint, kept_frames: u64, config_hash: String)
    ensures
        *final(state) == with_filter_record(*old(state), Some(kept_frames), Some(config_hash)),
{
    let frames = match &state.frames {
        Some(frames) => Some(
            FrameCheckpoint {
                plan: frames.plan,
                extracted_frames: frames.extracted_frames,
                image_format: frames.image_format.clone(),
                mask_count: frames.mask_count,
                has_alpha: frames.has_alpha,
                filtered_frames: Some(kept_frames),
                filter_config_hash: Some(config_hash),
            },
        ),
        None => None,
    };
    state.frames = frames;
    state.filter_complete = true;
}


/// A recorded filter run is recognised on resume while its frames stay on
/// disk: the checkpoint it leaves is intact for the hash it recorded.
pub proof fn lemma_recorded_filter_run_is_intact(
    state: PipelineCheckpoint,
    kept_frames: u64,
    config_hash: String,
    masks_match: bool,
)
    requires
        smart_filter_enabled_spec(state),
        state.frames is Some,
        state.frames->0.extracted_frames is Some,
        state.frames->0.extracted_frames->0 > 0,
        kept_frames > 0,
        state.frames->0.has_alpha ==> masks_match,
    ensures
        filter_checkpoint_complete_spec(
            with_filter_record(state, Some(kept_frames), Some(config_hash)),
            config_hash@,
            kept_frames,
            masks_match,
        ),
{
}

} // verus!
