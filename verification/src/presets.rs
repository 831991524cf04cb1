//! Quality presets and the mapper-backend choice.
use vstd::prelude::*;

use crate::text::{ascii_lower, chars_eq, str_chars, to_ascii_lower};

verus! {

/// Which COLMAP mapper reconstructs the camera poses.
#[derive(Debug, Clone, Copy, PartialEq, Eq, Structural)]
pub enum MapperBackend {
    Incremental,
    Global,
}

#[derive(Debug, Clone, Copy, PartialEq, Eq, Structural)]
pub enum MapperPreference {
    /// Try the global mapper first, falling back to the incremental one when it
    /// fails, produces an invalid model, or registers fewer than 60% of images.
    PreferGlobal,
    /// Never try the global mapper.
    ForceIncremental,
}

/// Observations (images × features per image) the global mapper can still
/// finish comfortably: 600 frames at 8192 features.
pub const OBSERVATION_BUDGET: u64 = 4_915_200;

/// Largest frame count for which the global mapper is still tried.
pub open spec fn frame_limit(feature_max_num_features: u32) -> u64 {
    let per_image: u64 = if feature_max_num_features < 1 {
        1
    } else {
        feature_max_num_features as u64
    };
    let limit = OBSERVATION_BUDGET / per_image;
    if limit < 1 {
        1
    } else {
        limit
    }
}

pub open spec fn backend_spec(preference: MapperPreference, global_available: bool) -> MapperBackend {
    if preference == MapperPreference::PreferGlobal && global_available {
        MapperBackend::Global
    } else {
        MapperBackend::Incremental
    }
}

pub open spec fn backend_for_frames_spec(
    preference: MapperPreference,
    global_available: bool,
    frames: u64,
    feature_max_num_features: u32,
) -> MapperBackend {
    if preference == MapperPreference::PreferGlobal && global_available && frames <= frame_limit(
        feature_max_num_features,
    ) {
        MapperBackend::Global
    } else {
        MapperBackend::Incremental
    }
}

impl MapperPreference {
    /// The mapper to run, given whether this COLMAP has the global mapper.
    pub fn backend(self, global_available: bool) -> (b: MapperBackend)
        ensures
            b == backend_spec(self, global_available),
    {
        match self {
            MapperPreference::PreferGlobal if global_available => MapperBackend::Global,
            _ => MapperBackend::Incremental,
        }
    }

    /// Picks the mapper for a run of `frames` images: the global mapper's cost
    /// grows superlinearly with the observations, so past the frame limit of
    /// the tier only the incremental mapper returns at all.
    pub fn backend_for_frames(
        self,
        global_available: bool,
        frames: u64,
        feature_max_num_features: u32,
    ) -> (b: MapperBackend)
        ensures
            b == backend_for_frames_spec(self, global_available, frames, feature_max_num_features),
    {
        match self {
            MapperPreference::PreferGlobal if global_available && frames
                <= global_mapper_frame_limit(feature_max_num_features) => MapperBackend::Global,
            _ => MapperBackend::Incremental,
        }
    }
}

/// The mapper's name as the pipeline's messages spell it.
pub fn mapper_backend_label(backend: MapperBackend) -> (s: &'static str)
    ensures
        s@ == match backend {
            MapperBackend::Global => "Global Mapper"@,
            MapperBackend::Incremental => "Incremental Mapper"@,
        },
{
    match backend {
        MapperBackend::Global => "Global Mapper",
        MapperBackend::Incremental => "Incremental Mapper",
    }
}

/// Largest frame count for which the global mapper is still tried, for a tier
/// that extracts `feature_max_num_features` features per image.
pub fn global_mapper_frame_limit(feature_max_num_features: u32) -> (limit: u64)
    ensures
        limit == frame_limit(feature_max_num_features),
        limit >= 1,
{
    let per_image: u64 = if feature_max_num_features < 1 {
        1
    } else {
        feature_max_num_features as u64
    };
    let limit = OBSERVATION_BUDGET / per_image;
    if limit < 1 {
        1
    } else {
        limit
    }
}

#[derive(Debug, Clone, Copy, PartialEq, Eq, Structural)]
pub enum Quality {
    Fast,
    Balanced,
    High,
}

impl Default for Quality {
    fn default() -> (q: Self)
        ensures
            q == Quality::Balanced,
    {
        Quality::Balanced
    }
}

/// Brush training knobs that trade a little quality for training time.
///
/// They are gated to a single preset: the savings grow with training length,
/// so only the High preset uses them, while Fast and Balanced keep Brush's own
/// defaults untouched.
#[derive(Debug, Clone, Copy, PartialEq, Eq, Structural)]
pub struct BrushTuning {
    /// `Some(order)` overrides Brush's `--sh-degree` (default 3).
    pub sh_degree: Option<u32>,
    /// `Some(step)` stops densification at that step (Brush stops at 15000).
    pub growth_stop_iter: Option<usize>,
    /// `Some(steps)` overrides Brush's `--refine-every` (default 200).
    pub refine_every: Option<usize>,
    /// `Some(count)` caps the gaussian count.
    pub max_splats: Option<usize>,
    /// Export once at the end instead of every few thousand steps.
    pub single_export: bool,
}

pub open spec fn brush_defaults_spec() -> BrushTuning {
    BrushTuning {
        sh_degree: None,
        growth_stop_iter: None,
        refine_every: None,
        max_splats: None,
        single_export: false,
    }
}

pub open spec fn high_detail_spec() -> BrushTuning {
    BrushTuning {
        sh_degree: Some(2),
        growth_stop_iter: Some(12_000),
        refine_every: None,
        max_splats: None,
        single_export: true,
    }
}

impl BrushTuning {
    /// Brush's own defaults: every knob stays unset so nothing is overridden.
    pub fn brush_defaults() -> (t: Self)
        ensures
            t == brush_defaults_spec(),
    {
        BrushTuning {
            sh_degree: None,
            growth_stop_iter: None,
            refine_every: None,
            max_splats: None,
            single_export: false,
        }
    }

    /// Tuning for the High preset, where the longest training run makes the
    /// savings worth the quality trade-off.
    pub fn high_detail() -> (t: Self)
        ensures
            t == high_detail_spec(),
    {
        BrushTuning {
            sh_degree: Some(2),
            growth_stop_iter: Some(12_000),
            refine_every: None,
            max_splats: None,
            single_export: true,
        }
    }

    /// Whether no knob overrides Brush's defaults.
    pub fn is_brush_defaults(self) -> (b: bool)
        ensures
            b == (self == brush_defaults_spec()),
    {
        self.sh_degree.is_none() && self.growth_stop_iter.is_none() && self.refine_every.is_none()
            && self.max_splats.is_none() && !self.single_export
    }
}

/// The parameters of one quality tier.
///
/// Rates that the tier fixes as decimal values are held exactly: the frame
/// retention ratio in percent and the frame densities in whole frames per
/// second.
#[derive(Debug, Clone, Copy, PartialEq, Eq, Structural)]
pub struct QualityPreset {
    pub frame_retention_percent: u32,
    pub brush_iterations: usize,
    pub brush_max_resolution: u32,
    pub brush_tuning: BrushTuning,
    pub enable_smart_filter: bool,
    /// Frames the smart filter keeps in each window.
    pub smart_filter_keep_per_window: u32,
    pub mapper_backend: MapperPreference,
    pub sequential_overlap: u32,
    pub feature_max_image_size: u32,
    pub feature_max_num_features: u32,
    /// Wanted final retention density (frames per second).
    pub target_fps: Option<u32>,
    /// Candidate density handed to the smart filter (frames per second).
    pub candidate_fps: Option<u32>,
}

pub open spec fn preset_spec(quality: Quality) -> QualityPreset {
    match quality {
        Quality::Fast => QualityPreset {
            frame_retention_percent: 30,
            brush_iterations: 8_000,
            brush_max_resolution: 1_200,
            brush_tuning: brush_defaults_spec(),
            enable_smart_filter: true,
            smart_filter_keep_per_window: 2,
            mapper_backend: MapperPreference::PreferGlobal,
            sequential_overlap: 12,
            feature_max_image_size: 1280,
            feature_max_num_features: 8192,
            target_fps: Some(6),
            candidate_fps: Some(12),
        },
        Quality::Balanced => QualityPreset {
            frame_retention_percent: 50,
            brush_iterations: 15_000,
            brush_max_resolution: 1_600,
            brush_tuning: brush_defaults_spec(),
            enable_smart_filter: true,
            smart_filter_keep_per_window: 3,
            mapper_backend: MapperPreference::PreferGlobal,
            sequential_overlap: 15,
            feature_max_image_size: 1600,
            feature_max_num_features: 8192,
            target_fps: Some(8),
            candidate_fps: Some(20),
        },
        Quality::High => QualityPreset {
            frame_retention_percent: 100,
            brush_iterations: 30_000,
            brush_max_resolution: 2_000,
            brush_tuning: high_detail_spec(),
            enable_smart_filter: true,
            smart_filter_keep_per_window: 4,
            mapper_backend: MapperPreference::PreferGlobal,
            sequential_overlap: 20,
            feature_max_image_size: 2000,
            feature_max_num_features: 16384,
            target_fps: Some(10),
            candidate_fps: Some(30),
        },
    }
}

/// Lower-case name of a tier, as it is shown and accepted on the command line.
pub open spec fn quality_name(quality: Quality) -> Seq<char> {
    match quality {
        Quality::Fast => "fast"@,
        Quality::Balanced => "balanced"@,
        Quality::High => "high"@,
    }
}

/// The tier a name denotes, compared without regard to ASCII case.
pub open spec fn parse_quality_spec(value: Seq<char>) -> Option<Quality> {
    if ascii_lower(value) == "fast"@ {
        Some(Quality::Fast)
    } else if ascii_lower(value) == "balanced"@ {
        Some(Quality::Balanced)
    } else if ascii_lower(value) == "high"@ {
        Some(Quality::High)
    } else {
        None
    }
}

impl Quality {
    /// The parameters of this tier.
    pub fn preset(self) -> (p: QualityPreset)
        ensures
            p == preset_spec(self),
    {
        match self {
            Quality::Fast => QualityPreset {
                frame_retention_percent: 30,
                brush_iterations: 8_000,
                brush_max_resolution: 1_200,
                brush_tuning: BrushTuning::brush_defaults(),
                enable_smart_filter: true,
                smart_filter_keep_per_window: 2,
                mapper_backend: MapperPreference::PreferGlobal,
                sequential_overlap: 12,
                feature_max_image_size: 1280,
                feature_max_num_features: 8192,
                target_fps: Some(6),
                candidate_fps: Some(12),
            },
            Quality::Balanced => QualityPreset {
                frame_retention_percent: 50,
                brush_iterations: 15_000,
                brush_max_resolution: 1_600,
                brush_tuning: BrushTuning::brush_defaults(),
                enable_smart_filter: true,
                smart_filter_keep_per_window: 3,
                mapper_backend: MapperPreference::PreferGlobal,
                sequential_overlap: 15,
                feature_max_image_size: 1600,
                feature_max_num_features: 8192,
                target_fps: Some(8),
                candidate_fps: Some(20),
            },
            Quality::High => QualityPreset {
                frame_retention_percent: 100,
                brush_iterations: 30_000,
                brush_max_resolution: 2_000,
                brush_tuning: BrushTuning::high_detail(),
                enable_smart_filter: true,
                smart_filter_keep_per_window: 4,
                mapper_backend: MapperPreference::PreferGlobal,
                sequential_overlap: 20,
                feature_max_image_size: 2000,
                feature_max_num_features: 16384,
                target_fps: Some(10),
                candidate_fps: Some(30),
            },
        }
    }

    /// The tier's name (`Display`).
    pub fn name(self) -> (s: &'static str)
        ensures
            s@ == quality_name(self),
    {
        match self {
            Quality::Fast => "fast",
            Quality::Balanced => "balanced",
            Quality::High => "high",
        }
    }

    /// Parses a tier name without regard to ASCII case (`FromStr`).
    pub fn parse(value: &str) -> (r: Result<Quality, String>)
        ensures
            match parse_quality_spec(value@) {
                Some(q) => r == Ok::<Quality, String>(q),
                None => r is Err && r->Err_0@ == "unknown quality preset: "@ + value@,
            },
    {
        let chars = str_chars(value);
        let lower = to_ascii_lower(chars.as_slice());
        let fast = str_chars("fast");
        let balanced = str_chars("balanced");
        let high = str_chars("high");
        if chars_eq(lower.as_slice(), fast.as_slice()) {
            Ok(Quality::Fast)
        } else if chars_eq(lower.as_slice(), balanced.as_slice()) {
            Ok(Quality::Balanced)
        } else if chars_eq(lower.as_slice(), high.as_slice()) {
            Ok(Quality::High)
        } else {
            let mut message = String::from_str("unknown quality preset: ");
            message.append(value);
            Err(message)
        }
    }
}

impl std::str::FromStr for Quality {
    type Err = String;

    fn from_str(value: &str) -> (r: Result<Self, Self::Err>)
        ensures
            match parse_quality_spec(value@) {
                Some(q) => r == Ok::<Quality, String>(q),
                None => r is Err && r->Err_0@ == "unknown quality preset: "@ + value@,
            },
    {
        Quality::parse(value)
    }
}

/// Every tier's name parses back to that tier.
pub proof fn lemma_quality_name_round_trip(quality: Quality)
    ensures
        parse_quality_spec(quality_name(quality)) == Some(quality),
{
    reveal_strlit("fast");
    reveal_strlit("balanced");
    reveal_strlit("high");
    assert(ascii_lower("fast"@) =~= "fast"@);
    assert(ascii_lower("balanced"@) =~= "balanced"@);
    assert(ascii_lower("high"@) =~= "high"@);
    assert("fast"@ != "balanced"@);
    assert("fast"@[0] != "high"@[0]);
    assert("balanced"@ != "high"@);
}

/// The global mapper is tried at a frame count only if it is tried at every
/// smaller one.
pub proof fn lemma_backend_for_frames_monotone(
    preference: MapperPreference,
    global_available: bool,
    fewer: u64,
    more: u64,
    feature_max_num_features: u32,
)
    requires
        fewer <= more,
        backend_for_frames_spec(preference, global_available, more, feature_max_num_features)
            == MapperBackend::Global,
    ensures
        backend_for_frames_spec(preference, global_available, fewer, feature_max_num_features)
            == MapperBackend::Global,
{
}

/// The frame limit spends the observation budget: a tier that extracts more
/// features per image never gets a larger frame limit, and up to the budget
/// the limit times the features stays within it.
pub proof fn lemma_frame_limit_budget(features: u32, more_features: u32)
    requires
        1 <= features <= more_features,
    ensures
        frame_limit(more_features) <= frame_limit(features),
        features <= OBSERVATION_BUDGET ==> frame_limit(features) * features <= OBSERVATION_BUDGET,
{
    let a = OBSERVATION_BUDGET / (features as u64);
    let b = OBSERVATION_BUDGET / (more_features as u64);
    assert(b <= a) by (nonlinear_arith)
        requires
            1 <= features <= more_features,
            a == OBSERVATION_BUDGET / (features as u64),
            b == OBSERVATION_BUDGET / (more_features as u64),
    ;
    assert(a * features <= OBSERVATION_BUDGET) by (nonlinear_arith)
        requires
            1 <= features,
            a == OBSERVATION_BUDGET / (features as u64),
    ;
    if features <= OBSERVATION_BUDGET {
        assert(a >= 1) by (nonlinear_arith)
            requires
                1 <= features <= OBSERVATION_BUDGET,
                a == OBSERVATION_BUDGET / (features as u64),
        ;
    }
}

/// Every tier prefers the global mapper, keeps at least 8192 features per
/// image (pose accuracy degrades below that), runs the smart filter, and asks
/// for a candidate density at least as high as its target density.
pub proof fn lemma_presets_share_the_pipeline_floor(quality: Quality)
    ensures
        preset_spec(quality).mapper_backend == MapperPreference::PreferGlobal,
        preset_spec(quality).feature_max_num_features >= 8192,
        preset_spec(quality).enable_smart_filter,
        preset_spec(quality).target_fps is Some,
        preset_spec(quality).candidate_fps is Some,
        preset_spec(quality).target_fps->0 <= preset_spec(quality).candidate_fps->0,
{
}

/// Only the High tier changes Brush's defaults.
pub proof fn lemma_only_high_tunes_brush(quality: Quality)
    ensures
        (preset_spec(quality).brush_tuning == brush_defaults_spec()) <==> quality != Quality::High,
{
}

/// Each step up the quality ladder spends more: more training iterations, a
/// larger training resolution and feature image size, a wider matching
/// overlap, more retained frames, and no fewer features.
pub proof fn lemma_quality_ladder(lower: Quality, higher: Quality)
    requires
        (lower == Quality::Fast && higher == Quality::Balanced) || (lower == Quality::Balanced
            && higher == Quality::High),
    ensures
        preset_spec(lower).brush_iterations < preset_spec(higher).brush_iterations,
        preset_spec(lower).brush_max_resolution < preset_spec(higher).brush_max_resolution,
        preset_spec(lower).feature_max_image_size < preset_spec(higher).feature_max_image_size,
        preset_spec(lower).sequential_overlap < preset_spec(higher).sequential_overlap,
        preset_spec(lower).frame_retention_percent < preset_spec(higher).frame_retention_percent,
        preset_spec(lower).smart_filter_keep_per_window < preset_spec(
            higher,
        ).smart_filter_keep_per_window,
        preset_spec(lower).feature_max_num_features <= preset_spec(higher).feature_max_num_features,
{
}

} // verus!
