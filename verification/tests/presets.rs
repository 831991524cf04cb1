use ooosplat::presets::{
    global_mapper_frame_limit, mapper_backend_label, BrushTuning, MapperBackend, MapperPreference, Quality,
};

#[test]
fn presets_are_centralized_and_exact() {
    assert_eq!(Quality::Fast.preset().frame_retention_percent, 30);
    assert_eq!(Quality::Balanced.preset().frame_retention_percent, 50);
    assert_eq!(Quality::High.preset().frame_retention_percent, 100);
    assert_eq!(Quality::Fast.preset().brush_iterations, 8_000);
    assert_eq!(Quality::Balanced.preset().brush_max_resolution, 1_600);
    assert!(Quality::Fast.preset().enable_smart_filter);
    assert_eq!(Quality::Fast.preset().smart_filter_keep_per_window, 2);
    assert_eq!(Quality::Balanced.preset().smart_filter_keep_per_window, 3);
    assert_eq!(Quality::High.preset().smart_filter_keep_per_window, 4);
    for preset in [
        Quality::Fast.preset(),
        Quality::Balanced.preset(),
        Quality::High.preset(),
    ] {
        assert!(preset.target_fps.is_some() && preset.candidate_fps.is_some());
    }
}

#[test]
fn absolute_frame_rates_follow_the_ladder() {
    assert_eq!(Quality::Fast.preset().target_fps, Some(6));
    assert_eq!(Quality::Fast.preset().candidate_fps, Some(12));
    assert_eq!(Quality::Balanced.preset().target_fps, Some(8));
    assert_eq!(Quality::Balanced.preset().candidate_fps, Some(20));
    assert_eq!(Quality::High.preset().target_fps, Some(10));
    assert_eq!(Quality::High.preset().candidate_fps, Some(30));
}

#[test]
fn matching_and_feature_limits_follow_the_quality_ladder() {
    assert_eq!(Quality::Fast.preset().sequential_overlap, 12);
    assert_eq!(Quality::Balanced.preset().sequential_overlap, 15);
    assert_eq!(Quality::High.preset().sequential_overlap, 20);
    assert_eq!(Quality::Fast.preset().feature_max_image_size, 1280);
    assert_eq!(Quality::Balanced.preset().feature_max_image_size, 1600);
    assert_eq!(Quality::High.preset().feature_max_image_size, 2_000);
    assert_eq!(Quality::Fast.preset().feature_max_num_features, 8192);
    assert_eq!(Quality::Balanced.preset().feature_max_num_features, 8192);
    assert_eq!(Quality::High.preset().feature_max_num_features, 16_384);
}

#[test]
fn feature_count_never_drops_below_the_pose_accuracy_floor() {
    for quality in [Quality::Fast, Quality::Balanced, Quality::High] {
        assert!(quality.preset().feature_max_num_features >= 8192);
    }
}

#[test]
fn mapper_backend_switches_by_frame_count() {
    let global_available = true;
    for frames in [1_u64, 163, 299, 600] {
        assert_eq!(
            MapperPreference::PreferGlobal.backend_for_frames(global_available, frames, 8192),
            MapperBackend::Global,
            "{frames} 帧应使用 global mapper"
        );
    }
    for frames in [601_u64, 1200, 2121] {
        assert_eq!(
            MapperPreference::PreferGlobal.backend_for_frames(global_available, frames, 8192),
            MapperBackend::Incremental,
            "{frames} 帧应退回 incremental mapper"
        );
    }
    assert_eq!(global_mapper_frame_limit(8192), 600);
    assert_eq!(global_mapper_frame_limit(16_384), 300);
    assert_eq!(
        MapperPreference::PreferGlobal.backend_for_frames(global_available, 400, 16_384),
        MapperBackend::Incremental,
        "16384 特征档位在 400 帧就应退回增量"
    );
    assert_eq!(
        MapperPreference::PreferGlobal.backend_for_frames(false, 100, 8192),
        MapperBackend::Incremental
    );
    assert_eq!(
        MapperPreference::ForceIncremental.backend_for_frames(true, 100, 8192),
        MapperBackend::Incremental
    );
}

#[test]
fn every_preset_prefers_the_global_mapper() {
    for quality in [Quality::Fast, Quality::Balanced, Quality::High] {
        assert_eq!(
            quality.preset().mapper_backend,
            MapperPreference::PreferGlobal,
            "{quality:?} 应与其他档位一致地优先使用 global mapper"
        );
    }
    assert_eq!(
        MapperPreference::PreferGlobal.backend(false),
        MapperBackend::Incremental
    );
    assert_eq!(
        MapperPreference::PreferGlobal.backend(true),
        MapperBackend::Global
    );
    assert_eq!(
        MapperPreference::ForceIncremental.backend(true),
        MapperBackend::Incremental
    );
}

#[test]
fn balanced_is_default() {
    assert_eq!(Quality::default(), Quality::Balanced);
}

#[test]
fn frame_limit_never_drops_below_one_frame() {
    assert_eq!(global_mapper_frame_limit(0), 4_915_200);
    assert_eq!(global_mapper_frame_limit(u32::MAX), 1);
    assert_eq!(global_mapper_frame_limit(5_000_000), 1);
}

#[test]
fn quality_names_round_trip_without_regard_to_case() {
    for quality in [Quality::Fast, Quality::Balanced, Quality::High] {
        assert_eq!(Quality::parse(quality.name()), Ok(quality));
    }
    assert_eq!(Quality::parse("HiGh"), Ok(Quality::High));
    assert_eq!("Fast".parse::<Quality>(), Ok(Quality::Fast));
    assert_eq!(
        Quality::parse("ultra"),
        Err("unknown quality preset: ultra".to_string())
    );
    assert_eq!(Quality::Balanced.name(), "balanced");
}

#[test]
fn only_the_high_preset_tunes_brush() {
    assert!(Quality::Fast.preset().brush_tuning.is_brush_defaults());
    assert!(Quality::Balanced.preset().brush_tuning.is_brush_defaults());
    assert!(!Quality::High.preset().brush_tuning.is_brush_defaults());
    assert_eq!(Quality::High.preset().brush_tuning, BrushTuning::high_detail());
    let high = BrushTuning::high_detail();
    assert_eq!(high.sh_degree, Some(2));
    assert_eq!(high.growth_stop_iter, Some(12_000));
    assert_eq!(high.refine_every, None);
    assert_eq!(high.max_splats, None);
    assert!(high.single_export);
    assert!(BrushTuning::brush_defaults().is_brush_defaults());
}

#[test]
fn mapper_backends_have_display_labels() {
    assert_eq!(mapper_backend_label(MapperBackend::Global), "Global Mapper");
    assert_eq!(mapper_backend_label(MapperBackend::Incremental), "Incremental Mapper");
}
