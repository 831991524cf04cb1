use ooosplat::brush::{brush_tuning_note, require_verified_cli, training_args};
use ooosplat::presets::{BrushTuning, Quality, QualityPreset};

fn args(preset: QualityPreset) -> Vec<String> {
    training_args(&preset, "out", "dataset/dense")
}

fn value_of(args: &[String], flag: &str) -> Option<String> {
    args.iter()
        .position(|arg| arg == flag)
        .and_then(|index| args.get(index + 1))
        .cloned()
}

#[test]
fn sh_degree_is_forwarded_for_every_preset() {
    for quality in [Quality::Fast, Quality::Balanced, Quality::High] {
        let preset = quality.preset();
        let args = args(preset);
        assert_eq!(
            value_of(&args, "--sh-degree"),
            Some(preset.brush_tuning.sh_degree.unwrap_or(3).to_string())
        );
    }
}

#[test]
fn export_every_matches_total_steps() {
    for quality in [Quality::Fast, Quality::Balanced, Quality::High] {
        let preset = quality.preset();
        let args = args(preset);
        assert_eq!(
            value_of(&args, "--total-steps"),
            value_of(&args, "--export-every")
        );
    }
}

#[test]
fn export_name_and_path_are_stable() {
    let args = args(Quality::Balanced.preset());
    assert_eq!(
        value_of(&args, "--export-name").as_deref(),
        Some("final.ply.tmp")
    );
    assert_eq!(value_of(&args, "--export-path").as_deref(), Some("out"));
}

#[test]
fn the_dataset_stays_the_last_argument() {
    let args = args(Quality::Fast.preset());
    assert_eq!(args.last().map(String::as_str), Some("dataset/dense"));
}

#[test]
fn unset_optional_knobs_are_omitted_entirely() {
    for quality in [Quality::Fast, Quality::Balanced] {
        let args = args(quality.preset());
        assert!(!args.iter().any(|arg| arg == "--growth-stop-iter"));
        assert!(!args.iter().any(|arg| arg == "--refine-every"));
        assert!(!args.iter().any(|arg| arg == "--max-splats"));
    }
}

// The presets keep Brush's defaults for Fast and Balanced and tune only High
// (SH order 2, densification stopping at step 12000), so the knobs that are
// set are checked on High.
#[test]
fn only_the_knobs_a_preset_sets_reach_brush() {
    let fast = args(Quality::Fast.preset());
    assert!(!fast.iter().any(|arg| arg == "--growth-stop-iter"));
    assert!(!fast.iter().any(|arg| arg == "--refine-every"));
    assert!(!fast.iter().any(|arg| arg == "--max-splats"));
    let high = args(Quality::High.preset());
    assert_eq!(value_of(&high, "--growth-stop-iter").as_deref(), Some("12000"));
    assert_eq!(value_of(&high, "--sh-degree").as_deref(), Some("2"));
    assert!(!high.iter().any(|arg| arg == "--refine-every"));
    assert_eq!(
        high,
        vec![
            "--total-steps",
            "30000",
            "--max-resolution",
            "2000",
            "--export-every",
            "30000",
            "--export-path",
            "out",
            "--export-name",
            "final.ply.tmp",
            "--sh-degree",
            "2",
            "--growth-stop-iter",
            "12000",
            "dataset/dense",
        ]
    );
    let mut custom = Quality::Fast.preset();
    custom.brush_tuning.refine_every = Some(150);
    custom.brush_tuning.max_splats = Some(1_000_000);
    let custom = args(custom);
    assert_eq!(value_of(&custom, "--refine-every").as_deref(), Some("150"));
    assert_eq!(value_of(&custom, "--max-splats").as_deref(), Some("1000000"));
}

#[test]
fn brush_tuning_note_reports_only_active_knobs() {
    assert_eq!(brush_tuning_note(BrushTuning::brush_defaults()), "");
    let note = brush_tuning_note(BrushTuning::high_detail());
    assert!(note.contains("SH 阶数 2"), "{note}");
    assert!(note.contains("致密化止于 12000 步"), "{note}");
    assert!(note.contains("仅最终导出"), "{note}");
    assert!(!note.contains("细化间隔"), "{note}");
    assert!(!note.contains("高斯上限"), "{note}");
    assert_eq!(note, " · SH 阶数 2 · 致密化止于 12000 步 · 仅最终导出");
}

#[test]
fn missing_engines_are_named() {
    assert!(require_verified_cli("/opt/brush", true).is_ok());
    assert_eq!(
        require_verified_cli("/opt/brush", false).unwrap_err().path,
        "/opt/brush"
    );
}
