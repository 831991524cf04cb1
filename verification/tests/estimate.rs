use ooosplat::estimate::{
    confidence_for, image_basis, input_basis, select_calibration_samples, CalibrationScope,
    EstimateConfidence, RuntimeSample,
};
use ooosplat::presets::{MapperBackend, Quality};

fn sample(quality: Quality, mapped_frames: u64, duration_ms: u64) -> RuntimeSample {
    RuntimeSample {
        quality,
        backend: MapperBackend::Global,
        mapped_frames,
        duration_ms,
    }
}

#[test]
fn same_quality_nearby_samples_take_priority() {
    let samples = [
        sample(Quality::Balanced, 300, 600_000),
        sample(Quality::Fast, 320, 374_000),
        sample(Quality::High, 416, 10_464_000),
    ];
    let (chosen, scope) = select_calibration_samples(&samples, Quality::Balanced, 300);
    assert_eq!(scope, CalibrationScope::NearbySameQuality);
    assert_eq!(chosen, vec![samples[0]]);
}

#[test]
fn far_frame_counts_are_left_out_of_the_nearby_set() {
    let samples = [
        sample(Quality::Fast, 200, 20_000),
        sample(Quality::Fast, 200, 40_000),
        sample(Quality::Fast, 800, 40_000),
    ];
    let (chosen, scope) = select_calibration_samples(&samples, Quality::Fast, 200);
    assert_eq!(scope, CalibrationScope::NearbySameQuality);
    assert_eq!(chosen.len(), 2);
}

#[test]
fn the_nearby_window_is_a_quarter_of_the_smaller_count() {
    let samples = [sample(Quality::Fast, 250, 20_000), sample(Quality::Fast, 251, 20_000)];
    let (chosen, _) = select_calibration_samples(&samples, Quality::Fast, 200);
    assert_eq!(chosen, vec![samples[0]]);
}

#[test]
fn calibration_falls_back_to_the_tier_then_to_every_valid_run() {
    let samples = [
        sample(Quality::Fast, 1_000, 20_000),
        sample(Quality::High, 100, 20_000),
        sample(Quality::High, 100, 9_999),
        sample(Quality::High, 0, 20_000),
    ];
    let (chosen, scope) = select_calibration_samples(&samples, Quality::Fast, 100);
    assert_eq!(scope, CalibrationScope::SameQuality);
    assert_eq!(chosen, vec![samples[0]]);
    let (chosen, scope) = select_calibration_samples(&samples, Quality::Balanced, 100);
    assert_eq!(scope, CalibrationScope::AnyQuality);
    assert_eq!(chosen, vec![samples[0], samples[1]]);
    let (chosen, scope) = select_calibration_samples(&[], Quality::Balanced, 100);
    assert_eq!(scope, CalibrationScope::AnyQuality);
    assert!(chosen.is_empty());
}

#[test]
fn confidence_bands_narrow_with_more_history() {
    assert_eq!(confidence_for(0), (EstimateConfidence::Low, 55, 175));
    assert_eq!(confidence_for(2), (EstimateConfidence::Low, 60, 160));
    assert_eq!(confidence_for(3), (EstimateConfidence::Medium, 72, 138));
    assert_eq!(confidence_for(6), (EstimateConfidence::High, 82, 122));
}

#[test]
fn the_basis_names_the_frames_and_the_history() {
    assert_eq!(
        input_basis(752, 226, 0, CalibrationScope::AnyQuality),
        "根据输入 752 总帧、实际进入 COLMAP 的 226 帧和质量档位估算；完成任务后会自动校准"
    );
    let basis = input_basis(752, 226, 1, CalibrationScope::NearbySameQuality);
    assert!(basis.contains("1 个同档位、相近帧数任务"));
    assert!(basis.contains("实际进入 COLMAP"));
    assert_eq!(
        image_basis(40, 2),
        "根据 40 张输入图片、质量档位和本机 2 个历史任务校准"
    );
    assert_eq!(
        image_basis(40, 0),
        "根据 40 张输入图片和质量档位估算；完成任务后会自动校准"
    );
}
