use ooosplat::reshoot::{
    check_reshoot_source, decode_base64, decode_guidance_image, ensure_distinct_reshoot_regions, RegionKey,
    ReshootError, ReshootPlan,
};
use ooosplat::frames::guidance_image_name;

fn thousandths(value: f64) -> i64 {
    (value * 1e3).round() as i64
}

fn sphere_region(center: [f64; 3], radius: f64) -> RegionKey {
    RegionKey::Sphere {
        center_x: thousandths(center[0]),
        center_y: thousandths(center[1]),
        center_z: thousandths(center[2]),
        radius: thousandths(radius),
    }
}

fn box_region(center: [f64; 3], size: [f64; 3]) -> RegionKey {
    RegionKey::Box {
        center_x: thousandths(center[0]),
        center_y: thousandths(center[1]),
        center_z: thousandths(center[2]),
        size_x: thousandths(size[0]),
        size_y: thousandths(size[1]),
        size_z: thousandths(size[2]),
    }
}

#[test]
fn rejects_a_repeated_reshoot_region() {
    let regions = vec![
        sphere_region([1.0, 2.0, 3.0], 0.5),
        sphere_region([1.0, 2.0, 3.0], 0.5),
    ];
    let error = ensure_distinct_reshoot_regions(&regions).unwrap_err();
    assert!(error.message().contains("重复区域"));
}

#[test]
fn accepts_distinct_reshoot_regions() {
    let regions = vec![
        sphere_region([1.0, 2.0, 3.0], 0.5),
        sphere_region([1.0, 2.0, 3.4], 0.5),
        box_region([1.0, 2.0, 3.0], [1.0, 1.0, 1.0]),
    ];
    assert!(ensure_distinct_reshoot_regions(&regions).is_ok());
}

#[test]
fn selections_closer_than_a_thousandth_are_the_same_region() {
    let regions = vec![
        sphere_region([1.0, 2.0, 3.0], 0.5),
        sphere_region([1.0, 2.0, 3.0002], 0.5),
    ];
    assert_eq!(
        ensure_distinct_reshoot_regions(&regions),
        Err(ReshootError::DuplicateRegion)
    );
}

#[test]
fn decodes_png_data_urls_and_rejects_other_payloads() {
    let signature = [0x89u8, b'P', b'N', b'G', 0x0d, 0x0a, 0x1a, 0x0a];
    assert_eq!(decode_base64("iVBORw0KGgo=").unwrap(), signature);
    assert!(decode_base64("####").is_none());
    assert!(decode_base64("aGVsbG8=").is_some());
}

#[test]
fn base64_skips_padding_and_line_breaks() {
    assert_eq!(decode_base64("aGVs\r\nbG8=").unwrap(), b"hello");
    assert_eq!(decode_base64("").unwrap(), Vec::<u8>::new());
    assert_eq!(decode_base64("QQ").unwrap(), b"A");
    assert_eq!(decode_base64("+/+/").unwrap(), vec![0xfb, 0xff, 0xbf]);
    assert!(decode_base64("aGVsbG8=é").is_none());
    assert!(decode_base64("a b").is_none());
}

#[test]
fn guidance_images_must_be_png_data_urls() {
    let signature = vec![0x89u8, b'P', b'N', b'G', 0x0d, 0x0a, 0x1a, 0x0a];
    assert_eq!(
        decode_guidance_image("data:image/png;base64,iVBORw0KGgo="),
        Ok(Some(signature))
    );
    assert_eq!(decode_guidance_image("   "), Ok(None));
    assert_eq!(decode_guidance_image(""), Ok(None));
    assert_eq!(
        decode_guidance_image("data:image/jpeg;base64,iVBORw0KGgo="),
        Err(ReshootError::InvalidImageFormat)
    );
    assert_eq!(
        decode_guidance_image("iVBORw0KGgo="),
        Err(ReshootError::InvalidImageFormat)
    );
    assert_eq!(
        decode_guidance_image("data:image/png;base64,####"),
        Err(ReshootError::UndecodableImage)
    );
    let error = decode_guidance_image("data:image/png;base64,aGVsbG8=").unwrap_err();
    assert_eq!(error, ReshootError::NotPng);
    assert!(error.message().contains("PNG"));
}

fn plan(regions: Vec<RegionKey>, guidance: usize, images: usize) -> ReshootPlan {
    ReshootPlan {
        regions,
        guidance: vec!["walk around".to_string(); guidance],
        guidance_images: vec![String::new(); images],
    }
}

#[test]
fn plans_need_one_guidance_per_distinct_region() {
    let a = sphere_region([0.0, 0.0, 0.0], 1.0);
    let b = box_region([0.0, 0.0, 0.0], [1.0, 1.0, 1.0]);
    assert_eq!(plan(vec![], 0, 0).validate(), Err(ReshootError::NoRegions));
    assert_eq!(
        plan(vec![a, a], 2, 2).validate(),
        Err(ReshootError::DuplicateRegion)
    );
    assert_eq!(
        plan(vec![a, b], 1, 2).validate(),
        Err(ReshootError::CountMismatch)
    );
    assert_eq!(
        plan(vec![a, b], 2, 3).validate(),
        Err(ReshootError::CountMismatch)
    );
    assert_eq!(plan(vec![a, b], 2, 2).validate(), Ok(()));
}

#[test]
fn reshoot_sources_must_be_completed_unmasked_projects() {
    assert_eq!(check_reshoot_source(true, true, true, false), Ok(()));
    assert_eq!(
        check_reshoot_source(false, true, true, false),
        Err(ReshootError::SourceNotCompleted)
    );
    assert_eq!(
        check_reshoot_source(true, false, false, true),
        Err(ReshootError::SourceNotCompleted)
    );
    assert_eq!(
        check_reshoot_source(true, true, false, true),
        Err(ReshootError::SourceFramesMissing)
    );
    assert_eq!(
        check_reshoot_source(true, true, true, true),
        Err(ReshootError::SourceHasMasks)
    );
    assert_eq!(
        ReshootError::SourceHasMasks.message(),
        "原项目含透明 Mask，当前高清补拍不支持混合透明素材"
    );
}

#[test]
fn writes_guidance_images_into_the_derived_project() {
    let signature = vec![0x89u8, b'P', b'N', b'G', 0x0d, 0x0a, 0x1a, 0x0a];
    let images = ["data:image/png;base64,iVBORw0KGgo=".to_string(), String::new()];
    let stored: Vec<(String, Vec<u8>)> = images
        .iter()
        .enumerate()
        .filter_map(|(index, image)| {
            decode_guidance_image(image)
                .unwrap()
                .map(|bytes| (guidance_image_name(index), bytes))
        })
        .collect();
    assert_eq!(stored, vec![("region-01.png".to_string(), signature)]);
}

#[test]
fn rejects_a_guidance_image_that_is_not_png() {
    let error = decode_guidance_image("data:image/png;base64,aGVsbG8=").unwrap_err();
    assert_eq!(error, ReshootError::NotPng);
    assert!(error.message().contains("PNG"));
}
