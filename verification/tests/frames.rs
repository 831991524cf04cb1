use ooosplat::frames::{
    guidance_image_name, mask_name_for_frame, masks_pair_with_frames, merged_frame_name,
    merged_frame_names, reshoot_source_frames,
};

#[test]
fn merged_frames_are_contiguous_and_sources_remain_unchanged() {
    let names = merged_frame_names(&[Some("jpg".to_string()), Some("png".to_string())]).unwrap();
    assert_eq!(names, vec!["frame_000000.jpg", "frame_000001.png"]);
}

#[test]
fn merged_names_lower_case_the_extension_and_default_to_jpg() {
    assert_eq!(merged_frame_name(7, Some("JPEG")), "frame_000007.jpeg");
    assert_eq!(merged_frame_name(12, None), "frame_000012.jpg");
    assert_eq!(merged_frame_name(1_234_567, Some("png")), "frame_1234567.png");
    assert!(merged_frame_names(&[None]).is_err());
    assert!(merged_frame_names(&[]).is_err());
}

#[test]
fn masks_are_named_after_their_frame() {
    assert_eq!(mask_name_for_frame("frame_000001.png"), "frame_000001.png.png");
}

fn names(values: &[&str]) -> Vec<String> {
    values.iter().map(|value| value.to_string()).collect()
}

#[test]
fn masks_pair_exactly_with_frames() {
    let frames = names(&["frame_000001.png"]);
    assert!(masks_pair_with_frames(&frames, &names(&["frame_000001.png.png"])));
    assert!(!masks_pair_with_frames(
        &frames,
        &names(&["frame_000001.png.png", "frame_999999.png.png"])
    ));
    assert!(!masks_pair_with_frames(&frames, &names(&["frame_999999.png.png"])));
    assert!(!masks_pair_with_frames(&frames, &names(&[])));
    assert!(masks_pair_with_frames(&names(&[]), &names(&[])));
}

#[test]
fn guidance_images_are_numbered_from_one() {
    assert_eq!(guidance_image_name(0), "region-01.png");
    assert_eq!(guidance_image_name(9), "region-10.png");
    assert_eq!(guidance_image_name(99), "region-100.png");
}

#[test]
fn reshoot_prefers_the_filtered_frames_of_its_source() {
    // Without a filtered set, an image-sequence source falls back to its raw frames.
    assert_eq!(reshoot_source_frames(0), "work/frames");
    // With one, the reshoot merges only what the source reconstruction used.
    assert_eq!(reshoot_source_frames(1), "work/frames_filtered");
}
