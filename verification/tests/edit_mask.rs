use ooosplat::edit_mask::{
    checksum, count_deleted, encode_mask_file, mask_path, packed_mask_bytes, read_mask,
    GaussianEditing, MaskError,
};

#[test]
fn rejects_bits_beyond_splat_count() {
    assert!(count_deleted(&[0, 0b1000_0000], 9).is_err());
}

#[test]
fn round_trips_and_rejects_corrupt_masks() {
    let mask = vec![0b0101_0011, 0b0000_0001];
    let mut bytes = encode_mask_file(4, 9, &mask).unwrap();
    let editing = GaussianEditing {
        revision: 4,
        source_splat_count: 9,
        deleted_count: 5,
    };
    assert_eq!(read_mask(editing, &bytes).unwrap(), mask);
    *bytes.last_mut().unwrap() ^= 1;
    assert!(read_mask(editing, &bytes).is_err());
}

#[test]
fn packs_one_bit_per_splat() {
    assert_eq!(packed_mask_bytes(0), Ok(0));
    assert_eq!(packed_mask_bytes(1), Ok(1));
    assert_eq!(packed_mask_bytes(8), Ok(1));
    assert_eq!(packed_mask_bytes(9), Ok(2));
    assert_eq!(packed_mask_bytes(u64::MAX), Ok(2_305_843_009_213_693_952));
}

#[test]
fn counts_deleted_splats() {
    assert_eq!(count_deleted(&[0b0101_0011, 0b0000_0001], 9), Ok(5));
    assert_eq!(count_deleted(&[0xff, 0xff], 16), Ok(16));
    assert_eq!(count_deleted(&[], 0), Ok(0));
    assert_eq!(
        count_deleted(&[0], 9),
        Err(MaskError::LengthMismatch {
            expected: 2,
            actual: 1
        })
    );
    assert_eq!(count_deleted(&[0, 0b0000_0010], 9), Err(MaskError::BitsBeyondCount));
}

#[test]
fn checksum_is_fnv1a() {
    assert_eq!(checksum(&[]), 0xcbf29ce484222325);
    assert_eq!(checksum(b"a"), 0xaf63dc4c8601ec8c);
    assert_eq!(checksum(b"foobar"), 0x85944171f73967e8);
}

#[test]
fn the_file_layout_is_header_checksum_payload() {
    let mask = vec![0b0000_0011];
    let bytes = encode_mask_file(7, 3, &mask).unwrap();
    assert_eq!(bytes.len(), 44 + 8 + 1);
    assert_eq!(&bytes[..8], b"OOSMASK\0");
    assert_eq!(u32::from_le_bytes(bytes[8..12].try_into().unwrap()), 1);
    assert_eq!(u64::from_le_bytes(bytes[12..20].try_into().unwrap()), 7);
    assert_eq!(u64::from_le_bytes(bytes[20..28].try_into().unwrap()), 3);
    assert_eq!(u64::from_le_bytes(bytes[28..36].try_into().unwrap()), 2);
    assert_eq!(u64::from_le_bytes(bytes[36..44].try_into().unwrap()), 1);
    assert_eq!(
        u64::from_le_bytes(bytes[44..52].try_into().unwrap()),
        checksum(&mask)
    );
    assert_eq!(bytes[52], 0b0000_0011);
}

#[test]
fn each_file_defect_has_its_own_error() {
    let mask = vec![0b0101_0011, 0b0000_0001];
    let good = encode_mask_file(4, 9, &mask).unwrap();
    let editing = GaussianEditing {
        revision: 4,
        source_splat_count: 9,
        deleted_count: 5,
    };
    assert_eq!(read_mask(editing, &good[..43]), Err(MaskError::HeaderTruncated));
    let mut magic = good.clone();
    magic[0] = b'X';
    assert_eq!(read_mask(editing, &magic), Err(MaskError::BadMagic));
    assert_eq!(
        read_mask(editing, &good[..50]),
        Err(MaskError::ChecksumFieldTruncated)
    );
    let other_revision = GaussianEditing {
        revision: 5,
        ..editing
    };
    assert_eq!(
        read_mask(other_revision, &good),
        Err(MaskError::MetadataMismatch)
    );
    assert_eq!(read_mask(editing, &good[..53]), Err(MaskError::PayloadTruncated));
    let mut trailing = good.clone();
    trailing.push(0);
    assert_eq!(read_mask(editing, &trailing), Err(MaskError::TrailingData));
    let mut corrupt_checksum = good.clone();
    corrupt_checksum[44] ^= 0x10;
    assert_eq!(
        read_mask(editing, &corrupt_checksum),
        Err(MaskError::ChecksumMismatch)
    );
}

#[test]
fn revision_zero_needs_no_file() {
    let editing = GaussianEditing {
        revision: 0,
        source_splat_count: 17,
        deleted_count: 0,
    };
    assert_eq!(read_mask(editing, &[]), Ok(vec![0, 0, 0]));
    let deleted = GaussianEditing {
        deleted_count: 1,
        ..editing
    };
    assert_eq!(read_mask(deleted, &[]), Err(MaskError::MissingRevision));
}

#[test]
fn invalid_masks_are_not_written() {
    assert_eq!(
        encode_mask_file(1, 9, &[0, 0b1000_0000]),
        Err(MaskError::BitsBeyondCount)
    );
}

#[test]
fn masks_live_under_the_edits_directory() {
    assert_eq!(mask_path("/projects/p1", 4), "/projects/p1/edits/deleted-4.mask");
    assert_eq!(mask_path("/projects/p1/", 12), "/projects/p1/edits/deleted-12.mask");
    assert_eq!(mask_path("", 0), "edits/deleted-0.mask");
}

#[test]
fn mask_errors_read_as_messages() {
    assert_eq!(
        MaskError::LengthMismatch {
            expected: 2,
            actual: 1
        }
        .message(),
        "Gaussian 删除位图长度无效：期望 2 字节，实际 1 字节"
    );
    assert_eq!(MaskError::ChecksumMismatch.message(), "Gaussian 编辑位图校验失败");
}
