use ooosplat::ply::{
    inspect_gaussian_ply, validate_gaussian_ply, GaussianProperty, PlyError, PlyInfo,
    MAX_PLY_HEADER_BYTES,
};

const VALID_PROPERTIES: &str = "property float x\nproperty float y\nproperty float z\nproperty float f_dc_0\nproperty float opacity\nproperty float scale_0\nproperty float rot_0\n";

fn inspect(bytes: &[u8]) -> Result<PlyInfo, PlyError> {
    inspect_gaussian_ply(bytes.len() as u64, bytes)
}

#[test]
fn parses_splat_count() {
    let file = b"ply\nformat binary_little_endian 1.0\nelement vertex 42\nproperty float x\nproperty float y\nproperty float z\nproperty float f_dc_0\nproperty float opacity\nproperty float scale_0\nproperty float rot_0\nend_header\n";
    assert_eq!(inspect(file).unwrap().splat_count, 42);
}

#[test]
fn rejects_plain_point_cloud() {
    let file = b"ply\nformat binary_little_endian 1.0\nelement vertex 1\nproperty float x\nproperty float y\nproperty float z\nend_header\n";
    assert!(inspect(file).is_err());
    assert_eq!(
        inspect(file),
        Err(PlyError::MissingProperty(GaussianProperty::FDc0))
    );
}

#[test]
fn reads_a_header_across_legal_short_reads() {
    let document = format!(
        "ply\nformat binary_little_endian 1.0\nelement vertex 42\n{VALID_PROPERTIES}end_header\n"
    );
    let mut file = document.into_bytes();
    file.extend_from_slice(&[0xff, 0x00, 0x13]);
    assert_eq!(
        inspect(&file),
        Ok(PlyInfo {
            file_size: file.len() as u64,
            splat_count: 42
        })
    );
}

#[test]
fn accepts_crlf_and_flexible_header_spacing() {
    let header = format!(
        "ply\r\nformat binary_little_endian 1.0\r\nelement   vertex   7\r\n{}end_header\r\n",
        VALID_PROPERTIES.replace('\n', "\r\n")
    );
    assert_eq!(inspect(header.as_bytes()).unwrap().splat_count, 7);
}

#[test]
fn rejects_missing_or_oversized_headers() {
    assert_eq!(
        inspect(b"ply\ncomment no marker\n"),
        Err(PlyError::MissingEndHeader)
    );
    let oversized = vec![b'x'; MAX_PLY_HEADER_BYTES as usize + 1];
    assert_eq!(inspect(&oversized), Err(PlyError::HeaderTooLarge));
}

#[test]
fn empty_files_and_other_formats_are_refused() {
    assert_eq!(inspect_gaussian_ply(0, b""), Err(PlyError::Empty));
    let not_ply = format!("plx\nelement vertex 3\n{VALID_PROPERTIES}end_header\n");
    assert_eq!(inspect(not_ply.as_bytes()), Err(PlyError::NotPly));
    let no_vertices = format!("ply\nelement vertex 0\n{VALID_PROPERTIES}end_header\n");
    assert_eq!(inspect(no_vertices.as_bytes()), Err(PlyError::NoVertices));
    let not_utf8 = b"ply\ncomment \xff\nend_header\n";
    assert_eq!(inspect(not_utf8), Err(PlyError::NotUtf8));
}

#[test]
fn the_first_parsable_vertex_count_wins() {
    let header = format!(
        "ply\nelement vertex many\nelement face 3\nelement vertex +9\nelement vertex 4\n{VALID_PROPERTIES}end_header\n"
    );
    assert_eq!(inspect(header.as_bytes()).unwrap().splat_count, 9);
}

#[test]
fn end_header_without_a_final_newline_ends_the_header() {
    let header = format!("ply\nelement vertex 5\n{VALID_PROPERTIES}end_header");
    assert_eq!(inspect(header.as_bytes()).unwrap().splat_count, 5);
}

#[test]
fn validation_returns_the_file_size() {
    let header = format!("ply\nelement vertex 5\n{VALID_PROPERTIES}end_header\n");
    assert_eq!(
        validate_gaussian_ply(1234, header.as_bytes()),
        Ok(1234)
    );
    assert_eq!(
        validate_gaussian_ply(0, header.as_bytes()),
        Err(PlyError::Empty)
    );
    assert_eq!(
        PlyError::MissingProperty(GaussianProperty::Rot0).message(),
        "PLY 缺少 Gaussian 属性：rot_0"
    );
}

#[test]
fn only_the_first_header_window_is_read() {
    let limit = (MAX_PLY_HEADER_BYTES + 1) as usize;
    let document = format!(
        "ply\nformat binary_little_endian 1.0\nelement vertex 3\n{VALID_PROPERTIES}end_header\n"
    );
    let mut file = document.into_bytes();
    file.resize(limit + 4096, 0xab);
    let size = file.len() as u64;
    let whole = inspect_gaussian_ply(size, &file);
    assert_eq!(whole, inspect_gaussian_ply(size, &file[..limit]));
    assert_eq!(whole.map(|info| info.splat_count), Ok(3));

    let mut endless = b"ply\n".to_vec();
    endless.resize(limit + 4096, b'a');
    let size = endless.len() as u64;
    assert_eq!(
        inspect_gaussian_ply(size, &endless),
        Err(PlyError::HeaderTooLarge)
    );
    assert_eq!(
        inspect_gaussian_ply(size, &endless[..limit]),
        Err(PlyError::HeaderTooLarge)
    );
}
