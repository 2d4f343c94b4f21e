use graphics::blend_file::{blend_file_bytes, is_mesh_code, is_uncompressed_blend};
use std::io::Write;

fn gzip(data: &[u8]) -> Vec<u8> {
    let mut encoder = libflate::gzip::Encoder::new(Vec::new()).unwrap();
    encoder.write_all(data).unwrap();
    encoder.finish().into_result().unwrap()
}

#[test]
fn plain_blend_header_is_recognised() {
    assert!(is_uncompressed_blend(b"BLENDER-v300"));
    assert!(is_uncompressed_blend(b"BLENDER"));
}

#[test]
fn gzip_header_is_not_plain() {
    assert!(!is_uncompressed_blend(&[0x1f, 0x8b, 0x08, 0, 0, 0, 0, 0]));
    assert!(!is_uncompressed_blend(b"BLENDEX"));
}

#[test]
fn mesh_codes() {
    assert!(is_mesh_code(b"ME\0\0"));
    assert!(is_mesh_code(b"ME"));
    assert!(!is_mesh_code(b"OB\0\0"));
    assert!(!is_mesh_code(b"MA\0\0"));
}

#[test]
fn plain_file_bytes_are_kept() {
    let data = b"BLENDER-v300 and more".to_vec();
    assert_eq!(blend_file_bytes(&data), Some(data.clone()));
}

#[test]
fn gzipped_file_bytes_are_decompressed() {
    let plain = b"BLENDER-v300 and more".to_vec();
    let packed = gzip(&plain);
    assert!(!is_uncompressed_blend(&packed));
    assert_eq!(blend_file_bytes(&packed), Some(plain));
}

#[test]
fn broken_gzip_gives_nothing() {
    assert_eq!(blend_file_bytes(b"not a blend file"), None);
}
