use native_processors::image_ops::{
    calculate_memory_usage, decode_base64, detect_format, encode_base64, get_dimensions,
    get_image_format, validate_image, Dimensions, ImageError, ImageKind,
};

const PNG_2X3: [u8; 73] = [
    137, 80, 78, 71, 13, 10, 26, 10, 0, 0, 0, 13, 73, 72, 68, 82, 0, 0, 0, 2, 0, 0, 0, 3, 8, 2, 0,
    0, 0, 54, 136, 73, 214, 0, 0, 0, 16, 73, 68, 65, 84, 120, 156, 99, 248, 207, 192, 0, 68, 12,
    40, 20, 0, 68, 208, 5, 251, 164, 207, 222, 128, 0, 0, 0, 0, 73, 69, 78, 68, 174, 66, 96, 130,
];

fn signatures() -> Vec<(Vec<u8>, &'static str)> {
    vec![
        (PNG_2X3.to_vec(), "PNG"),
        (vec![0xff, 0xd8, 0xff, 0xe0, 0, 0], "JPEG"),
        (b"GIF89a\x01\x00".to_vec(), "GIF"),
        (b"GIF87a".to_vec(), "GIF"),
        (b"RIFF\x10\x00\x00\x00WEBPVP8 ".to_vec(), "WEBP"),
        (b"II*\x00\x08\x00".to_vec(), "TIFF"),
        (b"MM\x00*\x00\x08".to_vec(), "TIFF"),
        (b"BM\x00\x00".to_vec(), "BMP"),
        (vec![0, 0, 1, 0, 1, 0], "ICO"),
        (b"\x00\x00\x00\x20ftypavif\x00\x00".to_vec(), "AVIF"),
    ]
}

#[test]
fn validate_png_buffer() {
    assert_eq!(validate_image(&PNG_2X3), Ok("PNG".to_string()));
}

#[test]
fn dimensions_of_png_buffer() {
    assert_eq!(get_dimensions(&PNG_2X3), Ok(Dimensions { width: 2, height: 3 }));
}

#[test]
fn every_named_signature_is_recognised() {
    for (bytes, name) in signatures() {
        assert_eq!(validate_image(&bytes), Ok(name.to_string()));
        assert_eq!(get_image_format(&bytes), Some(name.to_lowercase()));
    }
    assert_eq!(detect_format(&[0xff, 0xd8, 0xff]), Some(ImageKind::Jpeg));
}

#[test]
fn other_known_container_is_unknown() {
    assert_eq!(validate_image(b"DDS \x00\x00"), Ok("UNKNOWN".to_string()));
    assert_eq!(get_image_format(b"P6\n"), Some("unknown".to_string()));
}

#[test]
fn garbage_bytes_have_no_format() {
    let garbage = [0x13u8, 0x37, 0xde, 0xad, 0xbe, 0xef, 0x42];
    assert_eq!(get_image_format(&garbage), None);
    assert!(matches!(validate_image(&garbage), Err(ImageError::InvalidFormat(_))));
    assert_eq!(detect_format(&[]), None);
}

#[test]
fn undecodable_image_is_load_error() {
    assert!(matches!(get_dimensions(&[1, 2, 3]), Err(ImageError::LoadError(_))));
    assert!(matches!(get_dimensions(&PNG_2X3[..20]), Err(ImageError::LoadError(_))));
}

#[test]
fn memory_usage_is_buffer_length() {
    assert_eq!(calculate_memory_usage(&PNG_2X3), 73);
    assert_eq!(calculate_memory_usage(&[]), 0);
}

#[test]
fn decode_invalid_character() {
    assert!(matches!(decode_base64("!!!"), Err(ImageError::DecodeError(_))));
}

#[test]
fn decode_bad_padding() {
    assert!(matches!(decode_base64("aGVsbG8"), Err(ImageError::DecodeError(_))));
    assert!(matches!(decode_base64("aGVsbG8=="), Err(ImageError::DecodeError(_))));
}

#[test]
fn encode_known_values() {
    assert_eq!(encode_base64(b"hello"), "aGVsbG8=");
    assert_eq!(encode_base64(b""), "");
    assert_eq!(encode_base64(&[0xff, 0xfe]), "//4=");
}

#[test]
fn base64_round_trips() {
    for b in [&b""[..], b"a", b"ab", b"abc", &PNG_2X3[..]] {
        assert_eq!(decode_base64(&encode_base64(b)), Ok(b.to_vec()));
    }
    for s in ["", "aGVsbG8=", "//4=", "AAAA"] {
        assert_eq!(encode_base64(&decode_base64(s).unwrap()), s);
    }
}

#[test]
fn image_error_messages() {
    assert_eq!(ImageError::DecodeError("a".to_string()).message(), "Decode error: a");
    assert_eq!(ImageError::InvalidFormat("b".to_string()).message(), "Invalid format: b");
    assert_eq!(ImageError::LoadError("c".to_string()).message(), "Load error: c");
}

#[test]
fn unnamed_containers_are_unknown() {
    for bytes in [&b"#?RADIANCE\n"[..], b"qoif", b"farbfeld", &[0x76, 0x2f, 0x31, 0x01], b"P1", b"P7"] {
        assert_eq!(get_image_format(bytes), Some("unknown".to_string()));
    }
    assert_eq!(get_image_format(b"P8"), None);
}

#[test]
fn base64_length_rules() {
    assert_eq!(encode_base64(b"abcd").len(), 8);
    assert!(matches!(decode_base64("QUJD="), Err(ImageError::DecodeError(_))));
    assert!(matches!(decode_base64("QU JD"), Err(ImageError::DecodeError(_))));
}
