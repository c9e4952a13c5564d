use simplepicture3d::export_paths::{export_dir_blocked, has_extension};
use simplepicture3d::file_io::sanitize_temp_component;
use simplepicture3d::grid::MAX_DIMENSION;
use simplepicture3d::image_loading::{
    is_blocklisted, scale_down_dimensions, validate_magic_bytes, ImageKind, MagicError,
};
use simplepicture3d::numfmt::{u64_to_string, usize_to_string};
use simplepicture3d::python_bridge::{
    generate_depth_map_impl, log_progress_from_stderr, parse_u8, stages_from_stderr,
};

const PNG_SIGNATURE: [u8; 8] = [0x89, 0x50, 0x4E, 0x47, 0x0D, 0x0A, 0x1A, 0x0A];

#[test]
fn sanitize_allows_safe_chars() {
    assert_eq!(sanitize_temp_component("img_01"), Some("img_01".to_string()));
    assert_eq!(sanitize_temp_component(".png"), Some(".png".to_string()));
}

#[test]
fn sanitize_rejects_path_traversal() {
    assert!(sanitize_temp_component("..").is_none());
    assert!(sanitize_temp_component("a/../b").is_none());
}

#[test]
fn sanitize_drops_unsafe_characters() {
    assert_eq!(sanitize_temp_component("a b!c"), Some("abc".to_string()));
    assert_eq!(sanitize_temp_component("   "), None);
    assert_eq!(sanitize_temp_component("!!!"), None);
}

#[test]
fn scale_down_dimensions_fits_max() {
    let (w, h) = scale_down_dimensions(16384, 8192, MAX_DIMENSION);
    assert!(w <= MAX_DIMENSION && h <= MAX_DIMENSION);
    assert_eq!(w, 8192);
    assert_eq!(h, 4096);
}

#[test]
fn scale_down_dimensions_under_max_unchanged() {
    let (w, h) = scale_down_dimensions(100, 100, MAX_DIMENSION);
    assert_eq!(w, 100);
    assert_eq!(h, 100);
}

#[test]
fn scale_down_dimensions_preserves_aspect_and_floor() {
    // 8193 x 10 shrinks by 8192/8193: width hits the cap, height rounds.
    let (w, h) = scale_down_dimensions(8193, 10, MAX_DIMENSION);
    assert_eq!(w, 8192);
    assert_eq!(h, 10);
    // A degenerate 1-pixel tall strip never shrinks below one.
    let (w, h) = scale_down_dimensions(100_000, 1, MAX_DIMENSION);
    assert_eq!(w, 8192);
    assert_eq!(h, 1);
}

#[test]
fn png_magic_detected() {
    let mut bytes = vec![0u8; 16];
    bytes[..8].copy_from_slice(&PNG_SIGNATURE);
    let fmt = validate_magic_bytes(&bytes).unwrap();
    assert!(matches!(fmt, ImageKind::Png));
}

#[test]
fn jpeg_magic_detected() {
    let bytes = vec![0xFF, 0xD8, 0xFF, 0x00, 0x00, 0x00, 0x00, 0x00];
    let fmt = validate_magic_bytes(&bytes).unwrap();
    assert!(matches!(fmt, ImageKind::Jpeg));
}

#[test]
fn invalid_magic_rejected() {
    assert!(validate_magic_bytes(&vec![0x00, 0x00, 0x00]).is_err());
    assert!(validate_magic_bytes(&b"GIF89a----".to_vec()).is_err());
}

#[test]
fn magic_errors_render_messages() {
    assert_eq!(
        validate_magic_bytes(&vec![0u8; 3]).unwrap_err().message(),
        "file too short to be a valid image"
    );
    assert_eq!(
        validate_magic_bytes(&b"GIF89a----".to_vec()).unwrap_err(),
        MagicError::UnsupportedFormat
    );
    assert_eq!(
        MagicError::UnsupportedFormat.message(),
        "unsupported or invalid image format (expected PNG or JPEG)"
    );
}

#[test]
fn blocklist_covers_system_directories() {
    assert!(is_blocklisted("/etc/passwd"));
    assert!(is_blocklisted("/usr/bin/python3"));
    assert!(is_blocklisted("/usr/sbin/init"));
    assert!(is_blocklisted("/System/Library/x"));
    assert!(is_blocklisted("/etc"));
    assert!(is_blocklisted("/usr"));
    assert!(is_blocklisted("/System"));
    assert!(!is_blocklisted("/home/user/photo.png"));
    assert!(!is_blocklisted("/usr/local/share/img.png"));
    assert!(!is_blocklisted("/tmp/etc/x.png"));
}

#[test]
fn stages_from_stderr_extracts_stage_names() {
    let lines = vec![
        "PROGRESS 0".to_string(),
        "STAGE loading_model".to_string(),
        "PROGRESS 50".to_string(),
        "STAGE inference".to_string(),
        "  STAGE  post  ".to_string(),
    ];
    let stages = stages_from_stderr(&lines);
    assert_eq!(stages, ["loading_model", "inference", "post"]);
}

#[test]
fn stages_from_stderr_ignores_empty_stage() {
    let lines = vec!["STAGE ".to_string(), "STAGE  ".to_string()];
    let stages = stages_from_stderr(&lines);
    assert!(stages.is_empty());
}

#[test]
fn progress_messages_follow_the_protocol() {
    let lines = vec![
        "PROGRESS 25".to_string(),
        "noise".to_string(),
        "PROGRESS  100 ".to_string(),
        "PROGRESS 300".to_string(),
        "PROGRESS abc".to_string(),
        "STAGE inference".to_string(),
    ];
    let msgs = log_progress_from_stderr(&lines);
    assert_eq!(
        msgs,
        [
            "depth estimation progress: 25%",
            "depth estimation progress: 100%",
            "depth estimation stage: inference",
        ]
    );
}

#[test]
fn parse_u8_matches_standard_parsing() {
    for input in ["0", "7", "255", "+42", "007", " 5", "5 ", "", "-1", "256", "999", "1a", "+"] {
        assert_eq!(parse_u8(input), input.parse::<u8>().ok(), "input {:?}", input);
    }
}

#[test]
fn generate_depth_map_rejects_empty_path() {
    let err = generate_depth_map_impl("").unwrap_err();
    assert!(!err.is_empty());
    let err = generate_depth_map_impl("   ").unwrap_err();
    assert!(!err.is_empty());
}

#[test]
fn generate_depth_map_impl_trims_usable_paths() {
    assert_eq!(generate_depth_map_impl("  photo.png "), Ok("photo.png".to_string()));
}

#[test]
fn decimal_rendering_is_exact() {
    assert_eq!(u64_to_string(0), "0");
    assert_eq!(u64_to_string(7), "7");
    assert_eq!(u64_to_string(120), "120");
    assert_eq!(u64_to_string(u64::MAX), "18446744073709551615");
    assert_eq!(usize_to_string(19_602), "19602");
}

#[test]
fn export_extension_check_ignores_ascii_case() {
    assert!(has_extension("model.stl", "stl"));
    assert!(has_extension("model.STL", "stl"));
    assert!(has_extension("a.b.obj", "obj"));
    assert!(!has_extension("model.stl", "obj"));
    assert!(!has_extension("model", "stl"));
    assert!(!has_extension(".stl", "stl"));
    assert!(!has_extension("model.", "stl"));
}

#[test]
fn export_directory_blocklist_covers_system_roots() {
    assert!(export_dir_blocked("/etc"));
    assert!(export_dir_blocked("/usr/local"));
    assert!(export_dir_blocked("/boot/grub"));
    assert!(export_dir_blocked("/proc/self"));
    assert!(!export_dir_blocked("/home/user/exports"));
    assert!(!export_dir_blocked("/tmp"));
}
