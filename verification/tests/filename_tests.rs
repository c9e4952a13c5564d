use simplepicture3d::filename::{
    chrono_like_timestamp, civil_from_days, export_filename_at, generate_export_filename,
    generate_export_filename_with_ext, mtl_companion_name, sanitize_stem, timestamp_from_unix,
};

#[test]
fn generate_export_filename_from_image_path() {
    let name = generate_export_filename("C:\\photos\\my_image.png");
    assert!(name.starts_with("my_image_"));
    assert!(name.ends_with(".stl"));
}

#[test]
fn generate_export_filename_empty_path() {
    let name = generate_export_filename("");
    assert!(name.starts_with("mesh_"));
    assert!(name.ends_with(".stl"));
}

#[test]
fn generate_export_filename_with_spaces() {
    let name = generate_export_filename("/home/user/my photo.jpg");
    assert!(name.starts_with("my_photo_"));
    assert!(name.ends_with(".stl"));
}

#[test]
fn generate_export_filename_format() {
    let name = generate_export_filename("test.png");
    // Should be test_YYYYMMDD_HHMMSS.stl
    assert!(name.starts_with("test_"));
    assert!(name.ends_with(".stl"));
    // The timestamp part should be 15 chars: YYYYMMDD_HHMMSS
    let middle = &name[5..name.len() - 4]; // strip "test_" and ".stl"
    assert_eq!(middle.len(), 15, "timestamp should be 15 chars: {}", middle);
}

#[test]
fn jr2_803_generate_export_filename_obj() {
    let name = generate_export_filename_with_ext("C:\\photos\\my_image.png", "obj");
    assert!(name.starts_with("my_image_"));
    assert!(name.ends_with(".obj"));
}

#[test]
fn jr2_803_generate_export_filename_stl_backwards_compat() {
    let name = generate_export_filename("test.png");
    assert!(name.ends_with(".stl"), "backwards-compatible wrapper should use .stl");
}

#[test]
fn export_filename_at_is_deterministic() {
    // 1700000000 s after the epoch is 2023-11-14 22:13:20 UTC.
    assert_eq!(
        export_filename_at("C:\\photos\\my_image.png", "stl", 1_700_000_000),
        "my_image_20231114_221320.stl"
    );
    assert_eq!(export_filename_at("", "stl", 0), "mesh_19700101_000000.stl");
    assert_eq!(
        export_filename_at("/home/user/my photo.jpg", "obj", 0),
        "my_photo_19700101_000000.obj"
    );
}

#[test]
fn timestamp_renders_epoch_and_padding() {
    assert_eq!(timestamp_from_unix(0), "19700101_000000");
    // 1999-12-31 23:59:59 UTC
    assert_eq!(timestamp_from_unix(946_684_799), "19991231_235959");
    // 2000-01-01 00:00:00 UTC
    assert_eq!(timestamp_from_unix(946_684_800), "20000101_000000");
}

#[test]
fn civil_conversion_handles_leap_years() {
    assert_eq!(civil_from_days(0), (1970, 1, 1));
    // 2000-02-29: 10957 days to 2000-01-01, plus 31 + 28.
    assert_eq!(civil_from_days(11_016), (2000, 2, 29));
    // 2024-02-29.
    assert_eq!(civil_from_days(19_782), (2024, 2, 29));
    // 2100 is not a leap year: day after 2100-02-28 is 2100-03-01.
    // 2100-02-28 is epoch day 47540; check its successor.
    assert_eq!(civil_from_days(47_540), (2100, 2, 28));
    assert_eq!(civil_from_days(47_541), (2100, 3, 1));
}

#[test]
fn sanitize_stem_replaces_non_word_characters() {
    assert_eq!(sanitize_stem("my photo"), "my_photo");
    assert_eq!(sanitize_stem("img-01_v2"), "img-01_v2");
    assert_eq!(sanitize_stem("a/b.c:d"), "a_b_c_d");
    assert_eq!(sanitize_stem(""), "");
}

#[test]
fn filename_stem_defaults_to_mesh_for_blank_paths() {
    assert_eq!(export_filename_at("   ", "stl", 0), "mesh_19700101_000000.stl");
    assert_eq!(export_filename_at("dir/", "stl", 0), "mesh_19700101_000000.stl");
}

#[test]
fn filename_keeps_hidden_file_names_whole() {
    // A name with only a leading dot has no separate extension.
    assert_eq!(export_filename_at(".config", "stl", 0), "_config_19700101_000000.stl");
    // Only the last extension is stripped.
    assert_eq!(export_filename_at("a/b/archive.tar.gz", "stl", 0), "archive_tar_19700101_000000.stl");
}

#[test]
fn chrono_like_timestamp_has_fixed_shape() {
    let ts = chrono_like_timestamp();
    assert_eq!(ts.len(), 15);
    assert_eq!(ts.as_bytes()[8], b'_');
    for (i, b) in ts.bytes().enumerate() {
        if i != 8 {
            assert!(b.is_ascii_digit(), "timestamp byte {} should be a digit: {}", i, ts);
        }
    }
}

#[test]
fn sanitize_stem_keeps_unicode_alphanumerics() {
    assert_eq!(sanitize_stem("画像"), "画像");
    assert_eq!(sanitize_stem("résumé"), "résumé");
    assert_eq!(sanitize_stem("björk & co"), "björk___co");
}

#[test]
fn filename_keeps_unicode_stems() {
    assert_eq!(
        export_filename_at("C:\\photos\\画像.png", "stl", 0),
        "画像_19700101_000000.stl"
    );
}

#[test]
fn filename_trims_unicode_whitespace() {
    // A path of only no-break spaces counts as blank.
    assert_eq!(
        export_filename_at("\u{00A0} \u{00A0}", "stl", 0),
        "mesh_19700101_000000.stl"
    );
}

#[test]
fn mtl_companion_name_follows_the_obj_stem() {
    assert_eq!(
        mtl_companion_name("dir/test_roundtrip.obj"),
        Some("test_roundtrip.mtl".to_string())
    );
    assert_eq!(mtl_companion_name("archive.tar.obj"), Some("archive.tar.mtl".to_string()));
    assert_eq!(mtl_companion_name("a/.."), None);
}
