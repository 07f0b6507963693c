use crustyimg::lint::config::{check_config_size, raw_into_config, ConfigError, RawConfig, CONFIG_MAX_BYTES};
use crustyimg::metadata::tiff::{self, Entry, Ifd, Tiff, GPS_PTR, TAG_ARTIST, TAG_COPYRIGHT};
use crustyimg::quality::{
    next_probe, search_choice, search_start, search_step, LossyFormat, QualityError, MAX_SEARCH_ITERS,
    MAX_SEARCH_QUALITY, MIN_SEARCH_QUALITY,
};
use crustyimg::image::ImageFormat;
use crustyimg::recipe::{check_recipe_size, validate_recipe, RecipeError, RECIPE_MAX_BYTES};
use crustyimg::source::{glob_prefix, has_image_extension, input_shape, InputShape};

fn ascii_entry(tag: u16, text: &str) -> Entry {
    let mut value = text.as_bytes().to_vec();
    value.push(0);
    let count = value.len() as u32;
    Entry { tag, ty: 2, count, value, sub: None }
}

fn gps_tiff() -> Tiff {
    let gps = Ifd { entries: vec![ascii_entry(0x0001, "N")], next: None, thumbnail: None };
    let ifd0 = Ifd {
        entries: vec![
            ascii_entry(TAG_COPYRIGHT, "c"),
            Entry { tag: GPS_PTR, ty: 4, count: 1, value: vec![0u8; 4], sub: Some(Box::new(gps)) },
        ],
        next: None,
        thumbnail: None,
    };
    Tiff { ifd0 }
}

#[test]
fn tiff_serialize_then_parse_keeps_the_tags() {
    let bytes = tiff::serialize(&gps_tiff());
    let parsed = tiff::parse(&bytes).expect("serialized TIFF parses");
    let tags: Vec<u16> = parsed.ifd0.entries.iter().map(|e| e.tag).collect();
    assert_eq!(tags, vec![TAG_COPYRIGHT, GPS_PTR]);
}

#[test]
fn remove_gps_drops_only_the_gps_pointer_and_is_idempotent() {
    let mut t = gps_tiff();
    tiff::remove_gps(&mut t.ifd0);
    let tags: Vec<u16> = t.ifd0.entries.iter().map(|e| e.tag).collect();
    assert_eq!(tags, vec![TAG_COPYRIGHT]);
    tiff::remove_gps(&mut t.ifd0);
    assert_eq!(t.ifd0.entries.len(), 1);
}

#[test]
fn set_ascii_tag_overwrites_or_inserts_in_tag_order() {
    let mut t = tiff::minimal();
    tiff::set_ascii_tag(&mut t.ifd0, TAG_COPYRIGHT, "c");
    tiff::set_ascii_tag(&mut t.ifd0, TAG_ARTIST, "a");
    let tags: Vec<u16> = t.ifd0.entries.iter().map(|e| e.tag).collect();
    assert_eq!(tags, vec![TAG_ARTIST, TAG_COPYRIGHT]);
    tiff::set_ascii_tag(&mut t.ifd0, TAG_ARTIST, "bb");
    assert_eq!(t.ifd0.entries.len(), 2);
    assert_eq!(t.ifd0.entries[0].value, b"bb\0".to_vec());
}

#[test]
fn tiff_parse_rejects_a_short_block() {
    assert!(tiff::parse(&[0x49, 0x49, 0x2A]).is_err());
}

#[test]
fn search_finds_the_lowest_accepted_quality() {
    // Accept qualities >= 63 (a monotone threshold); lower is preferred.
    let mut s = search_start(1, 100);
    while let Some(q) = next_probe(&s, MAX_SEARCH_ITERS) {
        s = search_step(s, 1, 100, q, q >= 63, true);
    }
    let (quality, met, _) = search_choice(&s, 1, 100, true);
    assert!(met);
    assert_eq!(quality, 63);
    assert!(s.iters <= MAX_SEARCH_ITERS);
}

#[test]
fn search_falls_back_when_nothing_is_accepted() {
    let mut s = search_start(1, 100);
    while let Some(q) = next_probe(&s, MAX_SEARCH_ITERS) {
        s = search_step(s, 1, 100, q, false, false);
    }
    let (quality, met, reuse_last) = search_choice(&s, 1, 100, false);
    assert!(!met);
    assert_eq!(quality, 1);
    assert!(reuse_last);
}

#[test]
fn only_jpeg_supports_lossy_quality_in_this_build() {
    assert!(ImageFormat::Jpeg.supports_lossy_quality());
    assert!(!ImageFormat::Png.supports_lossy_quality());
    assert!(!ImageFormat::Avif.supports_lossy_quality());
    assert!(ImageFormat::Jpeg.supports_perceptual_quality());
}

#[test]
fn quality_error_messages() {
    assert_eq!(QualityError::Score("x".to_string()).message(), "perceptual scoring failed: x");
}

#[test]
fn recipe_validation_checks_version_fields_and_steps() {
    assert!(validate_recipe("1", false, false, 3).is_ok());
    assert!(matches!(validate_recipe("3", false, false, 3), Err(RecipeError::UnsupportedVersion { .. })));
    assert!(matches!(
        validate_recipe("1", true, false, 3),
        Err(RecipeError::NewFieldNeedsVersion2 { field: "format", .. })
    ));
    assert!(matches!(
        validate_recipe("1", false, true, 3),
        Err(RecipeError::NewFieldNeedsVersion2 { field: "quality", .. })
    ));
    assert!(validate_recipe("2", true, true, 3).is_ok());
    assert!(matches!(validate_recipe("2", false, false, 1025), Err(RecipeError::TooManySteps { count: 1025, max: 1024 })));
    assert!(check_recipe_size(RECIPE_MAX_BYTES).is_ok());
    let e = check_recipe_size(RECIPE_MAX_BYTES + 1).unwrap_err();
    assert_eq!(e.message(), "recipe is too large (65537 bytes; max 65536)");
}

#[test]
fn config_size_and_severity_values_are_checked() {
    assert!(check_config_size("c.toml", CONFIG_MAX_BYTES).is_ok());
    assert!(matches!(check_config_size("c.toml", CONFIG_MAX_BYTES + 1), Err(ConfigError::TooLarge { .. })));
    let raw = RawConfig {
        select: vec![],
        ignore: vec![],
        max_intended_width: None,
        severity: vec![("privacy/gps-metadata-leak".to_string(), "loud".to_string())],
        savings_threshold: None,
        budgets: vec![],
        per_file_ignores: vec![],
    };
    let err = raw_into_config(raw).unwrap_err();
    assert_eq!(
        err.message(),
        "invalid severity 'loud' for rule 'privacy/gps-metadata-leak' (expected error|warn|info|off)"
    );
}

#[test]
fn input_shape_and_glob_prefix() {
    assert_eq!(input_shape("-"), InputShape::Stdin);
    assert_eq!(input_shape("a/*.jpg"), InputShape::Glob);
    assert_eq!(input_shape("photos"), InputShape::PathLike);
    assert_eq!(glob_prefix("photos/*.jpg"), "photos/");
    assert_eq!(glob_prefix("plain"), "plain");
    assert!(has_image_extension("a/b.JPG"));
    assert!(!has_image_extension("a/b.txt"));
}

/// Drive a whole search with `accept` as the acceptance of a probed quality;
/// returns the choice, whether it met the target, and the probe count.
fn run_search(min: u8, max: u8, accept: impl Fn(u8) -> bool, prefer_lower: bool) -> (u8, bool, u8) {
    let mut s = search_start(min, max);
    let mut calls = 0u8;
    while let Some(q) = next_probe(&s, MAX_SEARCH_ITERS) {
        calls += 1;
        s = search_step(s, min, max, q, accept(q), prefer_lower);
    }
    let (quality, met, _) = search_choice(&s, min, max, prefer_lower);
    assert_eq!(calls, s.iters);
    (quality, met, calls)
}

#[test]
fn search_finds_lowest_meeting_target() {
    // Score == quality; the target is 50.
    let (quality, met, calls) = run_search(MIN_SEARCH_QUALITY, MAX_SEARCH_QUALITY, |q| q as f64 >= 50.0, true);
    assert_eq!(quality, 50, "lowest quality meeting target 50 is 50");
    assert!(met, "target 50 is reachable");
    assert!(calls <= MAX_SEARCH_ITERS, "scorer called {calls} times, exceeds cap");
}

#[test]
fn search_unreachable_target_is_best_effort() {
    let (quality, met, _) = run_search(MIN_SEARCH_QUALITY, MAX_SEARCH_QUALITY, |_q| 10.0 >= 90.0, true);
    assert_eq!(quality, MAX_SEARCH_QUALITY, "unreachable target -> best-effort highest quality");
    assert!(!met, "target was not met");
}

#[test]
fn search_under_size_finds_highest_fitting() {
    // Size == quality * 10; the budget is 500.
    let (quality, met, calls) = run_search(MIN_SEARCH_QUALITY, MAX_SEARCH_QUALITY, |q| q as u64 * 10 <= 500, false);
    assert_eq!(quality, 50, "highest quality fitting 500 is 50");
    assert!(met, "budget 500 is reachable");
    assert!(calls <= MAX_SEARCH_ITERS);
}

#[test]
fn search_under_size_unfittable_is_best_effort() {
    let (quality, met, _) = run_search(MIN_SEARCH_QUALITY, MAX_SEARCH_QUALITY, |_q| 10_000u64 <= 100, false);
    assert_eq!(quality, MIN_SEARCH_QUALITY, "unfittable budget -> best-effort lowest quality");
    assert!(!met, "budget was not met");
}

#[test]
fn search_config_defaults_match_dec019() {
    assert_eq!(MIN_SEARCH_QUALITY, 1);
    assert_eq!(MAX_SEARCH_QUALITY, 100);
    assert_eq!(MAX_SEARCH_ITERS, 8);
}

#[test]
fn search_is_monotone_in_target_and_budget() {
    for (lo, hi) in [(10u8, 90u8), (50, 51), (1, 100), (99, 100)] {
        let (a, _, _) = run_search(1, 100, |q| q >= lo, true);
        let (b, _, _) = run_search(1, 100, |q| q >= hi, true);
        assert!(a <= b, "a higher target never lowers the quality: {a} vs {b}");
        let (c, _, _) = run_search(1, 100, |q| (q as u64) * 10 <= hi as u64 * 10, false);
        let (d, _, _) = run_search(1, 100, |q| (q as u64) * 10 <= lo as u64 * 10, false);
        assert!(d <= c, "a smaller budget never raises the quality: {d} vs {c}");
    }
}

#[test]
fn search_finds_every_boundary_within_eight_probes() {
    for t in 1u8..=100 {
        let (q, met, calls) = run_search(1, 100, |q| q >= t, true);
        assert_eq!((q, met), (t, true));
        assert!(calls <= 8);
        let (q2, met2, _) = run_search(1, 100, |q| q <= t, false);
        assert_eq!((q2, met2), (t, true));
    }
}
