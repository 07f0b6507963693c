use std::io::Cursor;

use crustyimg::error::LoadError;
use crustyimg::lint::config::{
    effective_config, Budget, CliOverrides, ConfigError, LintConfig, PerFileIgnore, SeverityOverride,
    DEFAULT_MIN_BYTES, DEFAULT_MIN_PERCENT,
};
use crustyimg::lint::report::{escape_json, render_human, write_json, write_sarif};
use crustyimg::lint::rules::{
    jpeg_component_count, AnimatedGif, CameraMetadata, MissingIcc, OversizedBytes, OversizedDimensions,
    UnexpectedIcc, WrongColorspace,
};
use crustyimg::lint::target::LintTarget;
use crustyimg::lint::{
    default_rules, exit_code, known_rule_ids, run_lint, sort_findings, Finding, GpsMetadataLeak,
    LintOutcome, Rule, RuleKind, Severity, TruncatedOrCorrupt,
};
use crustyimg::source::Input;

fn finding(path: &str, rule: &'static str, sev: Severity) -> Finding {
    Finding::new(path, rule, sev, "msg", None)
}

fn synthetic() -> LintOutcome {
    LintOutcome {
        findings: vec![
            Finding::new(
                "img/leak.jpg",
                "privacy/gps-metadata-leak",
                Severity::Error,
                "image carries GPS location metadata",
                Some("meta clean --gps".to_string()),
            ),
            Finding::new(
                "img/photo.png",
                "size/oversized-bytes",
                Severity::Warn,
                "exceeds the byte budget",
                Some("optimize".to_string()),
            )
            .with_bytes_saved(12000),
        ],
        files_scanned: 3,
    }
}

fn encode(img: image::DynamicImage, format: image::ImageFormat) -> Vec<u8> {
    let mut out = Cursor::new(Vec::new());
    img.write_to(&mut out, format).unwrap();
    out.into_inner()
}

fn solid_jpeg() -> Vec<u8> {
    let img = image::RgbImage::from_pixel(8, 8, image::Rgb([120, 130, 140]));
    encode(image::DynamicImage::ImageRgb8(img), image::ImageFormat::Jpeg)
}

fn png8(w: u32) -> Vec<u8> {
    let img = image::RgbImage::from_pixel(w, 8, image::Rgb([1, 2, 3]));
    encode(image::DynamicImage::ImageRgb8(img), image::ImageFormat::Png)
}

fn png16() -> Vec<u8> {
    let img: image::ImageBuffer<image::Rgb<u16>, Vec<u16>> =
        image::ImageBuffer::from_pixel(4, 4, image::Rgb([40000u16, 20000, 10000]));
    encode(image::DynamicImage::ImageRgb16(img), image::ImageFormat::Png)
}

fn animated_gif() -> Vec<u8> {
    let mut buf = Vec::new();
    {
        let mut enc = image::codecs::gif::GifEncoder::new(&mut buf);
        let f1 = image::Frame::new(image::RgbaImage::from_pixel(4, 4, image::Rgba([255, 0, 0, 255])));
        let f2 = image::Frame::new(image::RgbaImage::from_pixel(4, 4, image::Rgba([0, 255, 0, 255])));
        enc.encode_frames(vec![f1, f2]).unwrap();
    }
    buf
}

/// A JPEG carrying an EXIF APP1 with one IFD0 entry (little-endian TIFF).
fn exif_jpeg(tag: u16, ty: u16, count: u32, value: [u8; 4]) -> Vec<u8> {
    let base = solid_jpeg();
    let mut tiff: Vec<u8> = Vec::new();
    tiff.extend_from_slice(&[0x49, 0x49, 0x2A, 0x00]);
    tiff.extend_from_slice(&[0x08, 0x00, 0x00, 0x00]);
    tiff.extend_from_slice(&[0x01, 0x00]);
    tiff.extend_from_slice(&tag.to_le_bytes());
    tiff.extend_from_slice(&ty.to_le_bytes());
    tiff.extend_from_slice(&count.to_le_bytes());
    tiff.extend_from_slice(&value);
    tiff.extend_from_slice(&[0x00, 0x00, 0x00, 0x00]);
    let mut payload = Vec::new();
    payload.extend_from_slice(b"Exif\0\0");
    payload.extend_from_slice(&tiff);
    let seg_len = (payload.len() + 2) as u16;
    let mut out = Vec::new();
    out.extend_from_slice(&base[0..2]);
    out.push(0xFF);
    out.push(0xE1);
    out.extend_from_slice(&seg_len.to_be_bytes());
    out.extend_from_slice(&payload);
    out.extend_from_slice(&base[2..]);
    out
}

/// A JPEG carrying an EXIF APP1 whose IFD0 points at a GPS IFD with one tag.
fn gps_jpeg() -> Vec<u8> {
    let base = solid_jpeg();
    let mut tiff: Vec<u8> = Vec::new();
    tiff.extend_from_slice(&[0x49, 0x49, 0x2A, 0x00]);
    tiff.extend_from_slice(&[0x08, 0x00, 0x00, 0x00]);
    tiff.extend_from_slice(&[0x01, 0x00]);
    tiff.extend_from_slice(&[0x25, 0x88]);
    tiff.extend_from_slice(&[0x04, 0x00]);
    tiff.extend_from_slice(&[0x01, 0x00, 0x00, 0x00]);
    tiff.extend_from_slice(&[0x1A, 0x00, 0x00, 0x00]);
    tiff.extend_from_slice(&[0x00, 0x00, 0x00, 0x00]);
    tiff.extend_from_slice(&[0x01, 0x00]);
    tiff.extend_from_slice(&[0x01, 0x00]);
    tiff.extend_from_slice(&[0x02, 0x00]);
    tiff.extend_from_slice(&[0x02, 0x00, 0x00, 0x00]);
    tiff.extend_from_slice(&[0x4E, 0x00, 0x00, 0x00]);
    tiff.extend_from_slice(&[0x00, 0x00, 0x00, 0x00]);
    let mut payload: Vec<u8> = Vec::new();
    payload.extend_from_slice(b"Exif\0\0");
    payload.extend_from_slice(&tiff);
    let seg_len = (payload.len() + 2) as u16;
    let mut out = Vec::new();
    out.extend_from_slice(&base[0..2]);
    out.push(0xFF);
    out.push(0xE1);
    out.extend_from_slice(&seg_len.to_be_bytes());
    out.extend_from_slice(&payload);
    out.extend_from_slice(&base[2..]);
    out
}

#[test]
fn select_ignore_filter_rules_and_unknown_id_is_usage_error() {
    let cfg = effective_config(
        &CliOverrides { select: vec!["privacy".into()], ..Default::default() },
        None,
    )
    .unwrap();
    assert!(cfg.is_rule_active("privacy/gps-metadata-leak"));
    assert!(!cfg.is_rule_active("size/truncated-or-corrupt"));

    let err = effective_config(
        &CliOverrides { ignore: vec!["bogus/nope".into()], ..Default::default() },
        None,
    )
    .unwrap_err();
    assert!(matches!(err, ConfigError::UnknownRule(_)));
}

#[test]
fn no_config_yields_defaults() {
    let cfg = LintConfig::default();
    assert_eq!(cfg.savings_threshold.min_bytes, DEFAULT_MIN_BYTES);
    assert_eq!(cfg.savings_threshold.min_percent, DEFAULT_MIN_PERCENT);
    assert!(cfg.is_rule_active("privacy/gps-metadata-leak"));
}

#[test]
fn severity_to_exit_code_any_error_is_7_only_info_warn_is_0() {
    let with_error = LintOutcome {
        findings: vec![finding("a.png", "size/truncated-or-corrupt", Severity::Error)],
        files_scanned: 1,
    };
    assert_eq!(exit_code(&with_error, None), 7);

    let info_warn = LintOutcome {
        findings: vec![
            finding("a.png", "x/warn", Severity::Warn),
            finding("b.png", "x/info", Severity::Info),
        ],
        files_scanned: 2,
    };
    assert_eq!(exit_code(&info_warn, None), 0);
}

#[test]
fn findings_sort_by_path_then_severity_then_rule() {
    let outcome = LintOutcome {
        findings: vec![
            finding("b.png", "z/rule", Severity::Info),
            finding("a.png", "m/rule", Severity::Warn),
            finding("a.png", "a/rule", Severity::Error),
            finding("a.png", "b/rule", Severity::Error),
        ],
        files_scanned: 2,
    };
    let sorted = sort_findings(outcome.findings);
    let order: Vec<_> = sorted.iter().map(|f| (f.file().to_string(), f.rule())).collect();
    assert_eq!(
        order,
        vec![
            ("a.png".to_string(), "a/rule"),
            ("a.png".to_string(), "b/rule"),
            ("a.png".to_string(), "m/rule"),
            ("b.png".to_string(), "z/rule"),
        ]
    );
}

#[test]
fn json_golden_is_an_exact_byte_stable_string() {
    let got = write_json(&synthetic(), false);
    let expected = String::new()
        + r#"{"schema":"crustyimg.lint/v1","findings":["#
        + r#"{"file":"img/leak.jpg","rule":"privacy/gps-metadata-leak","severity":"error","#
        + r#""message":"image carries GPS location metadata","fix":"crustyimg meta clean --gps img/leak.jpg"},"#
        + r#"{"file":"img/photo.png","rule":"size/oversized-bytes","severity":"warn","#
        + r#""message":"exceeds the byte budget","fix":"crustyimg optimize img/photo.png","bytes_saved":12000}"#
        + r#"],"summary":{"files_scanned":3,"errors":1,"warnings":1,"infos":0,"#
        + r#""potential_bytes_saved":12000,"passed":false}}"#;
    assert_eq!(got, expected);
}

#[test]
fn json_determinism_two_renders_are_byte_identical() {
    let outcome = synthetic();
    let a = write_json(&outcome, true);
    let b = write_json(&outcome, true);
    assert_eq!(a, b);
}

fn sarif_string(outcome: &LintOutcome) -> String {
    write_sarif(outcome, "0.4.0", None)
}

#[test]
fn sarif_golden_is_an_exact_byte_stable_string() {
    let got = sarif_string(&synthetic());
    let expected = String::new()
        + r#"{"version":"2.1.0","$schema":"https://json.schemastore.org/sarif-2.1.0.json","#
        + r#""runs":[{"tool":{"driver":{"name":"crustyimg","#
        + r#""informationUri":"https://github.com/jysf/crustyimg","version":"0.4.0","rules":["#
        + r#"{"id":"privacy/gps-metadata-leak","defaultConfiguration":{"level":"error"},"#
        + r#""helpUri":"https://github.com/jysf/crustyimg"},"#
        + r#"{"id":"size/oversized-bytes","defaultConfiguration":{"level":"error"},"#
        + r#""helpUri":"https://github.com/jysf/crustyimg"}]}},"results":["#
        + r#"{"ruleId":"privacy/gps-metadata-leak","level":"error","#
        + r#""message":{"text":"image carries GPS location metadata — fix: crustyimg meta clean --gps img/leak.jpg"},"#
        + r#""locations":[{"physicalLocation":{"artifactLocation":{"uri":"img/leak.jpg"}}}]},"#
        + r#"{"ruleId":"size/oversized-bytes","level":"warning","#
        + r#""message":{"text":"exceeds the byte budget — fix: crustyimg optimize img/photo.png"},"#
        + r#""locations":[{"physicalLocation":{"artifactLocation":{"uri":"img/photo.png"}}}]}"#
        + r#"]}]}"#;
    assert_eq!(got, expected);
}

#[test]
fn sarif_determinism_two_renders_are_byte_identical() {
    let outcome = synthetic();
    assert_eq!(sarif_string(&outcome), sarif_string(&outcome));
}

#[test]
fn jpeg_component_count_reads_nf() {
    let cmyk_sof = [0xFF, 0xD8, 0xFF, 0xC0, 0x00, 0x14, 0x08, 0x00, 0x01, 0x00, 0x01, 0x04];
    assert_eq!(jpeg_component_count(&cmyk_sof), Some(4));
    assert_eq!(jpeg_component_count(&solid_jpeg()), Some(3));
    assert_eq!(jpeg_component_count(&png8(4)), None);
}

// ── Further scenarios ─────────────────────────────────────────────────────

#[test]
fn human_render_groups_by_file_shows_fix_and_savings_summary() {
    let got = render_human(&synthetic());
    assert!(got.contains("img/leak.jpg"));
    assert!(got.contains("error privacy/gps-metadata-leak:"));
    assert!(got.contains("fix: crustyimg meta clean --gps img/leak.jpg"));
    assert!(got.contains("~12000 bytes saveable"), "summary: {got}");
}

#[test]
fn clean_outcome_is_passed_true_with_empty_findings() {
    let outcome = LintOutcome { findings: vec![], files_scanned: 2 };
    let got = write_json(&outcome, true);
    assert!(got.contains("\"findings\":[]"));
    assert!(got.contains("\"passed\":true"));
    assert!(got.contains("\"potential_bytes_saved\":0"));
}

#[test]
fn json_escapes_quotes_and_backslashes() {
    let outcome = LintOutcome {
        findings: vec![Finding::new(
            "weird\"name\\x.png",
            "size/truncated-or-corrupt",
            Severity::Error,
            "bad \"quote\"",
            None,
        )],
        files_scanned: 1,
    };
    let got = write_json(&outcome, false);
    assert!(got.contains(r#"weird\"name\\x.png"#));
    assert!(got.contains(r#"bad \"quote\""#));
    assert!(got.contains("\"fix\":null"));
}

#[test]
fn escape_json_writes_control_characters_as_unicode_escapes() {
    assert_eq!(escape_json("a\u{1}b\u{1f}"), "a\\u0001b\\u001F");
    assert_eq!(escape_json("tab\there"), "tab\\u0009here");
}

#[test]
fn sarif_maps_severities_and_empty_results_on_clean() {
    let outcome = LintOutcome {
        findings: vec![
            Finding::new("a.png", "size/truncated-or-corrupt", Severity::Error, "e", None),
            Finding::new("b.png", "orient/orientation-not-baked", Severity::Warn, "w", None),
            Finding::new("c.png", "color/missing-icc", Severity::Info, "i", None),
        ],
        files_scanned: 3,
    };
    let s = sarif_string(&outcome);
    assert!(s.contains(r#""level":"error""#));
    assert!(s.contains(r#""level":"warning""#));
    assert!(s.contains(r#""level":"note""#));

    let clean = LintOutcome { findings: vec![], files_scanned: 2 };
    let cs = sarif_string(&clean);
    assert!(cs.contains(r#""rules":[]"#));
    assert!(cs.contains(r#""results":[]"#));
}

#[test]
fn sarif_relativizes_and_forward_slashes_the_uri() {
    let outcome = LintOutcome {
        findings: vec![Finding::new(
            "/work/repo/assets/hero.jpg",
            "privacy/gps-metadata-leak",
            Severity::Error,
            "leak",
            None,
        )],
        files_scanned: 1,
    };
    let s = write_sarif(&outcome, "0.4.0", Some("/work/repo"));
    assert!(s.contains(r#""uri":"assets/hero.jpg""#), "relative + slashed: {s}");
}

#[test]
fn path_order_is_component_wise() {
    // `a/x.png` (components `a`, `x.png`) orders before `a-b.png`, although
    // `-` sorts before `/` as a character.
    let sorted = sort_findings(vec![
        finding("a-b.png", "r/x", Severity::Error),
        finding("a/x.png", "r/x", Severity::Error),
    ]);
    assert_eq!(sorted[0].file(), "a/x.png");
    assert_eq!(sorted[1].file(), "a-b.png");
}

#[test]
fn per_rule_severity_override_changes_severity_and_off_disables() {
    let cfg = LintConfig {
        per_rule_severity: vec![
            ("privacy/gps-metadata-leak".to_string(), SeverityOverride::Warn),
            ("size/truncated-or-corrupt".to_string(), SeverityOverride::Off),
        ],
        ..LintConfig::default()
    };
    assert_eq!(cfg.severity_for("privacy/gps-metadata-leak", Severity::Error), Severity::Warn);
    assert!(!cfg.is_rule_active("size/truncated-or-corrupt"));
    assert!(cfg.is_rule_active("privacy/gps-metadata-leak"));
}

#[test]
fn per_glob_byte_budget_resolves_by_path() {
    let cfg = LintConfig {
        budgets: vec![Budget {
            glob: "assets/**".to_string(),
            max_bytes: Some(100000),
            max_intended_width: Some(1600),
        }],
        ..LintConfig::default()
    };
    assert_eq!(cfg.byte_budget_for("assets/hero.jpg"), Some(100000));
    assert_eq!(cfg.byte_budget_for("other/hero.jpg"), None);
    assert_eq!(cfg.intended_width_for("assets/hero.jpg"), Some(1600));
}

#[test]
fn cli_overrides_extend_file_and_scalars_replace() {
    let file = LintConfig {
        ignore: vec!["size".to_string()],
        max_intended_width: Some(800),
        ..LintConfig::default()
    };
    let cfg = effective_config(
        &CliOverrides {
            ignore: vec!["privacy".into()],
            max_intended_width: Some(1920),
            ..Default::default()
        },
        Some(file),
    )
    .unwrap();
    assert!(cfg.ignore.contains(&"size".to_string()));
    assert!(cfg.ignore.contains(&"privacy".to_string()));
    assert_eq!(cfg.max_intended_width, Some(1920));
}

#[test]
fn known_rule_ids_list_the_catalog() {
    let ids = known_rule_ids();
    assert_eq!(ids.len(), 10);
    assert_eq!(ids[0], "privacy/gps-metadata-leak");
    assert_eq!(ids[9], "format/animated-gif");
    assert_eq!(default_rules().len(), 10);
}

#[test]
fn gps_rule_fires_on_gps_exif_and_is_clean_without() {
    let leaky = LintTarget::from_bytes("photo.jpg", gps_jpeg());
    let f = GpsMetadataLeak.check(&leaky).expect("GPS finding expected");
    assert_eq!(f.rule(), "privacy/gps-metadata-leak");
    assert_eq!(f.severity(), Severity::Error);
    assert_eq!(f.fix(), Some("clean --gps"));

    let clean = LintTarget::from_bytes("clean.jpg", solid_jpeg());
    assert!(GpsMetadataLeak.check(&clean).is_none());
}

#[test]
fn corrupt_decode_rule_yields_a_finding_without_panicking() {
    let bad = vec![0x89, b'P', b'N', b'G', 0x0D, 0x0A, 0x1A, 0x0A, 0x00, 0x01];
    let target = LintTarget::from_bytes("broken.png", bad);
    assert!(target.decoded().is_err(), "decode should fail");
    let f = TruncatedOrCorrupt.check(&target).expect("corrupt finding expected");
    assert_eq!(f.rule(), "size/truncated-or-corrupt");
    assert_eq!(f.severity(), Severity::Error);

    let good = LintTarget::from_bytes("ok.jpg", solid_jpeg());
    assert!(TruncatedOrCorrupt.check(&good).is_none());
}

#[test]
fn run_lint_keeps_going_after_a_corrupt_file() {
    let cfg = LintConfig::default();
    let inputs = vec![
        Input::Stdin { bytes: vec![0xFF, 0xD8, 0x00], stem: "broken".into() },
        Input::Stdin { bytes: solid_jpeg(), stem: "clean".into() },
    ];
    let targets: Vec<LintTarget> =
        inputs.iter().map(|i| LintTarget::from_input(i, Vec::new(), &cfg)).collect();
    let outcome = run_lint(&targets, &default_rules(), &cfg);
    assert_eq!(outcome.files_scanned, 2);
    assert_eq!(outcome.error_count(), 1);
    assert_eq!(outcome.findings[0].rule(), "size/truncated-or-corrupt");
}

#[test]
fn camera_metadata_fires_on_make_clean_on_none() {
    let with_make = LintTarget::from_bytes("x", exif_jpeg(0x010F, 2, 3, [b'A', b'B', 0, 0]));
    assert!(CameraMetadata.check(&with_make).is_some());
    assert!(CameraMetadata.check(&LintTarget::from_bytes("x", solid_jpeg())).is_none());
    let orientation_only = LintTarget::from_bytes("x", exif_jpeg(0x0112, 3, 1, [1, 0, 0, 0]));
    assert!(CameraMetadata.check(&orientation_only).is_none());
}

#[test]
fn orientation_not_baked_fires_on_6_clean_on_1() {
    let six = LintTarget::from_bytes("x", exif_jpeg(0x0112, 3, 1, [6, 0, 0, 0]));
    let f = RuleKind::OrientationNotBaked.check(&six).expect("orientation 6 fires");
    assert_eq!(f.rule(), "orient/orientation-not-baked");
    assert_eq!(f.fix(), Some("auto-orient"));
    assert_eq!(f.message(), "EXIF Orientation is 6 (pixels are not baked upright)");
    let one = LintTarget::from_bytes("x", exif_jpeg(0x0112, 3, 1, [1, 0, 0, 0]));
    assert!(RuleKind::OrientationNotBaked.check(&one).is_none());
}

#[test]
fn oversized_bytes_fires_over_budget_clean_under_and_none_without_budget() {
    let cfg = LintConfig {
        budgets: vec![Budget { glob: "*".into(), max_bytes: Some(10), max_intended_width: None }],
        ..LintConfig::default()
    };
    let t = LintTarget::configured("photo.png", png8(4), &cfg);
    assert!(OversizedBytes.check(&t).is_some(), "over a 10-byte budget");

    let cfg_big = LintConfig {
        budgets: vec![Budget { glob: "*".into(), max_bytes: Some(10_000_000), max_intended_width: None }],
        ..LintConfig::default()
    };
    assert!(OversizedBytes.check(&LintTarget::configured("photo.png", png8(4), &cfg_big)).is_none());
    assert!(OversizedBytes.check(&LintTarget::from_bytes("x", png8(4))).is_none());
}

#[test]
fn oversized_dimensions_fires_over_declared_width_silent_when_undeclared() {
    let cfg = LintConfig { max_intended_width: Some(2), ..LintConfig::default() };
    let f = OversizedDimensions
        .check(&LintTarget::configured("photo.png", png8(10), &cfg))
        .expect("width over intended fires");
    assert_eq!(f.fix(), Some("resize --max 2"));
    assert!(OversizedDimensions.check(&LintTarget::from_bytes("x", png8(10))).is_none());
}

#[test]
fn wrong_colorspace_fires_on_16bit_clean_on_8bit() {
    let f = WrongColorspace.check(&LintTarget::from_bytes("x", png16())).expect("16-bit fires");
    assert_eq!(f.message(), "16-bit channels are needless for the web");
    assert!(WrongColorspace.check(&LintTarget::from_bytes("x", png8(4))).is_none());
}

#[test]
fn animated_gif_fires_on_two_frames_clean_on_other_formats() {
    let f = AnimatedGif.check(&LintTarget::from_bytes("x", animated_gif())).expect("2-frame gif fires");
    assert_eq!(f.fix(), Some("convert --format webp"));
    assert!(AnimatedGif.check(&LintTarget::from_bytes("x", png8(4))).is_none());
}

#[test]
fn opt_in_rules_run_only_when_enabled() {
    let cfg = LintConfig::default();
    assert!(!cfg.is_rule_enabled("privacy/camera-metadata", false));
    assert!(cfg.is_rule_enabled("privacy/gps-metadata-leak", true));
    let selected = effective_config(
        &CliOverrides { select: vec!["privacy".into()], ..Default::default() },
        None,
    )
    .unwrap();
    assert!(selected.is_rule_enabled("privacy/camera-metadata", false));
}

#[test]
fn max_warnings_caps_the_warn_count() {
    let outcome = LintOutcome {
        findings: vec![finding("a.png", "x/warn", Severity::Warn), finding("b.png", "x/warn", Severity::Warn)],
        files_scanned: 2,
    };
    assert_eq!(exit_code(&outcome, Some(1)), 7);
    assert_eq!(exit_code(&outcome, Some(2)), 0);
}

fn static_gif() -> Vec<u8> {
    let img = image::RgbImage::from_pixel(4, 4, image::Rgb([9, 9, 9]));
    encode(image::DynamicImage::ImageRgb8(img), image::ImageFormat::Gif)
}

fn jpeg_with_make() -> Vec<u8> {
    exif_jpeg(0x010F, 2, 3, [b'A', b'B', 0, 0])
}

fn jpeg_with_orientation(o: u8) -> Vec<u8> {
    exif_jpeg(0x0112, 3, 1, [o, 0, 0, 0])
}

/// A JPEG carrying an APP2 `ICC_PROFILE` segment of `payload_len` bytes.
fn jpeg_with_icc(payload_len: usize) -> Vec<u8> {
    let base = solid_jpeg();
    let mut payload = Vec::new();
    payload.extend_from_slice(b"ICC_PROFILE\0");
    payload.push(1);
    payload.push(1);
    payload.extend(std::iter::repeat_n(0xABu8, payload_len));
    let seg_len = (payload.len() + 2) as u16;
    let mut out = Vec::new();
    out.extend_from_slice(&base[0..2]);
    out.push(0xFF);
    out.push(0xE2);
    out.extend_from_slice(&seg_len.to_be_bytes());
    out.extend_from_slice(&payload);
    out.extend_from_slice(&base[2..]);
    out
}

fn plain_target(bytes: Vec<u8>) -> LintTarget {
    LintTarget::from_bytes("x", bytes)
}

#[test]
fn camera_metadata_fires_on_make_clean_on_none_and_distinct_from_gps() {
    assert!(CameraMetadata.check(&plain_target(jpeg_with_make())).is_some());
    assert!(CameraMetadata.check(&plain_target(solid_jpeg())).is_none());
    assert!(CameraMetadata.check(&plain_target(jpeg_with_orientation(1))).is_none());
}

#[test]
fn missing_icc_fires_without_profile_clean_with_one() {
    assert!(MissingIcc.check(&plain_target(solid_jpeg())).is_some());
    assert!(MissingIcc.check(&plain_target(jpeg_with_icc(2000))).is_none());
}

#[test]
fn unexpected_icc_fires_on_bulky_profile_clean_on_small_or_none() {
    assert!(UnexpectedIcc.check(&plain_target(jpeg_with_icc(5000))).is_some());
    assert!(UnexpectedIcc.check(&plain_target(jpeg_with_icc(500))).is_none());
    assert!(UnexpectedIcc.check(&plain_target(solid_jpeg())).is_none());
}

#[test]
fn animated_gif_fires_on_two_frames_clean_on_static() {
    let f = AnimatedGif.check(&plain_target(animated_gif())).expect("2-frame gif fires");
    assert_eq!(f.fix(), Some("convert --format webp"));
    assert!(AnimatedGif.check(&plain_target(static_gif())).is_none());
    assert!(AnimatedGif.check(&plain_target(png8(4))).is_none());
}

#[test]
fn every_rule_carries_a_runnable_or_noted_fix() {
    assert_eq!(
        CameraMetadata.check(&plain_target(jpeg_with_make())).unwrap().fix(),
        Some("meta strip")
    );
    assert_eq!(MissingIcc.check(&plain_target(solid_jpeg())).unwrap().fix(), None);
}

#[test]
fn codec_not_built_is_not_reported_as_corrupt() {
    let mut heic = Vec::new();
    heic.extend_from_slice(&24u32.to_be_bytes());
    heic.extend_from_slice(b"ftyp");
    heic.extend_from_slice(b"heic");
    heic.extend_from_slice(&0u32.to_be_bytes());
    heic.extend_from_slice(b"mif1");
    heic.extend_from_slice(b"heic");
    let target = LintTarget::from_bytes("photo.heic", heic);
    assert!(
        matches!(target.decoded(), Err(LoadError::CodecNotBuilt { .. })),
        "fixture should surface CodecNotBuilt in the default build"
    );
    assert!(
        TruncatedOrCorrupt.check(&target).is_none(),
        "a missing codec must not be reported as a corrupt file"
    );
}

#[test]
fn per_file_ignores_suppress_a_rule_for_a_matching_glob() {
    let file = LintConfig {
        per_file_ignores: vec![PerFileIgnore {
            glob: "vendor/**".to_string(),
            rules: vec!["privacy/gps-metadata-leak".to_string()],
        }],
        ..LintConfig::default()
    };
    let cfg = effective_config(&CliOverrides::default(), Some(file)).unwrap();
    assert!(cfg.is_ignored_for_path("privacy/gps-metadata-leak", "vendor/lib/x.jpg"));
    assert!(!cfg.is_ignored_for_path("privacy/gps-metadata-leak", "src/x.jpg"));
    assert!(!cfg.is_ignored_for_path("size/truncated-or-corrupt", "vendor/lib/x.jpg"));
}
