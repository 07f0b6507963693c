use std::io::Cursor;

use crustyimg::error::LoadError;
use crustyimg::image::raw::{
    extract_preview, is_plausible_jpeg_marker, is_raw_extension, largest_declared_preview_pixels,
    scan_for_preview, MAX_PREVIEW_CANDIDATES,
};
use crustyimg::image::DecodeLimits;

fn jpeg(w: u32, h: u32) -> Vec<u8> {
    let img = image::RgbImage::from_pixel(w, h, image::Rgb([120, 90, 60]));
    let mut out = Cursor::new(Vec::new());
    image::DynamicImage::ImageRgb8(img)
        .write_to(&mut out, image::ImageFormat::Jpeg)
        .expect("encode jpeg fixture");
    out.into_inner()
}

fn tiff_header() -> Vec<u8> {
    vec![0x49, 0x49, 0x2A, 0x00, 0x08, 0x00, 0x00, 0x00]
}

fn raw_blob(thumb: (u32, u32), preview: (u32, u32)) -> Vec<u8> {
    let mut b = tiff_header();
    b.extend_from_slice(&jpeg(thumb.0, thumb.1));
    b.extend_from_slice(&[0x00, 0x11, 0x22, 0x33, 0x44, 0x55]);
    b.extend_from_slice(&jpeg(preview.0, preview.1));
    b.extend_from_slice(&[0xAA, 0xBB, 0xCC, 0xDD]);
    b
}

fn jpeg_declaring(w: u16, h: u16) -> Vec<u8> {
    let mut j = jpeg(16, 12);
    let sof = j
        .windows(2)
        .position(|m| m == [0xFF, 0xC0])
        .expect("encoded JPEG carries an SOF0 marker");
    j[sof + 5..sof + 7].copy_from_slice(&h.to_be_bytes());
    j[sof + 7..sof + 9].copy_from_slice(&w.to_be_bytes());
    j
}

fn generous() -> DecodeLimits {
    DecodeLimits {
        max_image_width: Some(65_535),
        max_image_height: Some(65_535),
        max_alloc: Some(512 * 1024 * 1024),
    }
}

#[test]
fn is_raw_extension_matches_known_exts() {
    for ext in ["nef", "cr2", "cr3", "arw", "dng", "raf", "rw2", "orf", "pef", "srw"] {
        let lower = format!("photo.{ext}");
        let upper = format!("PHOTO.{}", ext.to_uppercase());
        assert!(is_raw_extension(&lower), "{lower} should be raw");
        assert!(is_raw_extension(&upper), "{upper} should be raw");
    }
    for ext in ["jpg", "png", "tif", "tiff", "svg", "avif", "webp"] {
        let name = format!("photo.{ext}");
        assert!(!is_raw_extension(&name), "{name} should NOT be raw");
    }
    assert!(!is_raw_extension("photo"));
}

#[test]
fn extract_preview_picks_largest_decodable_jpeg() {
    let blob = raw_blob((16, 12), (64, 48));
    let img = extract_preview(&blob, &generous()).expect("extract preview");
    assert_eq!(img.width(), 64, "should pick the full preview, not the thumb");
    assert_eq!(img.height(), 48);
}

#[test]
fn extract_preview_skips_false_soi_matches() {
    let mut blob = tiff_header();
    blob.extend_from_slice(&[0xFF, 0xD8, 0xFF, 0xE0, 0x00, 0x01]);
    blob.extend_from_slice(&jpeg(16, 12));
    blob.extend_from_slice(&[0xFF, 0xD8, 0xFF, 0xDB, 0x99, 0x88]);
    blob.extend_from_slice(&jpeg(64, 48));
    blob.extend_from_slice(&[0xFF, 0xD8, 0xFF, 0xC0, 0x00]);

    let img = extract_preview(&blob, &generous()).expect("extract despite false SOIs");
    assert_eq!(img.width(), 64);
    assert_eq!(img.height(), 48);
}

#[test]
fn extract_preview_bounds_decode_attempts() {
    let mut blob = tiff_header();
    blob.extend_from_slice(&jpeg(32, 24));
    for _ in 0..(MAX_PREVIEW_CANDIDATES * 4) {
        blob.extend_from_slice(&[0xFF, 0xD8, 0xFF, 0xE0, 0x00, 0x04, 0x00, 0x00]);
    }
    let (best, _oversize, attempts) = scan_for_preview(&blob, &generous());
    assert!(
        attempts <= MAX_PREVIEW_CANDIDATES,
        "attempts {attempts} must be bounded by {MAX_PREVIEW_CANDIDATES}"
    );
    let img = best.expect("valid preview found before the cap");
    assert_eq!(img.width(), 32);
    assert_eq!(img.height(), 24);
}

#[test]
fn oversize_only_preview_is_limits_exceeded() {
    let mut blob = tiff_header();
    blob.extend_from_slice(&jpeg(64, 48));
    let tiny = DecodeLimits {
        max_image_width: Some(8),
        max_image_height: Some(8),
        max_alloc: DecodeLimits::default().max_alloc,
    };
    let result = extract_preview(&blob, &tiny);
    assert!(matches!(result, Err(LoadError::LimitsExceeded(_))), "expected LimitsExceeded, got {result:?}");
}

#[test]
fn raw_preview_within_budget_still_extracts() {
    let blob = raw_blob((160, 120), (2000, 1500));
    let img = extract_preview(&blob, &generous()).expect("normal preview must still extract");
    assert_eq!(img.width(), 2000);
    assert_eq!(img.height(), 1500);
}

#[test]
fn no_embedded_jpeg_is_typed_error_not_panic() {
    let mut blob = tiff_header();
    blob.extend_from_slice(&[0x13, 0x37, 0x00, 0xFE, 0xED, 0xBE, 0xEF, 0x42]);
    let result = extract_preview(&blob, &generous());
    assert!(matches!(result, Err(LoadError::Decode(_))), "expected Decode, got {result:?}");
}

#[test]
fn largest_declared_preview_pixels_reads_headers_not_entropy() {
    let mut bomb = tiff_header();
    bomb.extend_from_slice(&jpeg_declaring(16384, 9776));
    assert_eq!(largest_declared_preview_pixels(&bomb), Some(16384u64 * 9776));

    let real = raw_blob((160, 120), (2000, 1500));
    assert_eq!(largest_declared_preview_pixels(&real), Some(2000u64 * 1500));
}

#[test]
fn largest_declared_preview_pixels_straddles_a_40mp_boundary() {
    let forty_mp: u64 = 40_000_000;

    let mut under = tiff_header();
    under.extend_from_slice(&jpeg_declaring(6300, 6349));
    let under_px = largest_declared_preview_pixels(&under).expect("candidate found");
    assert!(under_px < forty_mp, "{under_px} should be under 40 Mpix");

    let mut over = tiff_header();
    over.extend_from_slice(&jpeg_declaring(6300, 6351));
    let over_px = largest_declared_preview_pixels(&over).expect("candidate found");
    assert!(over_px > forty_mp, "{over_px} should be over 40 Mpix");
}

#[test]
fn largest_declared_preview_pixels_none_when_no_candidate() {
    let mut blob = tiff_header();
    blob.extend_from_slice(&[0x13, 0x37, 0x00, 0xFE, 0xED, 0xBE, 0xEF, 0x42]);
    assert_eq!(largest_declared_preview_pixels(&blob), None);
}

#[test]
fn is_plausible_jpeg_marker_prunes_junk() {
    assert!(is_plausible_jpeg_marker(Some(0xE0)));
    assert!(is_plausible_jpeg_marker(Some(0xE1)));
    assert!(is_plausible_jpeg_marker(Some(0xDB)));
    assert!(is_plausible_jpeg_marker(Some(0xC0)));
    assert!(is_plausible_jpeg_marker(Some(0xFE)));
    assert!(!is_plausible_jpeg_marker(Some(0x00)));
    assert!(!is_plausible_jpeg_marker(Some(0xD8)));
    assert!(!is_plausible_jpeg_marker(None));
}
