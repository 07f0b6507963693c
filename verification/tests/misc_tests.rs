use std::io::Cursor;

use crustyimg::image::pixels::PixelBuffer;
use crustyimg::image::{Image, ImageFormat, MetadataBundle};
use crustyimg::metadata::{clean_gps, set_tags, strip_all, MetadataError, TagSet};
use crustyimg::operation::registry::RegistryError;
use crustyimg::operation::resize::{box_params, check_resize_target, fill_crop_offsets, parse_resize_mode, ResizeMode};
use crustyimg::operation::{
    orientation_from_exif_segment, AutoOrient, Gravity, Identity, Invert, Operation, OperationError,
};
use crustyimg::recipe::bundled::{names, resolve};
use crustyimg::sink::{expand_template, extension_for_format, format_from_extension, SinkError};
use crustyimg::source::{looks_like_glob, Input};
use crustyimg::text::{parse_color, TextError};

fn encode(img: image::DynamicImage, format: image::ImageFormat) -> Vec<u8> {
    let mut out = Cursor::new(Vec::new());
    img.write_to(&mut out, format).unwrap();
    out.into_inner()
}

fn base_image(format: image::ImageFormat) -> Vec<u8> {
    let mut img = image::RgbImage::new(16, 16);
    for (x, y, px) in img.enumerate_pixels_mut() {
        *px = image::Rgb([(x * 16) as u8, (y * 16) as u8, ((x + y) * 8) as u8]);
    }
    encode(image::DynamicImage::ImageRgb8(img), format)
}

fn make_image(w: u32, h: u32, f: impl Fn(u32, u32) -> [u8; 4]) -> Image {
    let mut data = Vec::new();
    for y in 0..h {
        for x in 0..w {
            data.extend_from_slice(&f(x, y));
        }
    }
    Image::from_parts(PixelBuffer::from_rgba8(w, h, data).unwrap(), ImageFormat::Png, None)
}

fn rgba_buffer(w: u32, h: u32, f: impl Fn(u32, u32) -> [u8; 4]) -> PixelBuffer {
    let mut data = Vec::new();
    for y in 0..h {
        for x in 0..w {
            data.extend_from_slice(&f(x, y));
        }
    }
    PixelBuffer::from_rgba8(w, h, data).unwrap()
}

fn tiff_orientation_chunk(orientation: u8) -> Vec<u8> {
    let mut bytes: Vec<u8> = Vec::new();
    bytes.extend_from_slice(&[0x49, 0x49]);
    bytes.extend_from_slice(&[0x2A, 0x00]);
    bytes.extend_from_slice(&[0x08, 0x00, 0x00, 0x00]);
    bytes.extend_from_slice(&[0x01, 0x00]);
    bytes.extend_from_slice(&[0x12, 0x01]);
    bytes.extend_from_slice(&[0x03, 0x00]);
    bytes.extend_from_slice(&[0x01, 0x00, 0x00, 0x00]);
    bytes.push(orientation);
    bytes.push(0x00);
    bytes.extend_from_slice(&[0x00, 0x00]);
    bytes.extend_from_slice(&[0x00, 0x00, 0x00, 0x00]);
    bytes
}

fn jpeg_exif_bundle(orientation: u8) -> MetadataBundle {
    let mut exif_bytes: Vec<u8> = Vec::new();
    exif_bytes.extend_from_slice(b"Exif\0\0");
    exif_bytes.extend(tiff_orientation_chunk(orientation));
    MetadataBundle { exif: Some(exif_bytes), icc: None }
}

fn png_exif_bundle(orientation: u8) -> MetadataBundle {
    MetadataBundle { exif: Some(tiff_orientation_chunk(orientation)), icc: None }
}

#[test]
fn clean_gps_unsupported_format_errors() {
    let bmp = base_image(image::ImageFormat::Bmp);
    assert!(matches!(clean_gps(&bmp), Err(MetadataError::UnsupportedFormat(_))));
}

#[test]
fn set_tags_unsupported_format_errors() {
    let bmp = base_image(image::ImageFormat::Bmp);
    let tags = TagSet { artist: Some("x".to_string()), ..TagSet::default() };
    assert!(matches!(set_tags(&bmp, &tags), Err(MetadataError::UnsupportedFormat(_))));
}

#[test]
fn invert_name_is_stable() {
    assert_eq!(Invert.name(), "invert");
}

#[test]
fn identity_returns_pixels_unchanged() {
    let img = make_image(2, 2, |x, y| [(x * 10) as u8, (y * 20) as u8, 50, 200]);
    let original_raw = img.pixels().to_rgba8();
    let result = Identity.apply(img).unwrap();
    assert_eq!(result.pixels().to_rgba8(), original_raw);
}

#[test]
fn invert_complements_each_channel_preserving_alpha() {
    let img = make_image(2, 2, |x, y| if x == 0 && y == 0 { [10, 20, 30, 128] } else { [0, 0, 0, 255] });
    let result = Invert.apply(img).unwrap();
    let raw = result.pixels().to_rgba8();
    assert_eq!(&raw[0..4], &[245, 235, 225, 128]);
}

#[test]
fn invert_is_involutive() {
    let img = make_image(3, 3, |x, y| [(x * 30 + 5) as u8, (y * 20 + 10) as u8, 100, 200]);
    let original_raw = img.pixels().to_rgba8();
    let once = Invert.apply(img).unwrap();
    let twice = Invert.apply(once).unwrap();
    assert_eq!(twice.pixels().to_rgba8(), original_raw);
}

#[test]
fn auto_orient_noop_without_metadata() {
    let img = make_image(4, 2, |x, y| [(x * 20) as u8, (y * 20) as u8, 50, 255]);
    let result = AutoOrient.apply(img).unwrap();
    assert_eq!(result.pixels().width(), 4);
    assert_eq!(result.pixels().height(), 2);
}

#[test]
fn auto_orient_noop_on_orientation_1() {
    let buf = rgba_buffer(4, 2, |x, y| [(x * 20) as u8, (y * 40) as u8, 50, 255]);
    let img = Image::from_parts(buf, ImageFormat::Jpeg, Some(jpeg_exif_bundle(1)));
    let result = AutoOrient.apply(img).unwrap();
    assert_eq!(result.pixels().width(), 4);
    assert_eq!(result.pixels().height(), 2);
}

#[test]
fn auto_orient_rotate90_swaps_dims() {
    let buf = rgba_buffer(4, 2, |x, y| [(x * 20) as u8, (y * 40) as u8, 50, 255]);
    let img = Image::from_parts(buf, ImageFormat::Jpeg, Some(jpeg_exif_bundle(6)));
    let result = AutoOrient.apply(img).unwrap();
    assert_eq!(result.pixels().width(), 2, "width should swap to 2 after rotate90");
    assert_eq!(result.pixels().height(), 4, "height should swap to 4 after rotate90");
    assert!(result.metadata().is_none(), "metadata bundle must be dropped after baking orientation");
}

#[test]
fn auto_orient_reads_png_style_exif_chunk() {
    let buf = rgba_buffer(4, 2, |x, y| [(x * 20) as u8, (y * 40) as u8, 50, 255]);
    let img = Image::from_parts(buf, ImageFormat::Png, Some(png_exif_bundle(6)));
    let result = AutoOrient.apply(img).unwrap();
    assert_eq!(result.pixels().width(), 2, "width should swap to 2 after rotate90 with bare TIFF");
    assert_eq!(result.pixels().height(), 4, "height should swap to 4 after rotate90 with bare TIFF");
}

#[test]
fn auto_orient_flip_horizontal_moves_pixels() {
    let buf = rgba_buffer(2, 1, |x, _y| if x == 0 { [255, 0, 0, 255] } else { [0, 0, 255, 255] });
    let img = Image::from_parts(buf, ImageFormat::Jpeg, Some(jpeg_exif_bundle(2)));
    let result = AutoOrient.apply(img).unwrap();
    assert_eq!(result.pixels().width(), 2, "width unchanged after flip");
    assert_eq!(result.pixels().height(), 1, "height unchanged after flip");
    assert_eq!(result.pixels().rgba8_at(0, 0), [0, 0, 255, 255], "col 0 should be blue after flip");
    assert_eq!(result.pixels().rgba8_at(1, 0), [255, 0, 0, 255], "col 1 should be red after flip");
}

#[test]
fn gravity_parse_round_trips() {
    let names = ["center", "north", "south", "east", "west", "northeast", "northwest", "southeast", "southwest"];
    for name in names {
        let g: Gravity = name.parse().expect("known gravity should parse");
        assert_eq!(g.to_string(), name, "the name should round-trip {name}");
    }
    assert!("sideways".parse::<Gravity>().is_err(), "unknown gravity should error");
}

#[test]
fn names_lists_bundled_flows() {
    assert_eq!(names(), vec!["web", "gallery", "product"]);
}

#[test]
fn unknown_name_resolves_none() {
    assert!(resolve("does-not-exist").is_none());
    assert!(resolve("").is_none());
}

#[test]
fn format_from_extension_is_case_insensitive() {
    assert!(matches!(format_from_extension("out.png"), Ok(ImageFormat::Png)));
    assert!(matches!(format_from_extension("out.PNG"), Ok(ImageFormat::Png)));
    assert!(matches!(format_from_extension("out.JpG"), Ok(ImageFormat::Jpeg)));
    assert!(matches!(format_from_extension("out"), Err(SinkError::UnknownFormat)));
    assert!(matches!(format_from_extension("out.xyz"), Err(SinkError::UnsupportedExtension(_))));
}

#[test]
fn extension_for_format_round_trips() {
    assert_eq!(extension_for_format(ImageFormat::Jpeg), "jpg");
    assert_eq!(extension_for_format(ImageFormat::Png), "png");
    assert_eq!(extension_for_format(ImageFormat::Gif), "gif");
    assert_eq!(extension_for_format(ImageFormat::Bmp), "bmp");
    assert_eq!(extension_for_format(ImageFormat::Tiff), "tiff");
    assert_eq!(extension_for_format(ImageFormat::Ico), "ico");

    for &fmt in &[
        ImageFormat::Png,
        ImageFormat::Jpeg,
        ImageFormat::Gif,
        ImageFormat::Bmp,
        ImageFormat::Tiff,
        ImageFormat::Ico,
    ] {
        let ext = extension_for_format(fmt);
        let path_str = format!("foo.{ext}");
        let inferred = format_from_extension(&path_str).unwrap();
        assert_eq!(inferred, fmt, "round-trip failed for {fmt:?}: ext={ext}, inferred={inferred:?}");
    }
}

#[test]
fn expand_template_expands_all_tokens() {
    let stem = "photo";
    let ext = "png";
    let path = Some("/a/b/photo.jpg");
    assert_eq!(expand_template("{stem}_web.{ext}", stem, ext, path), "photo_web.png");
    assert_eq!(expand_template("{name}", stem, ext, path), "photo.jpg");
    assert_eq!(expand_template("{parent}", stem, ext, path), "b");
    assert_eq!(expand_template("{unknown}", stem, ext, path), "{unknown}");
    assert_eq!(expand_template("{name}", stem, ext, None), "photo.png");
    assert_eq!(expand_template("{parent}", stem, ext, None), "");
}

#[test]
fn format_from_extension_recognizes_avif() {
    assert_eq!(format_from_extension("x.avif").unwrap(), ImageFormat::Avif);
}

#[test]
fn format_from_extension_recognizes_webp() {
    assert_eq!(format_from_extension("x.webp").unwrap(), ImageFormat::WebP);
}

#[test]
fn looks_like_glob_classifies_patterns() {
    assert!(looks_like_glob("a/*.jpg"));
    assert!(looks_like_glob("f?.png"));
    assert!(looks_like_glob("s[12].png"));
    assert!(!looks_like_glob("a/file.jpg"));
    assert!(!looks_like_glob("-"));
    assert!(!looks_like_glob("dir"));
}

#[test]
fn input_stem_and_path_for_stdin() {
    let input = Input::Stdin { bytes: vec![1, 2, 3], stem: "stdin".into() };
    assert_eq!(input.stem(), "stdin");
    assert_eq!(input.path(), None);
}

#[test]
fn parse_color_hex_variants() {
    assert_eq!(parse_color("ffffff").unwrap(), [255, 255, 255, 255]);
    assert_eq!(parse_color("#000000").unwrap(), [0, 0, 0, 255]);
    assert_eq!(parse_color("ff0000").unwrap(), [255, 0, 0, 255]);
    assert_eq!(parse_color("ff000080").unwrap(), [255, 0, 0, 128]);
    assert!(matches!(parse_color("zzz"), Err(TextError::Color(_))));
    assert!(matches!(parse_color("fff"), Err(TextError::Color(_))));
}

// ── Further scenarios ─────────────────────────────────────────────────────

#[test]
fn parse_color_accepts_a_plus_signed_field() {
    // `u8::from_str_radix("+f", 16)` is 15.
    assert_eq!(parse_color("+f0000").unwrap(), [15, 0, 0, 255]);
    assert!(matches!(parse_color("-f0000"), Err(TextError::Color(_))));
}

#[test]
fn input_stem_of_a_path_drops_the_extension() {
    assert_eq!(Input::Path("/a/b/photo.tar.gz".to_string()).stem(), "photo.tar");
    assert_eq!(Input::Path("dir/.hidden".to_string()).stem(), ".hidden");
    assert_eq!(Input::Path("x/plain".to_string()).stem(), "plain");
    assert_eq!(Input::Path("x/y.png".to_string()).path(), Some("x/y.png"));
}

#[test]
fn strip_all_removes_exif_from_a_jpeg() {
    let jpeg = base_image(image::ImageFormat::Jpeg);
    let tagged = set_tags(&jpeg, &TagSet { artist: Some("someone".to_string()), ..TagSet::default() }).unwrap();
    let bundle = MetadataBundle::capture(&tagged, ImageFormat::Jpeg).expect("EXIF written");
    assert!(bundle.has_exif());
    let stripped = strip_all(&tagged).unwrap();
    assert!(MetadataBundle::capture(&stripped, ImageFormat::Jpeg).is_none());
    let img = Image::from_bytes(&stripped).expect("pixels survive the strip");
    assert_eq!(img.width(), 16);
}

#[test]
fn clean_gps_without_exif_returns_the_input_unchanged() {
    let png = base_image(image::ImageFormat::Png);
    assert_eq!(clean_gps(&png).unwrap(), png);
}

#[test]
fn gravity_placement_anchors_the_overlay() {
    assert_eq!(Gravity::SouthEast.placement(100, 80, 10, 20, 5), (85, 55));
    assert_eq!(Gravity::Center.placement(100, 80, 10, 20, 5), (45, 30));
    assert_eq!(Gravity::NorthWest.placement(100, 80, 10, 20, 5), (5, 5));
}


#[test]
fn orientation_from_exif_segment_prefixed_and_bare() {
    // Orientation 6 is "rotate 90".
    let tiff = tiff_orientation_chunk(6);
    let mut prefixed = Vec::new();
    prefixed.extend_from_slice(b"Exif\0\0");
    prefixed.extend_from_slice(&tiff);
    assert_eq!(orientation_from_exif_segment(&prefixed), Some(6), "prefixed orientation-6 should parse as Rotate90");
    assert_eq!(orientation_from_exif_segment(&tiff), Some(6), "bare orientation-6 should parse as Rotate90");
    let garbage = b"this is not a tiff";
    assert!(orientation_from_exif_segment(garbage).is_none(), "garbage bytes should return None");
    assert!(orientation_from_exif_segment(&[]).is_none(), "empty slice should return None");
}

#[test]
fn input_stem_for_path() {
    let input = Input::Path("/a/b/photo.JPG".to_string());
    let s = input.stem();
    assert_eq!(s, "photo");
    assert!(!s.contains('/'));
    assert!(!s.contains('\\'));
}

#[test]
fn resize_from_params_missing_mode() {
    let result = parse_resize_mode(None);
    assert!(
        matches!(result, Err(RegistryError::InvalidParams { op: "resize", .. })),
        "expected InvalidParams for missing mode, got {result:?}"
    );
}

#[test]
fn resize_from_params_unknown_mode() {
    let result = parse_resize_mode(Some("bogus"));
    assert_eq!(
        result,
        Err(RegistryError::InvalidParams {
            op: "resize",
            reason: "unknown mode 'bogus'; expected one of: max, exact, percent, fit, fill, cover".to_string()
        })
    );
    assert_eq!(parse_resize_mode(Some("fill")), Ok(ResizeMode::Fill));
}

#[test]
fn resize_from_params_missing_dim() {
    let result = box_params(ResizeMode::Exact, Some(100), None);
    assert_eq!(
        result,
        Err(RegistryError::InvalidParams {
            op: "resize",
            reason: "mode 'exact' requires a positive integer 'height' param".to_string()
        })
    );
}

#[test]
fn resize_from_params_nonpositive_dim() {
    let result = box_params(ResizeMode::Exact, Some(0), Some(10));
    assert_eq!(
        result,
        Err(RegistryError::InvalidParams { op: "resize", reason: "mode 'exact' requires 'width' > 0".to_string() })
    );
    assert_eq!(
        box_params(ResizeMode::Max, Some(0), None),
        Err(RegistryError::InvalidParams { op: "resize", reason: "mode 'max' requires 'width' > 0".to_string() })
    );
}

#[test]
fn resize_box_params_keep_what_the_mode_needs() {
    assert_eq!(box_params(ResizeMode::Max, Some(1200), Some(5)), Ok((1200, None)));
    assert_eq!(box_params(ResizeMode::Cover, Some(30), Some(20)), Ok((30, Some(20))));
}

#[test]
fn resize_oversize_is_typed_error() {
    assert_eq!(
        check_resize_target(60_000, 10),
        Err(OperationError::Apply {
            op: "resize",
            reason: "target dimensions 60000×10 exceed the maximum edge limit of 50000 px".to_string()
        })
    );
    assert_eq!(
        check_resize_target(20_000, 20_000),
        Err(OperationError::Apply {
            op: "resize",
            reason: "target area 20000×20000 = 400000000 px exceeds the maximum area of 134217728 px".to_string()
        })
    );
}

#[test]
fn resize_apply_exact_rejects_oversized_output() {
    assert!(matches!(check_resize_target(40_000, 40_000), Err(OperationError::Apply { op: "resize", .. })));
}

#[test]
fn resize_apply_percent_rejects_oversized_output() {
    // 100 x 100 at 2 000 000 percent would be 2 000 000 x 2 000 000.
    assert!(matches!(check_resize_target(2_000_000, 2_000_000), Err(OperationError::Apply { op: "resize", .. })));
}

#[test]
fn resize_apply_normal_outputs_succeed() {
    assert_eq!(check_resize_target(64, 64), Ok(()));
    assert_eq!(check_resize_target(32, 32), Ok(()));
    assert_eq!(check_resize_target(50_000, 2_684), Ok(()));
}

#[test]
fn resize_fill_crop_is_centered() {
    assert_eq!(fill_crop_offsets(120, 60, 60, 60), (30, 0));
    assert_eq!(fill_crop_offsets(60, 61, 60, 60), (0, 0));
    assert_eq!(fill_crop_offsets(10, 10, 20, 20), (0, 0));
}

#[test]
fn parse_color_rejects_multibyte_text_as_a_color_error() {
    assert_eq!(parse_color("aééb"), Err(TextError::Color("aééb".to_owned())));
}
