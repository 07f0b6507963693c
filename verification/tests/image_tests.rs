use std::io::Cursor;

use crustyimg::error::LoadError;
use crustyimg::image::avif;
use crustyimg::image::heic;
use crustyimg::image::pixels::{color_type_bit_depth, ColorType, PixelBuffer};
use crustyimg::image::sniff::is_avif;
use crustyimg::image::svg;
use crustyimg::image::{
    check_pixel_budget, decode_limits, decode_with_limits, jpeg_missing_eoi, map_image_decode_error,
    raw_preview, DecodeLimits, Image, ImageFormat, MetadataBundle, MAX_IMAGE_PIXELS,
};

fn encode(img: image::DynamicImage, format: image::ImageFormat) -> Vec<u8> {
    let mut out = Cursor::new(Vec::new());
    img.write_to(&mut out, format).unwrap();
    out.into_inner()
}

fn solid_png(w: u32, h: u32, rgb: [u8; 3]) -> Vec<u8> {
    let img = image::RgbImage::from_pixel(w, h, image::Rgb(rgb));
    encode(image::DynamicImage::ImageRgb8(img), image::ImageFormat::Png)
}

fn oversized_png() -> Vec<u8> {
    let img = image::RgbImage::new(70_000, 1);
    encode(image::DynamicImage::ImageRgb8(img), image::ImageFormat::Png)
}

fn solid_jpeg(w: u32, h: u32) -> Vec<u8> {
    let img = image::RgbImage::from_pixel(w, h, image::Rgb([200, 150, 100]));
    encode(image::DynamicImage::ImageRgb8(img), image::ImageFormat::Jpeg)
}

fn synthetic_raw(thumb: (u32, u32), preview: (u32, u32)) -> Vec<u8> {
    let mut b = vec![0x49, 0x49, 0x2A, 0x00, 0x08, 0x00, 0x00, 0x00];
    b.extend_from_slice(&solid_jpeg(thumb.0, thumb.1));
    b.extend_from_slice(&[0x00, 0x11, 0x22, 0x33]);
    b.extend_from_slice(&solid_jpeg(preview.0, preview.1));
    b
}

fn animated_gif(w: u32, h: u32) -> Vec<u8> {
    let mut buf = Vec::new();
    {
        let mut enc = image::codecs::gif::GifEncoder::new(&mut buf);
        let f1 = image::Frame::new(image::RgbaImage::from_pixel(w, h, image::Rgba([255, 0, 0, 255])));
        let f2 = image::Frame::new(image::RgbaImage::from_pixel(w, h, image::Rgba([0, 255, 0, 255])));
        enc.encode_frames(vec![f1, f2]).unwrap();
    }
    buf
}

fn static_gif(w: u32, h: u32) -> Vec<u8> {
    let img = image::RgbImage::from_pixel(w, h, image::Rgb([9, 9, 9]));
    encode(image::DynamicImage::ImageRgb8(img), image::ImageFormat::Gif)
}

fn rgba_pixels(w: u32, h: u32, px: [u8; 4]) -> PixelBuffer {
    let mut data = Vec::new();
    for _ in 0..(w * h) {
        data.extend_from_slice(&px);
    }
    PixelBuffer::from_rgba8(w, h, data).unwrap()
}

/// An ISO-BMFF `ftyp` box with the given major brand and compatible brands.
fn ftyp(major: &[u8; 4], compatible: &[&[u8; 4]]) -> Vec<u8> {
    let size = 16 + 4 * compatible.len() as u32;
    let mut b = Vec::new();
    b.extend_from_slice(&size.to_be_bytes());
    b.extend_from_slice(b"ftyp");
    b.extend_from_slice(major);
    b.extend_from_slice(&0u32.to_be_bytes());
    for c in compatible {
        b.extend_from_slice(*c);
    }
    b
}

fn limits(w: Option<u32>, h: Option<u32>, alloc: Option<u64>) -> DecodeLimits {
    DecodeLimits { max_image_width: w, max_image_height: h, max_alloc: alloc }
}

#[test]
fn unpremultiply_divides_by_alpha() {
    let mut px = vec![100u8, 100, 100, 128];
    avif::unpremultiply(&mut px);
    assert!((px[0] as i32 - 199).abs() <= 1, "got {}", px[0]);
    assert_eq!(px[3], 128);

    let mut z = vec![50u8, 60, 70, 0];
    avif::unpremultiply(&mut z);
    assert_eq!(&z[..3], &[0, 0, 0]);
}

#[test]
fn avif_check_caps_rejects_oversize() {
    let l = limits(Some(10), None, DecodeLimits::default().max_alloc);
    assert!(matches!(avif::check_caps(16, 16, &l), Err(LoadError::LimitsExceeded(_))));

    let alloc = limits(None, None, Some(16));
    assert!(matches!(avif::check_caps(16, 16, &alloc), Err(LoadError::LimitsExceeded(_))));

    assert!(avif::check_caps(16, 16, &DecodeLimits::default()).is_ok());
}

#[test]
fn box_sizes_fit_accepts_well_formed_and_rejects_overrun() {
    let mut ok = Vec::new();
    ok.extend_from_slice(&16u32.to_be_bytes());
    ok.extend_from_slice(b"ftyp");
    ok.extend_from_slice(b"avif");
    ok.extend_from_slice(&0u32.to_be_bytes());
    assert!(avif::box_sizes_fit(&ok));

    let mut bomb = Vec::new();
    bomb.extend_from_slice(&0xB800_0018u32.to_be_bytes());
    bomb.extend_from_slice(b"ftyp");
    bomb.extend_from_slice(b"avif");
    assert!(!avif::box_sizes_fit(&bomb), "oversize box must be rejected");

    let mut eof = Vec::new();
    eof.extend_from_slice(&0u32.to_be_bytes());
    eof.extend_from_slice(b"mdat");
    eof.extend_from_slice(&[0u8; 8]);
    assert!(avif::box_sizes_fit(&eof));

    let mut large_ok = Vec::new();
    large_ok.extend_from_slice(&1u32.to_be_bytes());
    large_ok.extend_from_slice(b"mdat");
    large_ok.extend_from_slice(&24u64.to_be_bytes());
    large_ok.extend_from_slice(&[0u8; 8]);
    assert!(avif::box_sizes_fit(&large_ok));

    let mut large_bad = Vec::new();
    large_bad.extend_from_slice(&1u32.to_be_bytes());
    large_bad.extend_from_slice(b"mdat");
    large_bad.extend_from_slice(&(1u64 << 40).to_be_bytes());
    large_bad.extend_from_slice(&[0u8; 8]);
    assert!(!avif::box_sizes_fit(&large_bad));

    let mut tiny = Vec::new();
    tiny.extend_from_slice(&4u32.to_be_bytes());
    tiny.extend_from_slice(b"ftyp");
    assert!(!avif::box_sizes_fit(&tiny));
}

#[test]
fn frame_size_limit_is_tighter_of_budget_alloc_and_dims() {
    let l = limits(Some(65_535), Some(65_535), Some(512 * 1024 * 1024));
    assert_eq!(avif::frame_size_limit(&l), 67_108_864);
    assert_eq!(avif::frame_size_limit(&l) as u64, MAX_IMAGE_PIXELS);

    let d = limits(Some(1000), Some(2000), None);
    assert_eq!(avif::frame_size_limit(&d), 2_000_000);

    let none = limits(None, None, None);
    assert_eq!(avif::frame_size_limit(&none) as u64, MAX_IMAGE_PIXELS);
}

#[test]
fn avif_check_caps_rejects_over_pixel_budget() {
    let prod = limits(Some(65_535), Some(65_535), Some(512 * 1024 * 1024));
    assert!(matches!(avif::check_caps(10_000, 10_000, &prod), Err(LoadError::LimitsExceeded(_))));
    assert!(avif::check_caps(6_000, 4_000, &prod).is_ok());
}

#[test]
fn is_heic_detects_real_fixture() {
    // The fixture's leading `ftyp` box: major brand `heic`, compatible `mif1`.
    let fixture = ftyp(b"heic", &[b"mif1", b"heic"]);
    assert!(heic::is_heic(&fixture));
}

#[test]
fn heic_check_caps_rejects_oversize() {
    let l = limits(Some(10), None, DecodeLimits::default().max_alloc);
    assert!(matches!(heic::check_caps(16, 16, &l), Err(LoadError::LimitsExceeded(_))));

    let height = limits(None, Some(10), DecodeLimits::default().max_alloc);
    assert!(matches!(heic::check_caps(4, 16, &height), Err(LoadError::LimitsExceeded(_))));

    let alloc = limits(None, None, Some(16));
    assert!(matches!(heic::check_caps(16, 16, &alloc), Err(LoadError::LimitsExceeded(_))));

    assert!(heic::check_caps(16, 16, &DecodeLimits::default()).is_ok());
}

#[test]
fn color_type_bit_depth_free_fn() {
    assert_eq!(color_type_bit_depth(ColorType::Rgb8), 8);
    assert_eq!(color_type_bit_depth(ColorType::Rgba8), 8);
    assert_eq!(color_type_bit_depth(ColorType::Rgb16), 16);
    assert_eq!(color_type_bit_depth(ColorType::L8), 8);
}

#[test]
fn metadata_bundle_predicates() {
    let bundle = MetadataBundle { exif: Some(vec![1]), icc: None };
    assert!(bundle.has_exif());
    assert!(!bundle.has_icc());

    let empty = MetadataBundle::default();
    assert!(!empty.has_exif());
    assert!(!empty.has_icc());
    assert!(empty.is_empty());
}

#[test]
fn capture_returns_none_for_plain_png() {
    let png = solid_png(3, 3, [9, 9, 9]);
    assert!(MetadataBundle::capture(&png, ImageFormat::Png).is_none());
}

#[test]
fn accessors_report_dimensions_and_format() {
    let png = solid_png(7, 5, [1, 2, 3]);
    let img = Image::from_bytes(&png).unwrap();
    assert_eq!(img.width(), 7);
    assert_eq!(img.height(), 5);
    assert_eq!(img.source_format(), ImageFormat::Png);
    assert!(img.metadata().is_none());
    assert_eq!(img.pixels().width(), 7);
}

#[test]
fn from_parts_carries_format_and_metadata() {
    let meta = MetadataBundle { exif: Some(vec![1, 2, 3]), icc: None };
    let img = Image::from_parts(rgba_pixels(2, 2, [10, 20, 30, 255]), ImageFormat::Png, Some(meta.clone()));
    assert_eq!(img.width(), 2);
    assert_eq!(img.height(), 2);
    assert_eq!(img.source_format(), ImageFormat::Png);
    assert_eq!(img.metadata().unwrap().exif, meta.exif);
}

#[test]
fn with_pixels_replaces_pixels_and_preserves_metadata() {
    let png = solid_png(4, 4, [5, 6, 7]);
    let original = Image::from_bytes(&png).unwrap();
    let format = original.source_format();
    let replaced = original.with_pixels(rgba_pixels(2, 2, [200, 100, 50, 128]));
    assert_eq!(replaced.width(), 2);
    assert_eq!(replaced.height(), 2);
    assert_eq!(replaced.source_format(), format);
}

#[test]
fn oversized_dimension_png_is_limits_exceeded() {
    let png = oversized_png();
    let result = Image::from_bytes(&png);
    assert!(matches!(result, Err(LoadError::LimitsExceeded(_))), "expected LimitsExceeded, got {result:?}");
}

#[test]
fn map_limit_error_to_limits_exceeded() {
    let limit_err = image::ImageError::Limits(image::error::LimitError::from_kind(image::error::LimitErrorKind::DimensionError));
    let mapped = map_image_decode_error(limit_err);
    assert!(matches!(mapped, LoadError::LimitsExceeded(_)), "expected LimitsExceeded, got {mapped:?}");
}

#[test]
fn pixel_budget_helper_math() {
    assert!(check_pixel_budget(8192, 8192).is_ok());
    assert_eq!(8192u64 * 8192, MAX_IMAGE_PIXELS);

    let over = check_pixel_budget(8192, 8193);
    assert!(matches!(over, Err(LoadError::LimitsExceeded(_))), "expected LimitsExceeded, got {over:?}");

    assert!(matches!(check_pixel_budget(16384, 9776), Err(LoadError::LimitsExceeded(_))));
    assert!(check_pixel_budget(6000, 4000).is_ok());
    assert!(check_pixel_budget(8688, 5792).is_ok());

    assert!(matches!(check_pixel_budget(u32::MAX, u32::MAX), Err(LoadError::LimitsExceeded(_))));
    assert!(check_pixel_budget(0, u32::MAX).is_ok());
}

#[test]
fn legitimate_large_image_within_budget_decodes() {
    let png = solid_png(4000, 3000, [7, 8, 9]);
    let img = Image::from_bytes(&png).expect("a 12 MP image must still decode");
    assert_eq!(img.width(), 4000);
    assert_eq!(img.height(), 3000);
    assert_eq!(&img.pixels().rgba8_at(3999, 2999)[..3], &[7, 8, 9]);
}

#[test]
fn svg_decodes_to_intrinsic_dimensions() {
    let svg = b"<svg xmlns='http://www.w3.org/2000/svg' width='40' height='30'></svg>";
    let img = Image::from_bytes(svg).expect("rasterize svg");
    assert_eq!(img.width(), 40);
    assert_eq!(img.height(), 30);
    assert_eq!(img.source_format(), ImageFormat::Png);
}

#[test]
fn svg_uses_viewbox_when_no_width_height() {
    let svg = b"<svg xmlns='http://www.w3.org/2000/svg' viewBox='0 0 100 50'></svg>";
    let img = Image::from_bytes(svg).expect("rasterize svg");
    assert_eq!(img.width(), 100);
    assert_eq!(img.height(), 50);
}

#[test]
fn oversize_svg_is_limits_exceeded() {
    let svg = b"<svg xmlns='http://www.w3.org/2000/svg' width='70000' height='10'></svg>";
    let result = Image::from_bytes(svg);
    assert!(matches!(result, Err(LoadError::LimitsExceeded(_))), "expected LimitsExceeded, got {result:?}");
}

#[test]
fn malformed_svg_is_decode_error_not_panic() {
    let svg = b"<svg xmlns='http://www.w3.org/2000/svg'><rect";
    let result = Image::from_bytes(svg);
    assert!(matches!(result, Err(LoadError::Decode(_))), "expected Decode, got {result:?}");
}

#[test]
fn svg_external_file_ref_is_ignored() {
    let svg = b"<svg xmlns='http://www.w3.org/2000/svg' xmlns:xlink='http://www.w3.org/1999/xlink' width='10' height='10'>\
        <rect width='10' height='10' fill='#00ff00'/>\
        <image href='file:///etc/hostname' xlink:href='file:///etc/hostname' x='0' y='0' width='10' height='10'/>\
        </svg>";
    let img = Image::from_bytes(svg).expect("rasterize svg with refused external ref");
    assert_eq!(img.width(), 10);
    assert_eq!(img.height(), 10);
    let px = img.pixels().rgba8_at(5, 5);
    assert_eq!(px[1], 255, "expected green background, got {:?}", px);
    assert_eq!(px[0], 0, "expected green background, got {:?}", px);
}

#[test]
fn raw_preview_entry_extracts_largest() {
    let blob = synthetic_raw((16, 12), (48, 32));
    let img = raw_preview(&blob).expect("extract preview");
    assert_eq!(img.width(), 48);
    assert_eq!(img.height(), 32);
    assert_eq!(img.source_format(), ImageFormat::Jpeg);
}

#[test]
fn heic_without_feature_is_codec_not_built() {
    let fixture = ftyp(b"heic", &[b"mif1", b"heic"]);
    let result = Image::from_bytes(&fixture);
    assert!(
        matches!(result, Err(LoadError::CodecNotBuilt { codec: "HEIC", feature: "heic" })),
        "expected CodecNotBuilt, got {result:?}"
    );
}

#[test]
fn non_jpeg_is_never_flagged_truncated() {
    let mut png = solid_png(8, 8, [1, 2, 3]);
    png.extend_from_slice(&[0xFF, 0xD9]);
    let img = Image::from_bytes(&png).expect("PNG decoder ignores trailing junk");
    assert_eq!(img.source_format(), ImageFormat::Png);
    assert!(!img.is_truncated_jpeg());
}

#[test]
fn from_bytes_flags_an_animated_gif_but_not_a_static_one() {
    let animated = Image::from_bytes(&animated_gif(4, 4)).expect("decode animated gif");
    assert!(animated.is_animated_input());

    let still = Image::from_bytes(&static_gif(4, 4)).expect("decode static gif");
    assert!(!still.is_animated_input());
}

#[test]
fn jpeg_is_never_flagged_animated() {
    let jpeg = solid_jpeg(8, 8);
    let img = Image::from_bytes(&jpeg).expect("decode jpeg");
    assert!(!img.is_animated_input());
}

#[test]
fn with_pixels_preserves_the_animated_flag() {
    let animated = Image::from_bytes(&animated_gif(4, 4)).expect("decode animated gif");
    assert!(animated.is_animated_input());
    let replaced = animated.with_pixels(rgba_pixels(2, 2, [1, 1, 1, 255]));
    assert!(replaced.is_animated_input());
}

#[test]
fn from_parts_is_never_flagged_animated() {
    let built = Image::from_parts(rgba_pixels(2, 2, [1, 1, 1, 255]), ImageFormat::Gif, None);
    assert!(!built.is_animated_input());
}

#[test]
fn is_avif_detects_ftyp_avif_major_brand() {
    let mut b = Vec::new();
    b.extend_from_slice(&0x20u32.to_be_bytes());
    b.extend_from_slice(b"ftypavif");
    b.extend_from_slice(&0u32.to_be_bytes());
    b.extend_from_slice(b"avifmif1miafMA1B");
    assert!(is_avif(&b));
}

#[test]
fn is_avif_detects_compatible_brand() {
    let mut b = Vec::new();
    b.extend_from_slice(&0x1cu32.to_be_bytes());
    b.extend_from_slice(b"ftypmif1");
    b.extend_from_slice(&0u32.to_be_bytes());
    b.extend_from_slice(b"mif1avif");
    assert!(is_avif(&b));
}

#[test]
fn is_avif_rejects_png_and_short() {
    assert!(!is_avif(&[0x89, b'P', b'N', b'G', 0x0d, 0x0a, 0x1a, 0x0a]));
    assert!(!is_avif(b"ftyp"));
    let mut heic = Vec::new();
    heic.extend_from_slice(&0x18u32.to_be_bytes());
    heic.extend_from_slice(b"ftypheic");
    heic.extend_from_slice(&0u32.to_be_bytes());
    heic.extend_from_slice(b"heicmif1");
    assert!(!is_avif(&heic));
}

#[test]
fn is_svg_detects_svg_and_xml_prolog() {
    assert!(svg::is_svg(b"<svg xmlns='http://www.w3.org/2000/svg'></svg>"));
    assert!(svg::is_svg(b"<SVG></SVG>"));
    assert!(svg::is_svg(b"   \n  <svg>"));
    assert!(svg::is_svg(b"<?xml version='1.0'?><svg></svg>"));
    assert!(svg::is_svg(b"<?xml version='1.0'?>\n<!-- c -->\n<svg/>"));

    assert!(!svg::is_svg(&[0x89, b'P', b'N', b'G', 0x0d, 0x0a, 0x1a, 0x0a]));
    let mut f = Vec::new();
    f.extend_from_slice(&0x18u32.to_be_bytes());
    f.extend_from_slice(b"ftypavif");
    assert!(!svg::is_svg(&f));
    assert!(!svg::is_svg(b"<html><body></body></html>"));
    assert!(!svg::is_svg(b"<?xml version='1.0'?><rss></rss>"));
    assert!(!svg::is_svg(b"<svgnot>"));
}

#[test]
fn svg_check_caps_rejects_oversize() {
    let l = limits(Some(10), None, DecodeLimits::default().max_alloc);
    assert!(matches!(svg::check_caps(16, 16, &l), Err(LoadError::LimitsExceeded(_))));

    let alloc = limits(None, None, Some(16));
    assert!(matches!(svg::check_caps(16, 16, &alloc), Err(LoadError::LimitsExceeded(_))));

    assert!(svg::check_caps(16, 16, &DecodeLimits::default()).is_ok());
}

#[test]
fn svg_check_caps_rejects_over_pixel_budget() {
    let prod = limits(Some(65_535), Some(65_535), Some(512 * 1024 * 1024));
    assert!(matches!(svg::check_caps(10_000, 10_000, &prod), Err(LoadError::LimitsExceeded(_))));
    assert!(svg::check_caps(6_000, 4_000, &prod).is_ok());
}

#[test]
fn version_returns_cargo_pkg_version() {
    assert_eq!(crustyimg::version(), "0.4.0");
}

fn rgba_png(w: u32, h: u32) -> Vec<u8> {
    let img = image::RgbaImage::from_pixel(w, h, image::Rgba([10, 20, 30, 128]));
    encode(image::DynamicImage::ImageRgba8(img), image::ImageFormat::Png)
}

fn jpeg_declaring(w: u16, h: u16) -> Vec<u8> {
    let mut jpg = solid_jpeg(8, 8);
    let sof = jpg.windows(2).position(|m| m == [0xFF, 0xC0]).expect("encoded JPEG carries an SOF0 marker");
    jpg[sof + 5..sof + 7].copy_from_slice(&h.to_be_bytes());
    jpg[sof + 7..sof + 9].copy_from_slice(&w.to_be_bytes());
    jpg
}

#[test]
fn is_heic_detects_hevc_brands() {
    for brand in [b"heic", b"heix", b"heim", b"heis", b"hevc", b"hevx"] {
        assert!(heic::is_heic(&ftyp(brand, &[b"mif1"])), "major brand {:?} should be HEIC", std::str::from_utf8(brand));
        assert!(
            heic::is_heic(&ftyp(b"mif1", &[b"mif1", brand])),
            "compatible brand {:?} should be HEIC",
            std::str::from_utf8(brand)
        );
    }
}

#[test]
fn is_heic_rejects_avif_mif1_and_non_isobmff() {
    assert!(!heic::is_heic(&ftyp(b"avif", &[b"avif", b"mif1", b"miaf"])));
    assert!(!heic::is_heic(&ftyp(b"avis", &[b"avis", b"msf1"])));
    assert!(!heic::is_heic(&ftyp(b"mif1", &[b"mif1", b"miaf"])));
    assert!(!heic::is_heic(&[0x89, b'P', b'N', b'G', 0x0d, 0x0a, 0x1a, 0x0a]));
    assert!(!heic::is_heic(b"ftyp"));
    assert!(!heic::is_heic(&[]));
}

#[test]
fn is_heic_clamps_oversized_box_size() {
    let mut b = ftyp(b"mif1", &[b"heic"]);
    b[..4].copy_from_slice(&0xFFFF_FFFFu32.to_be_bytes());
    assert!(heic::is_heic(&b));
    let short = &b[..14];
    assert!(!heic::is_heic(short));
}

#[test]
fn svg_dimension_cap_rejects_before_raster() {
    let svg_bytes = b"<svg xmlns='http://www.w3.org/2000/svg' width='100000' height='100000'></svg>";
    let result = svg::decode_svg(svg_bytes, &limits(Some(1000), Some(1000), Some(512 * 1024 * 1024)));
    assert!(matches!(result, Err(LoadError::LimitsExceeded(_))), "expected LimitsExceeded, got {result:?}");
}

#[test]
fn corrupt_svg_bytes_are_decode_error_not_panic() {
    let truncated = svg::decode_svg(b"<svg xmlns='http://www.w3.org/2000/svg'><rect", &DecodeLimits::default());
    assert!(matches!(truncated, Err(LoadError::Decode(_))), "expected Decode, got {truncated:?}");
    let garbage = svg::decode_svg(b"not an svg", &DecodeLimits::default());
    assert!(matches!(garbage, Err(LoadError::Decode(_))), "expected Decode, got {garbage:?}");
}

#[test]
fn info_derives_bit_depth_and_alpha_from_color_type() {
    let img = Image::from_bytes(&solid_png(2, 2, [1, 2, 3])).unwrap();
    let info = img.info();
    assert_eq!(info.color_type, ColorType::Rgb8);
    assert_eq!(info.bit_depth, 8);
    assert!(!info.has_alpha);
    let img = Image::from_bytes(&rgba_png(2, 2)).unwrap();
    let info = img.info();
    assert_eq!(info.color_type, ColorType::Rgba8);
    assert_eq!(info.bit_depth, 8);
    assert!(info.has_alpha);
}

#[test]
fn normal_image_decodes_under_production_limits() {
    let png = solid_png(64, 64, [128, 64, 32]);
    let result = decode_with_limits(&png, &decode_limits());
    assert!(result.is_ok(), "expected Ok, got {:?}", result.err());
}

#[test]
fn tiny_dimension_limit_rejects_via_seam() {
    let png = solid_png(4, 4, [1, 2, 3]);
    let result = decode_with_limits(&png, &limits(Some(1), None, Some(512 * 1024 * 1024)));
    assert!(matches!(result, Err(LoadError::LimitsExceeded(_))), "expected LimitsExceeded, got {:?}", result.err());
}

#[test]
fn tiny_alloc_limit_rejects_via_seam() {
    let png = solid_png(64, 64, [10, 20, 30]);
    let result = decode_with_limits(&png, &limits(None, None, Some(16)));
    assert!(matches!(result, Err(LoadError::LimitsExceeded(_))), "expected LimitsExceeded, got {:?}", result.err());
}

#[test]
fn truncated_png_is_decode_not_limits() {
    let full = solid_png(2, 2, [1, 2, 3]);
    let truncated = &full[..33.min(full.len())];
    let result = Image::from_bytes(truncated);
    assert!(matches!(result, Err(LoadError::Decode(_))), "expected Decode, got {result:?}");
}

#[test]
fn declared_oversize_pixels_rejected_before_decode() {
    let bomb = jpeg_declaring(16384, 9776);
    assert!(bomb.len() < 1024, "the fixture must be tiny to prove the check is pre-decode ({} bytes)", bomb.len());
    let result = Image::from_bytes(&bomb);
    assert!(matches!(result, Err(LoadError::LimitsExceeded(_))), "expected LimitsExceeded, got {result:?}");
}

#[test]
fn jpeg_missing_eoi_detects_the_trailing_marker() {
    let jpeg = solid_jpeg(8, 8);
    assert!(jpeg.ends_with(&[0xFF, 0xD9]), "test fixture sanity check");
    assert!(!jpeg_missing_eoi(&jpeg), "a well-formed JPEG must not read as truncated");
    let cut = &jpeg[..jpeg.len() - 1];
    assert!(jpeg_missing_eoi(cut), "removing the last byte must read as truncated");
    assert!(jpeg_missing_eoi(&[]), "an empty slice must not panic and reads as missing");
    assert!(jpeg_missing_eoi(&[0xD9]), "a 1-byte slice must not panic and reads as missing");
}

#[test]
fn from_bytes_flags_a_truncated_jpeg_but_not_a_whole_one() {
    let jpeg = solid_jpeg(64, 64);
    let whole = Image::from_bytes(&jpeg).expect("decode whole jpeg");
    assert!(!whole.is_truncated_jpeg());
    let cut = jpeg.len() * 9 / 10;
    let truncated = Image::from_bytes(&jpeg[..cut]).expect("decode truncated jpeg");
    assert!(truncated.is_truncated_jpeg());
}

