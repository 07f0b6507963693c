use std::io::Cursor;

use crustyimg::metadata::tiff::{self, Entry, Ifd, Tiff};
use crustyimg::metadata::{clean_gps, copy_metadata, set_tags, strip_all, MetadataError, TagSet};
use image::{ImageFormat, RgbImage};
use img_parts::jpeg::Jpeg;
use img_parts::png::Png;
use img_parts::{Bytes, ImageEXIF, ImageICC};

const TAG_ORIENTATION: u16 = 0x0112;
const TAG_COPYRIGHT: u16 = tiff::TAG_COPYRIGHT;
const TAG_EXPOSURE_TIME: u16 = 0x829A;
const TAG_GPS_LAT_REF: u16 = 0x0001;
const TAG_GPS_LON_REF: u16 = 0x0003;
const TAG_THUMB_OFFSET: u16 = 0x0201;
const TAG_THUMB_LENGTH: u16 = 0x0202;

fn base_image(format: ImageFormat) -> Vec<u8> {
    let mut img = RgbImage::new(16, 16);
    for (x, y, px) in img.enumerate_pixels_mut() {
        *px = image::Rgb([(x * 16) as u8, (y * 16) as u8, ((x + y) * 8) as u8]);
    }
    let mut buf = Cursor::new(Vec::new());
    image::DynamicImage::ImageRgb8(img)
        .write_to(&mut buf, format)
        .expect("encode base image");
    buf.into_inner()
}

fn short_entry(tag: u16, v: u16) -> Entry {
    Entry { tag, ty: 3, count: 1, value: v.to_le_bytes().to_vec(), sub: None }
}

fn rational_entry(tag: u16, num: u32, den: u32) -> Entry {
    let mut value = Vec::with_capacity(8);
    value.extend_from_slice(&num.to_le_bytes());
    value.extend_from_slice(&den.to_le_bytes());
    Entry { tag, ty: 5, count: 1, value, sub: None }
}

fn ascii_entry(tag: u16, text: &str) -> Entry {
    let mut value = text.as_bytes().to_vec();
    value.push(0);
    let count = value.len() as u32;
    Entry { tag, ty: 2, count, value, sub: None }
}

fn pointer_entry(tag: u16, sub: Ifd) -> Entry {
    Entry { tag, ty: 4, count: 1, value: vec![0u8; 4], sub: Some(Box::new(sub)) }
}

fn ifd(entries: Vec<Entry>) -> Ifd {
    Ifd { entries, next: None, thumbnail: None }
}

fn image_with_tiff(format: ImageFormat, ifd0: Ifd) -> Vec<u8> {
    let tiff_bytes = tiff::serialize(&Tiff { ifd0 });
    let base = base_image(format);
    match format {
        ImageFormat::Jpeg => {
            let mut jpeg = Jpeg::from_bytes(Bytes::from(base)).expect("parse jpeg");
            jpeg.set_exif(Some(Bytes::from(tiff_bytes)));
            let mut out = Vec::new();
            jpeg.encoder().write_to(&mut out).expect("encode jpeg");
            out
        }
        ImageFormat::Png => {
            let mut png = Png::from_bytes(Bytes::from(base)).expect("parse png");
            png.set_exif(Some(Bytes::from(tiff_bytes)));
            let mut out = Vec::new();
            png.encoder().write_to(&mut out).expect("encode png");
            out
        }
        _ => panic!("image_with_tiff only supports Jpeg/Png"),
    }
}

fn jpeg_with_exif() -> Vec<u8> {
    let gps = ifd(vec![ascii_entry(TAG_GPS_LAT_REF, "N"), ascii_entry(TAG_GPS_LON_REF, "E")]);
    let ifd0 = ifd(vec![
        short_entry(TAG_ORIENTATION, 1),
        ascii_entry(TAG_COPYRIGHT, "crustyimg test"),
        pointer_entry(tiff::GPS_PTR, gps),
    ]);
    image_with_tiff(ImageFormat::Jpeg, ifd0)
}

fn jpeg_has_marker(bytes: &[u8], marker: u8) -> bool {
    let jpeg = Jpeg::from_bytes(Bytes::from(bytes.to_vec())).expect("parse jpeg");
    let present = jpeg.segments_by_marker(marker).next().is_some();
    present
}

fn png_has_chunk(bytes: &[u8], kind: [u8; 4]) -> bool {
    let png = Png::from_bytes(Bytes::from(bytes.to_vec())).expect("parse png");
    let present = png.chunks_by_type(kind).next().is_some();
    present
}

fn assert_pixels_equal(a: &[u8], b: &[u8]) {
    let da = image::load_from_memory(a).expect("decode a").to_rgba8();
    let db = image::load_from_memory(b).expect("decode b").to_rgba8();
    assert_eq!(da.dimensions(), db.dimensions(), "dimensions differ");
    assert_eq!(da.into_raw(), db.into_raw(), "pixel buffers differ");
}

fn container_exif(bytes: &[u8]) -> Option<Bytes> {
    match image::guess_format(bytes) {
        Ok(ImageFormat::Jpeg) => Jpeg::from_bytes(Bytes::from(bytes.to_vec())).ok()?.exif(),
        Ok(ImageFormat::Png) => Png::from_bytes(Bytes::from(bytes.to_vec())).ok()?.exif(),
        _ => None,
    }
}

fn read_exif(bytes: &[u8]) -> Option<exif::Exif> {
    let tiff = container_exif(bytes)?;
    exif::Reader::new().read_raw(tiff.to_vec()).ok()
}

fn primary_string(exif: &exif::Exif, tag: exif::Tag) -> Option<String> {
    let field = exif.get_field(tag, exif::In::PRIMARY)?;
    match &field.value {
        exif::Value::Ascii(v) => v
            .first()
            .map(|b| String::from_utf8_lossy(b).trim_end_matches('\0').to_owned()),
        _ => None,
    }
}

fn tags(artist: Option<&str>, copyright: Option<&str>, description: Option<&str>) -> TagSet {
    TagSet {
        artist: artist.map(|s| s.to_string()),
        copyright: copyright.map(|s| s.to_string()),
        description: description.map(|s| s.to_string()),
    }
}

fn jpeg_with_copyright(value: &str) -> Vec<u8> {
    image_with_tiff(ImageFormat::Jpeg, ifd(vec![ascii_entry(TAG_COPYRIGHT, value)]))
}

fn jpeg_with_icc(bytes: &[u8], icc: &[u8]) -> Vec<u8> {
    let mut jpeg = Jpeg::from_bytes(Bytes::from(bytes.to_vec())).expect("parse jpeg");
    jpeg.set_icc_profile(Some(Bytes::from(icc.to_vec())));
    let mut out = Vec::new();
    jpeg.encoder().write_to(&mut out).expect("encode icc jpeg");
    out
}

fn jpeg_copyright(bytes: &[u8]) -> Option<String> {
    let exif = read_exif(bytes)?;
    primary_string(&exif, exif::Tag::Copyright)
}

#[test]
fn strip_all_jpeg_removes_all_metadata() {
    let input = jpeg_with_exif();
    assert!(jpeg_has_marker(&input, 0xE1), "fixture should have APP1 EXIF");
    let out = strip_all(&input).expect("strip");
    for marker in 0xE1u8..=0xEF {
        assert!(!jpeg_has_marker(&out, marker), "marker {marker:#x} should be gone");
    }
    assert!(!jpeg_has_marker(&out, 0xFE), "COM should be gone");
    assert!(read_exif(&out).is_none(), "no EXIF should remain");
}

#[test]
fn strip_all_jpeg_preserves_pixels() {
    let input = jpeg_with_exif();
    let out = strip_all(&input).expect("strip");
    assert_pixels_equal(&input, &out);
}

#[test]
fn strip_all_png_removes_metadata_chunks() {
    let base = base_image(ImageFormat::Png);
    let mut png = Png::from_bytes(Bytes::from(base)).expect("parse png");
    let text = img_parts::png::PngChunk::new(*b"tEXt", Bytes::from_static(b"Comment\0hi"));
    png.chunks_mut().insert(1, text);
    let mut seeded = Vec::new();
    png.encoder().write_to(&mut seeded).expect("encode seeded png");
    assert!(png_has_chunk(&seeded, *b"tEXt"), "fixture should have tEXt");
    let out = strip_all(&seeded).expect("strip");
    assert!(!png_has_chunk(&out, *b"tEXt"), "tEXt should be gone");
    assert_pixels_equal(&seeded, &out);
}

#[test]
fn clean_gps_removes_only_gps() {
    let input = jpeg_with_exif();
    let out = clean_gps(&input).expect("clean");
    let exif = read_exif(&out).expect("reparse");
    assert!(
        exif.get_field(exif::Tag::GPSLatitudeRef, exif::In::PRIMARY).is_none(),
        "GPS tags should be gone"
    );
    assert!(
        exif.get_field(exif::Tag::Orientation, exif::In::PRIMARY).is_some(),
        "Orientation should survive"
    );
    assert_eq!(
        primary_string(&exif, exif::Tag::Copyright).as_deref(),
        Some("crustyimg test"),
        "Copyright should survive"
    );
}

#[test]
fn clean_gps_preserves_pixels() {
    let input = jpeg_with_exif();
    let out = clean_gps(&input).expect("clean");
    assert_pixels_equal(&input, &out);
}

#[test]
fn clean_gps_no_exif_is_noop_ok() {
    let input = base_image(ImageFormat::Jpeg);
    let out = clean_gps(&input).expect("clean no-exif must be Ok");
    assert_pixels_equal(&input, &out);
}

#[test]
fn clean_gps_no_exif_is_noop() {
    let input = base_image(ImageFormat::Jpeg);
    let out = clean_gps(&input).expect("clean no-exif must be Ok");
    assert_eq!(input, out, "no-EXIF clean_gps must be a byte-identical no-op");
}

#[test]
fn clean_gps_removes_only_gps_png() {
    let gps = ifd(vec![ascii_entry(TAG_GPS_LAT_REF, "N"), ascii_entry(TAG_GPS_LON_REF, "E")]);
    let ifd0 = ifd(vec![
        short_entry(TAG_ORIENTATION, 1),
        ascii_entry(TAG_COPYRIGHT, "png owner"),
        pointer_entry(tiff::GPS_PTR, gps),
    ]);
    let input = image_with_tiff(ImageFormat::Png, ifd0);
    let out = clean_gps(&input).expect("clean");
    let exif = read_exif(&out).expect("reparse");
    assert!(
        exif.get_field(exif::Tag::GPSLatitudeRef, exif::In::PRIMARY).is_none(),
        "GPS tags should be gone"
    );
    assert!(
        exif.get_field(exif::Tag::Orientation, exif::In::PRIMARY).is_some(),
        "Orientation should survive"
    );
    assert_eq!(primary_string(&exif, exif::Tag::Copyright).as_deref(), Some("png owner"));
    assert_pixels_equal(&input, &out);
}

#[test]
fn strip_all_unsupported_format_errors() {
    let bmp = base_image(ImageFormat::Bmp);
    assert!(matches!(strip_all(&bmp), Err(MetadataError::UnsupportedFormat(_))));
}

#[test]
fn set_tags_writes_all_three() {
    let input = base_image(ImageFormat::Jpeg);
    let out = set_tags(&input, &tags(Some("Jane"), Some("2026 Jane"), Some("a test image"))).expect("set");
    let exif = read_exif(&out).expect("reparse");
    assert_eq!(primary_string(&exif, exif::Tag::Artist).as_deref(), Some("Jane"));
    assert_eq!(primary_string(&exif, exif::Tag::Copyright).as_deref(), Some("2026 Jane"));
    assert_eq!(primary_string(&exif, exif::Tag::ImageDescription).as_deref(), Some("a test image"));
}

#[test]
fn set_tags_preserves_existing_metadata() {
    let input = jpeg_with_exif();
    let out = set_tags(&input, &tags(Some("Added"), None, None)).expect("set");
    let exif = read_exif(&out).expect("reparse");
    assert!(
        exif.get_field(exif::Tag::Orientation, exif::In::PRIMARY).is_some(),
        "Orientation should survive"
    );
    assert_eq!(primary_string(&exif, exif::Tag::Artist).as_deref(), Some("Added"));
    assert!(
        exif.get_field(exif::Tag::GPSLatitudeRef, exif::In::PRIMARY).is_some(),
        "GPS tags should survive"
    );
}

#[test]
fn set_tags_overwrites_existing_tag() {
    let input = image_with_tiff(ImageFormat::Jpeg, ifd(vec![ascii_entry(TAG_COPYRIGHT, "OLD")]));
    assert_eq!(
        primary_string(&read_exif(&input).expect("reparse seed"), exif::Tag::Copyright).as_deref(),
        Some("OLD")
    );
    let out = set_tags(&input, &tags(None, Some("NEW"), None)).expect("set");
    let exif = read_exif(&out).expect("reparse");
    assert_eq!(primary_string(&exif, exif::Tag::Copyright).as_deref(), Some("NEW"));
}

#[test]
fn set_overwrites_existing_tag_no_duplicate() {
    let input = base_image(ImageFormat::Jpeg);
    let out1 = set_tags(&input, &tags(None, Some("OLD"), None)).expect("set 1");
    let out2 = set_tags(&out1, &tags(None, Some("NEW"), None)).expect("set 2");
    let tiff_bytes = container_exif(&out2).expect("exif present");
    let parsed = tiff::parse(&tiff_bytes).expect("parse");
    let copyright_entries: Vec<_> =
        parsed.ifd0.entries.iter().filter(|e| e.tag == TAG_COPYRIGHT).collect();
    assert_eq!(copyright_entries.len(), 1, "exactly one Copyright entry, no duplicate");
    let exif = read_exif(&out2).expect("reparse");
    assert_eq!(primary_string(&exif, exif::Tag::Copyright).as_deref(), Some("NEW"));
}

#[test]
fn set_tags_on_no_exif_creates_them() {
    let input = base_image(ImageFormat::Jpeg);
    assert!(read_exif(&input).is_none(), "fixture should have no EXIF");
    let out = set_tags(&input, &tags(Some("Fresh"), None, None)).expect("set");
    let exif = read_exif(&out).expect("reparse");
    assert_eq!(primary_string(&exif, exif::Tag::Artist).as_deref(), Some("Fresh"));
}

#[test]
fn set_on_no_exif_creates_minimal() {
    for format in [ImageFormat::Jpeg, ImageFormat::Png] {
        let input = base_image(format);
        assert!(read_exif(&input).is_none(), "fixture ({format:?}) should have no EXIF");
        let out = set_tags(&input, &tags(Some("Solo"), None, None)).expect("set");
        let exif = read_exif(&out).expect("reparse");
        assert_eq!(
            primary_string(&exif, exif::Tag::Artist).as_deref(),
            Some("Solo"),
            "{format:?}: artist should read back"
        );
        assert!(
            primary_string(&exif, exif::Tag::Copyright).is_none(),
            "{format:?}: copyright was never set"
        );
        assert_pixels_equal(&input, &out);
    }
}

#[test]
fn set_tags_preserves_pixels() {
    let input = jpeg_with_exif();
    let out = set_tags(&input, &tags(Some("Jane"), None, None)).expect("set");
    assert_pixels_equal(&input, &out);
}

#[test]
fn set_tags_png() {
    let input = base_image(ImageFormat::Png);
    let out = set_tags(&input, &tags(None, Some("PNG owner"), None)).expect("set");
    let exif = read_exif(&out).expect("reparse");
    assert_eq!(primary_string(&exif, exif::Tag::Copyright).as_deref(), Some("PNG owner"));
    assert_pixels_equal(&input, &out);
}

#[test]
fn set_preserves_exififd_subtag() {
    let exif_ifd = ifd(vec![rational_entry(TAG_EXPOSURE_TIME, 1, 250)]);
    let ifd0 = ifd(vec![ascii_entry(TAG_COPYRIGHT, "orig"), pointer_entry(tiff::EXIF_PTR, exif_ifd)]);
    let input = image_with_tiff(ImageFormat::Jpeg, ifd0);
    let before = read_exif(&input).expect("reparse seed");
    let exposure_before = before
        .get_field(exif::Tag::ExposureTime, exif::In::PRIMARY)
        .expect("seed should carry ExposureTime")
        .value
        .clone();
    let out = set_tags(&input, &tags(Some("Jane"), None, None)).expect("set");
    let exif = read_exif(&out).expect("reparse out");
    assert_eq!(primary_string(&exif, exif::Tag::Artist).as_deref(), Some("Jane"));
    let exposure_after = exif
        .get_field(exif::Tag::ExposureTime, exif::In::PRIMARY)
        .expect("ExposureTime should survive the edit")
        .value
        .clone();
    assert_eq!(
        format!("{exposure_before:?}"),
        format!("{exposure_after:?}"),
        "ExposureTime value should be unchanged"
    );
    assert_eq!(primary_string(&exif, exif::Tag::Copyright).as_deref(), Some("orig"));
}

#[test]
fn set_preserves_ifd1_thumbnail() {
    let thumb_bytes = base_image(ImageFormat::Jpeg);
    let ifd1 = Ifd {
        entries: vec![
            Entry { tag: TAG_THUMB_OFFSET, ty: 4, count: 1, value: 0u32.to_le_bytes().to_vec(), sub: None },
            Entry {
                tag: TAG_THUMB_LENGTH,
                ty: 4,
                count: 1,
                value: (thumb_bytes.len() as u32).to_le_bytes().to_vec(),
                sub: None,
            },
        ],
        next: None,
        thumbnail: Some(thumb_bytes.clone()),
    };
    let ifd0 = Ifd {
        entries: vec![ascii_entry(TAG_COPYRIGHT, "orig")],
        next: Some(Box::new(ifd1)),
        thumbnail: None,
    };
    let input = image_with_tiff(ImageFormat::Jpeg, ifd0);
    let tiff_before = container_exif(&input).expect("exif present");
    let parsed_before = tiff::parse(&tiff_before).expect("parse seed");
    assert_eq!(
        parsed_before.ifd0.next.as_ref().and_then(|n| n.thumbnail.as_ref()),
        Some(&thumb_bytes),
        "seed should carry the thumbnail in IFD1"
    );
    let out = set_tags(&input, &tags(Some("Jane"), None, None)).expect("set");
    let tiff_after = container_exif(&out).expect("exif present after set");
    let parsed_after = tiff::parse(&tiff_after).expect("parse out");
    let ifd1_after = parsed_after.ifd0.next.expect("IFD1 should survive");
    assert_eq!(
        ifd1_after.thumbnail.as_deref(),
        Some(thumb_bytes.as_slice()),
        "thumbnail blob should be intact after set_tags"
    );
    let exif = read_exif(&out).expect("reparse out");
    assert_eq!(primary_string(&exif, exif::Tag::Artist).as_deref(), Some("Jane"));
}

#[test]
fn set_and_clean_preserve_pixels() {
    for format in [ImageFormat::Jpeg, ImageFormat::Png] {
        let gps = ifd(vec![ascii_entry(TAG_GPS_LAT_REF, "N")]);
        let ifd0 = ifd(vec![ascii_entry(TAG_COPYRIGHT, "orig"), pointer_entry(tiff::GPS_PTR, gps)]);
        let input = image_with_tiff(format, ifd0);
        let set_out = set_tags(&input, &tags(Some("Jane"), None, None)).expect("set");
        assert_pixels_equal(&input, &set_out);
        let clean_out = clean_gps(&input).expect("clean");
        assert_pixels_equal(&input, &clean_out);
    }
}

#[test]
fn malformed_exif_errors_not_panics() {
    assert!(tiff::parse(&[0u8; 4]).is_err());
    let bad_offset = {
        let mut buf = vec![b'I', b'I', 42, 0];
        buf.extend_from_slice(&1_000_000u32.to_le_bytes());
        buf
    };
    assert!(tiff::parse(&bad_offset).is_err());
    let bad_value_offset = {
        let mut buf = vec![b'I', b'I', 42, 0, 8, 0, 0, 0];
        buf.extend_from_slice(&1u16.to_le_bytes());
        buf.extend_from_slice(&TAG_COPYRIGHT.to_le_bytes());
        buf.extend_from_slice(&2u16.to_le_bytes());
        buf.extend_from_slice(&100u32.to_le_bytes());
        buf.extend_from_slice(&9_999_999u32.to_le_bytes());
        buf.extend_from_slice(&0u32.to_le_bytes());
        buf
    };
    assert!(tiff::parse(&bad_value_offset).is_err());
    let cyclic = {
        let mut buf = vec![b'I', b'I', 42, 0, 8, 0, 0, 0];
        buf.extend_from_slice(&1u16.to_le_bytes());
        buf.extend_from_slice(&tiff::EXIF_PTR.to_le_bytes());
        buf.extend_from_slice(&4u16.to_le_bytes());
        buf.extend_from_slice(&1u32.to_le_bytes());
        buf.extend_from_slice(&8u32.to_le_bytes());
        buf.extend_from_slice(&0u32.to_le_bytes());
        buf
    };
    assert!(tiff::parse(&cyclic).is_err());
    let mut jpeg = Jpeg::from_bytes(Bytes::from(base_image(ImageFormat::Jpeg))).expect("parse jpeg");
    jpeg.set_exif(Some(Bytes::from(bad_value_offset)));
    let mut malformed = Vec::new();
    jpeg.encoder().write_to(&mut malformed).expect("encode malformed jpeg");
    assert!(matches!(set_tags(&malformed, &tags(Some("x"), None, None)), Err(MetadataError::Exif(_))));
    assert!(matches!(clean_gps(&malformed), Err(MetadataError::Exif(_))));
}

#[test]
fn copy_metadata_transfers_exif() {
    let src = jpeg_with_copyright("SRC owner");
    let dst = base_image(ImageFormat::Jpeg);
    assert_eq!(jpeg_copyright(&dst), None, "DST should start without EXIF");
    let out = copy_metadata(&src, &dst).expect("copy");
    assert_eq!(jpeg_copyright(&out).as_deref(), Some("SRC owner"), "out should carry SRC's Copyright");
}

#[test]
fn copy_metadata_transfers_icc() {
    let icc: Vec<u8> = (0u8..=255).cycle().take(512).collect();
    let src = jpeg_with_icc(&base_image(ImageFormat::Jpeg), &icc);
    let dst = base_image(ImageFormat::Jpeg);
    let out = copy_metadata(&src, &dst).expect("copy");
    let out_jpeg = Jpeg::from_bytes(Bytes::from(out)).expect("parse out");
    assert_eq!(
        out_jpeg.icc_profile().as_deref(),
        Some(icc.as_slice()),
        "out should carry SRC's ICC profile"
    );
}

#[test]
fn copy_metadata_preserves_recipient_pixels() {
    let src = jpeg_with_copyright("SRC owner");
    let dst = jpeg_with_exif();
    let out = copy_metadata(&src, &dst).expect("copy");
    assert_pixels_equal(&dst, &out);
}

#[test]
fn copy_metadata_replaces_recipient_metadata() {
    let src = jpeg_with_copyright("A");
    let dst = jpeg_with_copyright("B");
    assert_eq!(jpeg_copyright(&dst).as_deref(), Some("B"));
    let out = copy_metadata(&src, &dst).expect("copy");
    assert_eq!(jpeg_copyright(&out).as_deref(), Some("A"), "DST's metadata should be replaced by SRC's");
}

#[test]
fn copy_metadata_src_without_metadata_clears_dst() {
    let src = base_image(ImageFormat::Jpeg);
    let icc: Vec<u8> = (0u8..=255).cycle().take(256).collect();
    let dst = jpeg_with_icc(&jpeg_with_copyright("DST owner"), &icc);
    let dst_jpeg = Jpeg::from_bytes(Bytes::from(dst.clone())).expect("parse dst");
    assert!(dst_jpeg.exif().is_some(), "DST should start with EXIF");
    assert!(dst_jpeg.icc_profile().is_some(), "DST should start with ICC");
    let out = copy_metadata(&src, &dst).expect("copy");
    let out_jpeg = Jpeg::from_bytes(Bytes::from(out)).expect("parse out");
    assert!(out_jpeg.exif().is_none(), "out EXIF should be cleared");
    assert!(out_jpeg.icc_profile().is_none(), "out ICC should be cleared");
}

#[test]
fn copy_metadata_unsupported_format_errors() {
    let jpeg = jpeg_with_copyright("owner");
    let png = base_image(ImageFormat::Png);
    assert!(matches!(copy_metadata(&jpeg, &png), Err(MetadataError::UnsupportedFormat(_))));
    assert!(matches!(copy_metadata(&png, &jpeg), Err(MetadataError::UnsupportedFormat(_))));
}

#[test]
fn serialize_normalizes_big_endian_values() {
    // "MM" block: IFD0 at 8 with one entry, Orientation (0x0112) SHORT 6.
    let be: Vec<u8> = vec![
        b'M', b'M', 0, 42, 0, 0, 0, 8, // header
        0, 1, // one entry
        0x01, 0x12, 0, 3, 0, 0, 0, 1, 0, 6, 0, 0, // tag, SHORT, count 1, value 6
        0, 0, 0, 0, // no next IFD
    ];
    let t = tiff::parse(&be).unwrap();
    let out = tiff::serialize(&t);
    assert_eq!(&out[0..8], &[b'I', b'I', 42, 0, 8, 0, 0, 0]);
    assert_eq!(u16::from_le_bytes([out[18], out[19]]), 6);
    let back = tiff::parse(&out).unwrap();
    assert_eq!(back.ifd0.entries[0].value, vec![6, 0]);
}

#[test]
fn big_endian_rational_units_are_swapped_per_long() {
    // One RATIONAL 1/2 stored out of line at offset 26.
    let be: Vec<u8> = vec![
        b'M', b'M', 0, 42, 0, 0, 0, 8,
        0, 1,
        0x01, 0x1A, 0, 5, 0, 0, 0, 1, 0, 0, 0, 26,
        0, 0, 0, 0,
        0, 0, 0, 1, 0, 0, 0, 2,
    ];
    let t = tiff::parse(&be).unwrap();
    assert_eq!(t.ifd0.entries[0].value, vec![1, 0, 0, 0, 2, 0, 0, 0]);
}

#[test]
fn set_tags_refuses_an_exif_block_too_large_for_a_jpeg_segment() {
    let jpeg = base_image(ImageFormat::Jpeg);
    let long = "a".repeat(70_000);
    let r = set_tags(&jpeg, &tags(Some(&long), None, None));
    assert_eq!(
        r,
        Err(MetadataError::Container(
            "a JPEG segment is too large for its 16-bit length field".to_string()
        ))
    );
}

#[test]
fn copy_metadata_refuses_a_truncated_icc_segment() {
    let base = base_image(ImageFormat::Jpeg);
    let mut from = vec![0xFF, 0xD8, 0xFF, 0xE2, 0x00, 0x0E];
    from.extend_from_slice(b"ICC_PROFILE\0");
    from.extend_from_slice(&base[2..]);
    let r = copy_metadata(&from, &base);
    assert_eq!(r, Err(MetadataError::Container("truncated ICC profile segment".to_string())));
}

#[test]
fn serialize_then_parse_keeps_sub_ifds_chain_and_thumbnail() {
    let exif_ifd = ifd(vec![rational_entry(TAG_EXPOSURE_TIME, 1, 125)]);
    let ifd1 = Ifd {
        entries: vec![
            Entry { tag: TAG_THUMB_OFFSET, ty: 4, count: 1, value: vec![0, 0, 0, 0], sub: None },
            Entry { tag: TAG_THUMB_LENGTH, ty: 4, count: 1, value: 3u32.to_le_bytes().to_vec(), sub: None },
        ],
        next: None,
        thumbnail: Some(vec![0xFF, 0xD8, 0xFF]),
    };
    let ifd0 = Ifd {
        entries: vec![
            short_entry(TAG_ORIENTATION, 6),
            ascii_entry(TAG_COPYRIGHT, "me"),
            pointer_entry(0x8769, exif_ifd),
        ],
        next: Some(Box::new(ifd1)),
        thumbnail: None,
    };
    let bytes = tiff::serialize(&Tiff { ifd0 });
    let back = tiff::parse(&bytes).unwrap();
    let e = &back.ifd0.entries;
    assert_eq!(e.len(), 3);
    assert_eq!((e[0].tag, e[0].value.clone()), (TAG_ORIENTATION, vec![6, 0]));
    assert_eq!(e[1].value, b"me\0".to_vec());
    let sub = e[2].sub.as_ref().unwrap();
    assert_eq!(sub.entries[0].value, [1u32.to_le_bytes(), 125u32.to_le_bytes()].concat());
    let next = back.ifd0.next.as_ref().unwrap();
    assert_eq!(next.thumbnail, Some(vec![0xFF, 0xD8, 0xFF]));
    assert_eq!(next.entries[1].value, 3u32.to_le_bytes().to_vec());
}
