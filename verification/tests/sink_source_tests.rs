use std::path::Path;

use crustyimg::image::{Image, ImageFormat};
use crustyimg::quality::{encode_candidate_bytes, QualityError};
use crustyimg::sink::encode::encode_to_bytes;
use crustyimg::sink::{extension_for_format, format_from_extension, guard_overwrite, safe_join, Destination, Overwrite, Sink, SinkError, SinkInput};
use crustyimg::source::{directory_inputs, glob_base_dir, glob_inputs, sort_paths, DirEntry, GlobEntry, Input, SourceError};

#[test]
fn safe_join_accepts_in_dir_name() {
    let dir = "/tmp/out";
    let result = safe_join(dir, "photo.png").unwrap();
    assert!(result.starts_with(dir));
    assert_eq!(result, "/tmp/out/photo.png");
}

#[test]
fn safe_join_rejects_parent_escape() {
    let dir = "/tmp/out";
    assert!(matches!(safe_join(dir, "../x.png"), Err(SinkError::Traversal(_))));
    assert!(matches!(safe_join(dir, "../../etc/passwd"), Err(SinkError::Traversal(_))));
    assert!(matches!(safe_join(dir, "/etc/x.png"), Err(SinkError::Traversal(_))));
}

#[test]
fn safe_join_rejects_empty_dotdot_and_backslash() {
    assert_eq!(safe_join("/d", ""), Err(SinkError::Traversal(String::new())));
    assert_eq!(safe_join("/d", ".."), Err(SinkError::Traversal("..".to_string())));
    assert_eq!(safe_join("/d", "a\\b.png"), Err(SinkError::Traversal("a\\b.png".to_string())));
    // A trailing separator on the directory is not doubled; `..x` is a plain name.
    assert_eq!(safe_join("/d/", "..x"), Ok("/d/..x".to_string()));
}

#[test]
fn guard_overwrite_refuses_existing_without_allow() {
    assert_eq!(
        guard_overwrite("out.png", true, Overwrite::Forbid),
        Err(SinkError::AlreadyExists("out.png".to_string()))
    );
    assert_eq!(guard_overwrite("out.png", true, Overwrite::Allow), Ok(()));
    assert_eq!(guard_overwrite("out.png", false, Overwrite::Forbid), Ok(()));
}

#[test]
fn plan_file_sink_infers_format_or_fails() {
    let input = SinkInput { stem: "photo", path: Some("/a/b/photo.jpg") };
    let plan = Sink::File { path: "out.JPG".to_string(), format: None }.plan(&input).unwrap();
    assert_eq!(plan.destination, Destination::File { path: "out.JPG".to_string() });
    assert_eq!(plan.format, Some(ImageFormat::Jpeg));
    let forced = Sink::File { path: "out".to_string(), format: Some(ImageFormat::Png) }.plan(&input).unwrap();
    assert_eq!(forced.format, Some(ImageFormat::Png));
    assert!(matches!(
        Sink::File { path: "out".to_string(), format: None }.plan(&input),
        Err(SinkError::UnknownFormat)
    ));
    assert_eq!(
        Sink::File { path: "out.xyz".to_string(), format: None }.plan(&input).err(),
        Some(SinkError::UnsupportedExtension("xyz".to_string()))
    );
}

#[test]
fn plan_dir_sink_expands_and_checks_the_name() {
    let input = SinkInput { stem: "photo", path: Some("/a/b/photo.jpg") };
    let sink = Sink::Dir { dir: "out".to_string(), template: "{stem}_web.{ext}".to_string(), format: None };
    let plan = sink.plan(&input).unwrap();
    assert_eq!(
        plan.destination,
        Destination::InDir { dir: "out".to_string(), file_name: "photo_web.png".to_string() }
    );
    assert_eq!(plan.format, Some(ImageFormat::Png));
    let jpg = Sink::Dir { dir: "out".to_string(), template: "{parent}-{stem}.{ext}".to_string(), format: Some(ImageFormat::Jpeg) };
    assert_eq!(
        jpg.plan(&input).unwrap().destination,
        Destination::InDir { dir: "out".to_string(), file_name: "b-photo.jpg".to_string() }
    );
    let escaping = Sink::Dir { dir: "out".to_string(), template: "../{stem}.{ext}".to_string(), format: None };
    assert_eq!(escaping.plan(&input).err(), Some(SinkError::Traversal("../photo.png".to_string())));
}

#[test]
fn plan_stdout_needs_a_format_and_display_needs_none() {
    let input = SinkInput { stem: "stdin", path: None };
    assert!(matches!(Sink::Stdout { format: None }.plan(&input), Err(SinkError::UnknownFormat)));
    let plan = Sink::Stdout { format: Some(ImageFormat::WebP) }.plan(&input).unwrap();
    assert_eq!(plan.destination, Destination::Stdout);
    let display = Sink::Display { width: Some(40), height: None }.plan(&input).unwrap();
    assert_eq!(display.destination, Destination::Display { width: Some(40), height: None });
    assert_eq!(display.format, None);
}

#[test]
fn plan_bytes_uses_the_input_extension_and_refuses_display() {
    let input = SinkInput { stem: "photo", path: Some("in/photo.jpeg") };
    let sink = Sink::Dir { dir: "o".to_string(), template: "{stem}_clean.{ext}".to_string(), format: Some(ImageFormat::Png) };
    assert_eq!(
        sink.plan_bytes(&input, "jpeg").unwrap(),
        Destination::InDir { dir: "o".to_string(), file_name: "photo_clean.jpeg".to_string() }
    );
    assert_eq!(
        Sink::Display { width: None, height: None }.plan_bytes(&input, "jpeg").err(),
        Some(SinkError::Display(
            "the metadata lane writes container bytes; terminal display is not a byte sink".to_string()
        ))
    );
}

#[test]
fn sort_paths_orders_by_component() {
    let sorted = sort_paths(vec![
        "b/a.png".to_string(),
        "a.png".to_string(),
        "a/z.png".to_string(),
        "a.png.bak".to_string(),
    ]);
    assert_eq!(sorted, vec!["a/z.png", "a.png", "a.png.bak", "b/a.png"]);
}

#[test]
fn glob_inputs_filters_sorts_and_reports_an_empty_match() {
    let entries = vec![
        GlobEntry { path: "p/b.JPG".to_string(), within_root: true },
        GlobEntry { path: "p/notes.txt".to_string(), within_root: true },
        GlobEntry { path: "p/a.png".to_string(), within_root: true },
        GlobEntry { path: "p/escape.png".to_string(), within_root: false },
    ];
    let inputs = glob_inputs("p/*", entries).unwrap();
    assert_eq!(inputs, vec![Input::Path("p/a.png".to_string()), Input::Path("p/b.JPG".to_string())]);
    let none = glob_inputs("p/*.gif", vec![GlobEntry { path: "p/x.txt".to_string(), within_root: true }]);
    assert_eq!(none, Err(SourceError::NotFound("p/*.gif".to_string())));
}

#[test]
fn directory_inputs_skip_dirs_escapes_and_non_images() {
    let entries = vec![
        DirEntry { path: "d/z.gif".to_string(), within_root: true, is_dir: false },
        DirEntry { path: "d/sub.png".to_string(), within_root: true, is_dir: true },
        DirEntry { path: "d/link.png".to_string(), within_root: false, is_dir: false },
        DirEntry { path: "d/readme.md".to_string(), within_root: true, is_dir: false },
        DirEntry { path: "d/a.tiff".to_string(), within_root: true, is_dir: false },
    ];
    assert_eq!(
        directory_inputs(entries),
        vec![Input::Path("d/a.tiff".to_string()), Input::Path("d/z.gif".to_string())]
    );
    assert_eq!(directory_inputs(Vec::new()), Vec::<Input>::new());
}

#[test]
fn glob_base_dir_is_the_prefix_directory_or_its_parent() {
    assert_eq!(glob_base_dir("photos/*.jpg", true), "photos/");
    assert_eq!(glob_base_dir("photos/a*.jpg", false), "photos");
    assert_eq!(glob_base_dir("*.jpg", false), ".");
    assert_eq!(glob_base_dir("/srv/img/x?.png", false), "/srv/img");
    assert_eq!(glob_base_dir("/x*.png", false), "/");
}

fn png_bytes(img: image::DynamicImage) -> Vec<u8> {
    let mut out = std::io::Cursor::new(Vec::new());
    img.write_to(&mut out, image::ImageFormat::Png).unwrap();
    out.into_inner()
}

fn gradient_rgb(w: u32, h: u32) -> image::DynamicImage {
    let img = image::RgbImage::from_fn(w, h, |x, y| image::Rgb([(x * 7) as u8, (y * 5) as u8, ((x + y) * 3) as u8]));
    image::DynamicImage::ImageRgb8(img)
}

#[test]
fn encode_to_bytes_png_round_trips_pixels_and_color_type() {
    let src = gradient_rgb(9, 7);
    let img = Image::from_bytes(&png_bytes(src.clone())).unwrap();
    let out = encode_to_bytes(&img, ImageFormat::Png, Some(10)).unwrap();
    let back = image::load_from_memory(&out).unwrap();
    assert_eq!(back.color(), image::ColorType::Rgb8);
    assert_eq!(back.to_rgb8().into_raw(), src.to_rgb8().into_raw());
}

#[test]
fn encode_to_bytes_keeps_sixteen_bit_and_alpha() {
    let img16 = image::ImageBuffer::from_fn(4, 3, |x, y| image::Rgba([x as u16 * 9000, y as u16 * 20000, 777u16, 65535 - x as u16]));
    let src = image::DynamicImage::ImageRgba16(img16);
    let img = Image::from_bytes(&png_bytes(src.clone())).unwrap();
    let out = encode_to_bytes(&img, ImageFormat::Png, None).unwrap();
    let back = image::load_from_memory(&out).unwrap();
    assert_eq!(back.color(), image::ColorType::Rgba16);
    assert_eq!(back.to_rgba16().into_raw(), src.to_rgba16().into_raw());
}

#[test]
fn encode_to_bytes_jpeg_quality_is_clamped_and_applied() {
    let img = Image::from_bytes(&png_bytes(gradient_rgb(64, 64))).unwrap();
    let low = encode_to_bytes(&img, ImageFormat::Jpeg, Some(5)).unwrap();
    let high = encode_to_bytes(&img, ImageFormat::Jpeg, Some(95)).unwrap();
    assert!(low.len() < high.len(), "q5 ({}) should be smaller than q95 ({})", low.len(), high.len());
    assert_eq!(encode_to_bytes(&img, ImageFormat::Jpeg, Some(0)).unwrap(), encode_to_bytes(&img, ImageFormat::Jpeg, Some(1)).unwrap());
    assert_eq!(encode_to_bytes(&img, ImageFormat::Jpeg, Some(250)).unwrap(), encode_to_bytes(&img, ImageFormat::Jpeg, Some(100)).unwrap());
    let decoded = image::load_from_memory(&high).unwrap();
    assert_eq!((decoded.width(), decoded.height()), (64, 64));
}

#[test]
fn encode_to_bytes_avif_is_codec_not_built_and_pcx_unsupported() {
    let img = Image::from_bytes(&png_bytes(gradient_rgb(4, 4))).unwrap();
    assert_eq!(
        encode_to_bytes(&img, ImageFormat::Avif, Some(50)),
        Err(SinkError::CodecNotBuilt { codec: "avif", feature: "avif" })
    );
    assert_eq!(
        encode_to_bytes(&img, ImageFormat::Pcx, None),
        Err(SinkError::Encode("The image format `Pcx` is not supported".to_string()))
    );
    // A format with no encoder built here reports the encoder's error.
    assert!(matches!(encode_to_bytes(&img, ImageFormat::Qoi, None), Err(SinkError::Encode(_))));
}

#[test]
fn candidate_jpeg_bytes_are_the_bytes_the_sink_writes() {
    let img = Image::from_bytes(&png_bytes(gradient_rgb(32, 24))).unwrap();
    for q in [0u8, 1, 40, 100, 200] {
        assert_eq!(
            encode_candidate_bytes(&img, ImageFormat::Jpeg, q).unwrap(),
            encode_to_bytes(&img, ImageFormat::Jpeg, Some(q)).unwrap()
        );
    }
    assert_eq!(
        encode_candidate_bytes(&img, ImageFormat::Png, 50),
        Err(QualityError::Encode("no auto-quality encoder for Png (not a lossy quality format)".to_string()))
    );
}

#[test]
fn path_helpers_follow_std_path() {
    for p in ["a/b.jpg", "photos/", "a/b/.", "a/./b/", "/", "", ".", "..", "a/..", "./x.png", ".hidden", "a//b.tar.gz", "/x", "a.", "x/..y"] {
        let std_name = Path::new(p).file_name().and_then(|n| n.to_str());
        assert_eq!(crustyimg::paths::file_name(p), std_name, "file_name of {p:?}");
        let std_ext = Path::new(p).extension().and_then(|n| n.to_str());
        assert_eq!(crustyimg::paths::extension(p), std_ext, "extension of {p:?}");
        let std_parent = Path::new(p).parent().and_then(|q| q.file_name()).and_then(|n| n.to_str());
        assert_eq!(crustyimg::paths::parent_name(p), std_parent, "parent name of {p:?}");
        let std_stem = Path::new(p).file_stem().and_then(|n| n.to_str()).unwrap_or("");
        assert_eq!(Input::Path(p.to_string()).stem(), std_stem, "stem of {p:?}");
    }
}

#[test]
fn format_from_extension_ignores_letter_case_of_a_whole_path() {
    for f in [
        ImageFormat::Png,
        ImageFormat::Jpeg,
        ImageFormat::Gif,
        ImageFormat::Bmp,
        ImageFormat::Tiff,
        ImageFormat::Ico,
        ImageFormat::WebP,
        ImageFormat::Avif,
    ] {
        let ext = extension_for_format(f);
        assert_eq!(format_from_extension(&format!("foo.{ext}")), Ok(f));
        assert_eq!(format_from_extension(&format!("dir/foo.{}", ext.to_uppercase())), Ok(f));
    }
    assert_eq!(format_from_extension("out.JpG"), Ok(ImageFormat::Jpeg));
}
