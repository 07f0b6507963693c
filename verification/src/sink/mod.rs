//! Output planning: the output format from an extension, the `{ext}` of a
//! format, name-template expansion, and the traversal checks on an expanded
//! file name.
//!
//! Where a final image goes is described by a [`Sink`]. [`Sink::plan`]
//! decides everything that does not touch the file system (the format, the
//! file name in a directory sink, the checks on it); the program performs the
//! write.

pub mod encode;

use crate::image::ImageFormat;
use crate::paths::{
    ascii_lowercase, extension, file_name, parent_name, replace, replace_all, spec_extension,
    spec_file_name, spec_parent_name, to_ascii_lowercase, char_lower, trim_end_len, spec_trimmed,
    spec_last_component, last_index_of, lemma_last_index_of,
};
use crate::strings::{push_char, push_str, str_eq};
use vstd::prelude::*;

verus! {

/// Where a final image is written.
pub enum Sink {
    /// One explicit output path; without a `format`, it comes from the
    /// path's extension.
    File { path: String, format: Option<ImageFormat> },
    /// A directory, with a name template over the input's stem; the format
    /// defaults to PNG.
    Dir { dir: String, template: String, format: Option<ImageFormat> },
    /// Encoded bytes to stdout; the format must be given.
    Stdout { format: Option<ImageFormat> },
    /// Terminal display, with optional sizing hints.
    Display { width: Option<u32>, height: Option<u32> },
}

/// Whether overwriting an existing destination file is permitted.
#[derive(Debug, Clone, Copy, PartialEq, Eq, Structural)]
pub enum Overwrite {
    /// Do not overwrite an existing file.
    Forbid,
    /// Overwrite an existing file.
    Allow,
}

/// Errors that can occur while writing an image to a sink.
#[derive(Debug, Clone, PartialEq, Eq)]
pub enum SinkError {
    /// An I/O error while opening, creating, or writing the output.
    Io(String),
    /// The pixels could not be encoded to the chosen format.
    Encode(String),
    /// No output extension and no explicit format.
    UnknownFormat,
    /// The output extension is not a supported output format.
    UnsupportedExtension(String),
    /// The expanded output name would escape the target directory.
    Traversal(String),
    /// The destination already exists and overwriting is forbidden.
    AlreadyExists(String),
    /// Terminal display was asked for without a terminal.
    NotATty,
    /// The terminal display failed.
    Display(String),
    /// The format's codec is recognized but not compiled into this build.
    CodecNotBuilt { codec: &'static str, feature: &'static str },
}

/// The naming context a directory sink needs from the originating input.
pub struct SinkInput<'a> {
    /// The output stem for name templates (`{stem}`).
    pub stem: &'a str,
    /// The source path, if available (for `{name}` and `{parent}`).
    pub path: Option<&'a str>,
}

/// The conventional lowercase extension of a format.
pub open spec fn spec_extension_for_format(f: ImageFormat) -> Seq<char> {
    match f {
        ImageFormat::Png => "png"@,
        ImageFormat::Jpeg => "jpg"@,
        ImageFormat::Gif => "gif"@,
        ImageFormat::Bmp => "bmp"@,
        ImageFormat::Tiff => "tiff"@,
        ImageFormat::Ico => "ico"@,
        ImageFormat::WebP => "webp"@,
        ImageFormat::Pnm => "pnm"@,
        ImageFormat::Tga => "tga"@,
        ImageFormat::Dds => "dds"@,
        ImageFormat::Hdr => "hdr"@,
        ImageFormat::OpenExr => "exr"@,
        ImageFormat::Farbfeld => "ff"@,
        ImageFormat::Avif => "avif"@,
        ImageFormat::Qoi => "qoi"@,
        ImageFormat::Pcx => "bin"@,
    }
}

/// The conventional lowercase extension string for a format (for `{ext}`
/// expansion): Png -> "png", Jpeg -> "jpg", Tiff -> "tiff", ...
pub fn extension_for_format(format: ImageFormat) -> (e: &'static str)
    ensures
        e@ == spec_extension_for_format(format),
{
    match format {
        ImageFormat::Png => "png",
        ImageFormat::Jpeg => "jpg",
        ImageFormat::Gif => "gif",
        ImageFormat::Bmp => "bmp",
        ImageFormat::Tiff => "tiff",
        ImageFormat::Ico => "ico",
        ImageFormat::WebP => "webp",
        ImageFormat::Pnm => "pnm",
        ImageFormat::Tga => "tga",
        ImageFormat::Dds => "dds",
        ImageFormat::Hdr => "hdr",
        ImageFormat::OpenExr => "exr",
        ImageFormat::Farbfeld => "ff",
        ImageFormat::Avif => "avif",
        ImageFormat::Qoi => "qoi",
        ImageFormat::Pcx => "bin",
    }
}

/// The output format a lowercase extension names, over the supported output
/// set: png, jpg/jpeg, gif, bmp, tif/tiff, ico, webp, avif.
pub open spec fn spec_format_for_ext(e: Seq<char>) -> Option<ImageFormat> {
    if false {
        None
    } else if e == "png"@ {
        Some(ImageFormat::Png)
    } else if e == "jpg"@ {
        Some(ImageFormat::Jpeg)
    } else if e == "jpeg"@ {
        Some(ImageFormat::Jpeg)
    } else if e == "gif"@ {
        Some(ImageFormat::Gif)
    } else if e == "bmp"@ {
        Some(ImageFormat::Bmp)
    } else if e == "tif"@ {
        Some(ImageFormat::Tiff)
    } else if e == "tiff"@ {
        Some(ImageFormat::Tiff)
    } else if e == "ico"@ {
        Some(ImageFormat::Ico)
    } else if e == "webp"@ {
        Some(ImageFormat::WebP)
    } else if e == "avif"@ {
        Some(ImageFormat::Avif)
    } else {
        None
    }
}

/// The output format a lowercase extension names.
fn format_for_ext(e: &str) -> (r: Option<ImageFormat>)
    ensures
        r == spec_format_for_ext(e@),
{
    proof {
        reveal_strlit("png");
        reveal_strlit("jpg");
        reveal_strlit("jpeg");
        reveal_strlit("gif");
        reveal_strlit("bmp");
        reveal_strlit("tif");
        reveal_strlit("tiff");
        reveal_strlit("ico");
        reveal_strlit("webp");
        reveal_strlit("avif");
    }
    if str_eq(e, "png") {
        return Some(ImageFormat::Png);
    }
    if str_eq(e, "jpg") {
        return Some(ImageFormat::Jpeg);
    }
    if str_eq(e, "jpeg") {
        return Some(ImageFormat::Jpeg);
    }
    if str_eq(e, "gif") {
        return Some(ImageFormat::Gif);
    }
    if str_eq(e, "bmp") {
        return Some(ImageFormat::Bmp);
    }
    if str_eq(e, "tif") {
        return Some(ImageFormat::Tiff);
    }
    if str_eq(e, "tiff") {
        return Some(ImageFormat::Tiff);
    }
    if str_eq(e, "ico") {
        return Some(ImageFormat::Ico);
    }
    if str_eq(e, "webp") {
        return Some(ImageFormat::WebP);
    }
    if str_eq(e, "avif") {
        return Some(ImageFormat::Avif);
    }
    None
}

/// Infer the output format from a path's extension (case-insensitive). No
/// extension is [`SinkError::UnknownFormat`]; an extension outside the
/// supported set is [`SinkError::UnsupportedExtension`] carrying it
/// lowercased.
pub fn format_from_extension(path: &str) -> (r: Result<ImageFormat, SinkError>)
    ensures
        match spec_extension(path@) {
            None => r == Err::<ImageFormat, SinkError>(SinkError::UnknownFormat),
            Some(e) => match spec_format_for_ext(ascii_lowercase(e)) {
                Some(f) => r == Ok::<ImageFormat, SinkError>(f),
                None => r matches Err(SinkError::UnsupportedExtension(s)) && s@ == ascii_lowercase(e),
            },
        },
{
    let ext = match extension(path) {
        None => return Err(SinkError::UnknownFormat),
        Some(e) => e,
    };
    let lower = to_ascii_lowercase(ext);
    match format_for_ext(lower.as_str()) {
        Some(f) => Ok(f),
        None => Err(SinkError::UnsupportedExtension(lower)),
    }
}

/// A format's conventional extension names it again, for every supported
/// output format.
pub proof fn law_extension_round_trip(f: ImageFormat)
    requires
        f == ImageFormat::Png || f == ImageFormat::Jpeg || f == ImageFormat::Gif || f
            == ImageFormat::Bmp || f == ImageFormat::Tiff || f == ImageFormat::Ico || f
            == ImageFormat::WebP || f == ImageFormat::Avif,
    ensures
        spec_format_for_ext(spec_extension_for_format(f)) == Some(f),
        ascii_lowercase(spec_extension_for_format(f)) == spec_extension_for_format(f),
{
    reveal_strlit("png");
    reveal_strlit("jpg");
    reveal_strlit("gif");
    reveal_strlit("bmp");
    reveal_strlit("tiff");
    reveal_strlit("ico");
    reveal_strlit("webp");
    reveal_strlit("pnm");
    reveal_strlit("tga");
    reveal_strlit("dds");
    reveal_strlit("hdr");
    reveal_strlit("exr");
    reveal_strlit("ff");
    reveal_strlit("avif");
    reveal_strlit("qoi");
    reveal_strlit("bin");
    reveal_strlit("jpeg");
    reveal_strlit("tif");
    let names = seq!["png"@, "jpg"@, "jpeg"@, "gif"@, "bmp"@, "tif"@, "tiff"@, "ico"@, "webp"@, "avif"@];
    assert forall|i: int, j: int| 0 <= i < j < 10 implies #[trigger] names[i] != #[trigger] names[j] by {
        if names[i].len() == names[j].len() {
            assert(names[i][0] != names[j][0] || names[i][1] != names[j][1] || names[i][2] != names[j][2] || names[i][3] != names[j][3]);
        }
    }
    let e = spec_extension_for_format(f);
    assert(ascii_lowercase(e) =~= e);
}

/// Verify the encoder for `format` is compiled into this build: AVIF
/// encoding is not, so it is [`SinkError::CodecNotBuilt`]; every other
/// format is fine.
pub fn ensure_codec_built(format: ImageFormat) -> (r: Result<(), SinkError>)
    ensures
        format == ImageFormat::Avif ==> r == Err::<(), SinkError>(
            SinkError::CodecNotBuilt { codec: "avif", feature: "avif" },
        ),
        format != ImageFormat::Avif ==> r == Ok::<(), SinkError>(()),
{
    match format {
        ImageFormat::Avif => Err(SinkError::CodecNotBuilt { codec: "avif", feature: "avif" }),
        _ => Ok(()),
    }
}

/// The `{name}` of a template: the path's file name, or `stem.ext`.
pub open spec fn template_name(stem: Seq<char>, ext: Seq<char>, path: Option<Seq<char>>) -> Seq<char> {
    match path {
        Some(p) => match spec_file_name(p) {
            Some(n) => n,
            None => stem + "."@ + ext,
        },
        None => stem + "."@ + ext,
    }
}

/// The `{parent}` of a template: the last component of the path's parent,
/// or empty.
pub open spec fn template_parent(path: Option<Seq<char>>) -> Seq<char> {
    match path {
        Some(p) => match spec_parent_name(p) {
            Some(n) => n,
            None => Seq::empty(),
        },
        None => Seq::empty(),
    }
}

/// The expansion of `template`: `{stem}`, then `{ext}`, then `{name}`, then
/// `{parent}` replaced in turn; any other `{token}` stays literal.
pub open spec fn spec_expand_template(
    template: Seq<char>,
    stem: Seq<char>,
    ext: Seq<char>,
    path: Option<Seq<char>>,
) -> Seq<char> {
    replace_all(
        replace_all(
            replace_all(replace_all(template, "{stem}"@, stem), "{ext}"@, ext),
            "{name}"@,
            template_name(stem, ext, path),
        ),
        "{parent}"@,
        template_parent(path),
    )
}

/// The model of an optional string slice.
pub open spec fn opt_str(p: Option<&str>) -> Option<Seq<char>> {
    match p {
        Some(s) => Some(s@),
        None => None,
    }
}

/// Expand a name template over an input's naming context: `{stem}`,
/// `{ext}`, `{name}` (the path's file name, or `stem.ext`) and `{parent}`
/// (the last component of the path's parent, or empty). Unknown tokens are
/// left literal. Returns the file name only.
pub fn expand_template(template: &str, stem: &str, ext: &str, path: Option<&str>) -> (r: String)
    ensures
        r@ == spec_expand_template(template@, stem@, ext@, opt_str(path)),
{
    proof {
        reveal_strlit("{stem}");
        reveal_strlit("{ext}");
        reveal_strlit("{name}");
        reveal_strlit("{parent}");
        reveal_strlit(".");
    }
    let mut name = String::new();
    match path {
        Some(p) => match file_name(p) {
            Some(n) => push_str(&mut name, n),
            None => {
                push_str(&mut name, stem);
                push_str(&mut name, ".");
                push_str(&mut name, ext);
            },
        },
        None => {
            push_str(&mut name, stem);
            push_str(&mut name, ".");
            push_str(&mut name, ext);
        },
    }
    let mut parent = String::new();
    match path {
        Some(p) => match parent_name(p) {
            Some(n) => push_str(&mut parent, n),
            None => {},
        },
        None => {},
    }
    assert(name@ =~= template_name(stem@, ext@, opt_str(path)));
    assert(parent@ =~= template_parent(opt_str(path)));
    let a = replace(template, "{stem}", stem);
    let b = replace(a.as_str(), "{ext}", ext);
    let c = replace(b.as_str(), "{name}", name.as_str());
    replace(c.as_str(), "{parent}", parent.as_str())
}

/// Whether an expanded file name is safe to join onto a directory: not
/// empty, not absolute, no `/` or `\`, and not `..`.
pub open spec fn spec_safe_file_name(f: Seq<char>) -> bool {
    &&& f.len() > 0
    &&& f[0] != '/'
    &&& forall|i: int| 0 <= i < f.len() ==> #[trigger] f[i] != '/' && f[i] != '\\'
    &&& f != ".."@
}

/// The pre-join checks on an expanded file name: reject it (as
/// [`SinkError::Traversal`]) when it is empty, absolute, holds a path
/// separator, or is a `..` component.
pub fn check_file_name(file_name: &str) -> (r: Result<(), SinkError>)
    ensures
        spec_safe_file_name(file_name@) ==> r == Ok::<(), SinkError>(()),
        !spec_safe_file_name(file_name@) ==> (r matches Err(SinkError::Traversal(s)) && s@
            == file_name@),
{
    proof {
        reveal_strlit("..");
    }
    let n = file_name.unicode_len();
    let mut ok = n > 0;
    let mut i: usize = 0;
    while ok && i < n
        invariant
            i <= n,
            n == file_name@.len(),
            ok ==> n > 0,
            ok ==> forall|j: int| 0 <= j < i ==> #[trigger] file_name@[j] != '/' && file_name@[j] != '\\',
            !ok ==> !spec_safe_file_name(file_name@),
        decreases n - i,
    {
        let c = file_name.get_char(i);
        if c == '/' || c == '\\' {
            ok = false;
        }
        i = i + 1;
    }
    if ok && str_eq(file_name, "..") {
        ok = false;
    }
    if ok {
        Ok(())
    } else {
        let mut s = String::new();
        push_str(&mut s, file_name);
        Err(SinkError::Traversal(s))
    }
}

// ── Planning a write ────────────────────────────────────────────────────────

/// Where a planned write goes.
#[derive(Debug, Clone, PartialEq, Eq)]
pub enum Destination {
    /// An explicit file path.
    File { path: String },
    /// A checked file name to join onto the (canonicalized) directory.
    InDir { dir: String, file_name: String },
    /// Standard output.
    Stdout,
    /// The terminal, with optional sizing hints.
    Display { width: Option<u32>, height: Option<u32> },
}

/// A planned write: where the bytes go and in which format they are encoded
/// (no format for terminal display, which renders the pixels).
#[derive(Debug, Clone, PartialEq, Eq)]
pub struct WritePlan {
    pub destination: Destination,
    pub format: Option<ImageFormat>,
}

/// The model of a destination: its strings as character sequences.
pub enum DestinationModel {
    File { path: Seq<char> },
    InDir { dir: Seq<char>, file_name: Seq<char> },
    Stdout,
    Display { width: Option<u32>, height: Option<u32> },
}

/// The model of a sink error: its strings as character sequences.
pub enum SinkErrorModel {
    Io(Seq<char>),
    Encode(Seq<char>),
    UnknownFormat,
    UnsupportedExtension(Seq<char>),
    Traversal(Seq<char>),
    AlreadyExists(Seq<char>),
    NotATty,
    Display(Seq<char>),
    CodecNotBuilt { codec: Seq<char>, feature: Seq<char> },
}

impl View for Destination {
    type V = DestinationModel;

    open spec fn view(&self) -> DestinationModel {
        match self {
            Destination::File { path } => DestinationModel::File { path: path@ },
            Destination::InDir { dir, file_name } => DestinationModel::InDir { dir: dir@, file_name: file_name@ },
            Destination::Stdout => DestinationModel::Stdout,
            Destination::Display { width, height } => DestinationModel::Display { width: *width, height: *height },
        }
    }
}

impl View for SinkError {
    type V = SinkErrorModel;

    open spec fn view(&self) -> SinkErrorModel {
        match self {
            SinkError::Io(s) => SinkErrorModel::Io(s@),
            SinkError::Encode(s) => SinkErrorModel::Encode(s@),
            SinkError::UnknownFormat => SinkErrorModel::UnknownFormat,
            SinkError::UnsupportedExtension(s) => SinkErrorModel::UnsupportedExtension(s@),
            SinkError::Traversal(s) => SinkErrorModel::Traversal(s@),
            SinkError::AlreadyExists(s) => SinkErrorModel::AlreadyExists(s@),
            SinkError::NotATty => SinkErrorModel::NotATty,
            SinkError::Display(s) => SinkErrorModel::Display(s@),
            SinkError::CodecNotBuilt { codec, feature } => SinkErrorModel::CodecNotBuilt {
                codec: codec@,
                feature: feature@,
            },
        }
    }
}

/// The model of a sink.
pub enum SinkModel {
    File { path: Seq<char>, format: Option<ImageFormat> },
    Dir { dir: Seq<char>, template: Seq<char>, format: Option<ImageFormat> },
    Stdout { format: Option<ImageFormat> },
    Display { width: Option<u32>, height: Option<u32> },
}

impl View for Sink {
    type V = SinkModel;

    open spec fn view(&self) -> SinkModel {
        match self {
            Sink::File { path, format } => SinkModel::File { path: path@, format: *format },
            Sink::Dir { dir, template, format } => SinkModel::Dir { dir: dir@, template: template@, format: *format },
            Sink::Stdout { format } => SinkModel::Stdout { format: *format },
            Sink::Display { width, height } => SinkModel::Display { width: *width, height: *height },
        }
    }
}

/// The format an output path's extension names, or the error for it.
pub open spec fn spec_format_from_extension(path: Seq<char>) -> Result<ImageFormat, SinkErrorModel> {
    match spec_extension(path) {
        None => Err(SinkErrorModel::UnknownFormat),
        Some(e) => match spec_format_for_ext(ascii_lowercase(e)) {
            Some(f) => Ok(f),
            None => Err(SinkErrorModel::UnsupportedExtension(ascii_lowercase(e))),
        },
    }
}

/// The file name a directory sink writes, or the traversal error for it.
pub open spec fn spec_dir_entry(
    template: Seq<char>,
    stem: Seq<char>,
    ext: Seq<char>,
    path: Option<Seq<char>>,
) -> Result<Seq<char>, SinkErrorModel> {
    let name = spec_expand_template(template, stem, ext, path);
    if spec_safe_file_name(name) {
        Ok(name)
    } else {
        Err(SinkErrorModel::Traversal(name))
    }
}

/// What writing an image to sink `s` decides before touching the file
/// system: the format (explicit, else from a file's extension, else PNG
/// for a directory; required for stdout), and the destination (for a
/// directory, the expanded and checked file name).
pub open spec fn spec_plan(s: SinkModel, stem: Seq<char>, path: Option<Seq<char>>) -> Result<
    (DestinationModel, Option<ImageFormat>),
    SinkErrorModel,
> {
    match s {
        SinkModel::File { path: p, format } => match format {
            Some(f) => Ok((DestinationModel::File { path: p }, Some(f))),
            None => match spec_format_from_extension(p) {
                Ok(f) => Ok((DestinationModel::File { path: p }, Some(f))),
                Err(e) => Err(e),
            },
        },
        SinkModel::Dir { dir, template, format } => {
            let f = match format {
                Some(f) => f,
                None => ImageFormat::Png,
            };
            match spec_dir_entry(template, stem, spec_extension_for_format(f), path) {
                Ok(n) => Ok((DestinationModel::InDir { dir, file_name: n }, Some(f))),
                Err(e) => Err(e),
            }
        },
        SinkModel::Stdout { format } => match format {
            Some(f) => Ok((DestinationModel::Stdout, Some(f))),
            None => Err(SinkErrorModel::UnknownFormat),
        },
        SinkModel::Display { width, height } => Ok((DestinationModel::Display { width, height }, None)),
    }
}

/// The message for a byte write to the terminal.
pub open spec fn display_not_byte_sink() -> Seq<char> {
    "the metadata lane writes container bytes; terminal display is not a byte sink"@
}

/// Where writing already-encoded container bytes to sink `s` goes: the
/// format is preserved, so a directory template expands over `ext`, the
/// input's own extension; the terminal is no byte sink.
pub open spec fn spec_plan_bytes(s: SinkModel, stem: Seq<char>, path: Option<Seq<char>>, ext: Seq<char>) -> Result<
    DestinationModel,
    SinkErrorModel,
> {
    match s {
        SinkModel::File { path: p, .. } => Ok(DestinationModel::File { path: p }),
        SinkModel::Dir { dir, template, .. } => match spec_dir_entry(template, stem, ext, path) {
            Ok(n) => Ok(DestinationModel::InDir { dir, file_name: n }),
            Err(e) => Err(e),
        },
        SinkModel::Stdout { .. } => Ok(DestinationModel::Stdout),
        SinkModel::Display { .. } => Err(SinkErrorModel::Display(display_not_byte_sink())),
    }
}

/// Copy a string.
fn own(s: &str) -> (r: String)
    ensures
        r@ == s@,
{
    let mut r = String::new();
    push_str(&mut r, s);
    r
}

/// The checked file name a directory sink writes.
fn dir_entry(template: &str, stem: &str, ext: &str, path: Option<&str>) -> (r: Result<String, SinkError>)
    ensures
        match r {
            Ok(n) => spec_dir_entry(template@, stem@, ext@, opt_str(path)) == Ok::<Seq<char>, SinkErrorModel>(n@),
            Err(e) => spec_dir_entry(template@, stem@, ext@, opt_str(path)) == Err::<Seq<char>, SinkErrorModel>(e@),
        },
{
    let name = expand_template(template, stem, ext, path);
    match check_file_name(name.as_str()) {
        Ok(()) => Ok(name),
        Err(e) => Err(e),
    }
}

impl Sink {
    /// Decide how to write an image to this sink, short of touching the file
    /// system: the output format and the destination. The program then
    /// checks the overwrite guard, encodes and writes.
    pub fn plan(&self, input: &SinkInput) -> (r: Result<WritePlan, SinkError>)
        ensures
            match r {
                Ok(p) => spec_plan(self@, input.stem@, opt_str(input.path)) == Ok::<
                    (DestinationModel, Option<ImageFormat>),
                    SinkErrorModel,
                >((p.destination@, p.format)),
                Err(e) => spec_plan(self@, input.stem@, opt_str(input.path)) == Err::<
                    (DestinationModel, Option<ImageFormat>),
                    SinkErrorModel,
                >(e@),
            },
    {
        match self {
            Sink::File { path, format } => {
                let f = match format {
                    Some(f) => *f,
                    None => match format_from_extension(path.as_str()) {
                        Ok(f) => f,
                        Err(e) => return Err(e),
                    },
                };
                Ok(WritePlan { destination: Destination::File { path: own(path.as_str()) }, format: Some(f) })
            },
            Sink::Dir { dir, template, format } => {
                let f = match format {
                    Some(f) => *f,
                    None => ImageFormat::Png,
                };
                let ext = extension_for_format(f);
                match dir_entry(template.as_str(), input.stem, ext, input.path) {
                    Ok(n) => Ok(
                        WritePlan {
                            destination: Destination::InDir { dir: own(dir.as_str()), file_name: n },
                            format: Some(f),
                        },
                    ),
                    Err(e) => Err(e),
                }
            },
            Sink::Stdout { format } => match format {
                Some(f) => Ok(WritePlan { destination: Destination::Stdout, format: Some(*f) }),
                None => Err(SinkError::UnknownFormat),
            },
            Sink::Display { width, height } => Ok(
                WritePlan { destination: Destination::Display { width: *width, height: *height }, format: None },
            ),
        }
    }

    /// Decide where already-encoded container bytes go (the metadata lane):
    /// `ext` is the input's own extension, used for `{ext}` in a directory
    /// template; the terminal is refused.
    pub fn plan_bytes(&self, input: &SinkInput, ext: &str) -> (r: Result<Destination, SinkError>)
        ensures
            match r {
                Ok(d) => spec_plan_bytes(self@, input.stem@, opt_str(input.path), ext@) == Ok::<
                    DestinationModel,
                    SinkErrorModel,
                >(d@),
                Err(e) => spec_plan_bytes(self@, input.stem@, opt_str(input.path), ext@) == Err::<
                    DestinationModel,
                    SinkErrorModel,
                >(e@),
            },
    {
        match self {
            Sink::File { path, .. } => Ok(Destination::File { path: own(path.as_str()) }),
            Sink::Dir { dir, template, .. } => match dir_entry(template.as_str(), input.stem, ext, input.path) {
                Ok(n) => Ok(Destination::InDir { dir: own(dir.as_str()), file_name: n }),
                Err(e) => Err(e),
            },
            Sink::Stdout { .. } => Ok(Destination::Stdout),
            Sink::Display { .. } => {
                let m = "the metadata lane writes container bytes; terminal display is not a byte sink";
                proof {
                    reveal_strlit("the metadata lane writes container bytes; terminal display is not a byte sink");
                }
                Err(SinkError::Display(own(m)))
            },
        }
    }
}

/// `dir` joined with one more path component `name`, the way
/// `PathBuf::push` joins a relative name: a `/` between them unless `dir`
/// is empty or already ends with one.
pub open spec fn spec_join(dir: Seq<char>, name: Seq<char>) -> Seq<char> {
    if dir.len() == 0 || dir.last() == '/' {
        dir + name
    } else {
        dir + seq!['/'] + name
    }
}

/// A name that `safe_join` accepts lands as a direct child of the
/// directory: the joined path begins with the directory, a separator stands
/// right before the name whenever the directory is non-empty, and the name
/// that follows is one non-empty component with no separator and is not `..`.
#[verifier::rlimit(60)]
#[verifier::spinoff_prover]
pub proof fn law_safe_join_stays_inside(dir: Seq<char>, name: Seq<char>)
    requires
        spec_safe_file_name(name),
    ensures
        ({
            let p = spec_join(dir, name);
            let k = p.len() - name.len();
            &&& dir.len() <= k <= dir.len() + 1
            &&& p.subrange(0, dir.len() as int) == dir
            &&& p.subrange(k, p.len() as int) == name
            &&& dir.len() > 0 ==> p[k - 1] == '/'
            &&& k < p.len()
            &&& forall|i: int| k <= i < p.len() ==> #[trigger] p[i] != '/' && p[i] != '\\'
            &&& p.subrange(k, p.len() as int) != ".."@
        }),
{
    let p = spec_join(dir, name);
    let k = p.len() - name.len();
    assert(p.subrange(0, dir.len() as int) =~= dir);
    assert(p.subrange(k, p.len() as int) =~= name);
    assert forall|i: int| k <= i < p.len() implies #[trigger] p[i] != '/' && p[i] != '\\' by {
        assert(p[i] == name[i - k]);
    }
}

/// Naming an output `stem.ext`, where the stem holds no separator and `ext`
/// is a supported format's extension in any letter case, picks that format:
/// the path's extension is `ext`, and it lowercases to the format's own
/// extension (so [`format_from_extension`] answers `Ok` with the format).
pub proof fn law_extension_path_round_trip(f: ImageFormat, stem: Seq<char>, ext: Seq<char>)
    requires
        f == ImageFormat::Png || f == ImageFormat::Jpeg || f == ImageFormat::Gif || f
            == ImageFormat::Bmp || f == ImageFormat::Tiff || f == ImageFormat::Ico || f
            == ImageFormat::WebP || f == ImageFormat::Avif,
        stem.len() > 0,
        forall|i: int| 0 <= i < stem.len() ==> #[trigger] stem[i] != '/',
        ascii_lowercase(ext) == spec_extension_for_format(f),
    ensures
        spec_extension(stem + seq!['.'] + ext) == Some(ext),
        spec_format_for_ext(ascii_lowercase(ext)) == Some(f),
{
    law_extension_round_trip(f);
    let x = spec_extension_for_format(f);
    reveal_strlit("png");
    reveal_strlit("jpg");
    reveal_strlit("gif");
    reveal_strlit("bmp");
    reveal_strlit("tiff");
    reveal_strlit("ico");
    reveal_strlit("webp");
    reveal_strlit("avif");
    assert(x.len() >= 3);
    assert(forall|i: int| 0 <= i < x.len() ==> #[trigger] x[i] != '/' && x[i] != '.');
    assert(ext.len() == x.len());
    assert forall|i: int| 0 <= i < ext.len() implies #[trigger] ext[i] != '/' && ext[i] != '.' by {
        assert(ascii_lowercase(ext)[i] == char_lower(ext[i]));
        assert(x[i] == char_lower(ext[i]));
    }
    let p = stem + seq!['.'] + ext;
    let n = p.len() as int;
    assert(p[n - 1] == ext[ext.len() - 1]);
    assert(trim_end_len(p) == n);
    assert(spec_trimmed(p) =~= p);
    assert forall|j: int| 0 <= j < n implies #[trigger] p[j] != '/' by {
        if j < stem.len() {
            assert(p[j] == stem[j]);
        } else if j > stem.len() {
            assert(p[j] == ext[j - stem.len() - 1]);
        }
    }
    lemma_last_index_of(p, '/');
    assert(last_index_of(p, '/') == -1);
    assert(spec_last_component(p) =~= p);
    assert(p.len() >= 3);
    assert(p != seq!['.']);
    assert(p != seq!['.', '.']);
    assert(spec_file_name(p) == Some(p));
    let d = stem.len() as int;
    assert(p[d] == '.');
    lemma_last_index_of(p, '.');
    let li = last_index_of(p, '.');
    assert(li >= d) by {
        if li < d {
            assert(p[d] != '.');
        }
    }
    assert(li == d) by {
        if li > d {
            assert(p[li] == ext[li - d - 1]);
        }
    }
    assert(p.subrange(d + 1, n) =~= ext);
}

/// The extensions documented for each supported output format (compared
/// after lowercasing): `png`; `jpg` and `jpeg`; `gif`; `bmp`; `tif` and
/// `tiff`; `ico`; `webp`; `avif`. No other format is named by an extension.
pub open spec fn documented_extension(f: ImageFormat, e: Seq<char>) -> bool {
    match f {
        ImageFormat::Png => e == "png"@,
        ImageFormat::Jpeg => e == "jpg"@ || e == "jpeg"@,
        ImageFormat::Gif => e == "gif"@,
        ImageFormat::Bmp => e == "bmp"@,
        ImageFormat::Tiff => e == "tif"@ || e == "tiff"@,
        ImageFormat::Ico => e == "ico"@,
        ImageFormat::WebP => e == "webp"@,
        ImageFormat::Avif => e == "avif"@,
        _ => false,
    }
}

/// A lowercase extension names an output format exactly when it is one of
/// that format's documented extensions: every alias (`jpeg` as well as
/// `jpg`, `tif` as well as `tiff`) is accepted, and nothing else is.
pub proof fn law_format_for_ext_documented(e: Seq<char>, f: ImageFormat)
    ensures
        spec_format_for_ext(e) == Some(f) <==> documented_extension(f, e),
{
    reveal_strlit("png");
    reveal_strlit("jpg");
    reveal_strlit("jpeg");
    reveal_strlit("gif");
    reveal_strlit("bmp");
    reveal_strlit("tif");
    reveal_strlit("tiff");
    reveal_strlit("ico");
    reveal_strlit("webp");
    reveal_strlit("avif");
    assert("png"@[0] == 'p' && "jpg"@[0] == 'j' && "jpeg"@[0] == 'j' && "gif"@[0] == 'g');
    assert("bmp"@[0] == 'b' && "tif"@[0] == 't' && "tiff"@[0] == 't' && "ico"@[0] == 'i');
    assert("webp"@[0] == 'w' && "avif"@[0] == 'a');
    assert("png"@.len() == 3 && "jpg"@.len() == 3 && "jpeg"@.len() == 4 && "gif"@.len() == 3);
    assert("bmp"@.len() == 3 && "tif"@.len() == 3 && "tiff"@.len() == 4 && "ico"@.len() == 3);
    assert("webp"@.len() == 4 && "avif"@.len() == 4);
}

/// A file name `stem.ext`, the stem holding no separator and `ext` holding
/// neither a separator nor a dot, has the extension `ext`.
proof fn lemma_path_extension(stem: Seq<char>, ext: Seq<char>)
    requires
        stem.len() > 0,
        forall|i: int| 0 <= i < stem.len() ==> #[trigger] stem[i] != '/',
        ext.len() > 0,
        forall|i: int| 0 <= i < ext.len() ==> #[trigger] ext[i] != '/' && ext[i] != '.',
    ensures
        spec_extension(stem + seq!['.'] + ext) == Some(ext),
{
    let p = stem + seq!['.'] + ext;
    let n = p.len() as int;
    assert(p[n - 1] == ext[ext.len() - 1]);
    assert(trim_end_len(p) == n);
    assert(spec_trimmed(p) =~= p);
    assert forall|j: int| 0 <= j < n implies #[trigger] p[j] != '/' by {
        if j < stem.len() {
            assert(p[j] == stem[j]);
        } else if j > stem.len() {
            assert(p[j] == ext[j - stem.len() - 1]);
        }
    }
    lemma_last_index_of(p, '/');
    assert(last_index_of(p, '/') == -1);
    assert(spec_last_component(p) =~= p);
    assert(p.len() >= 2);
    if ext.len() == 1 && stem.len() == 1 {
        assert(p[2] != '.');
    }
    assert(p != seq!['.']);
    assert(p != seq!['.', '.']) by {
        if p.len() == 2 {
            assert(false);
        }
    }
    assert(spec_file_name(p) == Some(p));
    let d = stem.len() as int;
    assert(p[d] == '.');
    lemma_last_index_of(p, '.');
    let li = last_index_of(p, '.');
    assert(li >= d) by {
        if li < d {
            assert(p[d] != '.');
        }
    }
    assert(li == d) by {
        if li > d {
            assert(p[li] == ext[li - d - 1]);
        }
    }
    assert(p.subrange(d + 1, n) =~= ext);
}

/// Naming an output `stem.ext`, the stem holding no separator, picks format
/// `f` whenever `ext` is one of `f`'s documented extensions in any letter
/// case (`out.jpeg`, `out.JPG` and `out.tif` included): the path's extension
/// is `ext`, and it lowercases to an extension that names `f`.
pub proof fn law_extension_aliases(f: ImageFormat, stem: Seq<char>, ext: Seq<char>)
    requires
        stem.len() > 0,
        forall|i: int| 0 <= i < stem.len() ==> #[trigger] stem[i] != '/',
        documented_extension(f, ascii_lowercase(ext)),
    ensures
        spec_extension(stem + seq!['.'] + ext) == Some(ext),
        spec_format_for_ext(ascii_lowercase(ext)) == Some(f),
{
    law_format_for_ext_documented(ascii_lowercase(ext), f);
    let x = ascii_lowercase(ext);
    reveal_strlit("png");
    reveal_strlit("jpg");
    reveal_strlit("jpeg");
    reveal_strlit("gif");
    reveal_strlit("bmp");
    reveal_strlit("tif");
    reveal_strlit("tiff");
    reveal_strlit("ico");
    reveal_strlit("webp");
    reveal_strlit("avif");
    assert(x.len() >= 3);
    assert(forall|i: int| 0 <= i < x.len() ==> #[trigger] x[i] != '/' && x[i] != '.');
    assert forall|i: int| 0 <= i < ext.len() implies #[trigger] ext[i] != '/' && ext[i] != '.' by {
        assert(x[i] == char_lower(ext[i]));
    }
    lemma_path_extension(stem, ext);
}

/// Join a canonicalized output directory and an expanded file name,
/// rejecting (as [`SinkError::Traversal`]) a name that is empty, absolute,
/// holds a path separator or is `..`; such a name could escape the
/// directory. The program canonicalizes the directory first.
pub fn safe_join(canonical_dir: &str, file_name: &str) -> (r: Result<String, SinkError>)
    ensures
        spec_safe_file_name(file_name@) ==> (r matches Ok(p) && p@ == spec_join(canonical_dir@, file_name@)),
        !spec_safe_file_name(file_name@) ==> (r matches Err(SinkError::Traversal(s)) && s@ == file_name@),
{
    match check_file_name(file_name) {
        Err(e) => Err(e),
        Ok(()) => {
            let mut p = String::new();
            push_str(&mut p, canonical_dir);
            let n = canonical_dir.unicode_len();
            if n > 0 && canonical_dir.get_char(n - 1) != '/' {
                push_char(&mut p, '/');
            }
            push_str(&mut p, file_name);
            assert(canonical_dir@.len() > 0 ==> canonical_dir@.last() == canonical_dir@[n - 1]);
            Ok(p)
        },
    }
}

/// The overwrite guard: an existing destination may be replaced only with
/// [`Overwrite::Allow`]; otherwise it is [`SinkError::AlreadyExists`] naming
/// the path. `exists` is what the file system says of `path`.
pub fn guard_overwrite(path: &str, exists: bool, overwrite: Overwrite) -> (r: Result<(), SinkError>)
    ensures
        (exists && overwrite == Overwrite::Forbid) ==> (r matches Err(SinkError::AlreadyExists(s)) && s@
            == path@),
        !(exists && overwrite == Overwrite::Forbid) ==> r == Ok::<(), SinkError>(()),
{
    if exists && overwrite == Overwrite::Forbid {
        Err(SinkError::AlreadyExists(own(path)))
    } else {
        Ok(())
    }
}

} // verus!
