//! The per-file input a rule reads: the path, the raw bytes, the decode
//! result, the EXIF facts read from the container, and the config-resolved
//! per-file settings.

use vstd::prelude::*;

use crate::error::LoadError;
use crate::source::Input;
use vstd::slice::slice_to_vec;
use crate::image::{from_bytes_ok, image_result, spec_info, Image, ImageInfo, ImageModel};
use crate::lint::config::{
    spec_byte_budget, spec_intended_width, LintConfig, SavingsThreshold, DEFAULT_MIN_BYTES,
    DEFAULT_MIN_PERCENT,
};

verus! {

// ── EXIF facts ──────────────────────────────────────────────────────────────

/// The EXIF fields `exif::Reader::read_from_container` finds in `bytes`, in
/// the reader's field order, each as `(context, tag number, IFD number,
/// first unsigned value)`; the context is `0` TIFF, `1` Exif, `2` GPS,
/// `3` interoperability. `None` when the reader fails.
pub uninterp spec fn exif_fields_of(bytes: Seq<u8>) -> Option<Seq<(u8, u16, u16, Option<u32>)>>;

/// The fields of the EXIF block in a container, read by the `kamadak-exif`
/// reader (`Reader::read_from_container`, then `Exif::fields`, with
/// `Value::get_uint(0)` for the value). The contract names the result: it
/// is a function of the bytes alone.
#[verifier::external_body]
fn read_exif_fields(bytes: &[u8]) -> (r: Option<Vec<(u8, u16, u16, Option<u32>)>>)
    ensures
        match r {
            Some(v) => exif_fields_of(bytes@) == Some(v@),
            None => exif_fields_of(bytes@) is None,
        },
{
    let exif = exif::Reader::new().read_from_container(&mut std::io::Cursor::new(bytes)).ok()?;
    Some(
        exif.fields().map(
            |f| (match f.tag.context() {
                exif::Context::Tiff => 0u8,
                exif::Context::Exif => 1u8,
                exif::Context::Gps => 2u8,
                exif::Context::Interop => 3u8,
                _ => 255u8,
            }, f.tag.number(), f.ifd_num.0, f.value.get_uint(0)),
        ).collect(),
    )
}

/// The read-only EXIF facts a rule keys off.
#[derive(Debug, Clone, Copy, PartialEq, Eq, Structural)]
pub struct ExifFacts {
    /// Some GPS-context tag is present (a location leak).
    pub has_gps: bool,
    /// Some identifying non-GPS camera tag is present in the primary IFD.
    pub has_camera: bool,
    /// The primary-IFD Orientation value, if present.
    pub orientation: Option<u16>,
}

/// Whether a tag identifies the camera or its owner: Make, Model (TIFF),
/// BodySerialNumber, LensModel, LensMake, DateTimeOriginal (Exif).
pub open spec fn camera_tag(context: u8, number: u16) -> bool {
    (context == 0 && (number == 0x010F || number == 0x0110)) || (context == 1 && (number == 0xA431
        || number == 0xA434 || number == 0xA433 || number == 0x9003))
}

/// The Orientation value of the last primary-IFD Orientation field with an
/// unsigned value, truncated to 16 bits.
pub open spec fn last_orientation(fs: Seq<(u8, u16, u16, Option<u32>)>) -> Option<u16>
    decreases fs.len(),
{
    if fs.len() == 0 {
        None
    } else if fs.last().0 == 0 && fs.last().1 == 0x0112 && fs.last().2 == 0 {
        match fs.last().3 {
            Some(v) => Some((v % 65536) as u16),
            None => None,
        }
    } else {
        last_orientation(fs.drop_last())
    }
}

/// The facts of a field list.
pub open spec fn facts_of_fields(fs: Seq<(u8, u16, u16, Option<u32>)>) -> ExifFacts {
    ExifFacts {
        has_gps: exists|i: int| 0 <= i < fs.len() && fs[i].0 == 2,
        has_camera: exists|i: int| 0 <= i < fs.len() && fs[i].2 == 0 && camera_tag(fs[i].0, fs[i].1),
        orientation: last_orientation(fs),
    }
}

/// The EXIF facts of a container: empty when there is no readable EXIF.
pub open spec fn spec_exif_facts(bytes: Seq<u8>) -> ExifFacts {
    match exif_fields_of(bytes) {
        Some(fs) => facts_of_fields(fs),
        None => ExifFacts { has_gps: false, has_camera: false, orientation: None },
    }
}

fn find_orientation(fields: &Vec<(u8, u16, u16, Option<u32>)>) -> (o: Option<u16>)
    ensures
        o == last_orientation(fields@),
{
    let ghost fs = fields@;
    let mut j: usize = fields.len();
    assert(fs.take(j as int) =~= fs);
    while j > 0
        invariant
            fs == fields@,
            j <= fs.len(),
            last_orientation(fs) == last_orientation(fs.take(j as int)),
        decreases j,
    {
        let (ctx, num, ifd, val) = fields[j - 1];
        assert(fs.take(j as int).last() == fs[j - 1]);
        assert(fs.take(j as int).drop_last() =~= fs.take(j - 1));
        if ctx == 0 && num == 0x0112 && ifd == 0 {
            return match val {
                Some(v) => Some((v % 65536) as u16),
                None => None,
            };
        }
        j = j - 1;
    }
    None
}

/// Read a container's EXIF facts once; no EXIF, or malformed EXIF, gives the
/// empty facts, never an error.
pub fn scan_exif(bytes: &[u8]) -> (f: ExifFacts)
    ensures
        f == spec_exif_facts(bytes@),
{
    let fields = match read_exif_fields(bytes) {
        Some(v) => v,
        None => {
            return ExifFacts { has_gps: false, has_camera: false, orientation: None };
        },
    };
    let ghost fs = fields@;
    let mut has_gps = false;
    let mut has_camera = false;
    let mut i: usize = 0;
    while i < fields.len()
        invariant
            fs == fields@,
            i <= fs.len(),
            has_gps == exists|j: int| 0 <= j < i && fs[j].0 == 2,
            has_camera == exists|j: int| 0 <= j < i && fs[j].2 == 0 && camera_tag(fs[j].0, fs[j].1),
        decreases fs.len() - i,
    {
        let (ctx, num, ifd, _) = fields[i];
        if ctx == 2 {
            has_gps = true;
        }
        let cam = (ctx == 0 && (num == 0x010F || num == 0x0110)) || (ctx == 1 && (num == 0xA431
            || num == 0xA434 || num == 0xA433 || num == 0x9003));
        if ifd == 0 && cam {
            has_camera = true;
        }
        i = i + 1;
    }
    let orientation = find_orientation(&fields);
    ExifFacts { has_gps, has_camera, orientation }
}

// ── Target ──────────────────────────────────────────────────────────────────

/// The per-file input a rule reads. Read-only: a target is inspected, never
/// written.
pub struct LintTarget {
    path: String,
    bytes: Vec<u8>,
    decoded: Result<Image, LoadError>,
    exif: ExifFacts,
    byte_budget: Option<u64>,
    intended_width: Option<u32>,
    savings_threshold: SavingsThreshold,
}

/// The mathematical value of a [`LintTarget`].
pub struct TargetModel {
    pub path: Seq<char>,
    pub bytes: Seq<u8>,
    pub decoded: Result<ImageModel, LoadError>,
    pub exif: ExifFacts,
    pub byte_budget: Option<u64>,
    pub intended_width: Option<u32>,
    pub savings_threshold: SavingsThreshold,
}

impl View for LintTarget {
    type V = TargetModel;

    closed spec fn view(&self) -> TargetModel {
        TargetModel {
            path: self.path@,
            bytes: self.bytes@,
            decoded: image_result(self.decoded),
            exif: self.exif,
            byte_budget: self.byte_budget,
            intended_width: self.intended_width,
            savings_threshold: self.savings_threshold,
        }
    }
}

/// What building a target from `path` and `bytes` with the given settings
/// yields: the bytes decoded once under the production limits, and the EXIF
/// facts read from the container.
pub open spec fn built_target(
    t: TargetModel,
    path: Seq<char>,
    bytes: Seq<u8>,
    byte_budget: Option<u64>,
    intended_width: Option<u32>,
    savings_threshold: SavingsThreshold,
) -> bool {
    &&& t.path == path
    &&& t.bytes == bytes
    &&& from_bytes_ok(t.decoded, bytes)
    &&& t.exif == spec_exif_facts(bytes)
    &&& t.byte_budget == byte_budget
    &&& t.intended_width == intended_width
    &&& t.savings_threshold == savings_threshold
}

/// The inspection info of a target, `None` when it did not decode.
pub open spec fn target_info(t: TargetModel) -> Option<ImageInfo> {
    match t.decoded {
        Ok(img) => Some(spec_info(img)),
        Err(_) => None,
    }
}

/// The byte length of a target's captured ICC profile, if any.
pub open spec fn target_icc_len(t: TargetModel) -> Option<nat> {
    match t.decoded {
        Ok(img) => match img.metadata {
            Some(m) => match m.icc {
                Some(icc) => Some(icc.len()),
                None => None,
            },
            None => None,
        },
        Err(_) => None,
    }
}

impl LintTarget {
    fn build(
        path: &str,
        bytes: Vec<u8>,
        byte_budget: Option<u64>,
        intended_width: Option<u32>,
        savings_threshold: SavingsThreshold,
    ) -> (t: LintTarget)
        ensures
            built_target(t@, path@, bytes@, byte_budget, intended_width, savings_threshold),
    {
        let decoded = Image::from_bytes(bytes.as_slice());
        let exif = scan_exif(bytes.as_slice());
        LintTarget {
            path: path.to_owned(),
            bytes,
            decoded,
            exif,
            byte_budget,
            intended_width,
            savings_threshold,
        }
    }

    /// A target from raw bytes and a display path, decoding once, with the
    /// unconfigured per-file settings. Undecodable bytes give a decode error
    /// (a finding for the corrupt-file rule), never a panic.
    pub fn from_bytes(path: &str, bytes: Vec<u8>) -> (t: LintTarget)
        ensures
            built_target(
                t@,
                path@,
                bytes@,
                None,
                None,
                SavingsThreshold { min_bytes: DEFAULT_MIN_BYTES, min_percent: DEFAULT_MIN_PERCENT },
            ),
    {
        LintTarget::build(path, bytes, None, None, SavingsThreshold::default())
    }

    /// A target for `path` and its `bytes`, with `config`'s per-file
    /// settings (byte budget, intended width, savings threshold) resolved for
    /// this path.
    pub fn configured(path: &str, bytes: Vec<u8>, config: &LintConfig) -> (t: LintTarget)
        ensures
            built_target(
                t@,
                path@,
                bytes@,
                spec_byte_budget(config.budgets@, path@),
                spec_intended_width(*config, path@),
                config.savings_threshold,
            ),
    {
        let byte_budget = config.byte_budget_for(path);
        let intended_width = config.intended_width_for(path);
        LintTarget::build(path, bytes, byte_budget, intended_width, config.savings_threshold)
    }

    /// A target for a resolved input: a file input is read at the edge and
    /// its contents handed in as `file_bytes`; a stdin input carries its own
    /// bytes and is named by its stem (`file_bytes` is then unused). The
    /// config's per-file settings are resolved for the input's path.
    pub fn from_input(input: &Input, file_bytes: Vec<u8>, config: &LintConfig) -> (t: LintTarget)
        ensures
            match input {
                Input::Path(p) => built_target(
                    t@,
                    p@,
                    file_bytes@,
                    spec_byte_budget(config.budgets@, p@),
                    spec_intended_width(*config, p@),
                    config.savings_threshold,
                ),
                Input::Stdin { bytes, stem } => built_target(
                    t@,
                    stem@,
                    bytes@,
                    spec_byte_budget(config.budgets@, stem@),
                    spec_intended_width(*config, stem@),
                    config.savings_threshold,
                ),
            },
    {
        match input {
            Input::Path(p) => LintTarget::configured(p.as_str(), file_bytes, config),
            Input::Stdin { bytes, stem } => LintTarget::configured(
                stem.as_str(),
                slice_to_vec(bytes.as_slice()),
                config,
            ),
        }
    }

    /// The file path as given.
    pub fn path(&self) -> (p: &str)
        ensures
            p@ == self@.path,
    {
        self.path.as_str()
    }

    /// The raw file bytes.
    pub fn bytes(&self) -> (b: &[u8])
        ensures
            b@ == self@.bytes,
    {
        self.bytes.as_slice()
    }

    /// The decode result: the decoded image, or the typed decode error.
    pub fn decoded(&self) -> (r: Result<&Image, &LoadError>)
        ensures
            match r {
                Ok(img) => self@.decoded == Ok::<ImageModel, LoadError>(img@),
                Err(e) => self@.decoded == Err::<ImageModel, LoadError>(*e),
            },
    {
        match &self.decoded {
            Ok(img) => Ok(img),
            Err(e) => Err(e),
        }
    }

    /// The inspection info, or `None` when the file did not decode.
    pub fn info(&self) -> (i: Option<ImageInfo>)
        ensures
            i == target_info(self@),
    {
        match &self.decoded {
            Ok(img) => Some(img.info()),
            Err(_) => None,
        }
    }

    /// Whether the file's EXIF carries a GPS tag.
    pub fn has_gps_exif(&self) -> (b: bool)
        ensures
            b == self@.exif.has_gps,
    {
        self.exif.has_gps
    }

    /// Whether the file's EXIF carries identifying camera metadata.
    pub fn has_camera_metadata(&self) -> (b: bool)
        ensures
            b == self@.exif.has_camera,
    {
        self.exif.has_camera
    }

    /// The EXIF Orientation value, if present.
    pub fn exif_orientation(&self) -> (o: Option<u16>)
        ensures
            o == self@.exif.orientation,
    {
        self.exif.orientation
    }

    /// Whether the file carries an ICC profile captured at load.
    pub fn has_icc(&self) -> (b: bool)
        ensures
            b == (target_info(self@) matches Some(i) && i.has_icc),
    {
        match self.info() {
            Some(i) => i.has_icc,
            None => false,
        }
    }

    /// The captured ICC profile's byte length, if any.
    pub fn icc_len(&self) -> (n: Option<usize>)
        ensures
            match n {
                Some(k) => target_icc_len(self@) == Some(k as nat),
                None => target_icc_len(self@) is None,
            },
    {
        match &self.decoded {
            Ok(img) => match img.metadata() {
                Some(m) => match &m.icc {
                    Some(v) => Some(v.len()),
                    None => None,
                },
                None => None,
            },
            Err(_) => None,
        }
    }

    /// The byte budget applying to this file, if any.
    pub fn byte_budget(&self) -> (b: Option<u64>)
        ensures
            b == self@.byte_budget,
    {
        self.byte_budget
    }

    /// The declared intended width applying to this file, if any.
    pub fn intended_width(&self) -> (w: Option<u32>)
        ensures
            w == self@.intended_width,
    {
        self.intended_width
    }

    /// The savings-threshold gate applying to this file.
    pub fn savings_threshold(&self) -> (t: SavingsThreshold)
        ensures
            t == self@.savings_threshold,
    {
        self.savings_threshold
    }
}

} // verus!
