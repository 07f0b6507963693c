//! The shipped lint rules. Each reads only what the target carries (the
//! decode result, the captured metadata, the EXIF facts, the raw bytes and
//! the config-resolved settings) and names a runnable `crustyimg` fix.

use vstd::prelude::*;

use crate::error::LoadError;
use crate::image::codec::{gif_has_two_frames, gif_is_animated};
use crate::image::ImageFormat;
use crate::lint::target::{target_icc_len, target_info, LintTarget, TargetModel};
use crate::lint::{
    rule_default_enabled, rule_default_severity, rule_id, Finding, FindingModel, Rule, RuleKind,
    Severity,
};
use crate::strings::{decimal, push_decimal, push_str};

verus! {

/// An embedded ICC profile larger than this many bytes is "bulky".
pub const ICC_BULKY_BYTES: usize = 4096;

/// The view of an optional finding.
pub open spec fn opt_finding(o: Option<Finding>) -> Option<FindingModel> {
    match o {
        Some(f) => Some(f@),
        None => None,
    }
}

/// A finding of rule `k` on target `t`.
pub open spec fn finding_of(k: RuleKind, t: TargetModel, message: Seq<char>, fix: Option<Seq<char>>) -> FindingModel {
    FindingModel {
        file: t.path,
        rule: rule_id(k),
        severity: rule_default_severity(k),
        message,
        fix,
        bytes_saved: None,
    }
}

// ── JPEG component count ────────────────────────────────────────────────────

/// The component count of the first SOF segment from offset `i` on.
pub open spec fn scan_components(bytes: Seq<u8>, i: int) -> Option<u8>
    decreases bytes.len() - i,
{
    if i < 0 || i + 4 > bytes.len() {
        None
    } else if bytes[i] != 0xFF {
        None
    } else {
        let m = bytes[i + 1];
        if (0xD0 <= m <= 0xD7) || m == 0x01 {
            scan_components(bytes, i + 2)
        } else if m == 0xD9 || m == 0xDA {
            None
        } else {
            let len = (bytes[i + 2] as int) * 256 + (bytes[i + 3] as int);
            if len < 2 {
                None
            } else if 0xC0 <= m <= 0xCF && m != 0xC4 && m != 0xC8 && m != 0xCC {
                if i + 9 < bytes.len() {
                    Some(bytes[i + 9])
                } else {
                    None
                }
            } else if i + 2 + len + 4 > bytes.len() {
                None
            } else {
                scan_components(bytes, i + 2 + len)
            }
        }
    }
}

/// The component count (`Nf`) a JPEG's first SOF marker declares: `3` for
/// YCbCr, `4` for CMYK. `None` when the bytes are not a JPEG or no SOF comes
/// before the scan.
pub open spec fn spec_jpeg_component_count(bytes: Seq<u8>) -> Option<u8> {
    if bytes.len() < 2 || bytes[0] != 0xFF || bytes[1] != 0xD8 {
        None
    } else {
        scan_components(bytes, 2)
    }
}

/// The component count a JPEG's first SOF marker declares.
pub fn jpeg_component_count(bytes: &[u8]) -> (r: Option<u8>)
    ensures
        r == spec_jpeg_component_count(bytes@),
{
    if bytes.len() < 2 || bytes[0] != 0xFF || bytes[1] != 0xD8 {
        return None;
    }
    let n = bytes.len();
    let mut i: usize = 2;
    while i <= n && n - i >= 4
        invariant
            n == bytes@.len(),
            2 <= i,
            spec_jpeg_component_count(bytes@) == scan_components(bytes@, i as int),
        decreases n - i,
    {
        if bytes[i] != 0xFF {
            return None;
        }
        let m = bytes[i + 1];
        if (0xD0 <= m && m <= 0xD7) || m == 0x01 {
            i = i + 2;
            continue;
        }
        if m == 0xD9 || m == 0xDA {
            return None;
        }
        let len: usize = (bytes[i + 2] as usize) * 256 + (bytes[i + 3] as usize);
        if len < 2 {
            return None;
        }
        if 0xC0 <= m && m <= 0xCF && m != 0xC4 && m != 0xC8 && m != 0xCC {
            if n - i > 9 {
                return Some(bytes[i + 9]);
            } else {
                return None;
            }
        }
        if len > n - i - 2 || n - i - 2 - len < 4 {
            return None;
        }
        i = i + 2 + len;
    }
    None
}

// ── Rule checks ─────────────────────────────────────────────────────────────

/// What rule `k` reports on target `t`.
pub open spec fn spec_check(k: RuleKind, t: TargetModel) -> Option<FindingModel> {
    match k {
        RuleKind::GpsMetadataLeak => if t.exif.has_gps {
            Some(
                finding_of(
                    k,
                    t,
                    "image carries GPS location metadata (a privacy leak in a public asset)"@,
                    Some("clean --gps"@),
                ),
            )
        } else {
            None
        },
        RuleKind::TruncatedOrCorrupt => match t.decoded {
            Ok(_) => None,
            Err(LoadError::CodecNotBuilt { .. }) => None,
            Err(_) => Some(
                finding_of(
                    k,
                    t,
                    "image is truncated or corrupt (failed to decode); re-export a valid image"@,
                    None,
                ),
            ),
        },
        RuleKind::CameraMetadata => if t.exif.has_camera {
            Some(
                finding_of(
                    k,
                    t,
                    "image carries identifying camera metadata (Make/Model/serial/timestamp)"@,
                    Some("meta strip"@),
                ),
            )
        } else {
            None
        },
        RuleKind::OrientationNotBaked => match t.exif.orientation {
            Some(o) => if o != 1 {
                Some(
                    finding_of(
                        k,
                        t,
                        "EXIF Orientation is "@ + decimal(o as nat) + " (pixels are not baked upright)"@,
                        Some("auto-orient"@),
                    ),
                )
            } else {
                None
            },
            None => None,
        },
        RuleKind::OversizedBytes => match t.byte_budget {
            Some(budget) => if t.bytes.len() > budget {
                Some(
                    finding_of(
                        k,
                        t,
                        "file is "@ + decimal(t.bytes.len()) + " bytes, over the "@ + decimal(
                            budget as nat,
                        ) + "-byte budget"@,
                        Some("optimize"@),
                    ),
                )
            } else {
                None
            },
            None => None,
        },
        RuleKind::OversizedDimensions => match (t.intended_width, target_info(t)) {
            (Some(intended), Some(info)) => if info.width > intended {
                Some(
                    finding_of(
                        k,
                        t,
                        "width "@ + decimal(info.width as nat) + "px exceeds the declared intended width "@
                            + decimal(intended as nat) + "px"@,
                        Some("resize --max "@ + decimal(intended as nat)),
                    ),
                )
            } else {
                None
            },
            _ => None,
        },
        RuleKind::WrongColorspace => match target_info(t) {
            Some(info) => if info.bit_depth >= 16 {
                Some(
                    finding_of(
                        k,
                        t,
                        decimal(info.bit_depth as nat) + "-bit channels are needless for the web"@,
                        Some("convert --format"@),
                    ),
                )
            } else if info.format == ImageFormat::Jpeg && spec_jpeg_component_count(t.bytes) == Some(
                4u8,
            ) {
                Some(
                    finding_of(
                        k,
                        t,
                        "CMYK JPEG (not an sRGB web colorspace)"@,
                        Some("convert --format"@),
                    ),
                )
            } else {
                None
            },
            None => None,
        },
        RuleKind::MissingIcc => match target_info(t) {
            Some(info) => if !info.has_icc {
                Some(
                    finding_of(
                        k,
                        t,
                        "no embedded ICC color profile (may render inconsistently); tag sRGB"@,
                        None,
                    ),
                )
            } else {
                None
            },
            None => None,
        },
        RuleKind::UnexpectedIcc => match target_icc_len(t) {
            Some(len) => if len > ICC_BULKY_BYTES {
                Some(
                    finding_of(
                        k,
                        t,
                        "bulky "@ + decimal(len) + "-byte ICC profile; strip it for the web"@,
                        Some("meta strip"@),
                    ),
                )
            } else {
                None
            },
            None => None,
        },
        RuleKind::AnimatedGif => match target_info(t) {
            Some(info) => if info.format == ImageFormat::Gif && gif_has_two_frames(t.bytes) {
                Some(
                    finding_of(
                        k,
                        t,
                        "animated GIF (a modern format encodes far smaller)"@,
                        Some("convert --format webp"@),
                    ),
                )
            } else {
                None
            },
            None => None,
        },
    }
}

fn make_finding(k: RuleKind, target: &LintTarget, message: &str, fix: Option<String>) -> (f: Finding)
    ensures
        f@ == finding_of(k, target@, message@, crate::lint::opt_str(fix)),
{
    Finding::new(target.path(), k.id(), k.default_severity(), message, fix)
}

fn text(s: &str) -> (r: String)
    ensures
        r@ == s@,
{
    s.to_owned()
}

fn check_gps(target: &LintTarget) -> (r: Option<Finding>)
    ensures
        opt_finding(r) == spec_check(RuleKind::GpsMetadataLeak, target@),
{
    if target.has_gps_exif() {
        Some(
            make_finding(
                RuleKind::GpsMetadataLeak,
                target,
                "image carries GPS location metadata (a privacy leak in a public asset)",
                Some(text("clean --gps")),
            ),
        )
    } else {
        None
    }
}

fn check_corrupt(target: &LintTarget) -> (r: Option<Finding>)
    ensures
        opt_finding(r) == spec_check(RuleKind::TruncatedOrCorrupt, target@),
{
    match target.decoded() {
        Ok(_) => None,
        Err(LoadError::CodecNotBuilt { .. }) => None,
        Err(_) => Some(
            make_finding(
                RuleKind::TruncatedOrCorrupt,
                target,
                "image is truncated or corrupt (failed to decode); re-export a valid image",
                None,
            ),
        ),
    }
}

fn check_camera(target: &LintTarget) -> (r: Option<Finding>)
    ensures
        opt_finding(r) == spec_check(RuleKind::CameraMetadata, target@),
{
    if target.has_camera_metadata() {
        Some(
            make_finding(
                RuleKind::CameraMetadata,
                target,
                "image carries identifying camera metadata (Make/Model/serial/timestamp)",
                Some(text("meta strip")),
            ),
        )
    } else {
        None
    }
}

fn check_orientation(target: &LintTarget) -> (r: Option<Finding>)
    ensures
        opt_finding(r) == spec_check(RuleKind::OrientationNotBaked, target@),
{
    match target.exif_orientation() {
        Some(o) => {
            if o != 1 {
                let mut m = String::new();
                push_str(&mut m, "EXIF Orientation is ");
                push_decimal(&mut m, o as u64);
                push_str(&mut m, " (pixels are not baked upright)");
                Some(
                    make_finding(
                        RuleKind::OrientationNotBaked,
                        target,
                        m.as_str(),
                        Some(text("auto-orient")),
                    ),
                )
            } else {
                None
            }
        },
        None => None,
    }
}

fn check_oversized_bytes(target: &LintTarget) -> (r: Option<Finding>)
    ensures
        opt_finding(r) == spec_check(RuleKind::OversizedBytes, target@),
{
    match target.byte_budget() {
        Some(budget) => {
            let actual = target.bytes().len() as u64;
            if actual > budget {
                let mut m = String::new();
                push_str(&mut m, "file is ");
                push_decimal(&mut m, actual);
                push_str(&mut m, " bytes, over the ");
                push_decimal(&mut m, budget);
                push_str(&mut m, "-byte budget");
                Some(
                    make_finding(RuleKind::OversizedBytes, target, m.as_str(), Some(text("optimize"))),
                )
            } else {
                None
            }
        },
        None => None,
    }
}

/// The oversized-dimensions rule reports a file exactly when it decoded and
/// its width, whatever its height, is greater than the intended width the
/// configuration declares for it; the finding names that width and the
/// intended one, and its fix resizes to the intended width.
pub proof fn law_oversized_dimensions_is_width(t: TargetModel)
    ensures
        (spec_check(RuleKind::OversizedDimensions, t) is Some) <==> (t.intended_width matches Some(
            iw,
        ) && t.decoded matches Ok(img) && img.pixels.width > iw),
        spec_check(RuleKind::OversizedDimensions, t) matches Some(f) ==> (t.intended_width matches Some(
            iw,
        ) && t.decoded matches Ok(img) && f.message == "width "@ + decimal(img.pixels.width as nat)
            + "px exceeds the declared intended width "@ + decimal(iw as nat) + "px"@ && f.fix == Some(
            "resize --max "@ + decimal(iw as nat),
        ) && f.file == t.path),
{
}

fn check_oversized_dimensions(target: &LintTarget) -> (r: Option<Finding>)
    ensures
        opt_finding(r) == spec_check(RuleKind::OversizedDimensions, target@),
{
    let intended = match target.intended_width() {
        Some(w) => w,
        None => {
            return None;
        },
    };
    let info = match target.info() {
        Some(i) => i,
        None => {
            return None;
        },
    };
    if info.width > intended {
        let mut m = String::new();
        push_str(&mut m, "width ");
        push_decimal(&mut m, info.width as u64);
        push_str(&mut m, "px exceeds the declared intended width ");
        push_decimal(&mut m, intended as u64);
        push_str(&mut m, "px");
        let mut fix = String::new();
        push_str(&mut fix, "resize --max ");
        push_decimal(&mut fix, intended as u64);
        Some(make_finding(RuleKind::OversizedDimensions, target, m.as_str(), Some(fix)))
    } else {
        None
    }
}

fn check_colorspace(target: &LintTarget) -> (r: Option<Finding>)
    ensures
        opt_finding(r) == spec_check(RuleKind::WrongColorspace, target@),
{
    let info = match target.info() {
        Some(i) => i,
        None => {
            return None;
        },
    };
    if info.bit_depth >= 16 {
        let mut m = String::new();
        push_decimal(&mut m, info.bit_depth as u64);
        push_str(&mut m, "-bit channels are needless for the web");
        return Some(
            make_finding(
                RuleKind::WrongColorspace,
                target,
                m.as_str(),
                Some(text("convert --format")),
            ),
        );
    }
    let is_jpeg = match info.format {
        ImageFormat::Jpeg => true,
        _ => false,
    };
    if is_jpeg {
        match jpeg_component_count(target.bytes()) {
            Some(4) => {
                return Some(
                    make_finding(
                        RuleKind::WrongColorspace,
                        target,
                        "CMYK JPEG (not an sRGB web colorspace)",
                        Some(text("convert --format")),
                    ),
                );
            },
            _ => {},
        }
    }
    None
}

fn check_missing_icc(target: &LintTarget) -> (r: Option<Finding>)
    ensures
        opt_finding(r) == spec_check(RuleKind::MissingIcc, target@),
{
    match target.info() {
        Some(info) => {
            if !info.has_icc {
                Some(
                    make_finding(
                        RuleKind::MissingIcc,
                        target,
                        "no embedded ICC color profile (may render inconsistently); tag sRGB",
                        None,
                    ),
                )
            } else {
                None
            }
        },
        None => None,
    }
}

fn check_unexpected_icc(target: &LintTarget) -> (r: Option<Finding>)
    ensures
        opt_finding(r) == spec_check(RuleKind::UnexpectedIcc, target@),
{
    match target.icc_len() {
        Some(len) => {
            if len > ICC_BULKY_BYTES {
                let mut m = String::new();
                push_str(&mut m, "bulky ");
                push_decimal(&mut m, len as u64);
                push_str(&mut m, "-byte ICC profile; strip it for the web");
                Some(
                    make_finding(
                        RuleKind::UnexpectedIcc,
                        target,
                        m.as_str(),
                        Some(text("meta strip")),
                    ),
                )
            } else {
                None
            }
        },
        None => None,
    }
}

fn check_animated_gif(target: &LintTarget) -> (r: Option<Finding>)
    ensures
        opt_finding(r) == spec_check(RuleKind::AnimatedGif, target@),
{
    match target.info() {
        Some(info) => {
            let is_gif = match info.format {
                ImageFormat::Gif => true,
                _ => false,
            };
            if is_gif && gif_is_animated(target.bytes()) {
                Some(
                    make_finding(
                        RuleKind::AnimatedGif,
                        target,
                        "animated GIF (a modern format encodes far smaller)",
                        Some(text("convert --format webp")),
                    ),
                )
            } else {
                None
            }
        },
        None => None,
    }
}

impl RuleKind {
    /// Check `target`: a finding when the rule fires, `None` when the target
    /// is clean.
    pub fn check(self, target: &LintTarget) -> (r: Option<Finding>)
        ensures
            opt_finding(r) == spec_check(self, target@),
    {
        match self {
            RuleKind::GpsMetadataLeak => check_gps(target),
            RuleKind::TruncatedOrCorrupt => check_corrupt(target),
            RuleKind::CameraMetadata => check_camera(target),
            RuleKind::OrientationNotBaked => check_orientation(target),
            RuleKind::OversizedBytes => check_oversized_bytes(target),
            RuleKind::OversizedDimensions => check_oversized_dimensions(target),
            RuleKind::WrongColorspace => check_colorspace(target),
            RuleKind::MissingIcc => check_missing_icc(target),
            RuleKind::UnexpectedIcc => check_unexpected_icc(target),
            RuleKind::AnimatedGif => check_animated_gif(target),
        }
    }
}

// ── Rule types ──────────────────────────────────────────────────────────────

/// `privacy/camera-metadata` (info, opt-in): identifying non-GPS camera EXIF.
/// Fix: `meta strip`.
pub struct CameraMetadata;

impl Rule for CameraMetadata {
    fn id(&self) -> (r: &'static str)
        ensures
            r@ == rule_id(RuleKind::CameraMetadata),
    {
        RuleKind::CameraMetadata.id()
    }

    fn default_severity(&self) -> (s: Severity)
        ensures
            s == rule_default_severity(RuleKind::CameraMetadata),
    {
        RuleKind::CameraMetadata.default_severity()
    }

    fn default_enabled(&self) -> (b: bool)
        ensures
            b == rule_default_enabled(RuleKind::CameraMetadata),
    {
        RuleKind::CameraMetadata.default_enabled()
    }

    fn check(&self, target: &LintTarget) -> (r: Option<Finding>)
        ensures
            opt_finding(r) == spec_check(RuleKind::CameraMetadata, target@),
    {
        RuleKind::CameraMetadata.check(target)
    }
}

/// `orient/orientation-not-baked` (warn): EXIF Orientation other than 1.
/// Fix: `auto-orient`.
pub struct OrientationNotBaked;

impl Rule for OrientationNotBaked {
    fn id(&self) -> (r: &'static str)
        ensures
            r@ == rule_id(RuleKind::OrientationNotBaked),
    {
        RuleKind::OrientationNotBaked.id()
    }

    fn default_severity(&self) -> (s: Severity)
        ensures
            s == rule_default_severity(RuleKind::OrientationNotBaked),
    {
        RuleKind::OrientationNotBaked.default_severity()
    }

    fn default_enabled(&self) -> (b: bool)
        ensures
            b == rule_default_enabled(RuleKind::OrientationNotBaked),
    {
        RuleKind::OrientationNotBaked.default_enabled()
    }

    fn check(&self, target: &LintTarget) -> (r: Option<Finding>)
        ensures
            opt_finding(r) == spec_check(RuleKind::OrientationNotBaked, target@),
    {
        RuleKind::OrientationNotBaked.check(target)
    }
}

/// `size/oversized-bytes` (error): the file exceeds its configured byte
/// budget. Fix: `optimize`.
pub struct OversizedBytes;

impl Rule for OversizedBytes {
    fn id(&self) -> (r: &'static str)
        ensures
            r@ == rule_id(RuleKind::OversizedBytes),
    {
        RuleKind::OversizedBytes.id()
    }

    fn default_severity(&self) -> (s: Severity)
        ensures
            s == rule_default_severity(RuleKind::OversizedBytes),
    {
        RuleKind::OversizedBytes.default_severity()
    }

    fn default_enabled(&self) -> (b: bool)
        ensures
            b == rule_default_enabled(RuleKind::OversizedBytes),
    {
        RuleKind::OversizedBytes.default_enabled()
    }

    fn check(&self, target: &LintTarget) -> (r: Option<Finding>)
        ensures
            opt_finding(r) == spec_check(RuleKind::OversizedBytes, target@),
    {
        RuleKind::OversizedBytes.check(target)
    }
}

/// `dims/oversized-dimensions` (warn): the width exceeds a declared intended
/// width. Fix: `resize --max <W>`.
pub struct OversizedDimensions;

impl Rule for OversizedDimensions {
    fn id(&self) -> (r: &'static str)
        ensures
            r@ == rule_id(RuleKind::OversizedDimensions),
    {
        RuleKind::OversizedDimensions.id()
    }

    fn default_severity(&self) -> (s: Severity)
        ensures
            s == rule_default_severity(RuleKind::OversizedDimensions),
    {
        RuleKind::OversizedDimensions.default_severity()
    }

    fn default_enabled(&self) -> (b: bool)
        ensures
            b == rule_default_enabled(RuleKind::OversizedDimensions),
    {
        RuleKind::OversizedDimensions.default_enabled()
    }

    fn check(&self, target: &LintTarget) -> (r: Option<Finding>)
        ensures
            opt_finding(r) == spec_check(RuleKind::OversizedDimensions, target@),
    {
        RuleKind::OversizedDimensions.check(target)
    }
}

/// `color/wrong-colorspace` (warn): 16-bit channels, or a CMYK JPEG.
/// Fix: `convert --format`.
pub struct WrongColorspace;

impl Rule for WrongColorspace {
    fn id(&self) -> (r: &'static str)
        ensures
            r@ == rule_id(RuleKind::WrongColorspace),
    {
        RuleKind::WrongColorspace.id()
    }

    fn default_severity(&self) -> (s: Severity)
        ensures
            s == rule_default_severity(RuleKind::WrongColorspace),
    {
        RuleKind::WrongColorspace.default_severity()
    }

    fn default_enabled(&self) -> (b: bool)
        ensures
            b == rule_default_enabled(RuleKind::WrongColorspace),
    {
        RuleKind::WrongColorspace.default_enabled()
    }

    fn check(&self, target: &LintTarget) -> (r: Option<Finding>)
        ensures
            opt_finding(r) == spec_check(RuleKind::WrongColorspace, target@),
    {
        RuleKind::WrongColorspace.check(target)
    }
}

/// `color/missing-icc` (info, opt-in): no embedded ICC profile.
pub struct MissingIcc;

impl Rule for MissingIcc {
    fn id(&self) -> (r: &'static str)
        ensures
            r@ == rule_id(RuleKind::MissingIcc),
    {
        RuleKind::MissingIcc.id()
    }

    fn default_severity(&self) -> (s: Severity)
        ensures
            s == rule_default_severity(RuleKind::MissingIcc),
    {
        RuleKind::MissingIcc.default_severity()
    }

    fn default_enabled(&self) -> (b: bool)
        ensures
            b == rule_default_enabled(RuleKind::MissingIcc),
    {
        RuleKind::MissingIcc.default_enabled()
    }

    fn check(&self, target: &LintTarget) -> (r: Option<Finding>)
        ensures
            opt_finding(r) == spec_check(RuleKind::MissingIcc, target@),
    {
        RuleKind::MissingIcc.check(target)
    }
}

/// `color/unexpected-icc` (info, opt-in): a bulky embedded ICC profile.
/// Fix: `meta strip`.
pub struct UnexpectedIcc;

impl Rule for UnexpectedIcc {
    fn id(&self) -> (r: &'static str)
        ensures
            r@ == rule_id(RuleKind::UnexpectedIcc),
    {
        RuleKind::UnexpectedIcc.id()
    }

    fn default_severity(&self) -> (s: Severity)
        ensures
            s == rule_default_severity(RuleKind::UnexpectedIcc),
    {
        RuleKind::UnexpectedIcc.default_severity()
    }

    fn default_enabled(&self) -> (b: bool)
        ensures
            b == rule_default_enabled(RuleKind::UnexpectedIcc),
    {
        RuleKind::UnexpectedIcc.default_enabled()
    }

    fn check(&self, target: &LintTarget) -> (r: Option<Finding>)
        ensures
            opt_finding(r) == spec_check(RuleKind::UnexpectedIcc, target@),
    {
        RuleKind::UnexpectedIcc.check(target)
    }
}

/// `format/animated-gif` (warn): an animated GIF. Fix: `convert --format webp`.
pub struct AnimatedGif;

impl Rule for AnimatedGif {
    fn id(&self) -> (r: &'static str)
        ensures
            r@ == rule_id(RuleKind::AnimatedGif),
    {
        RuleKind::AnimatedGif.id()
    }

    fn default_severity(&self) -> (s: Severity)
        ensures
            s == rule_default_severity(RuleKind::AnimatedGif),
    {
        RuleKind::AnimatedGif.default_severity()
    }

    fn default_enabled(&self) -> (b: bool)
        ensures
            b == rule_default_enabled(RuleKind::AnimatedGif),
    {
        RuleKind::AnimatedGif.default_enabled()
    }

    fn check(&self, target: &LintTarget) -> (r: Option<Finding>)
        ensures
            opt_finding(r) == spec_check(RuleKind::AnimatedGif, target@),
    {
        RuleKind::AnimatedGif.check(target)
    }
}

} // verus!
