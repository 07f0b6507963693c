//! The canonical in-memory image model.
//!
//! [`Image`] holds the decoded pixels ([`PixelBuffer`]), the format detected at
//! load, a raw [`MetadataBundle`] captured at load, and the facts the CLI turns
//! into warnings (a truncated JPEG, a flattened animation).
//!
//! Metadata capture is byte-scanning of the container (JPEG APP1 `Exif\0\0`,
//! APP2 `ICC_PROFILE\0`; PNG `eXIf`/`iCCP` chunks), not EXIF parsing: the bytes
//! are stored verbatim for the metadata lane.

pub mod avif;
pub mod codec;
pub mod heic;
pub mod pixels;
pub mod raw;
pub mod sniff;
pub mod svg;

pub use pixels::{color_type_bit_depth, ColorType, PixelBuffer, PixelModel};

use crate::strings::{decimal, push_decimal, push_str, str_eq};
use crate::error::LoadError;
use vstd::prelude::*;

verus! {

/// Maximum width or height accepted at decode time.
pub const MAX_IMAGE_DIMENSION: u32 = 65535;

/// Maximum single allocation the decoder may make (512 MiB).
pub const MAX_ALLOC_BYTES: u64 = 536870912;

/// Maximum total pixels (`width * height`) accepted at decode time: 64 Mpix,
/// the peak-memory budget checked on declared dimensions before any decode.
pub const MAX_IMAGE_PIXELS: u64 = 67108864;

/// An image container format.
#[derive(Debug, Clone, Copy, PartialEq, Eq)]
pub enum ImageFormat {
    Png,
    Jpeg,
    Gif,
    WebP,
    Pnm,
    Tiff,
    Tga,
    Dds,
    Bmp,
    Ico,
    Hdr,
    OpenExr,
    Farbfeld,
    Avif,
    Qoi,
    Pcx,
}

/// Decoder resource limits: per-side dimension caps and a single-allocation
/// cap, each optional.
#[derive(Debug, Clone, Copy, PartialEq, Eq)]
pub struct DecodeLimits {
    pub max_image_width: Option<u32>,
    pub max_image_height: Option<u32>,
    pub max_alloc: Option<u64>,
}

impl DecodeLimits {
    /// The default limits: no dimension caps and a 512 MiB allocation cap.
    pub open spec fn spec_default() -> DecodeLimits {
        DecodeLimits { max_image_width: None, max_image_height: None, max_alloc: Some(536870912) }
    }
}

impl Default for DecodeLimits {
    /// No dimension caps and a 512 MiB allocation cap.
    fn default() -> (l: Self)
        ensures
            l == DecodeLimits::spec_default(),
    {
        DecodeLimits { max_image_width: None, max_image_height: None, max_alloc: Some(536870912) }
    }
}

/// The production limits: `MAX_IMAGE_DIMENSION` per side and
/// `MAX_ALLOC_BYTES` per allocation.
pub open spec fn spec_decode_limits() -> DecodeLimits {
    DecodeLimits {
        max_image_width: Some(MAX_IMAGE_DIMENSION),
        max_image_height: Some(MAX_IMAGE_DIMENSION),
        max_alloc: Some(MAX_ALLOC_BYTES),
    }
}

/// The production decode limits.
pub fn decode_limits() -> (l: DecodeLimits)
    ensures
        l == spec_decode_limits(),
{
    DecodeLimits {
        max_image_width: Some(MAX_IMAGE_DIMENSION),
        max_image_height: Some(MAX_IMAGE_DIMENSION),
        max_alloc: Some(MAX_ALLOC_BYTES),
    }
}

/// The pixel count `w * h` (a `u32` product always fits in a `u64`).
pub open spec fn pixel_count(w: u32, h: u32) -> int {
    w * h
}

/// The message of a pixel-budget rejection.
pub open spec fn budget_message(w: u32, h: u32) -> Seq<char> {
    "image "@ + decimal(w as nat) + "x"@ + decimal(h as nat) + " declares "@ + decimal(
        pixel_count(w, h) as nat,
    ) + " pixels, over the "@ + decimal(MAX_IMAGE_PIXELS as nat)
        + "-pixel decode budget (~64 MP; peak decode memory would exceed 1 GiB)"@
}

/// Reject an image whose declared dimensions exceed [`MAX_IMAGE_PIXELS`],
/// before any pixel buffer is allocated. The product saturates, so hostile
/// dimensions are rejected, never overflowed.
pub fn check_pixel_budget(w: u32, h: u32) -> (r: Result<(), LoadError>)
    ensures
        w * h <= MAX_IMAGE_PIXELS ==> r == Ok::<(), LoadError>(()),
        w * h > MAX_IMAGE_PIXELS ==> (r matches Err(LoadError::LimitsExceeded(m)) && m@
            == budget_message(w, h)),
{
    assert((w as int) * (h as int) <= 0xFFFF_FFFE_0000_0001) by (nonlinear_arith)
        requires
            w <= 0xFFFF_FFFF,
            h <= 0xFFFF_FFFF,
    ;
    let pixels = (w as u64) * (h as u64);
    if pixels > MAX_IMAGE_PIXELS {
        let mut m = String::new();
        push_str(&mut m, "image ");
        push_decimal(&mut m, w as u64);
        push_str(&mut m, "x");
        push_decimal(&mut m, h as u64);
        push_str(&mut m, " declares ");
        push_decimal(&mut m, pixels);
        push_str(&mut m, " pixels, over the ");
        push_decimal(&mut m, MAX_IMAGE_PIXELS);
        push_str(&mut m, "-pixel decode budget (~64 MP; peak decode memory would exceed 1 GiB)");
        proof {
            reveal_strlit("image ");
            reveal_strlit("x");
            reveal_strlit(" declares ");
            reveal_strlit(" pixels, over the ");
            reveal_strlit("-pixel decode budget (~64 MP; peak decode memory would exceed 1 GiB)");
        }
        assert(m@ =~= budget_message(w, h));
        return Err(LoadError::LimitsExceeded(m));
    }
    Ok(())
}

/// Whether `bytes` lacks a JPEG's trailing end-of-image marker `FF D9`.
pub open spec fn spec_jpeg_missing_eoi(bytes: Seq<u8>) -> bool {
    !(bytes.len() >= 2 && bytes[bytes.len() - 2] == 0xFF && bytes[bytes.len() - 1] == 0xD9)
}

/// Whether `bytes` is missing a well-formed JPEG's trailing end-of-image
/// marker (`FF D9`). A buffer shorter than two bytes reads as missing.
pub fn jpeg_missing_eoi(bytes: &[u8]) -> (b: bool)
    ensures
        b == spec_jpeg_missing_eoi(bytes@),
{
    let n = bytes.len();
    !(n >= 2 && bytes[n - 2] == 0xFF && bytes[n - 1] == 0xD9)
}

/// Where `source_format`'s value came from.
#[derive(Debug, Clone, Copy, PartialEq, Eq)]
pub enum SourceContainer {
    /// `source_format` names the real container on disk.
    Native,
    /// Rasterized from SVG; `source_format` reports `Png` as a stand-in.
    Svg,
    /// Decoded from a HEIF container; `source_format` reports `Png`.
    Heic,
    /// The embedded preview of a RAW container; `source_format` reports `Jpeg`.
    RawPreview,
}

impl SourceContainer {
    /// Whether the raw bytes on disk are a valid file of `source_format`, i.e.
    /// whether they can be shipped verbatim.
    pub fn is_native(self) -> (b: bool)
        ensures
            b == (self == SourceContainer::Native),
    {
        match self {
            SourceContainer::Native => true,
            _ => false,
        }
    }
}

// ── Metadata capture ────────────────────────────────────────────────────────

/// Raw, uninterpreted container metadata captured at load.
#[derive(Debug, Clone, PartialEq, Eq)]
pub struct MetadataBundle {
    /// Raw EXIF payload (a JPEG APP1 payload from `Exif\0\0` on, or a PNG
    /// `eXIf` chunk). Not parsed.
    pub exif: Option<Vec<u8>>,
    /// Raw ICC profile bytes. Not parsed.
    pub icc: Option<Vec<u8>>,
}

/// The mathematical value of a [`MetadataBundle`].
#[verifier::ext_equal]
pub struct MetadataModel {
    pub exif: Option<Seq<u8>>,
    pub icc: Option<Seq<u8>>,
}

/// The model of an optional byte vector.
pub open spec fn opt_bytes(o: Option<Vec<u8>>) -> Option<Seq<u8>> {
    match o {
        Some(v) => Some(v@),
        None => None,
    }
}

impl View for MetadataBundle {
    type V = MetadataModel;

    open spec fn view(&self) -> MetadataModel {
        MetadataModel { exif: opt_bytes(self.exif), icc: opt_bytes(self.icc) }
    }
}

impl Default for MetadataBundle {
    /// The bundle with no segments.
    fn default() -> (b: Self)
        ensures
            b.exif is None && b.icc is None,
    {
        MetadataBundle { exif: None, icc: None }
    }
}

impl MetadataBundle {
    /// Whether a raw EXIF segment was captured.
    pub fn has_exif(&self) -> (b: bool)
        ensures
            b == self.exif is Some,
    {
        self.exif.is_some()
    }

    /// Whether a raw ICC profile was captured.
    pub fn has_icc(&self) -> (b: bool)
        ensures
            b == self.icc is Some,
    {
        self.icc.is_some()
    }

    /// Whether this bundle carries no segments at all.
    pub fn is_empty(&self) -> (b: bool)
        ensures
            b == (self.exif is None && self.icc is None),
    {
        self.exif.is_none() && self.icc.is_none()
    }

    /// Scan the raw container bytes for EXIF/ICC segments (byte-scanning, not
    /// parsing). `None` when no segment is present.
    pub fn capture(bytes: &[u8], format: ImageFormat) -> (r: Option<MetadataBundle>)
        ensures
            match r {
                Some(b) => spec_capture(bytes@, format) == Some(b@),
                None => spec_capture(bytes@, format) is None,
            },
    {
        let bundle = match format {
            ImageFormat::Jpeg => MetadataBundle {
                exif: scan_jpeg_exif(bytes),
                icc: scan_jpeg_icc(bytes),
            },
            ImageFormat::Png => {
                let exif_ty: [u8; 4] = [0x65, 0x58, 0x49, 0x66];
                let icc_ty: [u8; 4] = [0x69, 0x43, 0x43, 0x50];
                assert(exif_ty@ =~= png_type(0x65, 0x58, 0x49, 0x66));
                assert(icc_ty@ =~= png_type(0x69, 0x43, 0x43, 0x50));
                MetadataBundle {
                    exif: scan_png_chunk(bytes, &exif_ty),
                    icc: scan_png_chunk(bytes, &icc_ty),
                }
            },
            _ => MetadataBundle::default(),
        };
        if bundle.is_empty() {
            None
        } else {
            Some(bundle)
        }
    }
}

/// What [`MetadataBundle::capture`] finds in `bytes` of `format`.
pub open spec fn spec_capture(bytes: Seq<u8>, format: ImageFormat) -> Option<MetadataModel> {
    let m = match format {
        ImageFormat::Jpeg => MetadataModel {
            exif: spec_scan_jpeg_app(bytes, 0xE1, exif_sig()),
            icc: spec_scan_jpeg_app(bytes, 0xE2, icc_sig()),
        },
        ImageFormat::Png => MetadataModel {
            exif: spec_scan_png(bytes, png_type(0x65, 0x58, 0x49, 0x66), 8),
            icc: spec_scan_png(bytes, png_type(0x69, 0x43, 0x43, 0x50), 8),
        },
        _ => MetadataModel { exif: None, icc: None },
    };
    if m.exif is None && m.icc is None {
        None
    } else {
        Some(m)
    }
}

/// `Exif\0\0`.
pub open spec fn exif_sig() -> Seq<u8> {
    seq![0x45u8, 0x78u8, 0x69u8, 0x66u8, 0u8, 0u8]
}

/// `ICC_PROFILE\0`.
pub open spec fn icc_sig() -> Seq<u8> {
    seq![0x49u8, 0x43u8, 0x43u8, 0x5Fu8, 0x50u8, 0x52u8, 0x4Fu8, 0x46u8, 0x49u8, 0x4Cu8, 0x45u8, 0u8]
}

/// A four-byte PNG chunk type.
pub open spec fn png_type(a: u8, b: u8, c: u8, d: u8) -> Seq<u8> {
    seq![a, b, c, d]
}

/// Whether a JPEG marker stands alone (no length field): RSTn, SOI, EOI, TEM.
pub open spec fn is_standalone_marker(m: u8) -> bool {
    m == 0xD8 || m == 0xD9 || m == 0x01 || (0xD0 <= m && m <= 0xD7)
}

/// The payload of the first segment with `marker` whose payload starts with
/// `sig`, in a JPEG (which must open with SOI, `FF D8`).
pub open spec fn spec_scan_jpeg_app(bytes: Seq<u8>, marker: u8, sig: Seq<u8>) -> Option<Seq<u8>> {
    if bytes.len() < 2 || bytes[0] != 0xFF || bytes[1] != 0xD8 {
        None
    } else {
        spec_scan_jpeg(bytes, marker, sig, 2)
    }
}

/// Walk the JPEG marker segments from offset `i` and return the payload of
/// the first segment with `marker` whose payload starts with `sig`. The walk
/// stops (with `None`) at start-of-scan, at a byte that is not a marker, or at
/// a malformed or overrunning segment.
pub open spec fn spec_scan_jpeg(bytes: Seq<u8>, marker: u8, sig: Seq<u8>, i: int) -> Option<
    Seq<u8>,
>
    decreases bytes.len() - i,
{
    if i < 0 || i + 4 > bytes.len() {
        None
    } else if bytes[i] != 0xFF {
        None
    } else {
        let m = bytes[i + 1];
        if m == 0xDA {
            None
        } else if is_standalone_marker(m) {
            spec_scan_jpeg(bytes, marker, sig, i + 2)
        } else {
            let seg_len = bytes[i + 2] * 256 + bytes[i + 3];
            if seg_len < 2 || i + 2 + seg_len > bytes.len() {
                None
            } else {
                let payload = bytes.subrange(i + 4, i + 2 + seg_len);
                if m == marker && sig.len() <= payload.len() && payload.subrange(0, sig.len() as int)
                    == sig {
                    Some(payload)
                } else {
                    spec_scan_jpeg(bytes, marker, sig, i + 2 + seg_len)
                }
            }
        }
    }
}

/// Walk the PNG chunks from offset `i` and return the data of the first chunk
/// of type `ty`, stopping at `IEND` or at a chunk that overruns the buffer.
pub open spec fn spec_scan_png(bytes: Seq<u8>, ty: Seq<u8>, i: int) -> Option<Seq<u8>>
    decreases bytes.len() - i,
{
    if !(bytes.len() >= 8 && bytes.subrange(0, 8) == png_signature()) {
        None
    } else if i < 0 || i + 8 > bytes.len() {
        None
    } else {
        let len = bytes[i] * 16777216 + bytes[i + 1] * 65536 + bytes[i + 2] * 256 + bytes[i + 3];
        let data_end = i + 8 + len;
        if data_end + 4 > bytes.len() {
            None
        } else if bytes.subrange(i + 4, i + 8) == ty {
            Some(bytes.subrange(i + 8, data_end))
        } else if bytes.subrange(i + 4, i + 8) == png_type(0x49, 0x45, 0x4E, 0x44) {
            None
        } else {
            spec_scan_png(bytes, ty, data_end + 4)
        }
    }
}

/// The PNG signature.
pub open spec fn png_signature() -> Seq<u8> {
    seq![0x89u8, 0x50u8, 0x4Eu8, 0x47u8, 0x0Du8, 0x0Au8, 0x1Au8, 0x0Au8]
}

/// Whether `hay` starts with `needle`.
pub fn starts_with(hay: &[u8], needle: &[u8]) -> (b: bool)
    ensures
        b == (needle@.len() <= hay@.len() && hay@.subrange(0, needle@.len() as int) == needle@),
{
    if needle.len() > hay.len() {
        return false;
    }
    let mut i: usize = 0;
    while i < needle.len()
        invariant
            i <= needle@.len() <= hay@.len(),
            hay@.subrange(0, i as int) == needle@.subrange(0, i as int),
        decreases needle@.len() - i,
    {
        if hay[i] != needle[i] {
            assert(hay@.subrange(0, needle@.len() as int)[i as int] != needle@[i as int]);
            return false;
        }
        assert(hay@.subrange(0, i + 1) =~= hay@.subrange(0, i as int).push(hay@[i as int]));
        assert(needle@.subrange(0, i + 1) =~= needle@.subrange(0, i as int).push(needle@[i as int]));
        i = i + 1;
    }
    assert(needle@.subrange(0, i as int) =~= needle@);
    true
}

/// The first APP1 `Exif\0\0` payload of a JPEG.
fn scan_jpeg_exif(bytes: &[u8]) -> (r: Option<Vec<u8>>)
    ensures
        opt_bytes(r) == spec_scan_jpeg_app(bytes@, 0xE1, exif_sig()),
{
    let sig: [u8; 6] = [0x45, 0x78, 0x69, 0x66, 0, 0];
    assert(sig@ =~= exif_sig());
    scan_jpeg_app_segment(bytes, 0xE1, &sig)
}

/// The first APP2 `ICC_PROFILE\0` payload of a JPEG (multi-chunk profiles are
/// not reassembled).
fn scan_jpeg_icc(bytes: &[u8]) -> (r: Option<Vec<u8>>)
    ensures
        opt_bytes(r) == spec_scan_jpeg_app(bytes@, 0xE2, icc_sig()),
{
    let sig: [u8; 12] = [0x49, 0x43, 0x43, 0x5F, 0x50, 0x52, 0x4F, 0x46, 0x49, 0x4C, 0x45, 0];
    assert(sig@ =~= icc_sig());
    scan_jpeg_app_segment(bytes, 0xE2, &sig)
}

/// Walk JPEG marker segments and return the payload of the first APPn
/// segment (`0xFF marker`) whose payload starts with `sig`.
pub fn scan_jpeg_app_segment(bytes: &[u8], marker: u8, sig: &[u8]) -> (r: Option<Vec<u8>>)
    ensures
        opt_bytes(r) == spec_scan_jpeg_app(bytes@, marker, sig@),
{
    if bytes.len() < 2 || bytes[0] != 0xFF || bytes[1] != 0xD8 {
        return None;
    }
    let mut i: usize = 2;
    while i <= bytes.len() && bytes.len() - i >= 4
        invariant
            2 <= i,
            bytes@.len() >= 2 && bytes@[0] == 0xFF && bytes@[1] == 0xD8,
            bytes@.len() <= usize::MAX,
            spec_scan_jpeg(bytes@, marker, sig@, 2) == spec_scan_jpeg(bytes@, marker, sig@, i as int),
        decreases bytes@.len() + 4 - i,
    {
        assert(i + 4 <= bytes@.len());
        if bytes[i] != 0xFF {
            return None;
        }
        let m = bytes[i + 1];
        if m == 0xDA {
            return None;
        }
        if m == 0xD8 || m == 0xD9 || m == 0x01 || (0xD0 <= m && m <= 0xD7) {
            i = i + 2;
            continue;
        }
        let seg_len = (bytes[i + 2] as usize) * 256 + (bytes[i + 3] as usize);
        if seg_len < 2 {
            return None;
        }
        let payload_start = i + 4;
        if seg_len > bytes.len() - i - 2 {
            return None;
        }
        let payload_end = i + 2 + seg_len;
        if m == marker {
            let payload = vstd::slice::slice_subrange(bytes, payload_start, payload_end);
            if starts_with(payload, sig) {
                assert(spec_scan_jpeg(bytes@, marker, sig@, i as int) == Some(payload@));
                return Some(vstd::slice::slice_to_vec(payload));
            }
        }
        i = payload_end;
    }
    None
}

/// Scan a PNG byte stream for the first chunk of the given 4-byte type,
/// returning its data bytes.
pub fn scan_png_chunk(bytes: &[u8], chunk_type: &[u8; 4]) -> (r: Option<Vec<u8>>)
    ensures
        opt_bytes(r) == spec_scan_png(bytes@, chunk_type@, 8),
{
    let sig: [u8; 8] = [0x89, 0x50, 0x4E, 0x47, 0x0D, 0x0A, 0x1A, 0x0A];
    assert(sig@ =~= png_signature());
    if !starts_with(bytes, &sig) {
        return None;
    }
    let iend: [u8; 4] = [0x49, 0x45, 0x4E, 0x44];
    assert(iend@ =~= png_type(0x49, 0x45, 0x4E, 0x44));
    let _n = bytes.len();
    let mut i: usize = 8;
    while i <= bytes.len() && bytes.len() - i >= 8
        invariant
            8 <= i,
            iend@ == png_type(0x49, 0x45, 0x4E, 0x44),
            bytes@.len() <= usize::MAX,
            bytes@.len() >= 8 && bytes@.subrange(0, 8) == png_signature(),
            spec_scan_png(bytes@, chunk_type@, 8) == spec_scan_png(bytes@, chunk_type@, i as int),
        decreases bytes@.len() + 8 - i,
    {
        let len = (bytes[i] as usize) * 16777216 + (bytes[i + 1] as usize) * 65536 + (bytes[i
            + 2] as usize) * 256 + (bytes[i + 3] as usize);
        let ty = vstd::slice::slice_subrange(bytes, i + 4, i + 8);
        assert(ty@.subrange(0, 4) =~= ty@);
        assert(chunk_type@.len() == 4);
        if len > bytes.len() - i - 8 || 4 > bytes.len() - i - 8 - len {
            return None;
        }
        let data_start = i + 8;
        let data_end = data_start + len;
        if starts_with(ty, chunk_type) {
            return Some(vstd::slice::slice_to_vec(vstd::slice::slice_subrange(bytes, data_start, data_end)));
        }
        if starts_with(ty, &iend) {
            return None;
        }
        i = data_end + 4;
    }
    None
}


// ── Decode caps ─────────────────────────────────────────────────────────────

/// The outcome of checking a `w` x `h` frame against `limits` for the decoder
/// named `label`: the pixel budget first, then the width cap, the height cap,
/// and the 8-bit RGBA allocation (`w * h * 4` bytes) against the allocation
/// cap. An error carries its message.
pub open spec fn spec_check_caps(label: Seq<char>, w: u32, h: u32, limits: DecodeLimits) -> Result<
    (),
    Seq<char>,
> {
    if w * h > MAX_IMAGE_PIXELS {
        Err(budget_message(w, h))
    } else if limits.max_image_width matches Some(mw) && w > mw {
        Err(label + " width "@ + decimal(w as nat) + " exceeds cap "@ + decimal(
            limits.max_image_width->0 as nat,
        ))
    } else if limits.max_image_height matches Some(mh) && h > mh {
        Err(label + " height "@ + decimal(h as nat) + " exceeds cap "@ + decimal(
            limits.max_image_height->0 as nat,
        ))
    } else if limits.max_alloc matches Some(ma) && w * h * 4 > ma {
        Err(label + " buffer "@ + decimal((w * h * 4) as nat) + " bytes exceeds alloc cap "@
            + decimal(limits.max_alloc->0 as nat))
    } else {
        Ok(())
    }
}

/// Whether `r` is the outcome `spec` describes.
pub open spec fn caps_outcome(r: Result<(), LoadError>, spec: Result<(), Seq<char>>) -> bool {
    match spec {
        Ok(()) => r == Ok::<(), LoadError>(()),
        Err(m) => r matches Err(LoadError::LimitsExceeded(e)) && e@ == m,
    }
}

/// Reject dimensions over the pixel budget, the per-side caps, or (for the
/// 8-bit RGBA buffer the decoder named `label` allocates) the allocation cap.
pub fn check_decode_caps(label: &str, w: u32, h: u32, limits: &DecodeLimits) -> (r: Result<
    (),
    LoadError,
>)
    ensures
        caps_outcome(r, spec_check_caps(label@, w, h, *limits)),
{
    match check_pixel_budget(w, h) {
        Err(e) => return Err(e),
        Ok(()) => {},
    }
    proof {
        reveal_strlit(" width ");
        reveal_strlit(" height ");
        reveal_strlit(" exceeds cap ");
        reveal_strlit(" buffer ");
        reveal_strlit(" bytes exceeds alloc cap ");
    }
    if let Some(max_w) = limits.max_image_width {
        if w > max_w {
            let mut m = String::new();
            push_str(&mut m, label);
            push_str(&mut m, " width ");
            push_decimal(&mut m, w as u64);
            push_str(&mut m, " exceeds cap ");
            push_decimal(&mut m, max_w as u64);
            assert(m@ =~= label@ + " width "@ + decimal(w as nat) + " exceeds cap "@ + decimal(
                max_w as nat,
            ));
            return Err(LoadError::LimitsExceeded(m));
        }
    }
    if let Some(max_h) = limits.max_image_height {
        if h > max_h {
            let mut m = String::new();
            push_str(&mut m, label);
            push_str(&mut m, " height ");
            push_decimal(&mut m, h as u64);
            push_str(&mut m, " exceeds cap ");
            push_decimal(&mut m, max_h as u64);
            assert(m@ =~= label@ + " height "@ + decimal(h as nat) + " exceeds cap "@ + decimal(
                max_h as nat,
            ));
            return Err(LoadError::LimitsExceeded(m));
        }
    }
    if let Some(max_alloc) = limits.max_alloc {
        let bytes = (w as u64) * (h as u64) * 4;
        if bytes > max_alloc {
            let mut m = String::new();
            push_str(&mut m, label);
            push_str(&mut m, " buffer ");
            push_decimal(&mut m, bytes);
            push_str(&mut m, " bytes exceeds alloc cap ");
            push_decimal(&mut m, max_alloc);
            assert(m@ =~= label@ + " buffer "@ + decimal(bytes as nat) + " bytes exceeds alloc cap "@
                + decimal(max_alloc as nat));
            return Err(LoadError::LimitsExceeded(m));
        }
    }
    Ok(())
}


// ── Format and color names ──────────────────────────────────────────────────

/// The `Debug` name of a format (`"Png"`, `"Jpeg"`, ...).
pub open spec fn spec_format_name(f: ImageFormat) -> Seq<char> {
    match f {
        ImageFormat::Png => "Png"@,
        ImageFormat::Jpeg => "Jpeg"@,
        ImageFormat::Gif => "Gif"@,
        ImageFormat::WebP => "WebP"@,
        ImageFormat::Pnm => "Pnm"@,
        ImageFormat::Tiff => "Tiff"@,
        ImageFormat::Tga => "Tga"@,
        ImageFormat::Dds => "Dds"@,
        ImageFormat::Bmp => "Bmp"@,
        ImageFormat::Ico => "Ico"@,
        ImageFormat::Hdr => "Hdr"@,
        ImageFormat::OpenExr => "OpenExr"@,
        ImageFormat::Farbfeld => "Farbfeld"@,
        ImageFormat::Avif => "Avif"@,
        ImageFormat::Qoi => "Qoi"@,
        ImageFormat::Pcx => "Pcx"@,
    }
}

/// The `Debug` name of a format.
pub fn format_name(f: ImageFormat) -> (n: &'static str)
    ensures
        n@ == spec_format_name(f),
{
    match f {
        ImageFormat::Png => "Png",
        ImageFormat::Jpeg => "Jpeg",
        ImageFormat::Gif => "Gif",
        ImageFormat::WebP => "WebP",
        ImageFormat::Pnm => "Pnm",
        ImageFormat::Tiff => "Tiff",
        ImageFormat::Tga => "Tga",
        ImageFormat::Dds => "Dds",
        ImageFormat::Bmp => "Bmp",
        ImageFormat::Ico => "Ico",
        ImageFormat::Hdr => "Hdr",
        ImageFormat::OpenExr => "OpenExr",
        ImageFormat::Farbfeld => "Farbfeld",
        ImageFormat::Avif => "Avif",
        ImageFormat::Qoi => "Qoi",
        ImageFormat::Pcx => "Pcx",
    }
}

/// The format whose `Debug` name is `s`.
pub open spec fn spec_format_from_name(s: Seq<char>) -> Option<ImageFormat> {
    if false {
        None
    } else if s == "Png"@ {
        Some(ImageFormat::Png)
    } else if s == "Jpeg"@ {
        Some(ImageFormat::Jpeg)
    } else if s == "Gif"@ {
        Some(ImageFormat::Gif)
    } else if s == "WebP"@ {
        Some(ImageFormat::WebP)
    } else if s == "Pnm"@ {
        Some(ImageFormat::Pnm)
    } else if s == "Tiff"@ {
        Some(ImageFormat::Tiff)
    } else if s == "Tga"@ {
        Some(ImageFormat::Tga)
    } else if s == "Dds"@ {
        Some(ImageFormat::Dds)
    } else if s == "Bmp"@ {
        Some(ImageFormat::Bmp)
    } else if s == "Ico"@ {
        Some(ImageFormat::Ico)
    } else if s == "Hdr"@ {
        Some(ImageFormat::Hdr)
    } else if s == "OpenExr"@ {
        Some(ImageFormat::OpenExr)
    } else if s == "Farbfeld"@ {
        Some(ImageFormat::Farbfeld)
    } else if s == "Avif"@ {
        Some(ImageFormat::Avif)
    } else if s == "Qoi"@ {
        Some(ImageFormat::Qoi)
    } else if s == "Pcx"@ {
        Some(ImageFormat::Pcx)
    } else {
        None
    }
}

/// The format whose `Debug` name is `name`.
pub fn format_from_name(name: &str) -> (r: Option<ImageFormat>)
    ensures
        r == spec_format_from_name(name@),
{
    proof {
        reveal_strlit("Png");
        reveal_strlit("Jpeg");
        reveal_strlit("Gif");
        reveal_strlit("WebP");
        reveal_strlit("Pnm");
        reveal_strlit("Tiff");
        reveal_strlit("Tga");
        reveal_strlit("Dds");
        reveal_strlit("Bmp");
        reveal_strlit("Ico");
        reveal_strlit("Hdr");
        reveal_strlit("OpenExr");
        reveal_strlit("Farbfeld");
        reveal_strlit("Avif");
        reveal_strlit("Qoi");
        reveal_strlit("Pcx");
    }
    if str_eq(name, "Png") {
        return Some(ImageFormat::Png);
    }
    if str_eq(name, "Jpeg") {
        return Some(ImageFormat::Jpeg);
    }
    if str_eq(name, "Gif") {
        return Some(ImageFormat::Gif);
    }
    if str_eq(name, "WebP") {
        return Some(ImageFormat::WebP);
    }
    if str_eq(name, "Pnm") {
        return Some(ImageFormat::Pnm);
    }
    if str_eq(name, "Tiff") {
        return Some(ImageFormat::Tiff);
    }
    if str_eq(name, "Tga") {
        return Some(ImageFormat::Tga);
    }
    if str_eq(name, "Dds") {
        return Some(ImageFormat::Dds);
    }
    if str_eq(name, "Bmp") {
        return Some(ImageFormat::Bmp);
    }
    if str_eq(name, "Ico") {
        return Some(ImageFormat::Ico);
    }
    if str_eq(name, "Hdr") {
        return Some(ImageFormat::Hdr);
    }
    if str_eq(name, "OpenExr") {
        return Some(ImageFormat::OpenExr);
    }
    if str_eq(name, "Farbfeld") {
        return Some(ImageFormat::Farbfeld);
    }
    if str_eq(name, "Avif") {
        return Some(ImageFormat::Avif);
    }
    if str_eq(name, "Qoi") {
        return Some(ImageFormat::Qoi);
    }
    if str_eq(name, "Pcx") {
        return Some(ImageFormat::Pcx);
    }
    None
}

/// The color type whose `Debug` name is `s`.
pub open spec fn spec_color_from_name(s: Seq<char>) -> Option<ColorType> {
    if false {
        None
    } else if s == "L8"@ {
        Some(ColorType::L8)
    } else if s == "La8"@ {
        Some(ColorType::La8)
    } else if s == "Rgb8"@ {
        Some(ColorType::Rgb8)
    } else if s == "Rgba8"@ {
        Some(ColorType::Rgba8)
    } else if s == "L16"@ {
        Some(ColorType::L16)
    } else if s == "La16"@ {
        Some(ColorType::La16)
    } else if s == "Rgb16"@ {
        Some(ColorType::Rgb16)
    } else if s == "Rgba16"@ {
        Some(ColorType::Rgba16)
    } else if s == "Rgb32F"@ {
        Some(ColorType::Rgb32F)
    } else if s == "Rgba32F"@ {
        Some(ColorType::Rgba32F)
    } else {
        None
    }
}

/// The color type whose `Debug` name is `name`.
pub fn color_from_name(name: &str) -> (r: Option<ColorType>)
    ensures
        r == spec_color_from_name(name@),
{
    proof {
        reveal_strlit("L8");
        reveal_strlit("La8");
        reveal_strlit("Rgb8");
        reveal_strlit("Rgba8");
        reveal_strlit("L16");
        reveal_strlit("La16");
        reveal_strlit("Rgb16");
        reveal_strlit("Rgba16");
        reveal_strlit("Rgb32F");
        reveal_strlit("Rgba32F");
    }
    if str_eq(name, "L8") {
        return Some(ColorType::L8);
    }
    if str_eq(name, "La8") {
        return Some(ColorType::La8);
    }
    if str_eq(name, "Rgb8") {
        return Some(ColorType::Rgb8);
    }
    if str_eq(name, "Rgba8") {
        return Some(ColorType::Rgba8);
    }
    if str_eq(name, "L16") {
        return Some(ColorType::L16);
    }
    if str_eq(name, "La16") {
        return Some(ColorType::La16);
    }
    if str_eq(name, "Rgb16") {
        return Some(ColorType::Rgb16);
    }
    if str_eq(name, "Rgba16") {
        return Some(ColorType::Rgba16);
    }
    if str_eq(name, "Rgb32F") {
        return Some(ColorType::Rgb32F);
    }
    if str_eq(name, "Rgba32F") {
        return Some(ColorType::Rgba32F);
    }
    None
}


// ── Decoding ────────────────────────────────────────────────────────────────

/// A decode result as plain values: the pixels, the reported format and where
/// it came from, or the error.
pub type DecodedModel = Result<(PixelModel, ImageFormat, SourceContainer), LoadError>;

/// The model of an executable decode result.
pub open spec fn decoded_model(r: Result<(PixelBuffer, ImageFormat, SourceContainer), LoadError>) -> DecodedModel {
    match r {
        Ok((p, f, c)) => Ok((p@, f, c)),
        Err(e) => Err(e),
    }
}

/// Whether `e` is the error an `image`-crate failure maps to: a limits
/// rejection becomes [`LoadError::LimitsExceeded`], anything else
/// [`LoadError::Decode`].
pub open spec fn maps_failure(e: LoadError, limits_flag: bool) -> bool {
    if limits_flag {
        e is LimitsExceeded
    } else {
        e is Decode
    }
}

/// The format `image::guess_format` detects for `bytes`.
pub open spec fn spec_guessed_format(bytes: Seq<u8>) -> Option<ImageFormat> {
    match crate::metadata::guess_format_name(bytes) {
        Some(name) => spec_format_from_name(name),
        None => None,
    }
}

/// What the generic (`image`-crate) path yields for `bytes` under `limits`:
/// detect the format, peek the declared dimensions, check the pixel budget,
/// then decode.
pub open spec fn generic_decode_ok(r: DecodedModel, bytes: Seq<u8>, limits: DecodeLimits) -> bool {
    match spec_guessed_format(bytes) {
        None => r == Err::<(PixelModel, ImageFormat, SourceContainer), LoadError>(
            LoadError::UnsupportedFormat,
        ),
        Some(fmt) => match codec::dimensions_as(
            bytes,
            crate::sink::spec_extension_for_format(fmt),
            limits.max_image_width,
            limits.max_image_height,
            limits.max_alloc,
        ) {
            Err(l) => r matches Err(e) && maps_failure(e, l),
            Ok((w, h)) => if w * h > MAX_IMAGE_PIXELS {
                r matches Err(LoadError::LimitsExceeded(m)) && m@ == budget_message(w, h)
            } else {
                match codec::decoded_as(
                    bytes,
                    crate::sink::spec_extension_for_format(fmt),
                    limits.max_image_width,
                    limits.max_image_height,
                    limits.max_alloc,
                ) {
                    Err(l) => r matches Err(e) && maps_failure(e, l),
                    Ok((pw, ph, cn, samples)) => match r {
                        Ok((p, f, c)) => spec_color_from_name(cn) matches Some(ct) && p == (
                        PixelModel { width: pw, height: ph, color: ct, samples }) && f == fmt && c
                            == SourceContainer::Native && samples.len() == 4 * pixels::npix(pw, ph),
                        Err(e) => e is Decode && (spec_color_from_name(cn) is None
                            || samples.len() != 4 * pixels::npix(pw, ph)),
                    },
                }
            },
        },
    }
}

/// What the SVG path yields for `bytes` under `limits`.
pub open spec fn svg_decode_ok(r: DecodedModel, bytes: Seq<u8>, limits: DecodeLimits) -> bool {
    match svg::svg_intrinsic_size(bytes) {
        None => r matches Err(LoadError::Decode(_)),
        Some((w, h)) => match spec_check_caps("svg"@, w, h, limits) {
            Err(m) => r matches Err(LoadError::LimitsExceeded(e)) && e@ == m,
            Ok(()) => if svg::pixmap_fits(w, h) {
                r matches Ok((p, f, c)) && p == (PixelModel {
                    width: w,
                    height: h,
                    color: ColorType::Rgba8,
                    samples: svg::widen8(svg::svg_raster(bytes)->Some_0),
                }) && f == ImageFormat::Png && c == SourceContainer::Svg
            } else {
                r matches Err(LoadError::Decode(_))
            },
        },
    }
}

/// What the AVIF path yields for `bytes` under `limits` in this build.
pub open spec fn avif_decode_ok(r: DecodedModel, bytes: Seq<u8>, limits: DecodeLimits) -> bool {
    if !avif::spec_box_sizes_fit(bytes, 0) {
        r matches Err(LoadError::Decode(m)) && m@ == avif::box_overrun_message()
    } else {
        r == Err::<(PixelModel, ImageFormat, SourceContainer), LoadError>(
            LoadError::CodecUnavailableOnTarget { codec: "AVIF" },
        )
    }
}

/// What decoding `bytes` under `limits` yields: AVIF, SVG and HEIC are
/// recognized by content first (in that order), then the generic path.
pub open spec fn decode_ok(r: DecodedModel, bytes: Seq<u8>, limits: DecodeLimits) -> bool {
    if sniff::spec_is_avif(bytes) {
        avif_decode_ok(r, bytes, limits)
    } else if svg::spec_is_svg(bytes) {
        svg_decode_ok(r, bytes, limits)
    } else if heic::spec_is_heic(bytes) {
        r == Err::<(PixelModel, ImageFormat, SourceContainer), LoadError>(
            LoadError::CodecNotBuilt { codec: "HEIC", feature: "heic" },
        )
    } else {
        generic_decode_ok(r, bytes, limits)
    }
}

/// Map an `image`-crate failure to a typed error: a limits rejection becomes
/// [`LoadError::LimitsExceeded`], anything else [`LoadError::Decode`], both
/// carrying the crate's message.
pub fn error_from_failure(f: codec::DecodeFailure) -> (e: LoadError)
    ensures
        maps_failure(e, f.limits),
        e == if f.limits {
            LoadError::LimitsExceeded(f.message)
        } else {
            LoadError::Decode(f.message)
        },
{
    if f.limits {
        LoadError::LimitsExceeded(f.message)
    } else {
        LoadError::Decode(f.message)
    }
}

/// Map an `image`-crate error to a typed [`LoadError`].
pub fn map_image_decode_error(e: ::image::ImageError) -> (r: LoadError)
    ensures
        r is LimitsExceeded || r is Decode,
{
    error_from_failure(codec::failure_of(e))
}

/// A pixel buffer from a decoder's plain values: `Decode` when the color
/// type's name is unknown or the sample count does not match.
pub fn pixels_from_raw(raw: codec::RawPixels) -> (r: Result<PixelBuffer, LoadError>)
    ensures
        match r {
            Ok(p) => spec_color_from_name(raw.color@) matches Some(ct) && p@ == (PixelModel {
                width: raw.width,
                height: raw.height,
                color: ct,
                samples: raw.rgba16@,
            }) && raw.rgba16@.len() == 4 * pixels::npix(raw.width, raw.height),
            Err(e) => e is Decode && (spec_color_from_name(raw.color@) is None || raw.rgba16@.len()
                != 4 * pixels::npix(raw.width, raw.height)),
        },
{
    let ct = match color_from_name(raw.color.as_str()) {
        None => {
            let mut m = String::new();
            push_str(&mut m, "unknown decoded color type");
            return Err(LoadError::Decode(m));
        },
        Some(c) => c,
    };
    match PixelBuffer::from_rgba16(raw.width, raw.height, ct, raw.rgba16) {
        None => {
            let mut m = String::new();
            push_str(&mut m, "decoded buffer size mismatch");
            Err(LoadError::Decode(m))
        },
        Some(p) => Ok(p),
    }
}

/// Detect the format of `bytes`, apply `limits`, and decode. AVIF, SVG and
/// HEIC are recognized by content before the generic `image` path; the
/// generic path peeks the declared dimensions and checks the pixel budget
/// before decoding.
pub fn decode_with_limits(bytes: &[u8], limits: &DecodeLimits) -> (r: Result<
    (PixelBuffer, ImageFormat, SourceContainer),
    LoadError,
>)
    ensures
        decode_ok(decoded_model(r), bytes@, *limits),
{
    if sniff::is_avif(bytes) {
        return match avif::decode_avif(bytes, limits) {
            Err(e) => Err(e),
            Ok(p) => Ok((p, ImageFormat::Avif, SourceContainer::Native)),
        };
    }
    if svg::is_svg(bytes) {
        return match svg::decode_svg(bytes, limits) {
            Err(e) => Err(e),
            Ok(p) => Ok((p, ImageFormat::Png, SourceContainer::Svg)),
        };
    }
    if heic::is_heic(bytes) {
        return Err(LoadError::CodecNotBuilt { codec: "HEIC", feature: "heic" });
    }
    let format = match crate::metadata::guess_format(bytes) {
        None => return Err(LoadError::UnsupportedFormat),
        Some(name) => match format_from_name(name.as_str()) {
            None => return Err(LoadError::UnsupportedFormat),
            Some(f) => f,
        },
    };
    let ext = crate::sink::extension_for_format(format);
    let (w, h) = match codec::peek_dimensions_as(bytes, ext, limits) {
        Err(f) => return Err(error_from_failure(f)),
        Ok(d) => d,
    };
    match check_pixel_budget(w, h) {
        Err(e) => return Err(e),
        Ok(()) => {},
    }
    let raw = match codec::decode_as(bytes, ext, limits) {
        Err(f) => return Err(error_from_failure(f)),
        Ok(raw) => raw,
    };
    match pixels_from_raw(raw) {
        Err(e) => Err(e),
        Ok(p) => Ok((p, format, SourceContainer::Native)),
    }
}


// ── The image ───────────────────────────────────────────────────────────────

/// The one canonical in-memory image: decoded pixels, the format detected at
/// load, the raw metadata captured at load, and two load-time facts (a JPEG
/// missing its end-of-image marker; an animation flattened to one frame).
#[derive(Debug)]
pub struct Image {
    pixels: PixelBuffer,
    source_format: ImageFormat,
    metadata: Option<MetadataBundle>,
    truncated_jpeg: bool,
    animated_input: bool,
    source_container: SourceContainer,
}

/// The mathematical value of an [`Image`].
#[verifier::ext_equal]
pub struct ImageModel {
    pub pixels: PixelModel,
    pub source_format: ImageFormat,
    pub metadata: Option<MetadataModel>,
    pub truncated_jpeg: bool,
    pub animated_input: bool,
    pub source_container: SourceContainer,
}

/// The model of an optional metadata bundle.
pub open spec fn opt_meta(m: Option<MetadataBundle>) -> Option<MetadataModel> {
    match m {
        Some(b) => Some(b@),
        None => None,
    }
}

impl View for Image {
    type V = ImageModel;

    closed spec fn view(&self) -> ImageModel {
        ImageModel {
            pixels: self.pixels@,
            source_format: self.source_format,
            metadata: opt_meta(self.metadata),
            truncated_jpeg: self.truncated_jpeg,
            animated_input: self.animated_input,
            source_container: self.source_container,
        }
    }
}

/// Whether `bytes`, detected as `format`, is a multi-frame animation: a GIF
/// with two or more frames, an APNG, or an animated WebP.
pub open spec fn spec_animated(bytes: Seq<u8>, format: ImageFormat) -> bool {
    match format {
        ImageFormat::Gif => codec::gif_has_two_frames(bytes),
        ImageFormat::Png => codec::png_is_apng_name(bytes),
        ImageFormat::WebP => codec::webp_has_animation(bytes),
        _ => false,
    }
}

/// Whether `bytes`, already detected as `format`, is a multi-frame animated
/// source that decoding flattens to one frame (GIF, APNG, animated WebP).
pub fn detect_animated_input(bytes: &[u8], format: ImageFormat) -> (b: bool)
    ensures
        b == spec_animated(bytes@, format),
{
    match format {
        ImageFormat::Gif => codec::gif_is_animated(bytes),
        ImageFormat::Png => codec::png_is_apng(bytes),
        ImageFormat::WebP => codec::webp_is_animated(bytes),
        _ => false,
    }
}

/// The image [`Image::from_bytes`] builds from a successful decode of
/// `bytes` to `pixels` reported as `format` from `container`.
pub open spec fn loaded_image(
    bytes: Seq<u8>,
    pixels: PixelModel,
    format: ImageFormat,
    container: SourceContainer,
) -> ImageModel {
    ImageModel {
        pixels,
        source_format: format,
        metadata: spec_capture(bytes, format),
        truncated_jpeg: format == ImageFormat::Jpeg && spec_jpeg_missing_eoi(bytes),
        animated_input: spec_animated(bytes, format),
        source_container: container,
    }
}

/// What loading `bytes` under the production limits gives: the decode
/// outcome, and on success the captured metadata and load-time facts.
pub open spec fn from_bytes_ok(r: Result<ImageModel, LoadError>, bytes: Seq<u8>) -> bool {
    match r {
        Err(e) => decode_ok(Err(e), bytes, spec_decode_limits()),
        Ok(img) => decode_ok(
            Ok((img.pixels, img.source_format, img.source_container)),
            bytes,
            spec_decode_limits(),
        ) && img == loaded_image(bytes, img.pixels, img.source_format, img.source_container),
    }
}

/// Loading is determined by the bytes: when a load of `bytes` succeeds with
/// `a`, every load of `bytes` gives `a` (so decoding by a path that is not a
/// RAW file's gives exactly what decoding the bytes gives).
pub proof fn law_from_bytes_determined(bytes: Seq<u8>, a: ImageModel, r: Result<ImageModel, LoadError>)
    requires
        from_bytes_ok(Ok(a), bytes),
        from_bytes_ok(r, bytes),
    ensures
        r == Ok::<ImageModel, LoadError>(a),
{
}

/// The model of an executable load result.
pub open spec fn image_result(r: Result<Image, LoadError>) -> Result<ImageModel, LoadError> {
    match r {
        Ok(i) => Ok(i@),
        Err(e) => Err(e),
    }
}

impl Image {
    /// Detect the format of in-memory bytes, decode them under the production
    /// limits, and capture the raw metadata bundle.
    pub fn from_bytes(bytes: &[u8]) -> (r: Result<Image, LoadError>)
        ensures
            from_bytes_ok(image_result(r), bytes@),
    {
        let limits = decode_limits();
        let (pixels, source_format, source_container) = match decode_with_limits(bytes, &limits) {
            Err(e) => return Err(e),
            Ok(d) => d,
        };
        let metadata = MetadataBundle::capture(bytes, source_format);
        let truncated_jpeg = match source_format {
            ImageFormat::Jpeg => jpeg_missing_eoi(bytes),
            _ => false,
        };
        let animated_input = detect_animated_input(bytes, source_format);
        let img = Image {
            pixels,
            source_format,
            metadata,
            truncated_jpeg,
            animated_input,
            source_container,
        };
        assert(img@ =~= loaded_image(bytes@, img@.pixels, source_format, source_container));
        Ok(img)
    }

    /// Decode already-read file `bytes`, routing by the path's extension: a
    /// RAW extension takes the embedded-preview path, anything else the
    /// generic byte decoder.
    pub fn decode_path(path: &str, bytes: &[u8]) -> (r: Result<Image, LoadError>)
        ensures
            !raw::spec_is_raw_extension(path@) ==> from_bytes_ok(image_result(r), bytes@),
            raw::spec_is_raw_extension(path@) ==> raw::raw_preview_ok(image_result(r), bytes@),
    {
        if raw::is_raw_extension(path) {
            return raw_preview(bytes);
        }
        Image::from_bytes(bytes)
    }

    /// The decoded width in pixels.
    pub fn width(&self) -> (w: u32)
        ensures
            w == self@.pixels.width,
    {
        self.pixels.width()
    }

    /// The decoded height in pixels.
    pub fn height(&self) -> (h: u32)
        ensures
            h == self@.pixels.height,
    {
        self.pixels.height()
    }

    /// The format detected at load.
    pub fn source_format(&self) -> (f: ImageFormat)
        ensures
            f == self@.source_format,
    {
        self.source_format
    }

    /// Where `source_format` came from.
    pub fn source_container(&self) -> (c: SourceContainer)
        ensures
            c == self@.source_container,
    {
        self.source_container
    }

    /// The raw metadata bundle captured at load, if any segment was present.
    pub fn metadata(&self) -> (m: Option<&MetadataBundle>)
        ensures
            match m {
                Some(b) => self@.metadata == Some(b@),
                None => self@.metadata is None,
            },
    {
        match &self.metadata {
            Some(b) => Some(b),
            None => None,
        }
    }

    /// The decoded pixels.
    pub fn pixels(&self) -> (p: &PixelBuffer)
        ensures
            p@ == self@.pixels,
    {
        &self.pixels
    }

    /// Whether this image was decoded from a JPEG missing its trailing
    /// end-of-image marker.
    pub fn is_truncated_jpeg(&self) -> (b: bool)
        ensures
            b == self@.truncated_jpeg,
    {
        self.truncated_jpeg
    }

    /// Whether this image was decoded from a multi-frame animation, of which
    /// only the first frame is kept.
    pub fn is_animated_input(&self) -> (b: bool)
        ensures
            b == self@.animated_input,
    {
        self.animated_input
    }

    /// An image from already-decoded pixels, a format and a metadata bundle;
    /// never flagged truncated or animated, and native.
    pub fn from_parts(
        pixels: PixelBuffer,
        source_format: ImageFormat,
        metadata: Option<MetadataBundle>,
    ) -> (img: Image)
        ensures
            img@ == (ImageModel {
                pixels: pixels@,
                source_format,
                metadata: opt_meta(metadata),
                truncated_jpeg: false,
                animated_input: false,
                source_container: SourceContainer::Native,
            }),
    {
        Image {
            pixels,
            source_format,
            metadata,
            truncated_jpeg: false,
            animated_input: false,
            source_container: SourceContainer::Native,
        }
    }

    /// This image with its [`SourceContainer`] set to `container`.
    pub fn with_source_container(self, container: SourceContainer) -> (img: Image)
        ensures
            img@ == (ImageModel { source_container: container, ..self@ }),
    {
        Image { source_container: container, ..self }
    }

    /// This image with its pixels replaced, everything else kept.
    pub fn with_pixels(self, pixels: PixelBuffer) -> (img: Image)
        ensures
            img@ == (ImageModel { pixels: pixels@, ..self@ }),
    {
        Image {
            pixels,
            source_format: self.source_format,
            metadata: self.metadata,
            truncated_jpeg: self.truncated_jpeg,
            animated_input: self.animated_input,
            source_container: self.source_container,
        }
    }

    /// A read-only inspection snapshot of this image.
    pub fn info(&self) -> (i: ImageInfo)
        ensures
            i == spec_info(self@),
    {
        let ct = self.pixels.color();
        let (has_exif, has_icc) = match &self.metadata {
            Some(m) => (m.has_exif(), m.has_icc()),
            None => (false, false),
        };
        let w = self.pixels.width();
        let h = self.pixels.height();
        let bpp = (ct.bits_per_pixel() / 8) as u128;
        assert((w as int) * (h as int) <= 0xFFFF_FFFE_0000_0001 && (w as int) * (h as int) * (bpp as int) <= 0xFFFF_FFFE_0000_0001 * 16) by (nonlinear_arith)
            requires
                w <= 0xFFFF_FFFF,
                h <= 0xFFFF_FFFF,
                bpp <= 16,
        ;
        let wh = (w as u128) * (h as u128);
        let total = wh * bpp;
        let byte_len: u64 = if total > 0xFFFF_FFFF_FFFF_FFFF {
            0xFFFF_FFFF_FFFF_FFFF
        } else {
            total as u64
        };
        ImageInfo {
            width: w,
            height: h,
            format: self.source_format,
            color_type: ct,
            bit_depth: color_type_bit_depth(ct),
            has_alpha: ct.has_alpha(),
            byte_len,
            has_exif,
            has_icc,
        }
    }
}

/// Read-only inspection of a decoded [`Image`].
#[derive(Debug, Clone, Copy, PartialEq, Eq)]
pub struct ImageInfo {
    /// Width in pixels.
    pub width: u32,
    /// Height in pixels.
    pub height: u32,
    /// Format detected at load.
    pub format: ImageFormat,
    /// Decoded color type.
    pub color_type: ColorType,
    /// Bits per channel.
    pub bit_depth: u8,
    /// Whether the color type carries an alpha channel.
    pub has_alpha: bool,
    /// Length in bytes of the decoded pixel buffer in its color type.
    pub byte_len: u64,
    /// Whether a raw EXIF segment was captured at load.
    pub has_exif: bool,
    /// Whether a raw ICC profile was captured at load.
    pub has_icc: bool,
}

/// The byte length of a `w` x `h` buffer of color type `ct`, saturating at
/// `u64::MAX`.
pub open spec fn byte_len_of(w: u32, h: u32, ct: ColorType) -> u64 {
    let n = (w as int) * (h as int) * (ct.spec_bytes_per_pixel() as int);
    if n > u64::MAX {
        u64::MAX
    } else {
        n as u64
    }
}

/// The inspection snapshot of an image.
pub open spec fn spec_info(m: ImageModel) -> ImageInfo {
    ImageInfo {
        width: m.pixels.width,
        height: m.pixels.height,
        format: m.source_format,
        color_type: m.pixels.color,
        bit_depth: pixels::spec_bit_depth(m.pixels.color),
        has_alpha: m.pixels.color.spec_has_alpha(),
        byte_len: byte_len_of(m.pixels.width, m.pixels.height, m.pixels.color),
        has_exif: m.metadata matches Some(b) && b.exif is Some,
        has_icc: m.metadata matches Some(b) && b.icc is Some,
    }
}

/// Extract the embedded full-resolution JPEG preview from RAW `bytes` under
/// the production limits. The preview is reported as JPEG from a
/// [`SourceContainer::RawPreview`]; no metadata is captured.
pub fn raw_preview(bytes: &[u8]) -> (r: Result<Image, LoadError>)
    ensures
        raw::raw_preview_ok(image_result(r), bytes@),
{
    let limits = decode_limits();
    let pixels = match raw::extract_preview(bytes, &limits) {
        Err(e) => return Err(e),
        Ok(p) => p,
    };
    Ok(
        Image {
            pixels,
            source_format: ImageFormat::Jpeg,
            metadata: None,
            truncated_jpeg: false,
            animated_input: false,
            source_container: SourceContainer::RawPreview,
        },
    )
}

} // verus!
