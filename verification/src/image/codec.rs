//! The calls into the `image` crate: format guessing, header peeks, decodes,
//! animation probes and the EXIF orientation lookup.
//!
//! Each call is a trusted wrapper whose result is named by a spec function of
//! its arguments (the decoders are deterministic functions of the bytes and
//! the limits); the verified decode pipeline in the parent module is stated
//! over those names.

use std::io::Cursor;

use ::image::AnimationDecoder;

use super::DecodeLimits;
use vstd::prelude::*;

verus! {

/// The `image` crate's error type.
#[verifier::external_type_specification]
#[verifier::external_body]
pub struct ExImageCrateError(::image::ImageError);

/// The `image` crate's decoded image.
#[verifier::external_type_specification]
#[verifier::external_body]
pub struct ExDynamicImage(::image::DynamicImage);

/// The `image` crate's decoder limits.
#[verifier::external_type_specification]
#[verifier::external_body]
pub struct ExImageCrateLimits(::image::Limits);

/// A failure reported by an `image`-crate decoder: whether it was a limits
/// rejection, and the crate's message.
#[derive(Debug, Clone)]
pub struct DecodeFailure {
    pub limits: bool,
    pub message: String,
}

/// Pixels handed back by a decoder: dimensions, the decoded color type's
/// name, and every pixel as 16-bit RGBA samples.
#[derive(Debug)]
pub struct RawPixels {
    pub width: u32,
    pub height: u32,
    pub color: String,
    pub rgba16: Vec<u16>,
}

/// The plain value of a decoder result: `(width, height, color name,
/// samples)`, or whether the failure was a limits rejection.
pub open spec fn raw_outcome(r: Result<RawPixels, DecodeFailure>) -> Result<
    (u32, u32, Seq<char>, Seq<u16>),
    bool,
> {
    match r {
        Ok(p) => Ok((p.width, p.height, p.color@, p.rgba16@)),
        Err(f) => Err(f.limits),
    }
}

/// The plain value of a header-peek result.
pub open spec fn dims_outcome(r: Result<(u32, u32), DecodeFailure>) -> Result<(u32, u32), bool> {
    match r {
        Ok(d) => Ok(d),
        Err(f) => Err(f.limits),
    }
}

/// What `ImageReader::into_dimensions` reports for `bytes` read as the
/// format `ImageFormat::from_extension(ext)` names, under the limits.
pub uninterp spec fn dimensions_as(
    bytes: Seq<u8>,
    ext: Seq<char>,
    max_w: Option<u32>,
    max_h: Option<u32>,
    max_alloc: Option<u64>,
) -> Result<(u32, u32), bool>;

/// What `ImageReader::decode` yields for `bytes` read as the format
/// `ImageFormat::from_extension(ext)` names, under the limits.
pub uninterp spec fn decoded_as(
    bytes: Seq<u8>,
    ext: Seq<char>,
    max_w: Option<u32>,
    max_h: Option<u32>,
    max_alloc: Option<u64>,
) -> Result<(u32, u32, Seq<char>, Seq<u16>), bool>;

/// Whether the GIF decoder yields at least two frames from `bytes`.
pub uninterp spec fn gif_has_two_frames(bytes: Seq<u8>) -> bool;

/// Whether the PNG decoder reports `bytes` as an APNG.
pub uninterp spec fn png_is_apng_name(bytes: Seq<u8>) -> bool;

/// Whether the WebP decoder reports an animation in `bytes`.
pub uninterp spec fn webp_has_animation(bytes: Seq<u8>) -> bool;

/// The EXIF orientation (1..=8) `Orientation::from_exif_chunk` reads from a
/// bare TIFF block.
pub uninterp spec fn exif_chunk_orientation(tiff: Seq<u8>) -> Option<u8>;

/// The `image` crate's `Limits` holding ours.
#[verifier::external_body]
fn to_image_limits(limits: &DecodeLimits) -> ::image::Limits {
    let mut l = ::image::Limits::default();
    l.max_image_width = limits.max_image_width;
    l.max_image_height = limits.max_image_height;
    l.max_alloc = limits.max_alloc;
    l
}

/// Split an `image` error into its limits flag and message.
#[verifier::external_body]
pub(crate) fn failure_of(e: ::image::ImageError) -> DecodeFailure {
    let limits = matches!(e, ::image::ImageError::Limits(_));
    DecodeFailure { limits, message: e.to_string() }
}

/// Hand a decoded image out as plain values.
#[verifier::external_body]
fn raw_of(d: ::image::DynamicImage) -> RawPixels {
    let color = format!("{:?}", d.color());
    let (width, height) = (d.width(), d.height());
    RawPixels { width, height, color, rgba16: d.into_rgba16().into_raw() }
}

/// `ImageReader::into_dimensions` on a reader over `bytes` set to the format
/// `ext` names (`ImageFormat::from_extension`), with `limits`: the header's
/// declared dimensions, no pixel decode.
#[verifier::external_body]
pub fn peek_dimensions_as(bytes: &[u8], ext: &str, limits: &DecodeLimits) -> (r: Result<(u32, u32), DecodeFailure>)
    ensures
        dims_outcome(r) == dimensions_as(bytes@, ext@, limits.max_image_width, limits.max_image_height, limits.max_alloc),
{
    let mut reader = ::image::ImageReader::new(Cursor::new(bytes));
    let hint = || ::image::error::ImageFormatHint::PathExtension(ext.into());
    let format = ::image::ImageFormat::from_extension(ext)
        .ok_or_else(|| failure_of(::image::ImageError::Unsupported(hint().into())))?;
    reader.set_format(format);
    reader.limits(to_image_limits(limits));
    reader.into_dimensions().map_err(failure_of)
}

/// `ImageReader::decode` on a reader over `bytes` set to the format `ext`
/// names (`ImageFormat::from_extension`), with `limits`.
#[verifier::external_body]
pub fn decode_as(bytes: &[u8], ext: &str, limits: &DecodeLimits) -> (r: Result<RawPixels, DecodeFailure>)
    ensures
        raw_outcome(r) == decoded_as(bytes@, ext@, limits.max_image_width, limits.max_image_height, limits.max_alloc),
{
    let mut reader = ::image::ImageReader::new(Cursor::new(bytes));
    let hint = || ::image::error::ImageFormatHint::PathExtension(ext.into());
    let format = ::image::ImageFormat::from_extension(ext)
        .ok_or_else(|| failure_of(::image::ImageError::Unsupported(hint().into())))?;
    reader.set_format(format);
    reader.limits(to_image_limits(limits));
    reader.decode().map(raw_of).map_err(failure_of)
}

/// Whether the GIF decoder yields at least two frames (decoding at most two).
/// A decoder error reads as `false`.
#[verifier::external_body]
pub fn gif_is_animated(bytes: &[u8]) -> (b: bool)
    ensures
        b == gif_has_two_frames(bytes@),
{
    match ::image::codecs::gif::GifDecoder::new(Cursor::new(bytes)) {
        Ok(dec) => dec.into_frames().take(2).count() >= 2,
        Err(_) => false,
    }
}

/// Whether the PNG decoder reports an `acTL` chunk (an APNG). A decoder error
/// reads as `false`.
#[verifier::external_body]
pub fn png_is_apng(bytes: &[u8]) -> (b: bool)
    ensures
        b == png_is_apng_name(bytes@),
{
    match ::image::codecs::png::PngDecoder::new(Cursor::new(bytes)) {
        Ok(dec) => dec.is_apng().unwrap_or(false),
        Err(_) => false,
    }
}

/// Whether the WebP decoder reports an animation. A decoder error reads as
/// `false`.
#[verifier::external_body]
pub fn webp_is_animated(bytes: &[u8]) -> (b: bool)
    ensures
        b == webp_has_animation(bytes@),
{
    match ::image::codecs::webp::WebPDecoder::new(Cursor::new(bytes)) {
        Ok(dec) => dec.has_animation(),
        Err(_) => false,
    }
}

/// `Orientation::from_exif_chunk`: the orientation tag of a bare TIFF block,
/// as its EXIF number (1..=8).
#[verifier::external_body]
pub fn orientation_of_exif_chunk(tiff: &[u8]) -> (r: Option<u8>)
    ensures
        r == exif_chunk_orientation(tiff@),
        r matches Some(o) ==> 1 <= o <= 8,
{
    ::image::metadata::Orientation::from_exif_chunk(tiff).map(|o| o.to_exif())
}

} // verus!
