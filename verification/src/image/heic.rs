//! HEIC/HEIF detection and decode caps.
//!
//! HEIC decoding needs the system libheif and is not compiled into this
//! build; detection is, so a `.heic` input gets a precise "codec not built"
//! answer instead of a vague "unsupported format".

use super::sniff::{ftyp_has_brand, spec_ftyp_has_brand, BrandFamily};
use super::{check_decode_caps, caps_outcome, spec_check_caps, DecodeLimits};
use crate::error::LoadError;
use vstd::prelude::*;

verus! {

/// Whether `bytes` is an ISOBMFF file advertising an HEVC-coded HEIF brand.
pub open spec fn spec_is_heic(bytes: Seq<u8>) -> bool {
    spec_ftyp_has_brand(bytes, BrandFamily::Heic)
}

/// Whether `bytes` is an ISOBMFF file whose `ftyp` box advertises an
/// HEVC-coded HEIF brand (`heic`, `heix`, `heim`, `heis`, `hevc`, `hevx`) as
/// its major brand or a compatible brand. The generic `mif1`/`msf1` brands
/// are not matched: AVIF carries `mif1` too.
pub fn is_heic(bytes: &[u8]) -> (b: bool)
    ensures
        b == spec_is_heic(bytes@),
{
    ftyp_has_brand(bytes, BrandFamily::Heic)
}

/// Reject dimensions over the limits or the pixel budget, for the 8-bit RGBA
/// buffer a HEIC decode packs.
pub fn check_caps(w: u32, h: u32, limits: &DecodeLimits) -> (r: Result<(), LoadError>)
    ensures
        caps_outcome(r, spec_check_caps("heic"@, w, h, *limits)),
{
    check_decode_caps("heic", w, h, limits)
}

} // verus!
