//! AVIF: container sanity checks, decode caps and the pixel helpers of the
//! AV1 path.
//!
//! The AV1 decoder this path drives is not available in this build, so an
//! AVIF input is checked (box sizes, container parse, declared dimensions
//! against the caps) and then answered with
//! [`LoadError::CodecUnavailableOnTarget`].


use super::{check_decode_caps, caps_outcome, spec_check_caps, DecodeLimits, PixelBuffer, MAX_IMAGE_PIXELS};
use super::sniff::be32;
use crate::error::LoadError;
use crate::strings::push_str;
use vstd::prelude::*;

verus! {

/// The big-endian `u64` at `bytes[at..at + 8]`.
pub open spec fn be64(bytes: Seq<u8>, at: int) -> int {
    be32(bytes, at) * 4294967296 + be32(bytes, at + 4)
}

/// Whether every top-level ISOBMFF box from offset `off` on declares a size
/// that fits within the buffer. A size of 0 (extends to end of file) ends the
/// walk; a size of 1 means a 64-bit size follows the header; sizes 2..=7 are
/// smaller than a legal header.
pub open spec fn spec_box_sizes_fit(bytes: Seq<u8>, off: int) -> bool
    decreases bytes.len() - off,
{
    if off < 0 || off + 8 > bytes.len() {
        true
    } else {
        let size32 = be32(bytes, off);
        if size32 == 0 {
            true
        } else if size32 == 1 {
            if off + 16 > bytes.len() {
                false
            } else {
                let large = be64(bytes, off + 8);
                if large < 16 || large > bytes.len() - off {
                    false
                } else {
                    spec_box_sizes_fit(bytes, off + large)
                }
            }
        } else if size32 < 8 || size32 > bytes.len() - off {
            false
        } else {
            spec_box_sizes_fit(bytes, off + size32)
        }
    }
}

/// Whether every top-level ISOBMFF box in `bytes` declares a size that fits
/// within the buffer: a cheap structural check run before the container
/// parser, which would otherwise allocate whatever a header claims.
pub fn box_sizes_fit(bytes: &[u8]) -> (b: bool)
    ensures
        b == spec_box_sizes_fit(bytes@, 0),
{
    let len = bytes.len() as u64;
    let mut off: u64 = 0;
    while off <= len && len - off >= 8
        invariant
            len == bytes@.len(),
            off <= len + 8,
            spec_box_sizes_fit(bytes@, 0) == spec_box_sizes_fit(bytes@, off as int),
        decreases len + 8 - off,
    {
        let i = off as usize;
        let size32 = (bytes[i] as u64) * 16777216 + (bytes[i + 1] as u64) * 65536 + (bytes[i
            + 2] as u64) * 256 + (bytes[i + 3] as u64);
        assert(size32 == be32(bytes@, off as int));
        let box_size = if size32 == 0 {
            return true;
        } else if size32 == 1 {
            if len - off < 16 {
                return false;
            }
            let j = i + 8;
            let hi = (bytes[j] as u64) * 16777216 + (bytes[j + 1] as u64) * 65536 + (bytes[j
                + 2] as u64) * 256 + (bytes[j + 3] as u64);
            let lo = (bytes[j + 4] as u64) * 16777216 + (bytes[j + 5] as u64) * 65536 + (bytes[j
                + 6] as u64) * 256 + (bytes[j + 7] as u64);
            assert(hi == be32(bytes@, off + 8));
            assert(lo == be32(bytes@, off + 12));
            assert(hi * 4294967296 + lo <= u64::MAX) by (nonlinear_arith)
                requires
                    hi <= 0xFFFF_FFFF,
                    lo <= 0xFFFF_FFFF,
            ;
            let large = hi * 4294967296 + lo;
            if large < 16 {
                return false;
            }
            large
        } else if size32 < 8 {
            return false;
        } else {
            size32
        };
        if box_size > len - off {
            return false;
        }
        off = off + box_size;
    }
    true
}

/// Reject dimensions over the limits or the pixel budget, for the 8-bit RGBA
/// working buffer an AVIF decode allocates.
pub fn check_caps(w: u32, h: u32, limits: &DecodeLimits) -> (r: Result<(), LoadError>)
    ensures
        caps_outcome(r, spec_check_caps("avif"@, w, h, *limits)),
{
    check_decode_caps("avif", w, h, limits)
}

/// `min(a, b)`.
pub open spec fn min_int(a: int, b: int) -> int {
    if a <= b {
        a
    } else {
        b
    }
}

/// The AV1 decoder's maximum frame area (pixels): the pixel budget, tightened
/// by `max_alloc / 4` and by the product of the two dimension caps when those
/// are set (each clamped to `u32::MAX`). Never 0 ("unlimited") whatever the
/// limits carry, unless a limit is itself 0.
pub open spec fn spec_frame_size_limit(limits: DecodeLimits) -> int {
    let base = MAX_IMAGE_PIXELS as int;
    let with_alloc = match limits.max_alloc {
        Some(a) => min_int(base, min_int((a / 4) as int, u32::MAX as int)),
        None => base,
    };
    match (limits.max_image_width, limits.max_image_height) {
        (Some(w), Some(h)) => min_int(with_alloc, min_int(w * h, u32::MAX as int)),
        _ => with_alloc,
    }
}

/// Derive the AV1 decoder's `frame_size_limit` (maximum decoded frame area)
/// from `limits`, so an oversize frame header is rejected before the decoder
/// allocates planes.
pub fn frame_size_limit(limits: &DecodeLimits) -> (n: u32)
    ensures
        n == spec_frame_size_limit(*limits),
{
    let mut limit: u32 = 67108864;
    if let Some(a) = limits.max_alloc {
        let q = a / 4;
        let qc: u32 = if q > 0xFFFF_FFFF {
            0xFFFF_FFFF
        } else {
            q as u32
        };
        if qc < limit {
            limit = qc;
        }
    }
    match (limits.max_image_width, limits.max_image_height) {
        (Some(w), Some(h)) => {
            assert((w as int) * (h as int) <= 0xFFFF_FFFE_0000_0001) by (nonlinear_arith)
                requires
                    w <= 0xFFFF_FFFF,
                    h <= 0xFFFF_FFFF,
            ;
            let p = (w as u64) * (h as u64);
            let pc: u32 = if p > 0xFFFF_FFFF {
                0xFFFF_FFFF
            } else {
                p as u32
            };
            if pc < limit {
                limit = pc;
            }
        },
        _ => {},
    }
    limit
}

/// One YUV sample from a plane: a byte at `y * stride + x` for depth <= 8,
/// otherwise the little-endian `u16` at `y * stride + 2 * x`. Out-of-range
/// reads are 0.
pub open spec fn spec_sample(plane: Seq<u8>, stride: u32, x: u32, y: u32, depth: usize) -> u32 {
    if depth <= 8 {
        let off = y * stride + x;
        if off < plane.len() {
            plane[off] as u32
        } else {
            0
        }
    } else {
        let off = y * stride + 2 * x;
        if off + 1 < plane.len() {
            (plane[off] + 256 * plane[off + 1]) as u32
        } else {
            0
        }
    }
}

/// Read one YUV sample from a plane, honoring the bit depth (a byte, or a
/// little-endian `u16`). Out-of-range reads return 0 rather than panicking.
pub fn sample(plane: &[u8], stride: u32, x: u32, y: u32, depth: usize) -> (v: u32)
    ensures
        v == spec_sample(plane@, stride, x, y, depth),
{
    assert((y as int) * (stride as int) <= 0xFFFF_FFFE_0000_0001) by (nonlinear_arith)
        requires
            y <= 0xFFFF_FFFF,
            stride <= 0xFFFF_FFFF,
    ;
    let row = (y as u128) * (stride as u128);
    let len = plane.len() as u128;
    if depth <= 8 {
        let off = row + (x as u128);
        if off < len {
            plane[off as usize] as u32
        } else {
            0
        }
    } else {
        let off = row + 2 * (x as u128);
        if off + 1 < len {
            let lo = plane[off as usize] as u32;
            let hi = plane[(off + 1) as usize] as u32;
            lo + 256 * hi
        } else {
            0
        }
    }
}

/// The straight-alpha value of a premultiplied channel `c` at alpha `a`
/// (`0 < a < 255`): `c * 255 / a`, rounded half up, clamped to 255.
pub open spec fn unpremul(c: u8, a: u8) -> u8 {
    let q = (2 * (c as int) * 255 + a as int) / (2 * (a as int));
    if q > 255 {
        255
    } else {
        q as u8
    }
}

/// The straight-alpha pixel of a premultiplied RGBA pixel: alpha 0 clears the
/// color, alpha 255 keeps it, anything else divides each color channel by
/// the alpha.
pub open spec fn spec_unpremultiply_px(px: Seq<u8>, k: int) -> u8 {
    let a = px[3];
    if k == 3 {
        a
    } else if a == 0 {
        0
    } else if a == 255 {
        px[k]
    } else {
        unpremul(px[k], a)
    }
}

/// Convert premultiplied-alpha RGBA to straight alpha in place (whole pixels
/// only; a trailing partial pixel is left as is).
pub fn unpremultiply(rgba: &mut Vec<u8>)
    ensures
        final(rgba)@.len() == old(rgba)@.len(),
        forall|i: int|
            0 <= i < old(rgba)@.len() ==> #[trigger] final(rgba)@[i] == if i < old(rgba)@.len()
                / 4 * 4 {
                spec_unpremultiply_px(old(rgba)@.subrange(i / 4 * 4, i / 4 * 4 + 4), i % 4)
            } else {
                old(rgba)@[i]
            },
{
    let n = rgba.len() / 4;
    let mut p: usize = 0;
    while p < n
        invariant
            p <= n,
            n == old(rgba)@.len() / 4,
            old(rgba)@.len() <= usize::MAX,
            rgba@.len() == old(rgba)@.len(),
            forall|i: int|
                0 <= i < old(rgba)@.len() ==> #[trigger] rgba@[i] == if i < p * 4 {
                    spec_unpremultiply_px(old(rgba)@.subrange(i / 4 * 4, i / 4 * 4 + 4), i % 4)
                } else {
                    old(rgba)@[i]
                },
        decreases n - p,
    {
        let base = p * 4;
        let a = rgba[base + 3];
        let ghost px = old(rgba)@.subrange(base as int, base + 4);
        assert(px[3] == a);
        if a == 0 {
            rgba[base] = 0;
            rgba[base + 1] = 0;
            rgba[base + 2] = 0;
        } else if a < 255 {
            let mut c: usize = 0;
            while c < 3
                invariant
                    c <= 3,
                    0 < a < 255,
                    base == p * 4,
                    p < n,
                    n == old(rgba)@.len() / 4,
                    rgba@.len() == old(rgba)@.len(),
                    px == old(rgba)@.subrange(base as int, base + 4),
                    px[3] == a,
                    forall|i: int|
                        0 <= i < old(rgba)@.len() ==> #[trigger] rgba@[i] == if i < p * 4 || (
                        base <= i < base + c) {
                            spec_unpremultiply_px(
                                old(rgba)@.subrange(i / 4 * 4, i / 4 * 4 + 4),
                                i % 4,
                            )
                        } else {
                            old(rgba)@[i]
                        },
                decreases 3 - c,
            {
                let v = rgba[base + c] as u32;
                let q = (2 * v * 255 + a as u32) / (2 * a as u32);
                let out: u8 = if q > 255 {
                    255
                } else {
                    q as u8
                };
                proof {
                    let j = base + c;
                    assert(j / 4 * 4 == base);
                    assert(j % 4 == c);
                    assert(old(rgba)@.subrange(j / 4 * 4, j / 4 * 4 + 4) == px);
                }
                rgba[base + c] = out;
                c = c + 1;
            }
        }
        proof {
            assert forall|i: int| 0 <= i < old(rgba)@.len() implies #[trigger] rgba@[i] == if i < (
            p + 1) * 4 {
                spec_unpremultiply_px(old(rgba)@.subrange(i / 4 * 4, i / 4 * 4 + 4), i % 4)
            } else {
                old(rgba)@[i]
            } by {
                if base <= i < base + 4 {
                    assert(i / 4 * 4 == base);
                    assert(old(rgba)@.subrange(i / 4 * 4, i / 4 * 4 + 4) == px);
                }
            }
        }
        p = p + 1;
    }
    proof {
        assert forall|i: int| 0 <= i < old(rgba)@.len() implies #[trigger] rgba@[i] == if i < old(
        rgba)@.len() / 4 * 4 {
            spec_unpremultiply_px(old(rgba)@.subrange(i / 4 * 4, i / 4 * 4 + 4), i % 4)
        } else {
            old(rgba)@[i]
        } by {}
    }
}


/// The message for a container whose box sizes overrun the input.
pub open spec fn box_overrun_message() -> Seq<char> {
    "avif: container box size exceeds input (malformed)"@
}

/// Check an AVIF byte stream's top-level box sizes and decode it. Neither
/// the AV1 decoder nor a panic-free container parser is part of this build
/// (`avif_parse::read_avif` trips a debug assertion on some malformed
/// containers), so a stream whose boxes fit is answered with
/// [`LoadError::CodecUnavailableOnTarget`].
pub fn decode_avif(bytes: &[u8], limits: &DecodeLimits) -> (r: Result<PixelBuffer, LoadError>)
    ensures
        !spec_box_sizes_fit(bytes@, 0) ==> (r matches Err(LoadError::Decode(m)) && m@
            == box_overrun_message()),
        spec_box_sizes_fit(bytes@, 0) ==> r == Err::<PixelBuffer, LoadError>(
            LoadError::CodecUnavailableOnTarget { codec: "AVIF" },
        ),
{
    if !box_sizes_fit(bytes) {
        let mut m = String::new();
        push_str(&mut m, "avif: container box size exceeds input (malformed)");
        return Err(LoadError::Decode(m));
    }
    Err(LoadError::CodecUnavailableOnTarget { codec: "AVIF" })
}

} // verus!
