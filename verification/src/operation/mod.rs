//! Pixel operations: the `Operation` extension point and the in-memory
//! transforms (identity, invert, EXIF auto-orientation), plus the compass
//! [`Gravity`] anchor used to place overlays.

pub mod registry;
pub mod resize;

use crate::image::codec::orientation_of_exif_chunk;
use crate::image::pixels::{npix, pixels_wf, to16, to8};
use crate::image::{Image, ImageModel, PixelBuffer, PixelModel, SourceContainer};
use crate::strings::{push_str, str_eq};
use vstd::prelude::*;

verus! {

/// An operation that could not be applied to an image.
#[derive(Debug, Clone, PartialEq, Eq)]
pub enum OperationError {
    /// The operation `op` failed for `reason`.
    Apply { op: &'static str, reason: String },
}

/// A pixel transform: a stable name (the recipe/registry key) and a pure
/// in-memory `apply` that consumes the image and returns the transformed one.
pub trait Operation {
    /// Stable registry/recipe key, e.g. `"identity"`, `"invert"`.
    fn name(&self) -> &'static str;

    /// Transform the image in memory.
    fn apply(&self, img: Image) -> Result<Image, OperationError>;
}

// ── Identity ────────────────────────────────────────────────────────────────

/// No-op transform: returns the image unchanged.
pub struct Identity;

impl Operation for Identity {
    fn name(&self) -> (n: &'static str)
        ensures
            n@ == "identity"@,
    {
        "identity"
    }

    fn apply(&self, img: Image) -> (r: Result<Image, OperationError>)
        ensures
            r matches Ok(out) && out@ == img@,
    {
        Ok(img)
    }
}

// ── Invert ──────────────────────────────────────────────────────────────────

/// The inverted sample at index `i`: through 8 bits, each color channel `v`
/// becomes `255 - v`, alpha is kept.
pub open spec fn inverted_sample(s: Seq<u16>, i: int) -> u16 {
    if i % 4 == 3 {
        to16(to8(s[i]))
    } else {
        to16((255 - to8(s[i])) as u8)
    }
}

/// The inverted pixels: 8-bit RGBA with each color channel complemented and
/// alpha preserved.
pub open spec fn spec_invert(p: PixelModel) -> PixelModel {
    PixelModel {
        width: p.width,
        height: p.height,
        color: crate::image::ColorType::Rgba8,
        samples: Seq::new(p.samples.len(), |i: int| inverted_sample(p.samples, i)),
    }
}

/// Per-channel value inversion on 8-bit RGBA (alpha preserved).
pub struct Invert;

/// Invert the pixels of `src`.
pub fn invert_pixels(src: &PixelBuffer) -> (out: PixelBuffer)
    ensures
        out@ == spec_invert(src@),
{
    let s = src.samples();
    let mut v: Vec<u16> = Vec::new();
    let mut i: usize = 0;
    while i < s.len()
        invariant
            i <= s@.len(),
            v@ == Seq::new(i as nat, |k: int| inverted_sample(s@, k)),
        decreases s@.len() - i,
    {
        let x = ((s[i] as u32 + 128) / 257) as u8;
        let y: u8 = if i % 4 == 3 {
            x
        } else {
            255 - x
        };
        v.push(y as u16 * 257);
        assert(v@ =~= Seq::new((i + 1) as nat, |k: int| inverted_sample(s@, k)));
        i = i + 1;
    }
    PixelBuffer::from_samples(src.width(), src.height(), crate::image::ColorType::Rgba8, v)
}

impl Operation for Invert {
    fn name(&self) -> (n: &'static str)
        ensures
            n@ == "invert"@,
    {
        "invert"
    }

    fn apply(&self, img: Image) -> (r: Result<Image, OperationError>)
        ensures
            r matches Ok(out) && out@ == (ImageModel { pixels: spec_invert(img@.pixels), ..img@ }),
    {
        let inverted = invert_pixels(img.pixels());
        Ok(img.with_pixels(inverted))
    }
}

/// Inverting twice gives back every pixel's 8-bit RGBA value (and the
/// dimensions).
pub proof fn law_invert_involutive(p: PixelModel)
    ensures
        spec_invert(spec_invert(p)).width == p.width,
        spec_invert(spec_invert(p)).height == p.height,
        spec_invert(spec_invert(p)).samples.len() == p.samples.len(),
        forall|i: int|
            0 <= i < p.samples.len() ==> to8(#[trigger] spec_invert(spec_invert(p)).samples[i])
                == to8(p.samples[i]),
{
    assert forall|i: int| 0 <= i < p.samples.len() implies to8(
        #[trigger] spec_invert(spec_invert(p)).samples[i],
    ) == to8(p.samples[i]) by {
        let x = to8(p.samples[i]);
        assert(to8(to16(x)) == x);
        assert(to8(to16((255 - x) as u8)) == (255 - x) as u8);
        assert(to8(to16((255 - (255 - x) as u8) as u8)) == x);
    }
}


// ── Orientation ─────────────────────────────────────────────────────────────

/// A pixel-grid transform.
#[derive(Debug, Clone, Copy, PartialEq, Eq)]
pub enum Remap {
    FlipHorizontal,
    FlipVertical,
    Rotate180,
    /// A quarter turn clockwise.
    Rotate90,
    /// Three quarter turns clockwise.
    Rotate270,
}

/// Whether `m` swaps width and height.
pub open spec fn swaps(m: Remap) -> bool {
    m == Remap::Rotate90 || m == Remap::Rotate270
}

/// The source pixel that output pixel `(x, y)` comes from, for a `w` x `h`
/// source.
pub open spec fn source_of(m: Remap, w: int, h: int, x: int, y: int) -> (int, int) {
    match m {
        Remap::FlipHorizontal => (w - 1 - x, y),
        Remap::FlipVertical => (x, h - 1 - y),
        Remap::Rotate180 => (w - 1 - x, h - 1 - y),
        Remap::Rotate90 => (y, h - 1 - x),
        Remap::Rotate270 => (w - 1 - y, x),
    }
}

/// The transformed pixels: output `(x, y)` holds the source pixel
/// [`source_of`] names; a quarter turn swaps the dimensions.
pub open spec fn spec_remap(m: Remap, p: PixelModel) -> PixelModel {
    let (ow, oh) = if swaps(m) {
        (p.height, p.width)
    } else {
        (p.width, p.height)
    };
    PixelModel {
        width: ow,
        height: oh,
        color: p.color,
        samples: Seq::new(
            p.samples.len(),
            |i: int|
                {
                    let q = i / 4;
                    let src = source_of(m, p.width as int, p.height as int, q % (ow as int), q / (
                    ow as int));
                    p.at(src.0, src.1, i % 4)
                },
        ),
    }
}

proof fn lemma_decompose(i: int, w: int, x: int, y: int, c: int)
    requires
        0 <= x < w,
        0 <= y,
        0 <= c < 4,
        i == (y * w + x) * 4 + c,
    ensures
        i / 4 == y * w + x,
        i % 4 == c,
        (i / 4) % w == x,
        (i / 4) / w == y,
{
    assert(i / 4 == y * w + x && i % 4 == c) by (nonlinear_arith)
        requires
            0 <= c < 4,
            i == (y * w + x) * 4 + c,
    ;
    assert((y * w + x) % w == x && (y * w + x) / w == y) by (nonlinear_arith)
        requires
            0 <= x < w,
            0 <= y,
    ;
}

proof fn lemma_in_bounds(w: int, h: int, x: int, y: int)
    requires
        0 <= x < w,
        0 <= y < h,
    ensures
        0 <= (y * w + x) * 4,
        (y * w + x) * 4 + 3 < 4 * (w * h),
{
    assert(0 <= (y * w + x) * 4 && (y * w + x) * 4 + 3 < 4 * (w * h)) by (nonlinear_arith)
        requires
            0 <= x < w,
            0 <= y < h,
    ;
}

/// Apply the grid transform `m` to `src`.
#[verifier::rlimit(40)]
pub fn remap(m: Remap, src: &PixelBuffer) -> (out: PixelBuffer)
    ensures
        out@ == spec_remap(m, src@),
{
    let s = src.samples();
    let w = src.width();
    let h = src.height();
    let ghost p = src@;
    let (ow, oh) = match m {
        Remap::Rotate90 | Remap::Rotate270 => (h, w),
        _ => (w, h),
    };
    let _len = s.len();
    assert(npix(ow, oh) == npix(w, h)) by (nonlinear_arith)
        requires
            (ow == h && oh == w) || (ow == w && oh == h),
    ;
    let mut v: Vec<u16> = Vec::new();
    let mut y: u32 = 0;
    while y < oh
        invariant
            p == src@,
            s@ == p.samples,
            pixels_wf(p),
            w == p.width,
            h == p.height,
            s@.len() <= usize::MAX,
            (ow, oh) == (if swaps(m) { (h, w) } else { (w, h) }),
            npix(ow, oh) == npix(w, h),
            y <= oh,
            v@.len() == 4 * ((y as int) * (ow as int)),
            forall|i: int| 0 <= i < v@.len() ==> #[trigger] v@[i] == spec_remap(m, p).samples[i],
        decreases oh - y,
    {
        let mut x: u32 = 0;
        while x < ow
            invariant
                p == src@,
                s@ == p.samples,
                pixels_wf(p),
                w == p.width,
                h == p.height,
                s@.len() <= usize::MAX,
                (ow, oh) == (if swaps(m) { (h, w) } else { (w, h) }),
                npix(ow, oh) == npix(w, h),
                y < oh,
                x <= ow,
                v@.len() == 4 * ((y as int) * (ow as int) + x),
                forall|i: int| 0 <= i < v@.len() ==> #[trigger] v@[i] == spec_remap(m, p).samples[i],
            decreases ow - x,
        {
            let (sx, sy) = match m {
                Remap::FlipHorizontal => (w - 1 - x, y),
                Remap::FlipVertical => (x, h - 1 - y),
                Remap::Rotate180 => (w - 1 - x, h - 1 - y),
                Remap::Rotate90 => (y, h - 1 - x),
                Remap::Rotate270 => (w - 1 - y, x),
            };
            assert((sx as int, sy as int) == source_of(m, w as int, h as int, x as int, y as int));
            proof {
                lemma_in_bounds(w as int, h as int, sx as int, sy as int);
                lemma_in_bounds(ow as int, oh as int, x as int, y as int);
            }
            let base = ((sy as usize) * (w as usize) + (sx as usize)) * 4;
            let mut c: usize = 0;
            while c < 4
                invariant
                    p == src@,
                    s@ == p.samples,
                    pixels_wf(p),
                    w == p.width,
                    h == p.height,
                    (ow, oh) == (if swaps(m) { (h, w) } else { (w, h) }),
                    npix(ow, oh) == npix(w, h),
                    y < oh,
                    x < ow,
                    (sx as int, sy as int) == source_of(m, w as int, h as int, x as int, y as int),
                    0 <= sx < w,
                    0 <= sy < h,
                    base == ((sy as int) * (w as int) + (sx as int)) * 4,
                    base + 3 < s@.len(),
                    c <= 4,
                    v@.len() == 4 * ((y as int) * (ow as int) + x) + c,
                    forall|i: int|
                        0 <= i < v@.len() ==> #[trigger] v@[i] == spec_remap(m, p).samples[i],
                decreases 4 - c,
            {
                proof {
                    let i = 4 * ((y as int) * (ow as int) + x) + c;
                    lemma_decompose(i, ow as int, x as int, y as int, c as int);
                    lemma_in_bounds(ow as int, oh as int, x as int, y as int);
                    assert(i < spec_remap(m, p).samples.len());
                }
                v.push(s[base + c]);
                c = c + 1;
            }
            x = x + 1;
        }
        assert(4 * ((y as int) * (ow as int) + (ow as int)) == 4 * ((y + 1) * (ow as int))) by (nonlinear_arith);
        y = y + 1;
    }
    assert((oh as int) * (ow as int) == npix(ow, oh)) by (nonlinear_arith);
    assert(v@ =~= spec_remap(m, p).samples);
    PixelBuffer::from_samples(ow, oh, src.color(), v)
}

/// The transformed pixels for EXIF orientation `o` (2..=8); other values
/// leave the pixels as they are. 5 and 7 are a quarter turn followed by a
/// horizontal flip.
pub open spec fn spec_orient(o: u8, p: PixelModel) -> PixelModel {
    if o == 2 {
        spec_remap(Remap::FlipHorizontal, p)
    } else if o == 3 {
        spec_remap(Remap::Rotate180, p)
    } else if o == 4 {
        spec_remap(Remap::FlipVertical, p)
    } else if o == 5 {
        spec_remap(Remap::FlipHorizontal, spec_remap(Remap::Rotate90, p))
    } else if o == 6 {
        spec_remap(Remap::Rotate90, p)
    } else if o == 7 {
        spec_remap(Remap::FlipHorizontal, spec_remap(Remap::Rotate270, p))
    } else if o == 8 {
        spec_remap(Remap::Rotate270, p)
    } else {
        p
    }
}

/// Apply EXIF orientation `o` to `src`.
pub fn orient(o: u8, src: &PixelBuffer) -> (out: PixelBuffer)
    requires
        2 <= o <= 8,
    ensures
        out@ == spec_orient(o, src@),
{
    if o == 2 {
        remap(Remap::FlipHorizontal, src)
    } else if o == 3 {
        remap(Remap::Rotate180, src)
    } else if o == 4 {
        remap(Remap::FlipVertical, src)
    } else if o == 5 {
        let r = remap(Remap::Rotate90, src);
        remap(Remap::FlipHorizontal, &r)
    } else if o == 6 {
        remap(Remap::Rotate90, src)
    } else if o == 7 {
        let r = remap(Remap::Rotate270, src);
        remap(Remap::FlipHorizontal, &r)
    } else {
        remap(Remap::Rotate270, src)
    }
}

/// Reading one pixel of a transformed image: the output has the transform's
/// dimensions, is consistent again, and its pixel `(x, y)` is the source
/// pixel the transform names.
proof fn lemma_remap_at(m: Remap, p: PixelModel, x: int, y: int, c: int)
    requires
        pixels_wf(p),
        0 <= c < 4,
        0 <= x < spec_remap(m, p).width,
        0 <= y < spec_remap(m, p).height,
    ensures
        pixels_wf(spec_remap(m, p)),
        spec_remap(m, p).at(x, y, c) == ({
            let s = source_of(m, p.width as int, p.height as int, x, y);
            p.at(s.0, s.1, c)
        }),
{
    let q = spec_remap(m, p);
    let ow = q.width as int;
    let oh = q.height as int;
    assert(npix(q.width, q.height) == npix(p.width, p.height)) by (nonlinear_arith)
        requires
            (q.width == p.height && q.height == p.width) || (q.width == p.width && q.height
                == p.height),
    ;
    let i = (y * ow + x) * 4 + c;
    lemma_decompose(i, ow, x, y, c);
    lemma_in_bounds(ow, oh, x, y);
    assert(q.index(x, y, c) == i);
}

/// The dimensions a transform gives.
proof fn lemma_remap_dims(m: Remap, p: PixelModel)
    ensures
        swaps(m) ==> spec_remap(m, p).width == p.height && spec_remap(m, p).height == p.width,
        !swaps(m) ==> spec_remap(m, p).width == p.width && spec_remap(m, p).height == p.height,
{
}

/// Baking EXIF orientation `o` into a `w` x `h` image applies the transform
/// the EXIF standard gives that value. Orientations 5 to 8 swap the sides;
/// output pixel `(x, y)` is the source pixel
/// - 2 (mirror left-right): `(w - 1 - x, y)`,
/// - 3 (half turn): `(w - 1 - x, h - 1 - y)`,
/// - 4 (mirror top-bottom): `(x, h - 1 - y)`,
/// - 5 (transpose): `(y, x)`,
/// - 6 (quarter turn clockwise): `(y, h - 1 - x)`,
/// - 7 (transverse): `(w - 1 - y, h - 1 - x)`,
/// - 8 (quarter turn counter-clockwise): `(w - 1 - y, x)`,
/// - any other value: `(x, y)`, the image unchanged.
pub proof fn law_orientation_transforms(o: u8, p: PixelModel, x: int, y: int, c: int)
    requires
        pixels_wf(p),
        0 <= c < 4,
    ensures
        (5 <= o <= 8) ==> spec_orient(o, p).width == p.height && spec_orient(o, p).height
            == p.width,
        !(5 <= o <= 8) ==> spec_orient(o, p).width == p.width && spec_orient(o, p).height
            == p.height,
        spec_orient(o, p).color == p.color,
        (0 <= x < spec_orient(o, p).width && 0 <= y < spec_orient(o, p).height) ==> spec_orient(
            o,
            p,
        ).at(x, y, c) == ({
            let w = p.width as int;
            let h = p.height as int;
            if o == 2 {
                p.at(w - 1 - x, y, c)
            } else if o == 3 {
                p.at(w - 1 - x, h - 1 - y, c)
            } else if o == 4 {
                p.at(x, h - 1 - y, c)
            } else if o == 5 {
                p.at(y, x, c)
            } else if o == 6 {
                p.at(y, h - 1 - x, c)
            } else if o == 7 {
                p.at(w - 1 - y, h - 1 - x, c)
            } else if o == 8 {
                p.at(w - 1 - y, x, c)
            } else {
                p.at(x, y, c)
            }
        }),
{
    lemma_remap_dims(Remap::FlipHorizontal, p);
    lemma_remap_dims(Remap::Rotate180, p);
    lemma_remap_dims(Remap::FlipVertical, p);
    lemma_remap_dims(Remap::Rotate90, p);
    lemma_remap_dims(Remap::Rotate270, p);
    lemma_remap_dims(Remap::FlipHorizontal, spec_remap(Remap::Rotate90, p));
    lemma_remap_dims(Remap::FlipHorizontal, spec_remap(Remap::Rotate270, p));
    let q = spec_orient(o, p);
    if 0 <= x < q.width && 0 <= y < q.height {
        if o == 2 {
            lemma_remap_at(Remap::FlipHorizontal, p, x, y, c);
        } else if o == 3 {
            lemma_remap_at(Remap::Rotate180, p, x, y, c);
        } else if o == 4 {
            lemma_remap_at(Remap::FlipVertical, p, x, y, c);
        } else if o == 5 {
            let r = spec_remap(Remap::Rotate90, p);
            lemma_remap_at(Remap::Rotate90, p, r.width - 1 - x, y, c);
            lemma_remap_at(Remap::FlipHorizontal, r, x, y, c);
        } else if o == 6 {
            lemma_remap_at(Remap::Rotate90, p, x, y, c);
        } else if o == 7 {
            let r = spec_remap(Remap::Rotate270, p);
            lemma_remap_at(Remap::Rotate270, p, r.width - 1 - x, y, c);
            lemma_remap_at(Remap::FlipHorizontal, r, x, y, c);
        } else if o == 8 {
            lemma_remap_at(Remap::Rotate270, p, x, y, c);
        }
    }
}

/// An EXIF payload without its JPEG `Exif\0\0` signature (a PNG `eXIf`
/// chunk is already a bare TIFF block).
pub open spec fn strip_exif_prefix(exif: Seq<u8>) -> Seq<u8> {
    if exif.len() >= 6 && exif.subrange(0, 6) == crate::image::exif_sig() {
        exif.subrange(6, exif.len() as int)
    } else {
        exif
    }
}

/// The EXIF orientation recorded in a raw EXIF segment (JPEG-style with the
/// `Exif\0\0` signature, or a bare TIFF block), if any.
pub fn orientation_from_exif_segment(exif: &[u8]) -> (r: Option<u8>)
    ensures
        r == crate::image::codec::exif_chunk_orientation(strip_exif_prefix(exif@)),
        r matches Some(o) ==> 1 <= o <= 8,
{
    let sig: [u8; 6] = [0x45, 0x78, 0x69, 0x66, 0, 0];
    assert(sig@ =~= crate::image::exif_sig());
    let tiff = if crate::image::starts_with(exif, &sig) {
        vstd::slice::slice_subrange(exif, 6, exif.len())
    } else {
        exif
    };
    orientation_of_exif_chunk(tiff)
}

/// The orientation [`AutoOrient`] reads from an image's metadata.
pub open spec fn image_orientation(m: ImageModel) -> Option<u8> {
    match m.metadata {
        Some(b) => match b.exif {
            Some(e) => crate::image::codec::exif_chunk_orientation(strip_exif_prefix(e)),
            None => None,
        },
        None => None,
    }
}

/// Bake the EXIF orientation tag into the pixels. Images without EXIF, or
/// with orientation 1, are returned unchanged; otherwise the pixels are
/// rotated/flipped and the metadata bundle dropped (the orientation tag is
/// stale once applied).
pub struct AutoOrient;

impl Operation for AutoOrient {
    fn name(&self) -> (n: &'static str)
        ensures
            n@ == "auto-orient"@,
    {
        "auto-orient"
    }

    fn apply(&self, img: Image) -> (r: Result<Image, OperationError>)
        ensures
            r matches Ok(out) && match image_orientation(img@) {
                Some(o) => if o == 1 {
                    out@ == img@
                } else {
                    out@ == (ImageModel {
                        pixels: spec_orient(o, img@.pixels),
                        source_format: img@.source_format,
                        metadata: None,
                        truncated_jpeg: false,
                        animated_input: false,
                        source_container: SourceContainer::Native,
                    })
                },
                None => out@ == img@,
            },
    {
        let o = match img.metadata() {
            Some(m) => match &m.exif {
                Some(e) => orientation_from_exif_segment(e.as_slice()),
                None => None,
            },
            None => None,
        };
        match o {
            None => Ok(img),
            Some(k) => if k == 1 {
                Ok(img)
            } else {
                let pixels = orient(k, img.pixels());
                let fmt = img.source_format();
                Ok(Image::from_parts(pixels, fmt, None))
            },
        }
    }
}

// ── Gravity ─────────────────────────────────────────────────────────────────

/// A compass anchor for placing an overlay within a base image.
#[derive(Debug, Clone, Copy, PartialEq, Eq)]
pub enum Gravity {
    Center,
    North,
    South,
    East,
    West,
    NorthEast,
    NorthWest,
    SouthEast,
    SouthWest,
}

/// The lowercase name of a gravity.
pub open spec fn gravity_name(g: Gravity) -> Seq<char> {
    match g {
        Gravity::Center => "center"@,
        Gravity::North => "north"@,
        Gravity::South => "south"@,
        Gravity::East => "east"@,
        Gravity::West => "west"@,
        Gravity::NorthEast => "northeast"@,
        Gravity::NorthWest => "northwest"@,
        Gravity::SouthEast => "southeast"@,
        Gravity::SouthWest => "southwest"@,
    }
}

/// The gravity named `s`, if any.
pub open spec fn spec_parse_gravity(s: Seq<char>) -> Option<Gravity> {
    if false {
        None
    } else if s == "center"@ {
        Some(Gravity::Center)
    } else if s == "north"@ {
        Some(Gravity::North)
    } else if s == "south"@ {
        Some(Gravity::South)
    } else if s == "east"@ {
        Some(Gravity::East)
    } else if s == "west"@ {
        Some(Gravity::West)
    } else if s == "northeast"@ {
        Some(Gravity::NorthEast)
    } else if s == "northwest"@ {
        Some(Gravity::NorthWest)
    } else if s == "southeast"@ {
        Some(Gravity::SouthEast)
    } else if s == "southwest"@ {
        Some(Gravity::SouthWest)
    } else {
        None
    }
}

/// The message for an unknown gravity name.
pub open spec fn unknown_gravity_message(s: Seq<char>) -> Seq<char> {
    "unknown gravity '"@ + s
        + "'; expected one of: center, north, south, east, west, northeast, northwest, southeast, southwest"@
}

impl Gravity {
    /// The lowercase name, e.g. `"northeast"`.
    pub fn name(self) -> (n: &'static str)
        ensures
            n@ == gravity_name(self),
    {
        match self {
            Gravity::Center => "center",
            Gravity::North => "north",
            Gravity::South => "south",
            Gravity::East => "east",
            Gravity::West => "west",
            Gravity::NorthEast => "northeast",
            Gravity::NorthWest => "northwest",
            Gravity::SouthEast => "southeast",
            Gravity::SouthWest => "southwest",
        }
    }

    /// The lowercase name as a `String`.
    pub fn to_string(&self) -> (s: String)
        ensures
            s@ == gravity_name(*self),
    {
        let mut s = String::new();
        push_str(&mut s, self.name());
        s
    }

    /// Parse one of the nine lowercase names.
    pub fn parse(s: &str) -> (r: Result<Gravity, String>)
        ensures
            match spec_parse_gravity(s@) {
                Some(g) => r == Ok::<Gravity, String>(g),
                None => r matches Err(m) && m@ == unknown_gravity_message(s@),
            },
    {
        proof {
            reveal_strlit("center");
            reveal_strlit("north");
            reveal_strlit("south");
            reveal_strlit("east");
            reveal_strlit("west");
            reveal_strlit("northeast");
            reveal_strlit("northwest");
            reveal_strlit("southeast");
            reveal_strlit("southwest");
        }
        if str_eq(s, "center") {
            return Ok(Gravity::Center);
        }
        if str_eq(s, "north") {
            return Ok(Gravity::North);
        }
        if str_eq(s, "south") {
            return Ok(Gravity::South);
        }
        if str_eq(s, "east") {
            return Ok(Gravity::East);
        }
        if str_eq(s, "west") {
            return Ok(Gravity::West);
        }
        if str_eq(s, "northeast") {
            return Ok(Gravity::NorthEast);
        }
        if str_eq(s, "northwest") {
            return Ok(Gravity::NorthWest);
        }
        if str_eq(s, "southeast") {
            return Ok(Gravity::SouthEast);
        }
        if str_eq(s, "southwest") {
            return Ok(Gravity::SouthWest);
        }
        let mut m = String::new();
        push_str(&mut m, "unknown gravity '");
        push_str(&mut m, s);
        push_str(
            &mut m,
            "'; expected one of: center, north, south, east, west, northeast, northwest, southeast, southwest",
        );
        Err(m)
    }
}

impl std::str::FromStr for Gravity {
    type Err = String;

    fn from_str(s: &str) -> (r: Result<Gravity, String>)
        ensures
            match spec_parse_gravity(s@) {
                Some(g) => r == Ok::<Gravity, String>(g),
                None => r matches Err(m) && m@ == unknown_gravity_message(s@),
            },
    {
        Gravity::parse(s)
    }
}

/// Every gravity's name parses back to it.
pub proof fn law_gravity_round_trip(g: Gravity)
    ensures
        spec_parse_gravity(gravity_name(g)) == Some(g),
{
    reveal_strlit("center");
    reveal_strlit("north");
    reveal_strlit("south");
    reveal_strlit("east");
    reveal_strlit("west");
    reveal_strlit("northeast");
    reveal_strlit("northwest");
    reveal_strlit("southeast");
    reveal_strlit("southwest");
    let names = seq!["center"@, "north"@, "south"@, "east"@, "west"@, "northeast"@, "northwest"@, "southeast"@, "southwest"@];
    assert forall|i: int, j: int| 0 <= i < j < 9 implies #[trigger] names[i] != #[trigger] names[j] by {
        if names[i].len() == names[j].len() {
            assert(names[i][0] != names[j][0] || names[i][1] != names[j][1] || names[i][5] != names[j][5]);
        }
    }
    assert(names[0] != names[1]);
}

/// `a - b`, or 0 when `b > a`.
pub open spec fn sat_sub(a: int, b: int) -> int {
    if b > a {
        0
    } else {
        a - b
    }
}

/// The top-left placement of an `ow` x `oh` overlay over a `bw` x `bh` base
/// at gravity `g`, inset by `margin` from the anchored edges (ignored when
/// centering); offsets saturate at zero.
pub open spec fn spec_placement(g: Gravity, bw: u32, bh: u32, ow: u32, oh: u32, margin: u32) -> (int, int) {
    let x_left = margin as int;
    let x_center = sat_sub(bw as int, ow as int) / 2;
    let x_right = sat_sub(sat_sub(bw as int, ow as int), margin as int);
    let y_top = margin as int;
    let y_center = sat_sub(bh as int, oh as int) / 2;
    let y_bottom = sat_sub(sat_sub(bh as int, oh as int), margin as int);
    match g {
        Gravity::Center => (x_center, y_center),
        Gravity::North => (x_center, y_top),
        Gravity::South => (x_center, y_bottom),
        Gravity::East => (x_right, y_center),
        Gravity::West => (x_left, y_center),
        Gravity::NorthEast => (x_right, y_top),
        Gravity::NorthWest => (x_left, y_top),
        Gravity::SouthEast => (x_right, y_bottom),
        Gravity::SouthWest => (x_left, y_bottom),
    }
}

/// Which edges a gravity anchors to. A south anchor puts the overlay's
/// bottom edge `margin` above the base's bottom edge, a north anchor its top
/// edge `margin` below the base's top; east and west do the same with the
/// right and left edges; along an axis with neither, the overlay is centered
/// (the spare room split, the odd pixel after it). Where the overlay and its
/// margin do not fit, the offset is zero; offsets are never negative.
pub proof fn law_placement_edges(g: Gravity, bw: u32, bh: u32, ow: u32, oh: u32, margin: u32)
    ensures
        ({
            let (x, y) = spec_placement(g, bw, bh, ow, oh, margin);
            let south = g == Gravity::South || g == Gravity::SouthEast || g == Gravity::SouthWest;
            let north = g == Gravity::North || g == Gravity::NorthEast || g == Gravity::NorthWest;
            let east = g == Gravity::East || g == Gravity::NorthEast || g == Gravity::SouthEast;
            let west = g == Gravity::West || g == Gravity::NorthWest || g == Gravity::SouthWest;
            &&& 0 <= x && 0 <= y
            &&& south ==> (if oh + margin <= bh { y + oh + margin == bh } else { y == 0 })
            &&& north ==> y == margin
            &&& !(south || north) ==> (if oh <= bh { bh - oh - 1 <= 2 * y <= bh - oh } else { y == 0 })
            &&& east ==> (if ow + margin <= bw { x + ow + margin == bw } else { x == 0 })
            &&& west ==> x == margin
            &&& !(east || west) ==> (if ow <= bw { bw - ow - 1 <= 2 * x <= bw - ow } else { x == 0 })
        }),
{
}

impl Gravity {
    /// The top-left `(x, y)` placement of an `ow` x `oh` overlay over a
    /// `bw` x `bh` base at this anchor, inset by `margin` from the anchored
    /// edges. Offsets saturate at zero, so an oversized overlay anchors at the
    /// origin.
    pub fn placement(self, bw: u32, bh: u32, ow: u32, oh: u32, margin: u32) -> (r: (i64, i64))
        ensures
            (r.0 as int, r.1 as int) == spec_placement(self, bw, bh, ow, oh, margin),
    {
        let x_left = margin;
        let x_center = (if bw > ow { bw - ow } else { 0 }) / 2;
        let x_right0 = if bw > ow { bw - ow } else { 0 };
        let x_right = if x_right0 > margin { x_right0 - margin } else { 0 };
        let y_top = margin;
        let y_center = (if bh > oh { bh - oh } else { 0 }) / 2;
        let y_bottom0 = if bh > oh { bh - oh } else { 0 };
        let y_bottom = if y_bottom0 > margin { y_bottom0 - margin } else { 0 };
        let (x, y) = match self {
            Gravity::Center => (x_center, y_center),
            Gravity::North => (x_center, y_top),
            Gravity::South => (x_center, y_bottom),
            Gravity::East => (x_right, y_center),
            Gravity::West => (x_left, y_center),
            Gravity::NorthEast => (x_right, y_top),
            Gravity::NorthWest => (x_left, y_top),
            Gravity::SouthEast => (x_right, y_bottom),
            Gravity::SouthWest => (x_left, y_bottom),
        };
        (x as i64, y as i64)
    }
}

} // verus!
