//! SVG detection, decode caps and rasterization.
//!
//! Detection is a bounded content sniff. Rasterization goes through `resvg`
//! at the intrinsic (1x) size, with the caps checked on that size before any
//! pixmap is allocated and every external resource reference refused.

use super::{check_decode_caps, caps_outcome, spec_check_caps, DecodeLimits, PixelBuffer};
use super::pixels::{to16, ColorType, PixelModel};
use crate::error::LoadError;
use crate::strings::push_str;
use vstd::prelude::*;

verus! {

/// Bound on the content-sniff window, in bytes.
pub const SNIFF_WINDOW: usize = 1024;

/// Whether `c` is ASCII whitespace (space, tab, LF, FF, CR).
pub open spec fn is_ascii_ws(c: u8) -> bool {
    c == 0x20 || c == 0x09 || c == 0x0A || c == 0x0C || c == 0x0D
}

/// `c` lowercased when it is an ASCII capital letter.
pub open spec fn ascii_lower(c: u8) -> u8 {
    if 0x41 <= c && c <= 0x5A {
        (c + 32) as u8
    } else {
        c
    }
}

/// The length of a leading UTF-8 or UTF-16 byte-order mark.
pub open spec fn bom_len(bytes: Seq<u8>) -> int {
    if bytes.len() >= 3 && bytes[0] == 0xEF && bytes[1] == 0xBB && bytes[2] == 0xBF {
        3
    } else if bytes.len() >= 2 && ((bytes[0] == 0xFF && bytes[1] == 0xFE) || (bytes[0] == 0xFE
        && bytes[1] == 0xFF)) {
        2
    } else {
        0
    }
}

/// The first index at or after `i` that is not ASCII whitespace (or the
/// length).
pub open spec fn skip_ws_from(bytes: Seq<u8>, i: int) -> int
    decreases bytes.len() - i,
{
    if 0 <= i < bytes.len() && is_ascii_ws(bytes[i]) {
        skip_ws_from(bytes, i + 1)
    } else {
        i
    }
}

/// The number of leading bytes to skip: a BOM, then ASCII whitespace.
pub open spec fn spec_skip_bom_and_ws(bytes: Seq<u8>) -> int {
    skip_ws_from(bytes, bom_len(bytes))
}

/// Whether an `<svg` tag (case-insensitive) begins at `w[i]`, followed by a
/// tag boundary (whitespace, `>`, `/`) or the end of the window.
pub open spec fn spec_svg_root_at(w: Seq<u8>, i: int) -> bool {
    &&& 0 <= i
    &&& i + 4 <= w.len()
    &&& w[i] == 0x3C
    &&& ascii_lower(w[i + 1]) == 0x73
    &&& ascii_lower(w[i + 2]) == 0x76
    &&& ascii_lower(w[i + 3]) == 0x67
    &&& (i + 4 == w.len() || is_ascii_ws(w[i + 4]) || w[i + 4] == 0x3E || w[i + 4] == 0x2F)
}

/// Whether `hay` starts with `needle`, ignoring ASCII case.
pub open spec fn spec_starts_with_ci(hay: Seq<u8>, needle: Seq<u8>) -> bool {
    hay.len() >= needle.len() && forall|k: int|
        0 <= k < needle.len() ==> #[trigger] ascii_lower(hay[k]) == ascii_lower(needle[k])
}

/// The sniff window: up to [`SNIFF_WINDOW`] bytes after the BOM and leading
/// whitespace.
pub open spec fn sniff_window(bytes: Seq<u8>) -> Seq<u8> {
    let start = spec_skip_bom_and_ws(bytes);
    let end = if start + SNIFF_WINDOW < bytes.len() {
        start + SNIFF_WINDOW
    } else {
        bytes.len() as int
    };
    bytes.subrange(start, end)
}

/// `<?xml`.
pub open spec fn xml_prolog() -> Seq<u8> {
    seq![0x3Cu8, 0x3Fu8, 0x78u8, 0x6Du8, 0x6Cu8]
}

/// Whether `bytes` looks like an SVG document: the window's root is `<svg`,
/// or the window opens with an XML prolog and holds an `<svg` tag.
pub open spec fn spec_is_svg(bytes: Seq<u8>) -> bool {
    let w = sniff_window(bytes);
    spec_svg_root_at(w, 0) || (spec_starts_with_ci(w, xml_prolog()) && exists|i: int|
        0 <= i < w.len() && #[trigger] spec_svg_root_at(w, i))
}

proof fn lemma_skip_ws_bounds(bytes: Seq<u8>, i: int)
    requires
        0 <= i <= bytes.len(),
    ensures
        i <= skip_ws_from(bytes, i) <= bytes.len(),
    decreases bytes.len() - i,
{
    if i < bytes.len() && is_ascii_ws(bytes[i]) {
        lemma_skip_ws_bounds(bytes, i + 1);
    }
}

/// Whether `c` is ASCII whitespace.
fn is_ws(c: u8) -> (b: bool)
    ensures
        b == is_ascii_ws(c),
{
    c == 0x20 || c == 0x09 || c == 0x0A || c == 0x0C || c == 0x0D
}

/// `c` lowercased when it is an ASCII capital letter.
fn lower(c: u8) -> (l: u8)
    ensures
        l == ascii_lower(c),
{
    if 0x41 <= c && c <= 0x5A {
        c + 32
    } else {
        c
    }
}

/// Number of leading bytes to skip: a UTF-8/UTF-16 BOM, then ASCII
/// whitespace.
pub fn skip_bom_and_ws(bytes: &[u8]) -> (n: usize)
    ensures
        n == spec_skip_bom_and_ws(bytes@),
        n <= bytes@.len(),
{
    let n = bytes.len();
    let mut i: usize = if n >= 3 && bytes[0] == 0xEF && bytes[1] == 0xBB && bytes[2] == 0xBF {
        3
    } else if n >= 2 && ((bytes[0] == 0xFF && bytes[1] == 0xFE) || (bytes[0] == 0xFE && bytes[1]
        == 0xFF)) {
        2
    } else {
        0
    };
    assert(i == bom_len(bytes@));
    proof {
        lemma_skip_ws_bounds(bytes@, i as int);
    }
    while i < n && is_ws(bytes[i])
        invariant
            n == bytes@.len(),
            bom_len(bytes@) <= i <= n,
            skip_ws_from(bytes@, i as int) == spec_skip_bom_and_ws(bytes@),
        decreases n - i,
    {
        i = i + 1;
    }
    i
}

/// Whether an `<svg` root tag begins at `w[i]` (case-insensitive, with a
/// tag-boundary byte or the end of the window after it, so `<svgfoo` does not
/// match).
pub fn is_svg_root_at(w: &[u8], i: usize) -> (b: bool)
    ensures
        b == spec_svg_root_at(w@, i as int),
{
    if i > w.len() || w.len() - i < 4 || w[i] != 0x3C || lower(w[i + 1]) != 0x73 || lower(w[i + 2])
        != 0x76 || lower(w[i + 3]) != 0x67 {
        return false;
    }
    if i + 4 == w.len() {
        return true;
    }
    let c = w[i + 4];
    is_ws(c) || c == 0x3E || c == 0x2F
}

/// Case-insensitive ASCII prefix test.
pub fn starts_with_ci(hay: &[u8], needle: &[u8]) -> (b: bool)
    ensures
        b == spec_starts_with_ci(hay@, needle@),
{
    if hay.len() < needle.len() {
        return false;
    }
    let mut k: usize = 0;
    while k < needle.len()
        invariant
            k <= needle@.len() <= hay@.len(),
            forall|j: int| 0 <= j < k ==> #[trigger] ascii_lower(hay@[j]) == ascii_lower(needle@[j]),
        decreases needle@.len() - k,
    {
        if lower(hay[k]) != lower(needle[k]) {
            return false;
        }
        k = k + 1;
    }
    true
}

/// Whether `bytes` looks like an SVG document: after a BOM and leading ASCII
/// whitespace, the root is `<svg` (case-insensitive), or an XML prolog opens
/// a window of [`SNIFF_WINDOW`] bytes that reaches an `<svg` tag.
pub fn is_svg(bytes: &[u8]) -> (b: bool)
    ensures
        b == spec_is_svg(bytes@),
{
    let start = skip_bom_and_ws(bytes);
    let end = if bytes.len() - start > SNIFF_WINDOW {
        start + SNIFF_WINDOW
    } else {
        bytes.len()
    };
    let window = vstd::slice::slice_subrange(bytes, start, end);
    assert(window@ == sniff_window(bytes@));
    if is_svg_root_at(window, 0) {
        return true;
    }
    let prolog: [u8; 5] = [0x3C, 0x3F, 0x78, 0x6D, 0x6C];
    assert(prolog@ =~= xml_prolog());
    if starts_with_ci(window, &prolog) {
        let mut i: usize = 0;
        while i < window.len()
            invariant
                i <= window@.len(),
                window@ == sniff_window(bytes@),
                spec_starts_with_ci(window@, xml_prolog()),
                forall|j: int| 0 <= j < i ==> !#[trigger] spec_svg_root_at(window@, j),
            decreases window@.len() - i,
        {
            if is_svg_root_at(window, i) {
                return true;
            }
            i = i + 1;
        }
        return false;
    }
    false
}

/// Reject dimensions over the limits or the pixel budget, for the 8-bit RGBA
/// raster an SVG decode allocates.
pub fn check_caps(w: u32, h: u32, limits: &DecodeLimits) -> (r: Result<(), LoadError>)
    ensures
        caps_outcome(r, spec_check_caps("svg"@, w, h, *limits)),
{
    check_decode_caps("svg", w, h, limits)
}


/// The `usvg` render tree.
#[verifier::external_type_specification]
#[verifier::external_body]
pub struct ExSvgTree(resvg::usvg::Tree);

/// The intrinsic size (each side rounded up to whole pixels) of the SVG
/// document `bytes`, or `None` when it does not parse.
pub uninterp spec fn svg_intrinsic_size(bytes: Seq<u8>) -> Option<(u32, u32)>;

/// `usvg::Tree::from_data` with hardened options (no resource directory,
/// every file/URL `href` refused, inline `data:` URIs kept, no system fonts),
/// then `Tree::size` with each side rounded up: the tree and its intrinsic
/// pixel size, or the parser's message.
#[verifier::external_body]
fn parse_tree_sized(bytes: &[u8]) -> (r: Result<(resvg::usvg::Tree, u32, u32), String>)
    ensures
        svg_intrinsic_size(bytes@) == match r {
            Ok((_, w, h)) => Some((w, h)),
            Err(_) => None::<(u32, u32)>,
        },
{
    let mut opt = resvg::usvg::Options::default();
    opt.image_href_resolver = resvg::usvg::ImageHrefResolver {
        resolve_data: resvg::usvg::ImageHrefResolver::default_data_resolver(),
        resolve_string: Box::new(|_href, _opts| None),
    };
    let tree = resvg::usvg::Tree::from_data(bytes, &opt).map_err(|e| e.to_string())?;
    let size = tree.size();
    Ok((tree, size.width().ceil() as u32, size.height().ceil() as u32))
}

/// The straight-alpha 8-bit RGBA raster (`4 * w * h` bytes, row-major) that
/// rendering the document `bytes`, parsed as [`parse_tree_sized`] parses it,
/// onto a fresh pixmap of its intrinsic size `w` x `h` gives; `None` when
/// the document does not parse or the pixmap cannot be made.
pub uninterp spec fn svg_raster(bytes: Seq<u8>) -> Option<Seq<u8>>;

/// Whether `tiny_skia::Pixmap::new` can make a `w` x `h` pixmap: both sides
/// at least one, a row's bytes within `i32`, the whole raster within `usize`.
pub open spec fn pixmap_fits(w: u32, h: u32) -> bool {
    &&& 1 <= w
    &&& 1 <= h
    &&& 4 * (w as int) <= i32::MAX
    &&& 4 * (w as int) * (h as int) <= usize::MAX
}

/// The samples of an 8-bit raster widened to 16 bits.
pub open spec fn widen8(v: Seq<u8>) -> Seq<u16> {
    Seq::new(v.len(), |i: int| to16(v[i]))
}

/// Parse `bytes` as [`parse_tree_sized`] does, then `resvg::render` onto a
/// fresh `tiny_skia::Pixmap` of the intrinsic size, demultiplied to straight
/// 8-bit RGBA. `Pixmap::new` refuses exactly the sizes [`pixmap_fits`]
/// rules out; the pixels themselves are named by [`svg_raster`].
#[verifier::external_body]
fn render_svg(bytes: &[u8]) -> (r: Option<Vec<u8>>)
    ensures
        match r {
            Some(v) => svg_raster(bytes@) == Some(v@),
            None => svg_raster(bytes@) is None,
        },
        match svg_intrinsic_size(bytes@) {
            None => r is None,
            Some((w, h)) => (r is Some <==> pixmap_fits(w, h)) && (r matches Some(v) ==> v@.len()
                == 4 * (w as int) * (h as int)),
        },
{
    let (tree, w, h) = parse_tree_sized(bytes).ok()?;
    let mut pixmap = resvg::tiny_skia::Pixmap::new(w, h)?;
    resvg::render(&tree, resvg::tiny_skia::Transform::identity(), &mut pixmap.as_mut());
    let px = pixmap.pixels().iter().map(|p| p.demultiply());
    Some(px.flat_map(|c| [c.red(), c.green(), c.blue(), c.alpha()]).collect())
}

/// `"svg: "` followed by `m`.
fn svg_error(m: &str) -> (e: LoadError)
    ensures
        e matches LoadError::Decode(s) && s@ == "svg: "@ + m@,
{
    let mut s = String::new();
    push_str(&mut s, "svg: ");
    push_str(&mut s, m);
    LoadError::Decode(s)
}

/// Rasterize an SVG document to straight-alpha 8-bit RGBA at its intrinsic
/// size, checking the caps on that size before allocating pixels.
pub fn decode_svg(bytes: &[u8], limits: &DecodeLimits) -> (r: Result<PixelBuffer, LoadError>)
    ensures
        match svg_intrinsic_size(bytes@) {
            None => r matches Err(LoadError::Decode(_)),
            Some((w, h)) => match spec_check_caps("svg"@, w, h, *limits) {
                Err(m) => r matches Err(LoadError::LimitsExceeded(e)) && e@ == m,
                Ok(()) => if pixmap_fits(w, h) {
                    r matches Ok(p) && p@ == (PixelModel {
                        width: w,
                        height: h,
                        color: ColorType::Rgba8,
                        samples: widen8(svg_raster(bytes@)->Some_0),
                    })
                } else {
                    r matches Err(LoadError::Decode(_))
                },
            },
        },
{
    let (_tree, w, h) = match parse_tree_sized(bytes) {
        Err(m) => return Err(svg_error(m.as_str())),
        Ok(t) => t,
    };
    match check_caps(w, h, limits) {
        Err(e) => return Err(e),
        Ok(()) => {},
    }
    let data = match render_svg(bytes) {
        None => return Err(svg_error("zero/invalid raster size")),
        Some(d) => d,
    };
    let ghost raster = data@;
    assert(4 * (w as int) * (h as int) == 4 * ((w as int) * (h as int))) by (nonlinear_arith);
    match PixelBuffer::from_rgba8(w, h, data) {
        None => Err(svg_error("raster buffer size mismatch")),
        Some(p) => {
            assert(p@.samples =~= widen8(raster));
            Ok(p)
        },
    }
}

} // verus!
