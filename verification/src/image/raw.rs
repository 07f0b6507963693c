//! Camera RAW: extraction of the embedded full-resolution JPEG preview.
//!
//! A RAW container (NEF, CR2, ARW, DNG, ...) embeds one or more baseline JPEG
//! previews. Rather than demosaicing the sensor data, this module walks the
//! bytes for embedded JPEG start-of-image markers, decodes each plausible
//! candidate under the decode caps (at most [`MAX_PREVIEW_CANDIDATES`] of
//! them), and keeps the largest. Routing here is by file extension, since
//! TIFF-based RAW is byte-indistinguishable from a plain TIFF.

use super::codec;
use super::pixels::npix;
use super::{
    check_pixel_budget, color_from_name, decode_limits, error_from_failure, pixels_from_raw,
    spec_color_from_name, spec_decode_limits, DecodeLimits, ImageFormat, ImageModel, LoadError,
    PixelBuffer, PixelModel, SourceContainer, MAX_IMAGE_PIXELS,
};
use crate::strings::{push_str, str_eq};
use vstd::prelude::*;

verus! {

/// Maximum number of candidate JPEG streams fully decoded.
pub const MAX_PREVIEW_CANDIDATES: usize = 16;

// ── Extension routing ───────────────────────────────────────────────────────

/// `c` lowercased when it is an ASCII capital letter.
pub open spec fn char_lower(c: char) -> char {
    if 'A' <= c && c <= 'Z' {
        ((c as u32) + 32) as char
    } else {
        c
    }
}

/// Index of the last `c` in `s`, or -1.
pub open spec fn last_index_of(s: Seq<char>, c: char) -> int
    decreases s.len(),
{
    if s.len() == 0 {
        -1
    } else if s.last() == c {
        s.len() - 1
    } else {
        last_index_of(s.drop_last(), c)
    }
}

/// The extension of `path`'s last component: the text after its last `.`,
/// when that `.` is not the component's first character.
pub open spec fn spec_extension(path: Seq<char>) -> Option<Seq<char>> {
    let f = path.subrange(last_index_of(path, '/') + 1, path.len() as int);
    let d = last_index_of(f, '.');
    if d <= 0 {
        None
    } else {
        Some(f.subrange(d + 1, f.len() as int))
    }
}

/// Whether `a` and `b` are equal ignoring ASCII case.
pub open spec fn eq_ignore_case(a: Seq<char>, b: Seq<char>) -> bool {
    a.len() == b.len() && forall|k: int| 0 <= k < a.len() ==> #[trigger] char_lower(a[k]) == char_lower(b[k])
}

/// The RAW extensions (lowercase).
pub open spec fn raw_extensions() -> Seq<Seq<char>> {
    seq![
        "nef"@, "nrw"@, "cr2"@, "cr3"@, "arw"@, "srf"@, "sr2"@, "dng"@, "raf"@, "rw2"@, "orf"@,
        "pef"@, "srw"@, "rwl"@, "raw"@,
    ]
}

/// Whether `path`'s extension names a RAW format (case-insensitive).
pub open spec fn spec_is_raw_extension(path: Seq<char>) -> bool {
    spec_extension(path) matches Some(e) && exists|k: int|
        0 <= k < raw_extensions().len() && eq_ignore_case(e, #[trigger] raw_extensions()[k])
}

proof fn lemma_last_index_of(s: Seq<char>, c: char)
    ensures
        -1 <= last_index_of(s, c) < s.len(),
        last_index_of(s, c) >= 0 ==> s[last_index_of(s, c)] == c,
        forall|j: int| last_index_of(s, c) < j < s.len() ==> #[trigger] s[j] != c,
    decreases s.len(),
{
    if s.len() > 0 && s.last() != c {
        lemma_last_index_of(s.drop_last(), c);
        assert(forall|j: int| 0 <= j < s.len() - 1 ==> s.drop_last()[j] == s[j]);
    }
}

proof fn lemma_last_index_of_char(s: Seq<char>, c: char, i: int)
    requires
        -1 <= i < s.len(),
        i >= 0 ==> s[i] == c,
        forall|j: int| i < j < s.len() ==> #[trigger] s[j] != c,
    ensures
        last_index_of(s, c) == i,
    decreases s.len(),
{
    if s.len() > 0 && i < s.len() - 1 {
        let d = s.drop_last();
        assert(forall|j: int| 0 <= j < d.len() ==> d[j] == s[j]);
        lemma_last_index_of_char(d, c, i);
    }
}

/// `c` lowercased when it is an ASCII capital letter.
fn lower_char(c: char) -> (l: char)
    ensures
        l == char_lower(c),
{
    if 'A' <= c && c <= 'Z' {
        ((c as u8) + 32) as char
    } else {
        c
    }
}

/// Index of the last `c` in `s[..end]`, or `None`.
fn last_index_before(s: &str, c: char, end: usize) -> (r: Option<usize>)
    requires
        end <= s@.len(),
    ensures
        match r {
            Some(i) => last_index_of(s@.subrange(0, end as int), c) == i,
            None => last_index_of(s@.subrange(0, end as int), c) == -1,
        },
{
    let ghost t = s@.subrange(0, end as int);
    let mut j: usize = end;
    while j > 0
        invariant
            j <= end <= s@.len(),
            t == s@.subrange(0, end as int),
            forall|k: int| j <= k < end ==> #[trigger] t[k] != c,
        decreases j,
    {
        if s.get_char(j - 1) == c {
            proof {
                lemma_last_index_of_char(t, c, j - 1);
            }
            return Some(j - 1);
        }
        j = j - 1;
    }
    proof {
        lemma_last_index_of_char(t, c, -1);
    }
    None
}

/// Whether `e` equals the lowercase literal `lit`, ignoring ASCII case.
pub(crate) fn ext_is(e: &str, lit: &str) -> (b: bool)
    ensures
        b == eq_ignore_case(e@, lit@),
{
    let n = e.unicode_len();
    if n != lit.unicode_len() {
        return false;
    }
    let mut k: usize = 0;
    while k < n
        invariant
            k <= n,
            n == e@.len(),
            n == lit@.len(),
            forall|j: int| 0 <= j < k ==> #[trigger] char_lower(e@[j]) == char_lower(lit@[j]),
        decreases n - k,
    {
        if lower_char(e.get_char(k)) != lower_char(lit.get_char(k)) {
            return false;
        }
        k = k + 1;
    }
    true
}

/// Whether `path`'s extension names a RAW format handled by
/// [`extract_preview`] (case-insensitive).
pub fn is_raw_extension(path: &str) -> (b: bool)
    ensures
        b == spec_is_raw_extension(path@),
{
    let n = path.unicode_len();
    let ghost p = path@;
    proof {
        lemma_last_index_of(p, '/');
        assert(p.subrange(0, n as int) =~= p);
    }
    let start = match last_index_before(path, '/', n) {
        Some(i) => i + 1,
        None => 0,
    };
    let file = path.substring_char(start, n);
    let fname_len = file.unicode_len();
    proof {
        lemma_last_index_of(file@, '.');
        assert(file@.subrange(0, fname_len as int) =~= file@);
    }
    let d = match last_index_before(file, '.', fname_len) {
        Some(d) => d,
        None => return false,
    };
    if d == 0 {
        return false;
    }
    let ext = file.substring_char(d + 1, fname_len);
    assert(spec_extension(path@) == Some(ext@));
    proof {
        reveal_strlit("nef");
        reveal_strlit("nrw");
        reveal_strlit("cr2");
        reveal_strlit("cr3");
        reveal_strlit("arw");
        reveal_strlit("srf");
        reveal_strlit("sr2");
        reveal_strlit("dng");
        reveal_strlit("raf");
        reveal_strlit("rw2");
        reveal_strlit("orf");
        reveal_strlit("pef");
        reveal_strlit("srw");
        reveal_strlit("rwl");
        reveal_strlit("raw");
    }
    let exts: [&str; 15] = [
        "nef", "nrw", "cr2", "cr3", "arw", "srf", "sr2", "dng", "raf", "rw2", "orf", "pef", "srw",
        "rwl", "raw",
    ];
    assert(forall|k: int| 0 <= k < 15 ==> #[trigger] exts@[k]@ == raw_extensions()[k]);
    let mut k: usize = 0;
    while k < 15
        invariant
            k <= 15,
            spec_extension(path@) == Some(ext@),
            forall|j: int| 0 <= j < 15 ==> #[trigger] exts@[j]@ == raw_extensions()[j],
            forall|j: int| 0 <= j < k ==> !eq_ignore_case(ext@, #[trigger] raw_extensions()[j]),
        decreases 15 - k,
    {
        if ext_is(ext, exts[k]) {
            assert(eq_ignore_case(ext@, raw_extensions()[k as int]));
            return true;
        }
        k = k + 1;
    }
    false
}

// ── Candidate scan ──────────────────────────────────────────────────────────

/// Whether `next` (the byte after `FF D8 FF`) can open a JPEG segment: APPn,
/// DQT, SOFn/DHT/DAC, or COM. `None` (end of buffer) cannot.
pub open spec fn spec_plausible_marker(next: Option<u8>) -> bool {
    match next {
        Some(m) => (0xE0 <= m && m <= 0xEF) || m == 0xDB || (0xC0 <= m && m <= 0xCF) || m == 0xFE,
        None => false,
    }
}

/// Whether `next` (the byte after `FF D8 FF`) is a plausible JPEG segment
/// marker.
pub fn is_plausible_jpeg_marker(next: Option<u8>) -> (b: bool)
    ensures
        b == spec_plausible_marker(next),
{
    match next {
        Some(m) => (0xE0 <= m && m <= 0xEF) || m == 0xDB || (0xC0 <= m && m <= 0xCF) || m == 0xFE,
        None => false,
    }
}

/// Whether an embedded JPEG candidate starts at `i`: `FF D8 FF` followed by
/// a plausible marker.
pub open spec fn is_candidate(bytes: Seq<u8>, i: int) -> bool {
    &&& 0 <= i
    &&& i + 3 <= bytes.len()
    &&& bytes[i] == 0xFF
    &&& bytes[i + 1] == 0xD8
    &&& bytes[i + 2] == 0xFF
    &&& spec_plausible_marker(if i + 3 < bytes.len() { Some(bytes[i + 3]) } else { None })
}

/// The candidate positions found scanning from `i`: after a candidate the
/// scan resumes three bytes on, otherwise one byte on.
pub open spec fn candidates_from(bytes: Seq<u8>, i: int) -> Seq<int>
    decreases bytes.len() - i,
{
    if i < 0 || i + 3 > bytes.len() {
        Seq::empty()
    } else if is_candidate(bytes, i) {
        seq![i] + candidates_from(bytes, i + 3)
    } else {
        candidates_from(bytes, i + 1)
    }
}

/// The candidates actually attempted: the first [`MAX_PREVIEW_CANDIDATES`].
pub open spec fn attempted(bytes: Seq<u8>) -> Seq<int> {
    let c = candidates_from(bytes, 0);
    if c.len() <= MAX_PREVIEW_CANDIDATES {
        c
    } else {
        c.take(MAX_PREVIEW_CANDIDATES as int)
    }
}

/// What decoding one candidate gives.
pub enum Candidate {
    /// It decoded.
    Pixels(PixelModel),
    /// It was rejected for exceeding the caps.
    TooLarge,
    /// It is not a decodable JPEG.
    Skip,
}

/// The outcome of decoding `tail` (the bytes from a candidate on) as JPEG
/// under `limits`: peek the declared dimensions, check the pixel budget, then
/// decode.
pub open spec fn spec_candidate(tail: Seq<u8>, limits: DecodeLimits) -> Candidate {
    match codec::dimensions_as(tail, "jpg"@, limits.max_image_width, limits.max_image_height, limits.max_alloc) {
        Err(l) => if l {
            Candidate::TooLarge
        } else {
            Candidate::Skip
        },
        Ok((w, h)) => if w * h > MAX_IMAGE_PIXELS {
            Candidate::TooLarge
        } else {
            match codec::decoded_as(tail, "jpg"@, limits.max_image_width, limits.max_image_height, limits.max_alloc) {
                Err(l) => if l {
                    Candidate::TooLarge
                } else {
                    Candidate::Skip
                },
                Ok((pw, ph, cn, samples)) => match spec_color_from_name(cn) {
                    Some(ct) => if samples.len() == 4 * npix(pw, ph) {
                        Candidate::Pixels(PixelModel { width: pw, height: ph, color: ct, samples })
                    } else {
                        Candidate::Skip
                    },
                    None => Candidate::Skip,
                },
            }
        },
    }
}

/// The candidate at position `i` of `bytes`.
pub open spec fn candidate_at(bytes: Seq<u8>, i: int, limits: DecodeLimits) -> Candidate {
    spec_candidate(bytes.subrange(i, bytes.len() as int), limits)
}

/// The largest decoded preview among the candidates `cs` (the first one of
/// the largest pixel count) and its pixel count.
pub open spec fn fold_best(bytes: Seq<u8>, limits: DecodeLimits, cs: Seq<int>) -> (Option<PixelModel>, int)
    decreases cs.len(),
{
    if cs.len() == 0 {
        (None, 0)
    } else {
        let prev = fold_best(bytes, limits, cs.drop_last());
        match candidate_at(bytes, cs.last(), limits) {
            Candidate::Pixels(p) => if npix(p.width, p.height) > prev.1 {
                (Some(p), npix(p.width, p.height))
            } else {
                prev
            },
            _ => prev,
        }
    }
}

/// Whether some candidate of `cs` was rejected for exceeding the caps.
pub open spec fn any_too_large(bytes: Seq<u8>, limits: DecodeLimits, cs: Seq<int>) -> bool {
    exists|k: int| 0 <= k < cs.len() && #[trigger] candidate_at(bytes, cs[k], limits) is TooLarge
}

/// Decode a JPEG byte stream under `limits`, forcing the JPEG format: peek
/// the declared dimensions, check the pixel budget, then decode.
pub fn decode_jpeg_with_limits(bytes: &[u8], limits: &DecodeLimits) -> (r: Result<PixelBuffer, LoadError>)
    ensures
        match spec_candidate(bytes@, *limits) {
            Candidate::Pixels(p) => r matches Ok(b) && b@ == p,
            Candidate::TooLarge => r matches Err(LoadError::LimitsExceeded(_)),
            Candidate::Skip => r matches Err(e) && !(e is LimitsExceeded),
        },
{
    let (w, h) = match codec::peek_dimensions_as(bytes, "jpg", limits) {
        Err(f) => return Err(error_from_failure(f)),
        Ok(d) => d,
    };
    match check_pixel_budget(w, h) {
        Err(e) => return Err(e),
        Ok(()) => {},
    }
    let raw = match codec::decode_as(bytes, "jpg", limits) {
        Err(f) => return Err(error_from_failure(f)),
        Ok(raw) => raw,
    };
    pixels_from_raw(raw)
}


/// The model of an optional pixel buffer.
pub open spec fn opt_pixels(o: Option<PixelBuffer>) -> Option<PixelModel> {
    match o {
        Some(p) => Some(p@),
        None => None,
    }
}

proof fn lemma_take_prefix(done: Seq<int>, rest: Seq<int>)
    requires
        done.len() == MAX_PREVIEW_CANDIDATES,
    ensures
        (if (done + rest).len() <= MAX_PREVIEW_CANDIDATES {
            done + rest
        } else {
            (done + rest).take(MAX_PREVIEW_CANDIDATES as int)
        }) == done || rest.len() == 0,
{
    if rest.len() > 0 {
        assert((done + rest).take(MAX_PREVIEW_CANDIDATES as int) =~= done);
    }
}

/// Walk `bytes` for embedded JPEG start-of-image markers, decode each
/// plausible candidate under `limits` (at most [`MAX_PREVIEW_CANDIDATES`]),
/// and keep the largest by pixel count. Returns the largest decoded preview,
/// the reason given by the last candidate rejected for exceeding the caps,
/// and how many candidates were decoded.
pub fn scan_for_preview(bytes: &[u8], limits: &DecodeLimits) -> (r: (
    Option<PixelBuffer>,
    Option<String>,
    usize,
))
    ensures
        r.2 == attempted(bytes@).len(),
        opt_pixels(r.0) == fold_best(bytes@, *limits, attempted(bytes@)).0,
        r.1 is Some == any_too_large(bytes@, *limits, attempted(bytes@)),
{
    let mut best: Option<PixelBuffer> = None;
    let mut best_px: u64 = 0;
    let mut oversize: Option<String> = None;
    let mut attempts: usize = 0;
    let mut stop = false;
    let ghost mut done: Seq<int> = Seq::empty();
    let n = bytes.len();
    let mut i: usize = 0;
    assert(done + candidates_from(bytes@, 0) =~= candidates_from(bytes@, 0));
    while !stop && i <= n && n - i >= 3
        invariant
            n == bytes@.len(),
            candidates_from(bytes@, 0) == done + candidates_from(bytes@, i as int),
            attempts == done.len(),
            attempts <= MAX_PREVIEW_CANDIDATES,
            opt_pixels(best) == fold_best(bytes@, *limits, done).0,
            best_px == fold_best(bytes@, *limits, done).1,
            oversize is Some == any_too_large(bytes@, *limits, done),
            stop ==> attempts == MAX_PREVIEW_CANDIDATES && candidates_from(bytes@, i as int).len() > 0,
        decreases n + 3 - i, if stop { 0int } else { 1int },
    {
        let next = if i + 3 < n {
            Some(bytes[i + 3])
        } else {
            None
        };
        if bytes[i] == 0xFF && bytes[i + 1] == 0xD8 && bytes[i + 2] == 0xFF
            && is_plausible_jpeg_marker(next) {
            assert(is_candidate(bytes@, i as int));
            if attempts >= MAX_PREVIEW_CANDIDATES {
                stop = true;
            } else {
                attempts = attempts + 1;
                let tail = vstd::slice::slice_subrange(bytes, i, n);
                let ghost prev = done;
                proof {
                    done = done.push(i as int);
                    assert(done.drop_last() =~= prev);
                    assert(prev + candidates_from(bytes@, i as int) =~= done + candidates_from(
                        bytes@,
                        i + 3,
                    ));
                    assert forall|k: int| 0 <= k < done.len() implies #[trigger] done[k] == (if k
                        < prev.len() {
                        prev[k]
                    } else {
                        i as int
                    }) by {}
                    if candidate_at(bytes@, i as int, *limits) is TooLarge {
                        assert(done[prev.len() as int] == i);
                    }
                    if any_too_large(bytes@, *limits, prev) {
                        let k = choose|k: int|
                            0 <= k < prev.len() && #[trigger] candidate_at(bytes@, prev[k], *limits)
                                is TooLarge;
                        assert(done[k] == prev[k]);
                    }
                }
                match decode_jpeg_with_limits(tail, limits) {
                    Ok(img) => {
                        let w = img.width();
                        let h = img.height();
                        assert((w as int) * (h as int) <= 0xFFFF_FFFE_0000_0001) by (nonlinear_arith)
                            requires
                                w <= 0xFFFF_FFFF,
                                h <= 0xFFFF_FFFF,
                        ;
                        let px = (w as u64) * (h as u64);
                        if px > best_px {
                            best_px = px;
                            best = Some(img);
                        }
                    },
                    Err(LoadError::LimitsExceeded(why)) => {
                        oversize = Some(why);
                    },
                    Err(_) => {},
                }
                i = i + 3;
            }
        } else {
            assert(!is_candidate(bytes@, i as int));
            i = i + 1;
        }
    }
    proof {
        if stop {
            lemma_take_prefix(done, candidates_from(bytes@, i as int));
        } else {
            assert(candidates_from(bytes@, i as int) =~= Seq::<int>::empty());
            assert(done + candidates_from(bytes@, i as int) =~= done);
        }
    }
    (best, oversize, attempts)
}

/// The message when no candidate decodes.
pub open spec fn no_preview_message() -> Seq<char> {
    "raw: no decodable embedded JPEG preview"@
}

/// What extracting the preview of `bytes` under `limits` gives.
pub open spec fn extract_ok(r: Result<PixelModel, LoadError>, bytes: Seq<u8>, limits: DecodeLimits) -> bool {
    match fold_best(bytes, limits, attempted(bytes)).0 {
        Some(p) => r == Ok::<PixelModel, LoadError>(p),
        None => if any_too_large(bytes, limits, attempted(bytes)) {
            r matches Err(LoadError::LimitsExceeded(_))
        } else {
            r matches Err(LoadError::Decode(m)) && m@ == no_preview_message()
        },
    }
}

/// What [`super::raw_preview`] yields for `bytes`.
pub open spec fn raw_preview_ok(r: Result<ImageModel, LoadError>, bytes: Seq<u8>) -> bool {
    extract_ok(
        match r {
            Ok(m) => Ok(m.pixels),
            Err(e) => Err(e),
        },
        bytes,
        spec_decode_limits(),
    ) && (r matches Ok(m) ==> m == (ImageModel {
        pixels: m.pixels,
        source_format: ImageFormat::Jpeg,
        metadata: None,
        truncated_jpeg: false,
        animated_input: false,
        source_container: SourceContainer::RawPreview,
    }))
}

/// A RAW preview load is determined by the bytes: when one succeeds with
/// `a`, every preview load of the same bytes gives `a`.
pub proof fn law_raw_preview_determined(bytes: Seq<u8>, a: ImageModel, r: Result<ImageModel, LoadError>)
    requires
        raw_preview_ok(Ok(a), bytes),
        raw_preview_ok(r, bytes),
    ensures
        r == Ok::<ImageModel, LoadError>(a),
{
}

/// Extract the largest embedded JPEG preview from RAW `bytes`, under
/// `limits` on every candidate. `LimitsExceeded` when the only previews
/// exceed the caps (naming the cap); `Decode` when none decodes at all.
pub fn extract_preview(bytes: &[u8], limits: &DecodeLimits) -> (r: Result<PixelBuffer, LoadError>)
    ensures
        extract_ok(
            match r {
                Ok(p) => Ok(p@),
                Err(e) => Err(e),
            },
            bytes@,
            *limits,
        ),
{
    let (best, oversize, _attempts) = scan_for_preview(bytes, limits);
    match best {
        Some(img) => Ok(img),
        None => match oversize {
            Some(reason) => {
                let mut m = String::new();
                push_str(&mut m, "raw: embedded preview exceeds decode caps: ");
                push_str(&mut m, reason.as_str());
                Err(LoadError::LimitsExceeded(m))
            },
            None => {
                let mut m = String::new();
                push_str(&mut m, "raw: no decodable embedded JPEG preview");
                Err(LoadError::Decode(m))
            },
        },
    }
}

/// `max(a, b)`.
pub open spec fn max_int(a: int, b: int) -> int {
    if a >= b {
        a
    } else {
        b
    }
}

/// The largest declared pixel count among the candidates `cs` whose JPEG
/// header parses under the default reader limits.
pub open spec fn fold_declared(bytes: Seq<u8>, cs: Seq<int>) -> Option<int>
    decreases cs.len(),
{
    if cs.len() == 0 {
        None
    } else {
        let prev = fold_declared(bytes, cs.drop_last());
        match codec::dimensions_as(
            bytes.subrange(cs.last(), bytes.len() as int),
            "jpg"@,
            None,
            None,
            Some(536870912u64),
        ) {
            Ok((w, h)) => Some(
                match prev {
                    Some(b) => max_int(b, w * h),
                    None => w * h,
                },
            ),
            Err(_) => prev,
        }
    }
}

/// The declared pixel count of the largest candidate embedded JPEG, read from
/// each candidate's header alone (no pixel decode). `None` when no candidate
/// header parses.
pub fn largest_declared_preview_pixels(bytes: &[u8]) -> (r: Option<u64>)
    ensures
        match r {
            Some(v) => fold_declared(bytes@, attempted(bytes@)) == Some(v as int),
            None => fold_declared(bytes@, attempted(bytes@)) is None,
        },
{
    let limits = DecodeLimits::default();
    let mut best: Option<u64> = None;
    let mut attempts: usize = 0;
    let mut stop = false;
    let ghost mut done: Seq<int> = Seq::empty();
    let n = bytes.len();
    let mut i: usize = 0;
    assert(done + candidates_from(bytes@, 0) =~= candidates_from(bytes@, 0));
    while !stop && i <= n && n - i >= 3
        invariant
            n == bytes@.len(),
            limits == DecodeLimits::spec_default(),
            candidates_from(bytes@, 0) == done + candidates_from(bytes@, i as int),
            attempts == done.len(),
            attempts <= MAX_PREVIEW_CANDIDATES,
            match best {
                Some(v) => fold_declared(bytes@, done) == Some(v as int),
                None => fold_declared(bytes@, done) is None,
            },
            stop ==> attempts == MAX_PREVIEW_CANDIDATES && candidates_from(bytes@, i as int).len() > 0,
        decreases n + 3 - i, if stop { 0int } else { 1int },
    {
        let next = if i + 3 < n {
            Some(bytes[i + 3])
        } else {
            None
        };
        if bytes[i] == 0xFF && bytes[i + 1] == 0xD8 && bytes[i + 2] == 0xFF
            && is_plausible_jpeg_marker(next) {
            assert(is_candidate(bytes@, i as int));
            if attempts >= MAX_PREVIEW_CANDIDATES {
                stop = true;
            } else {
                attempts = attempts + 1;
                let tail = vstd::slice::slice_subrange(bytes, i, n);
                let ghost prev = done;
                proof {
                    done = done.push(i as int);
                    assert(done.drop_last() =~= prev);
                    assert(prev + candidates_from(bytes@, i as int) =~= done + candidates_from(
                        bytes@,
                        i + 3,
                    ));
                }
                match codec::peek_dimensions_as(tail, "jpg", &limits) {
                    Ok((w, h)) => {
                        assert((w as int) * (h as int) <= 0xFFFF_FFFE_0000_0001) by (nonlinear_arith)
                            requires
                                w <= 0xFFFF_FFFF,
                                h <= 0xFFFF_FFFF,
                        ;
                        let px = (w as u64) * (h as u64);
                        best = match best {
                            Some(b) => Some(if b >= px { b } else { px }),
                            None => Some(px),
                        };
                    },
                    Err(_) => {},
                }
                i = i + 3;
            }
        } else {
            assert(!is_candidate(bytes@, i as int));
            i = i + 1;
        }
    }
    proof {
        if stop {
            lemma_take_prefix(done, candidates_from(bytes@, i as int));
        } else {
            assert(candidates_from(bytes@, i as int) =~= Seq::<int>::empty());
            assert(done + candidates_from(bytes@, i as int) =~= done);
        }
    }
    best
}

} // verus!
