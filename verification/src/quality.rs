//! Perceptual auto-quality: which formats a quality search can drive, the
//! errors, and the decisions of the bisection over encoder qualities.
//!
//! The search probes one quality at a time (the encode, decode and score of
//! a probe happen at the edge, in floating point); [`SearchState`] decides
//! which quality to probe next and which one to choose.

use vstd::prelude::*;

use crate::image::{Image, ImageFormat};
use crate::sink::encode::{clamp_quality, encode_buffer, encode_jpeg_at, jpeg_at_quality, spec_encode_model};
use crate::strings::push_str;

verus! {

/// The lowest quality a search probes by default.
pub const MIN_SEARCH_QUALITY: u8 = 1;

/// The highest quality a search probes by default.
pub const MAX_SEARCH_QUALITY: u8 = 100;

/// The default probe budget of a search.
pub const MAX_SEARCH_ITERS: u8 = 8;

/// A quality-search failure.
#[derive(Debug, Clone, PartialEq, Eq)]
pub enum QualityError {
    /// The perceptual metric failed.
    Score(String),
    /// Converting an image for scoring failed.
    Convert(String),
    /// Encoding or decoding a candidate failed.
    Encode(String),
}

/// The human message of a quality error.
pub open spec fn spec_quality_error_message(e: QualityError) -> Seq<char> {
    match e {
        QualityError::Score(s) => "perceptual scoring failed: "@ + s@,
        QualityError::Convert(s) => "image conversion for scoring failed: "@ + s@,
        QualityError::Encode(s) => "could not encode/decode candidate during quality search: "@ + s@,
    }
}

impl QualityError {
    /// The human message.
    pub fn message(&self) -> (m: String)
        ensures
            m@ == spec_quality_error_message(*self),
    {
        let mut m = String::new();
        match self {
            QualityError::Score(s) => {
                push_str(&mut m, "perceptual scoring failed: ");
                push_str(&mut m, s.as_str());
            },
            QualityError::Convert(s) => {
                push_str(&mut m, "image conversion for scoring failed: ");
                push_str(&mut m, s.as_str());
            },
            QualityError::Encode(s) => {
                push_str(&mut m, "could not encode/decode candidate during quality search: ");
                push_str(&mut m, s.as_str());
            },
        }
        m
    }
}

/// Which formats a quality search can drive.
pub trait LossyFormat {
    /// Whether the format has a lossy quality knob the byte-budget search can
    /// drive.
    fn supports_lossy_quality(self) -> bool;

    /// Whether the perceptual (score-target) search supports the format.
    fn supports_perceptual_quality(self) -> bool;
}

impl LossyFormat for ImageFormat {
    /// JPEG is the lossy format this build encodes.
    fn supports_lossy_quality(self) -> (b: bool)
        ensures
            b == (self == ImageFormat::Jpeg),
    {
        match self {
            ImageFormat::Jpeg => true,
            _ => false,
        }
    }

    /// JPEG is the format this build scores perceptually.
    fn supports_perceptual_quality(self) -> (b: bool)
        ensures
            b == (self == ImageFormat::Jpeg),
    {
        match self {
            ImageFormat::Jpeg => true,
            _ => false,
        }
    }
}

// ── Bisection ───────────────────────────────────────────────────────────────

/// The state of a bisection over qualities `lo..=hi`: the probes made, the
/// preferred accepted quality so far, the last quality probed, and whether
/// the search ran into an end of the range.
#[derive(Debug, Clone, Copy, PartialEq, Eq, Structural)]
pub struct SearchState {
    pub lo: u8,
    pub hi: u8,
    pub iters: u8,
    pub best: Option<u8>,
    pub last: u8,
    pub stopped: bool,
}

/// The midpoint of the open range.
pub open spec fn spec_mid(s: SearchState) -> int {
    s.lo + (s.hi - s.lo) / 2
}

/// Whether a state is one a search over `min..=max` can reach: the open
/// range lies inside the bounds (or is empty just past one of them), and
/// every recorded quality lies in the bounds.
pub open spec fn search_wf(s: SearchState, min: u8, max: u8) -> bool {
    &&& min <= max
    &&& min <= s.lo
    &&& s.hi <= max
    &&& s.lo <= s.hi + 1
    &&& s.lo <= max + 1
    &&& min <= s.last <= max
    &&& (s.best matches Some(b) ==> min <= b <= max)
}

/// The start of a search over `min..=max`.
pub fn search_start(min: u8, max: u8) -> (s: SearchState)
    requires
        min <= max,
    ensures
        s == (SearchState { lo: min, hi: max, iters: 0, best: None, last: max, stopped: false }),
        search_wf(s, min, max),
{
    SearchState { lo: min, hi: max, iters: 0, best: None, last: max, stopped: false }
}

/// The quality to probe next: the midpoint of the open range, or `None` when
/// the range is empty, the search stopped at an end, or `max_iters` probes
/// were made.
pub fn next_probe(s: &SearchState, max_iters: u8) -> (q: Option<u8>)
    ensures
        q == (if !s.stopped && s.lo <= s.hi && s.iters < max_iters {
            Some(spec_mid(*s) as u8)
        } else {
            None
        }),
{
    if !s.stopped && s.lo <= s.hi && s.iters < max_iters {
        Some(s.lo + (s.hi - s.lo) / 2)
    } else {
        None
    }
}

/// The state after probing `probed` (the midpoint): an accepted probe
/// becomes the best so far; the search moves toward lower qualities when the
/// probe was accepted and lower is preferred (or rejected and higher is
/// preferred), else toward higher ones, and stops at an end of the range.
pub open spec fn spec_step(s: SearchState, min: u8, max: u8, probed: u8, accepted: bool, prefer_lower: bool) -> SearchState {
    let best = if accepted {
        Some(probed)
    } else {
        s.best
    };
    let go_lower = if accepted {
        prefer_lower
    } else {
        !prefer_lower
    };
    let base = SearchState { iters: (s.iters + 1) as u8, best, last: probed, ..s };
    if go_lower {
        if probed == min {
            SearchState { stopped: true, ..base }
        } else {
            SearchState { hi: (probed - 1) as u8, ..base }
        }
    } else {
        if probed == max {
            SearchState { stopped: true, ..base }
        } else {
            SearchState { lo: (probed + 1) as u8, ..base }
        }
    }
}

/// Advance the search by one probe of `probed`, which the caller judged
/// `accepted` or not.
pub fn search_step(s: SearchState, min: u8, max: u8, probed: u8, accepted: bool, prefer_lower: bool) -> (n: SearchState)
    requires
        search_wf(s, min, max),
        !s.stopped,
        s.lo <= s.hi,
        s.iters < 255,
        probed == spec_mid(s),
    ensures
        n == spec_step(s, min, max, probed, accepted, prefer_lower),
        search_wf(n, min, max),
        n.iters == s.iters + 1,
        n.stopped || n.hi - n.lo < s.hi - s.lo,
{
    let best = if accepted {
        Some(probed)
    } else {
        s.best
    };
    let go_lower = if accepted {
        prefer_lower
    } else {
        !prefer_lower
    };
    let base = SearchState { iters: s.iters + 1, best, last: probed, ..s };
    if go_lower {
        if probed == min {
            SearchState { stopped: true, ..base }
        } else {
            SearchState { hi: probed - 1, ..base }
        }
    } else {
        if probed == max {
            SearchState { stopped: true, ..base }
        } else {
            SearchState { lo: probed + 1, ..base }
        }
    }
}

/// The choice a finished search makes: the best accepted quality (and the
/// target was met), else the fallback end of the range (the maximum when
/// lower is preferred, the minimum otherwise) with the target unmet. The
/// third component says whether the last probe was of the fallback quality,
/// so its measurement is the one to report.
pub open spec fn spec_choice(s: SearchState, min: u8, max: u8, prefer_lower: bool) -> (u8, bool, bool) {
    match s.best {
        Some(q) => (q, true, false),
        None => {
            let fallback = if prefer_lower {
                max
            } else {
                min
            };
            (fallback, false, s.last == fallback)
        },
    }
}

/// The quality a finished search chooses, whether it met the target, and
/// whether the last probe measured the chosen (fallback) quality.
pub fn search_choice(s: &SearchState, min: u8, max: u8, prefer_lower: bool) -> (c: (u8, bool, bool))
    ensures
        c == spec_choice(*s, min, max, prefer_lower),
        search_wf(*s, min, max) ==> min <= c.0 <= max,
{
    match s.best {
        Some(q) => (q, true, false),
        None => {
            let fallback = if prefer_lower {
                max
            } else {
                min
            };
            (fallback, false, s.last == fallback)
        },
    }
}


// ── Search laws ─────────────────────────────────────────────────────────────

/// A whole search over `min..=max` from state `s`: probe the next quality,
/// judge it by `acc`, and step, until [`next_probe`] has nothing left.
pub open spec fn search_run(
    s: SearchState,
    min: u8,
    max: u8,
    acc: spec_fn(u8) -> bool,
    prefer_lower: bool,
    max_iters: u8,
) -> SearchState
    decreases max_iters - s.iters,
{
    if !s.stopped && s.lo <= s.hi && s.iters < max_iters {
        let q = spec_mid(s) as u8;
        search_run(spec_step(s, min, max, q, acc(q), prefer_lower), min, max, acc, prefer_lower, max_iters)
    } else {
        s
    }
}

/// `acc` is monotone away from the preferred end of `min..=max`: once a
/// quality is accepted, so is every quality further from that end (a higher
/// quality scores higher; a lower quality encodes smaller).
pub open spec fn monotone_away(acc: spec_fn(u8) -> bool, min: u8, max: u8, prefer_lower: bool) -> bool {
    forall|a: u8, b: u8|
        #![trigger acc(a), acc(b)]
        min <= a <= b <= max ==> if prefer_lower {
            acc(a) ==> acc(b)
        } else {
            acc(b) ==> acc(a)
        }
}

/// What a search state knows of `acc`: the qualities it ruled out, and that
/// its best quality is the boundary of what it ruled out.
spec fn search_inv(s: SearchState, min: u8, max: u8, acc: spec_fn(u8) -> bool, prefer_lower: bool) -> bool {
    &&& search_wf(s, min, max)
    &&& if prefer_lower {
        &&& forall|q: u8| min <= q < s.lo ==> !#[trigger] acc(q)
        &&& match s.best {
            Some(b) => acc(b) && if s.stopped {
                b == min
            } else {
                b == s.hi + 1
            },
            None => s.hi == max && (s.stopped ==> forall|q: u8| min <= q <= max ==> !#[trigger] acc(q)),
        }
    } else {
        &&& forall|q: u8| s.hi < q <= max ==> !#[trigger] acc(q)
        &&& match s.best {
            Some(b) => acc(b) && if s.stopped {
                b == max
            } else {
                b + 1 == s.lo
            },
            None => s.lo == min && (s.stopped ==> forall|q: u8| min <= q <= max ==> !#[trigger] acc(q)),
        }
    }
}

/// The open range of a running search at least halves with every probe.
spec fn size_inv(s: SearchState, min: u8, max: u8) -> bool {
    s.stopped || (s.hi + 1 - s.lo) * vstd::arithmetic::power2::pow2(s.iters as nat) <= max + 1 - min
}

proof fn lemma_step_inv(s: SearchState, min: u8, max: u8, acc: spec_fn(u8) -> bool, prefer_lower: bool)
    requires
        search_inv(s, min, max, acc, prefer_lower),
        size_inv(s, min, max),
        monotone_away(acc, min, max, prefer_lower),
        !s.stopped,
        s.lo <= s.hi,
        s.iters < 255,
    ensures
        search_inv(spec_step(s, min, max, spec_mid(s) as u8, acc(spec_mid(s) as u8), prefer_lower), min, max, acc, prefer_lower),
        size_inv(spec_step(s, min, max, spec_mid(s) as u8, acc(spec_mid(s) as u8), prefer_lower), min, max),
{
    let q = spec_mid(s) as u8;
    let n = spec_step(s, min, max, q, acc(q), prefer_lower);
    assert(acc(q) == acc(q));
    assert(acc(max) == acc(max));
    assert(acc(min) == acc(min));
    if !n.stopped {
        let size = s.hi + 1 - s.lo;
        let nsize = n.hi + 1 - n.lo;
        assert(2 * nsize <= size);
        let p = vstd::arithmetic::power2::pow2(s.iters as nat);
        vstd::arithmetic::power2::lemma_pow2_unfold((s.iters + 1) as nat);
        assert(nsize * (2 * p) <= size * p) by (nonlinear_arith)
            requires
                2 * nsize <= size,
                nsize >= 0,
                p >= 0,
        ;
        assert(nsize * (2 * p) == nsize * vstd::arithmetic::power2::pow2(n.iters as nat));
    }
}

proof fn lemma_run_inv(
    s: SearchState,
    min: u8,
    max: u8,
    acc: spec_fn(u8) -> bool,
    prefer_lower: bool,
    max_iters: u8,
)
    requires
        search_inv(s, min, max, acc, prefer_lower),
        size_inv(s, min, max),
        monotone_away(acc, min, max, prefer_lower),
        s.iters <= max_iters,
    ensures
        search_inv(search_run(s, min, max, acc, prefer_lower, max_iters), min, max, acc, prefer_lower),
        size_inv(search_run(s, min, max, acc, prefer_lower, max_iters), min, max),
        search_run(s, min, max, acc, prefer_lower, max_iters).iters <= max_iters,
        ({
            let r = search_run(s, min, max, acc, prefer_lower, max_iters);
            r.stopped || r.lo > r.hi || r.iters >= max_iters
        }),
    decreases max_iters - s.iters,
{
    if !s.stopped && s.lo <= s.hi && s.iters < max_iters {
        let q = spec_mid(s) as u8;
        lemma_step_inv(s, min, max, acc, prefer_lower);
        lemma_run_inv(spec_step(s, min, max, q, acc(q), prefer_lower), min, max, acc, prefer_lower, max_iters);
    }
}

/// Each probe lies in the open range, and the step that follows narrows
/// the range to one side of it: the range only shrinks, and it never holds
/// a quality probed before, so no quality is probed twice.
pub proof fn law_search_never_revisits(s: SearchState, min: u8, max: u8, accepted: bool, prefer_lower: bool)
    requires
        search_wf(s, min, max),
        !s.stopped,
        s.lo <= s.hi,
    ensures
        ({
            let q = spec_mid(s) as u8;
            let n = spec_step(s, min, max, q, accepted, prefer_lower);
            &&& s.lo <= q <= s.hi
            &&& s.lo <= n.lo
            &&& n.hi <= s.hi
            &&& !n.stopped ==> (q < n.lo || n.hi < q)
        }),
{
}

/// A search never probes more than `max_iters` qualities, and whatever it
/// chooses lies in `min..=max`.
pub proof fn law_search_bounded(min: u8, max: u8, acc: spec_fn(u8) -> bool, prefer_lower: bool, max_iters: u8)
    requires
        min <= max,
    ensures
        ({
            let r = search_run(
                SearchState { lo: min, hi: max, iters: 0, best: None, last: max, stopped: false },
                min,
                max,
                acc,
                prefer_lower,
                max_iters,
            );
            &&& r.iters <= max_iters
            &&& min <= spec_choice(r, min, max, prefer_lower).0 <= max
        }),
{
    let s = SearchState { lo: min, hi: max, iters: 0, best: None, last: max, stopped: false };
    lemma_bounded_run(s, min, max, acc, prefer_lower, max_iters);
}

proof fn lemma_bounded_run(
    s: SearchState,
    min: u8,
    max: u8,
    acc: spec_fn(u8) -> bool,
    prefer_lower: bool,
    max_iters: u8,
)
    requires
        search_wf(s, min, max),
        s.iters <= max_iters,
    ensures
        search_wf(search_run(s, min, max, acc, prefer_lower, max_iters), min, max),
        search_run(s, min, max, acc, prefer_lower, max_iters).iters <= max_iters,
    decreases max_iters - s.iters,
{
    if !s.stopped && s.lo <= s.hi && s.iters < max_iters {
        let q = spec_mid(s) as u8;
        lemma_bounded_run(spec_step(s, min, max, q, acc(q), prefer_lower), min, max, acc, prefer_lower, max_iters);
    }
}

/// With the default budget of eight probes, a search over at most 255
/// qualities whose acceptance is monotone finds the boundary: when lower is
/// preferred, the lowest accepted quality; otherwise the highest. When no
/// quality is accepted it says so and falls back to the other end.
pub proof fn law_search_finds_boundary(
    min: u8,
    max: u8,
    acc: spec_fn(u8) -> bool,
    prefer_lower: bool,
    max_iters: u8,
)
    requires
        min <= max,
        max - min < 255,
        max_iters >= 8,
        monotone_away(acc, min, max, prefer_lower),
    ensures
        ({
            let r = search_run(
                SearchState { lo: min, hi: max, iters: 0, best: None, last: max, stopped: false },
                min,
                max,
                acc,
                prefer_lower,
                max_iters,
            );
            let c = spec_choice(r, min, max, prefer_lower);
            &&& c.1 ==> acc(c.0)
            &&& c.1 && prefer_lower ==> forall|q: u8| min <= q < c.0 ==> !#[trigger] acc(q)
            &&& c.1 && !prefer_lower ==> forall|q: u8| c.0 < q <= max ==> !#[trigger] acc(q)
            &&& !c.1 ==> c.0 == (if prefer_lower { max } else { min })
            &&& !c.1 ==> forall|q: u8| min <= q <= max ==> !#[trigger] acc(q)
        }),
{
    let s = SearchState { lo: min, hi: max, iters: 0, best: None, last: max, stopped: false };
    vstd::arithmetic::power2::lemma2_to64();
    assert(vstd::arithmetic::power2::pow2(s.iters as nat) == 1);
    assert(size_inv(s, min, max));
    lemma_run_inv(s, min, max, acc, prefer_lower, max_iters);
    let r = search_run(s, min, max, acc, prefer_lower, max_iters);
    if !r.stopped && r.lo <= r.hi {
        assert(r.iters >= max_iters);
        if r.iters > 8 {
            vstd::arithmetic::power2::lemma_pow2_strictly_increases(8, r.iters as nat);
        }
        let p = vstd::arithmetic::power2::pow2(r.iters as nat);
        assert(r.hi + 1 - r.lo >= 1);
        assert((r.hi + 1 - r.lo) * p >= p) by (nonlinear_arith)
            requires
                r.hi + 1 - r.lo >= 1,
                p >= 0,
        ;
        assert(false);
    }
}

/// A stricter acceptance never moves the choice toward the preferred end: a
/// higher score target never lowers the chosen quality, and a smaller size
/// budget never raises it.
pub proof fn law_search_monotone_in_acceptance(
    min: u8,
    max: u8,
    loose: spec_fn(u8) -> bool,
    strict: spec_fn(u8) -> bool,
    prefer_lower: bool,
    max_iters: u8,
)
    requires
        min <= max,
        max - min < 255,
        max_iters >= 8,
        monotone_away(loose, min, max, prefer_lower),
        monotone_away(strict, min, max, prefer_lower),
        forall|q: u8| #[trigger] strict(q) ==> loose(q),
    ensures
        ({
            let s = SearchState { lo: min, hi: max, iters: 0, best: None, last: max, stopped: false };
            let a = spec_choice(search_run(s, min, max, loose, prefer_lower, max_iters), min, max, prefer_lower).0;
            let b = spec_choice(search_run(s, min, max, strict, prefer_lower, max_iters), min, max, prefer_lower).0;
            if prefer_lower {
                a <= b
            } else {
                b <= a
            }
        }),
{
    law_search_bounded(min, max, loose, prefer_lower, max_iters);
    law_search_bounded(min, max, strict, prefer_lower, max_iters);
    law_search_finds_boundary(min, max, loose, prefer_lower, max_iters);
    law_search_finds_boundary(min, max, strict, prefer_lower, max_iters);
    let s = SearchState { lo: min, hi: max, iters: 0, best: None, last: max, stopped: false };
    let ca = spec_choice(search_run(s, min, max, loose, prefer_lower, max_iters), min, max, prefer_lower);
    let cb = spec_choice(search_run(s, min, max, strict, prefer_lower, max_iters), min, max, prefer_lower);
    if cb.1 {
        assert(strict(cb.0));
        assert(loose(cb.0));
    }
}

// ── Candidate encodes ───────────────────────────────────────────────────────

/// The message for a format the quality search has no encoder for.
pub open spec fn no_candidate_encoder(f: ImageFormat) -> Seq<char> {
    "no auto-quality encoder for "@ + crate::image::spec_format_name(f) + " (not a lossy quality format)"@
}

/// Encode a search candidate: the reference's pixels at `quality` clamped to
/// `1..=100`, through the same JPEG encode the sink writes with, so a probed
/// candidate's bytes are the bytes that get written. Only JPEG has a lossy
/// encoder in this build; any other format is [`QualityError::Encode`].
pub fn encode_candidate_bytes(reference: &Image, fmt: ImageFormat, quality: u8) -> (r: Result<
    Vec<u8>,
    QualityError,
>)
    ensures
        fmt == ImageFormat::Jpeg ==> match jpeg_at_quality(
            spec_encode_model(reference@.pixels),
            clamp_quality(quality),
        ) {
            Ok(b) => r matches Ok(v) && v@ == b,
            Err(m) => r matches Err(QualityError::Encode(s)) && s@ == m,
        },
        fmt != ImageFormat::Jpeg ==> (r matches Err(QualityError::Encode(s)) && s@ == no_candidate_encoder(fmt)),
{
    match fmt {
        ImageFormat::Jpeg => {
            let q = if quality < 1 {
                1
            } else if quality > 100 {
                100
            } else {
                quality
            };
            let buf = encode_buffer(reference.pixels());
            match encode_jpeg_at(buf, q) {
                Ok(v) => Ok(v),
                Err(e) => Err(QualityError::Encode(e)),
            }
        },
        _ => {
            let mut m = String::new();
            push_str(&mut m, "no auto-quality encoder for ");
            push_str(&mut m, crate::image::format_name(fmt));
            push_str(&mut m, " (not a lossy quality format)");
            Err(QualityError::Encode(m))
        },
    }
}

} // verus!
