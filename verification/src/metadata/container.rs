//! JPEG segments and PNG chunks, held by the `img-parts` containers.
//!
//! A JPEG is modelled as its segments `(marker, contents, entropy)` and a PNG
//! as its chunks `(type, contents)`, each in file order. Parsing, encoding
//! and the ICC helpers are `img-parts` work named by their results; the
//! edits (remove, set EXIF) are stated from the crate's source.

use img_parts::{ImageEXIF, ImageICC};
use vstd::prelude::*;

verus! {

/// The `img_parts::jpeg::Jpeg` container.
#[verifier::external_type_specification]
#[verifier::external_body]
pub struct ExJpeg(img_parts::jpeg::Jpeg);

/// The `img_parts::png::Png` container.
#[verifier::external_type_specification]
#[verifier::external_body]
pub struct ExPng(img_parts::png::Png);

/// The segments a `Jpeg` holds, in order.
pub uninterp spec fn jpeg_segments(j: img_parts::jpeg::Jpeg) -> Seq<(u8, Seq<u8>, Seq<u8>)>;

/// The chunks a `Png` holds, in order.
pub uninterp spec fn png_chunks(p: img_parts::png::Png) -> Seq<(Seq<u8>, Seq<u8>)>;

/// What `Jpeg::from_bytes` gives for `bytes`: the segments, or the error's
/// message.
pub uninterp spec fn jpeg_parse_outcome(bytes: Seq<u8>) -> Result<Seq<(u8, Seq<u8>, Seq<u8>)>, Seq<char>>;

/// What `Png::from_bytes` gives for `bytes`: the chunks, or the error's
/// message.
pub uninterp spec fn png_parse_outcome(bytes: Seq<u8>) -> Result<Seq<(Seq<u8>, Seq<u8>)>, Seq<char>>;

/// What encoding a JPEG with these segments into a byte vector gives.
pub uninterp spec fn jpeg_encode_outcome(segs: Seq<(u8, Seq<u8>, Seq<u8>)>) -> Result<Seq<u8>, Seq<char>>;

/// What encoding a PNG with these chunks into a byte vector gives.
pub uninterp spec fn png_encode_outcome(chunks: Seq<(Seq<u8>, Seq<u8>)>) -> Result<Seq<u8>, Seq<char>>;

/// The ICC profile a JPEG's `APP2` segments assemble to.
pub uninterp spec fn jpeg_icc_profile(segs: Seq<(u8, Seq<u8>, Seq<u8>)>) -> Option<Seq<u8>>;

/// The segments after setting (or clearing) the ICC profile.
pub uninterp spec fn jpeg_with_icc(segs: Seq<(u8, Seq<u8>, Seq<u8>)>, profile: Option<Seq<u8>>) -> Seq<(u8, Seq<u8>, Seq<u8>)>;

/// The `APP1` marker.
pub open spec fn app1() -> u8 {
    0xE1
}

/// The prefix of an EXIF `APP1` segment: `Exif\0\0`.
pub open spec fn exif_prefix() -> Seq<u8> {
    seq![0x45u8, 0x78u8, 0x69u8, 0x66u8, 0u8, 0u8]
}

/// The prefix of an ICC `APP2` segment: `ICC_PROFILE\0`.
pub open spec fn icc_prefix() -> Seq<u8> {
    seq![0x49u8, 0x43u8, 0x43u8, 0x5Fu8, 0x50u8, 0x52u8, 0x4Fu8, 0x46u8, 0x49u8, 0x4Cu8, 0x45u8, 0u8]
}

/// The PNG `eXIf` chunk type.
pub open spec fn exif_chunk_type() -> Seq<u8> {
    seq![0x65u8, 0x58u8, 0x49u8, 0x66u8]
}

/// Whether `s` starts with `p`.
pub open spec fn has_prefix(s: Seq<u8>, p: Seq<u8>) -> bool {
    p.len() <= s.len() && s.take(p.len() as int) == p
}

/// The EXIF payload of a segment: the contents of an `APP1` segment after
/// its `Exif\0\0` prefix.
pub open spec fn segment_exif(s: (u8, Seq<u8>, Seq<u8>)) -> Option<Seq<u8>> {
    if s.0 == app1() && has_prefix(s.1, exif_prefix()) {
        Some(s.1.skip(6))
    } else {
        None
    }
}

/// Whether a segment carries a piece of an ICC profile.
pub open spec fn segment_is_icc(s: (u8, Seq<u8>, Seq<u8>)) -> bool {
    s.0 == 0xE2 && has_prefix(s.1, icc_prefix())
}

/// The EXIF payload of the first EXIF segment.
pub open spec fn first_exif(segs: Seq<(u8, Seq<u8>, Seq<u8>)>) -> Option<Seq<u8>>
    decreases segs.len(),
{
    if segs.len() == 0 {
        None
    } else {
        match segment_exif(segs[0]) {
            Some(e) => Some(e),
            None => first_exif(segs.drop_first()),
        }
    }
}

/// Whether a segment's marker is not `m`.
pub open spec fn not_marker(m: u8) -> spec_fn((u8, Seq<u8>, Seq<u8>)) -> bool {
    |s: (u8, Seq<u8>, Seq<u8>)| s.0 != m
}

/// The segments with marker other than `m`.
pub open spec fn without_marker(segs: Seq<(u8, Seq<u8>, Seq<u8>)>, m: u8) -> Seq<(u8, Seq<u8>, Seq<u8>)> {
    segs.filter(not_marker(m))
}

/// The segments that are no EXIF segment.
pub open spec fn without_exif(segs: Seq<(u8, Seq<u8>, Seq<u8>)>) -> Seq<(u8, Seq<u8>, Seq<u8>)> {
    segs.filter(|s: (u8, Seq<u8>, Seq<u8>)| segment_exif(s) is None)
}

/// The segments that carry no ICC piece.
pub open spec fn without_icc(segs: Seq<(u8, Seq<u8>, Seq<u8>)>) -> Seq<(u8, Seq<u8>, Seq<u8>)> {
    segs.filter(|s: (u8, Seq<u8>, Seq<u8>)| !segment_is_icc(s))
}

/// The segments after setting the EXIF payload: every EXIF segment removed,
/// and a new `APP1` segment inserted at index 3 when `exif` is given.
pub open spec fn jpeg_with_exif(segs: Seq<(u8, Seq<u8>, Seq<u8>)>, exif: Option<Seq<u8>>) -> Seq<(u8, Seq<u8>, Seq<u8>)> {
    match exif {
        Some(e) => without_exif(segs).insert(3, (app1(), exif_prefix() + e, Seq::empty())),
        None => without_exif(segs),
    }
}

/// Whether a chunk's type is not `kind`.
pub open spec fn not_kind(kind: Seq<u8>) -> spec_fn((Seq<u8>, Seq<u8>)) -> bool {
    |c: (Seq<u8>, Seq<u8>)| c.0 != kind
}

/// The chunks whose type is not `kind`.
pub open spec fn without_chunk(chunks: Seq<(Seq<u8>, Seq<u8>)>, kind: Seq<u8>) -> Seq<(Seq<u8>, Seq<u8>)> {
    chunks.filter(not_kind(kind))
}

/// The contents of the first `eXIf` chunk.
pub open spec fn first_exif_chunk(chunks: Seq<(Seq<u8>, Seq<u8>)>) -> Option<Seq<u8>>
    decreases chunks.len(),
{
    if chunks.len() == 0 {
        None
    } else if chunks[0].0 == exif_chunk_type() {
        Some(chunks[0].1)
    } else {
        first_exif_chunk(chunks.drop_first())
    }
}

/// The chunks after setting the EXIF payload: every `eXIf` chunk removed, and
/// a new one inserted before the last chunk when `exif` is given.
pub open spec fn png_with_exif(chunks: Seq<(Seq<u8>, Seq<u8>)>, exif: Option<Seq<u8>>) -> Seq<(Seq<u8>, Seq<u8>)> {
    let kept = without_chunk(chunks, exif_chunk_type());
    match exif {
        Some(e) => kept.insert(kept.len() - 1, (exif_chunk_type(), e)),
        None => kept,
    }
}

/// Whether every segment's contents fit the 16-bit length field a segment
/// is written with (which counts its own two bytes).
pub open spec fn segments_fit(segs: Seq<(u8, Seq<u8>, Seq<u8>)>) -> bool {
    forall|i: int| 0 <= i < segs.len() ==> (#[trigger] segs[i]).1.len() <= 65533
}

/// Whether every ICC segment carries the two sequence bytes that follow its
/// `ICC_PROFILE\0` prefix.
pub open spec fn icc_segments_whole(segs: Seq<(u8, Seq<u8>, Seq<u8>)>) -> bool {
    forall|i: int| 0 <= i < segs.len() && segment_is_icc(#[trigger] segs[i]) ==> segs[i].1.len() >= 14
}

/// Whether `f` is `segs` with its ICC segments removed and ICC segments
/// placed after the first three of the rest.
pub open spec fn icc_placed(segs: Seq<(u8, Seq<u8>, Seq<u8>)>, f: Seq<(u8, Seq<u8>, Seq<u8>)>) -> bool {
    let w = without_icc(segs);
    &&& f.len() >= w.len()
    &&& f.take(3) == w.take(3)
    &&& f.skip(f.len() - (w.len() - 3)) == w.skip(3)
    &&& forall|i: int| 3 <= i < f.len() - (w.len() - 3) ==> segment_is_icc(#[trigger] f[i])
}

// ── JPEG ────────────────────────────────────────────────────────────────────

/// `Jpeg::from_bytes` on a copy of `bytes`; an error is reported by its
/// message.
#[verifier::external_body]
pub fn jpeg_parse(bytes: &[u8]) -> (r: Result<img_parts::jpeg::Jpeg, String>)
    ensures
        match r {
            Ok(j) => jpeg_parse_outcome(bytes@) == Ok::<Seq<(u8, Seq<u8>, Seq<u8>)>, Seq<char>>(
                jpeg_segments(j),
            ),
            Err(m) => jpeg_parse_outcome(bytes@) == Err::<Seq<(u8, Seq<u8>, Seq<u8>)>, Seq<char>>(m@),
        },
{
    img_parts::jpeg::Jpeg::from_bytes(img_parts::Bytes::from(bytes.to_vec())).map_err(|e| e.to_string())
}

/// `Jpeg::remove_segments_by_marker`: keeps the segments whose marker is not
/// `marker`, in order.
#[verifier::external_body]
pub fn jpeg_remove_marker(j: &mut img_parts::jpeg::Jpeg, marker: u8)
    ensures
        jpeg_segments(*final(j)) == without_marker(jpeg_segments(*old(j)), marker),
{
    j.remove_segments_by_marker(marker);
}

/// `ImageEXIF::exif` on a `Jpeg`: the payload of the first `APP1` segment
/// whose contents start with `Exif\0\0`, after that prefix.
#[verifier::external_body]
pub fn jpeg_exif(j: &img_parts::jpeg::Jpeg) -> (r: Option<Vec<u8>>)
    ensures
        match r {
            Some(v) => first_exif(jpeg_segments(*j)) == Some(v@),
            None => first_exif(jpeg_segments(*j)) is None,
        },
{
    j.exif().map(|b| b.to_vec())
}

/// `ImageEXIF::set_exif` on a `Jpeg`: removes every EXIF segment, then
/// inserts `APP1 Exif\0\0 <exif>` at index 3 when `exif` is given (which
/// panics with fewer than three segments left, hence the requirement).
#[verifier::external_body]
pub fn jpeg_set_exif(j: &mut img_parts::jpeg::Jpeg, exif: Option<Vec<u8>>)
    requires
        exif is Some ==> without_exif(jpeg_segments(*old(j))).len() >= 3,
    ensures
        jpeg_segments(*final(j)) == jpeg_with_exif(
            jpeg_segments(*old(j)),
            match exif {
                Some(v) => Some(v@),
                None => None,
            },
        ),
{
    j.set_exif(exif.map(img_parts::Bytes::from));
}

/// `ImageICC::icc_profile` on a `Jpeg`: the profile its ICC segments
/// assemble to. Reading a segment's sequence bytes panics when an ICC
/// segment ends before them, hence the requirement.
#[verifier::external_body]
pub fn jpeg_icc(j: &img_parts::jpeg::Jpeg) -> (r: Option<Vec<u8>>)
    requires
        icc_segments_whole(jpeg_segments(*j)),
    ensures
        match r {
            Some(v) => jpeg_icc_profile(jpeg_segments(*j)) == Some(v@),
            None => jpeg_icc_profile(jpeg_segments(*j)) is None,
        },
{
    j.icc_profile().map(|b| b.to_vec())
}

/// `ImageICC::set_icc_profile` on a `Jpeg`: removes every ICC segment, then
/// inserts the new profile's segments, each an ICC segment, at index 3 when
/// one is given (which
/// panics with fewer than three segments left, hence the requirement). The
/// removal reads every ICC segment's sequence bytes, which panics when one
/// ends before them.
#[verifier::external_body]
pub fn jpeg_set_icc(j: &mut img_parts::jpeg::Jpeg, profile: Option<Vec<u8>>)
    requires
        icc_segments_whole(jpeg_segments(*old(j))),
        profile is Some ==> without_icc(jpeg_segments(*old(j))).len() >= 3,
    ensures
        profile is None ==> jpeg_segments(*final(j)) == without_icc(jpeg_segments(*old(j))),
        profile is Some ==> icc_placed(jpeg_segments(*old(j)), jpeg_segments(*final(j))),
        jpeg_segments(*final(j)) == jpeg_with_icc(
            jpeg_segments(*old(j)),
            match profile {
                Some(v) => Some(v@),
                None => None,
            },
        ),
{
    j.set_icc_profile(profile.map(img_parts::Bytes::from));
}

/// The marker and contents of each segment of a `Jpeg`, in order.
#[verifier::external_body]
pub fn jpeg_segment_heads(j: &img_parts::jpeg::Jpeg) -> (r: Vec<(u8, Vec<u8>)>)
    ensures
        r@.len() == jpeg_segments(*j).len(),
        forall|i: int|
            0 <= i < r@.len() ==> r@[i].0 == jpeg_segments(*j)[i].0 && r@[i].1@ == jpeg_segments(
                *j,
            )[i].1,
{
    j.segments().iter().map(|s| (s.marker(), s.contents().to_vec())).collect()
}

/// Encode a `Jpeg` (SOI, then every segment with its entropy data) into a
/// byte vector. Writing a segment's 16-bit length panics when its contents
/// do not fit, hence the requirement.
#[verifier::external_body]
pub fn jpeg_encode(j: img_parts::jpeg::Jpeg) -> (r: Result<Vec<u8>, String>)
    requires
        segments_fit(jpeg_segments(j)),
    ensures
        match r {
            Ok(v) => jpeg_encode_outcome(jpeg_segments(j)) == Ok::<Seq<u8>, Seq<char>>(v@),
            Err(m) => jpeg_encode_outcome(jpeg_segments(j)) == Err::<Seq<u8>, Seq<char>>(m@),
        },
{
    let mut out = Vec::new();
    j.encoder().write_to(&mut out).map_err(|e| e.to_string())?;
    Ok(out)
}

// ── PNG ─────────────────────────────────────────────────────────────────────

/// `Png::from_bytes` on a copy of `bytes`; an error is reported by its
/// message.
#[verifier::external_body]
pub fn png_parse(bytes: &[u8]) -> (r: Result<img_parts::png::Png, String>)
    ensures
        match r {
            Ok(p) => png_parse_outcome(bytes@) == Ok::<Seq<(Seq<u8>, Seq<u8>)>, Seq<char>>(
                png_chunks(p),
            ),
            Err(m) => png_parse_outcome(bytes@) == Err::<Seq<(Seq<u8>, Seq<u8>)>, Seq<char>>(m@),
        },
{
    img_parts::png::Png::from_bytes(img_parts::Bytes::from(bytes.to_vec())).map_err(|e| e.to_string())
}

/// `Png::remove_chunks_by_type`: keeps the chunks whose type is not `kind`,
/// in order.
#[verifier::external_body]
pub fn png_remove_kind(p: &mut img_parts::png::Png, kind: [u8; 4])
    ensures
        png_chunks(*final(p)) == without_chunk(png_chunks(*old(p)), kind@),
{
    p.remove_chunks_by_type(kind);
}

/// `ImageEXIF::exif` on a `Png`: the contents of the first `eXIf` chunk.
#[verifier::external_body]
pub fn png_exif(p: &img_parts::png::Png) -> (r: Option<Vec<u8>>)
    ensures
        match r {
            Some(v) => first_exif_chunk(png_chunks(*p)) == Some(v@),
            None => first_exif_chunk(png_chunks(*p)) is None,
        },
{
    p.exif().map(|b| b.to_vec())
}

/// `ImageEXIF::set_exif` on a `Png`: removes every `eXIf` chunk, then inserts
/// one before the last chunk when `exif` is given (which panics when no chunk
/// is left, hence the requirement).
#[verifier::external_body]
pub fn png_set_exif(p: &mut img_parts::png::Png, exif: Option<Vec<u8>>)
    requires
        exif is Some ==> without_chunk(png_chunks(*old(p)), exif_chunk_type()).len() >= 1,
    ensures
        png_chunks(*final(p)) == png_with_exif(
            png_chunks(*old(p)),
            match exif {
                Some(v) => Some(v@),
                None => None,
            },
        ),
{
    p.set_exif(exif.map(img_parts::Bytes::from));
}

/// The type of each chunk of a `Png`, in order.
#[verifier::external_body]
pub fn png_chunk_kinds(p: &img_parts::png::Png) -> (r: Vec<[u8; 4]>)
    ensures
        r@.len() == png_chunks(*p).len(),
        forall|i: int| 0 <= i < r@.len() ==> r@[i]@ == png_chunks(*p)[i].0,
{
    p.chunks().iter().map(|c| c.kind()).collect()
}

/// Encode a `Png` (signature, then every chunk) into a byte vector.
#[verifier::external_body]
pub fn png_encode(p: img_parts::png::Png) -> (r: Result<Vec<u8>, String>)
    ensures
        match r {
            Ok(v) => png_encode_outcome(png_chunks(p)) == Ok::<Seq<u8>, Seq<char>>(v@),
            Err(m) => png_encode_outcome(png_chunks(p)) == Err::<Seq<u8>, Seq<char>>(m@),
        },
{
    let mut out = Vec::new();
    p.encoder().write_to(&mut out).map_err(|e| e.to_string())?;
    Ok(out)
}

} // verus!
