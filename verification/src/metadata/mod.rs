//! Container-lane metadata edits: strip, clean GPS, set descriptive tags and
//! copy EXIF/ICC between JPEGs, all without touching the pixels.
//!
//! The lane is picked by sniffing the format (JPEG or PNG); the EXIF block is
//! read from and written back into the container (`img-parts`), and the TIFF
//! structure inside it is edited by [`tiff`].

pub mod container;
pub mod tiff;
pub mod reread;

use vstd::prelude::*;

use crate::strings::push_str;
use container::{
    app1, exif_chunk_type, exif_prefix, first_exif, first_exif_chunk, has_prefix, icc_prefix,
    jpeg_encode, jpeg_encode_outcome, jpeg_exif, jpeg_icc, jpeg_icc_profile, jpeg_parse,
    jpeg_parse_outcome, jpeg_remove_marker, jpeg_segment_heads, jpeg_segments, jpeg_set_exif,
    jpeg_set_icc, jpeg_with_exif, jpeg_with_icc, png_chunk_kinds, png_chunks, png_encode,
    png_encode_outcome, png_exif, png_parse, png_parse_outcome, png_remove_kind, png_set_exif,
    png_with_exif, segment_exif, segment_is_icc, without_chunk, without_exif, without_icc,
    without_marker, not_kind, not_marker, segments_fit, icc_segments_whole,
};
use tiff::{
    spec_error_message, spec_parse, spec_remove_gps_entries, spec_serialize, spec_set_ascii_entries,
    IfdModel, TiffModel, TAG_ARTIST, TAG_COPYRIGHT, TAG_IMAGE_DESCRIPTION,
};

verus! {

// ── Errors ──────────────────────────────────────────────────────────────────

/// A metadata-lane failure.
#[derive(Debug, Clone, PartialEq, Eq)]
pub enum MetadataError {
    /// The input is not a container this lane edits (JPEG or PNG).
    UnsupportedFormat(String),
    /// Reading or writing the container failed.
    Container(String),
    /// The EXIF block could not be parsed.
    Exif(String),
}

/// The mathematical value of a [`MetadataError`].
pub enum MetadataErrorModel {
    UnsupportedFormat(Seq<char>),
    Container(Seq<char>),
    Exif(Seq<char>),
}

impl View for MetadataError {
    type V = MetadataErrorModel;

    open spec fn view(&self) -> MetadataErrorModel {
        match self {
            MetadataError::UnsupportedFormat(s) => MetadataErrorModel::UnsupportedFormat(s@),
            MetadataError::Container(s) => MetadataErrorModel::Container(s@),
            MetadataError::Exif(s) => MetadataErrorModel::Exif(s@),
        }
    }
}

/// The human message of a metadata error.
pub open spec fn spec_metadata_error_message(e: MetadataErrorModel) -> Seq<char> {
    match e {
        MetadataErrorModel::UnsupportedFormat(s) => "metadata lane does not support "@ + s + " yet"@,
        MetadataErrorModel::Container(s) => "container metadata edit failed: "@ + s,
        MetadataErrorModel::Exif(s) => "EXIF edit failed: "@ + s,
    }
}

impl MetadataError {
    /// The human message.
    pub fn message(&self) -> (m: String)
        ensures
            m@ == spec_metadata_error_message(self@),
    {
        let mut m = String::new();
        match self {
            MetadataError::UnsupportedFormat(s) => {
                push_str(&mut m, "metadata lane does not support ");
                push_str(&mut m, s.as_str());
                push_str(&mut m, " yet");
            },
            MetadataError::Container(s) => {
                push_str(&mut m, "container metadata edit failed: ");
                push_str(&mut m, s.as_str());
            },
            MetadataError::Exif(s) => {
                push_str(&mut m, "EXIF edit failed: ");
                push_str(&mut m, s.as_str());
            },
        }
        m
    }
}

/// The model of an edit's result.
pub open spec fn outcome(r: Result<Vec<u8>, MetadataError>) -> Result<Seq<u8>, MetadataErrorModel> {
    match r {
        Ok(v) => Ok(v@),
        Err(e) => Err(e@),
    }
}

// ── Lane ────────────────────────────────────────────────────────────────────

/// The `Debug` name of the format `image::guess_format` detects from the
/// leading bytes, if any.
pub uninterp spec fn guess_format_name(bytes: Seq<u8>) -> Option<Seq<char>>;

/// `image::guess_format`: the `Debug` name of the detected format, `None`
/// when none matches.
#[verifier::external_body]
pub(crate) fn guess_format(bytes: &[u8]) -> (r: Option<String>)
    ensures
        crate::lint::opt_str(r) == guess_format_name(bytes@),
{
    ::image::guess_format(bytes).ok().map(|f| format!("{:?}", f))
}

/// The containers this lane edits.
#[derive(Debug, Clone, Copy, PartialEq, Eq, Structural)]
pub enum Lane {
    Jpeg,
    Png,
}

/// The lane of `bytes`, or the name to report as unsupported.
pub open spec fn spec_sniff(bytes: Seq<u8>) -> Result<Lane, Seq<char>> {
    match guess_format_name(bytes) {
        Some(n) => if n == "Jpeg"@ {
            Ok(Lane::Jpeg)
        } else if n == "Png"@ {
            Ok(Lane::Png)
        } else {
            Err(n)
        },
        None => Err("unknown"@),
    }
}

fn sniff(bytes: &[u8]) -> (r: Result<Lane, MetadataError>)
    ensures
        match (r, spec_sniff(bytes@)) {
            (Ok(l), Ok(m)) => l == m,
            (Err(e), Err(n)) => e@ == MetadataErrorModel::UnsupportedFormat(n),
            _ => false,
        },
{
    match guess_format(bytes) {
        Some(n) => {
            if crate::strings::str_eq(n.as_str(), "Jpeg") {
                Ok(Lane::Jpeg)
            } else if crate::strings::str_eq(n.as_str(), "Png") {
                Ok(Lane::Png)
            } else {
                Err(MetadataError::UnsupportedFormat(n))
            }
        },
        None => Err(MetadataError::UnsupportedFormat("unknown".to_owned())),
    }
}

// ── Containers ──────────────────────────────────────────────────────────────

/// A parsed container: a JPEG's segments or a PNG's chunks.
pub enum ContainerModel {
    Jpeg(Seq<(u8, Seq<u8>, Seq<u8>)>),
    Png(Seq<(Seq<u8>, Seq<u8>)>),
}

enum Container {
    Jpeg(img_parts::jpeg::Jpeg),
    Png(img_parts::png::Png),
}

spec fn container_model(c: Container) -> ContainerModel {
    match c {
        Container::Jpeg(j) => ContainerModel::Jpeg(jpeg_segments(j)),
        Container::Png(p) => ContainerModel::Png(png_chunks(p)),
    }
}

/// The container `bytes` parse to in `lane`, or the parser's message.
pub open spec fn spec_open(lane: Lane, bytes: Seq<u8>) -> Result<ContainerModel, Seq<char>> {
    match lane {
        Lane::Jpeg => match jpeg_parse_outcome(bytes) {
            Ok(s) => Ok(ContainerModel::Jpeg(s)),
            Err(m) => Err(m),
        },
        Lane::Png => match png_parse_outcome(bytes) {
            Ok(c) => Ok(ContainerModel::Png(c)),
            Err(m) => Err(m),
        },
    }
}

/// The EXIF block a container carries.
pub open spec fn model_exif(c: ContainerModel) -> Option<Seq<u8>> {
    match c {
        ContainerModel::Jpeg(s) => first_exif(s),
        ContainerModel::Png(c) => first_exif_chunk(c),
    }
}

/// Whether a container has room to place an EXIF block: a JPEG needs three
/// segments besides its EXIF ones, a PNG one chunk besides its `eXIf` ones.
pub open spec fn can_hold_exif(c: ContainerModel) -> bool {
    match c {
        ContainerModel::Jpeg(s) => without_exif(s).len() >= 3,
        ContainerModel::Png(c) => without_chunk(c, exif_chunk_type()).len() >= 1,
    }
}

/// The container with its EXIF block replaced by `tiff`.
pub open spec fn model_with_exif(c: ContainerModel, tiff: Seq<u8>) -> ContainerModel {
    match c {
        ContainerModel::Jpeg(s) => ContainerModel::Jpeg(jpeg_with_exif(s, Some(tiff))),
        ContainerModel::Png(c) => ContainerModel::Png(png_with_exif(c, Some(tiff))),
    }
}

/// What encoding a container gives.
pub open spec fn model_encode(c: ContainerModel) -> Result<Seq<u8>, Seq<char>> {
    match c {
        ContainerModel::Jpeg(s) => spec_jpeg_encode(s),
        ContainerModel::Png(c) => png_encode_outcome(c),
    }
}

/// The message when a container has no room for an EXIF block.
pub open spec fn no_room_message() -> Seq<char> {
    "too few segments to place an EXIF block"@
}

/// Storing `tiff` as the container's EXIF block and encoding it.
pub open spec fn spec_store_exif(c: ContainerModel, tiff: Seq<u8>) -> Result<Seq<u8>, MetadataErrorModel> {
    if !can_hold_exif(c) {
        Err(MetadataErrorModel::Container(no_room_message()))
    } else {
        match model_encode(model_with_exif(c, tiff)) {
            Ok(v) => Ok(v),
            Err(m) => Err(MetadataErrorModel::Container(m)),
        }
    }
}

fn open_container(lane: Lane, bytes: &[u8]) -> (r: Result<Container, MetadataError>)
    ensures
        match (r, spec_open(lane, bytes@)) {
            (Ok(c), Ok(m)) => container_model(c) == m,
            (Err(e), Err(m)) => e@ == MetadataErrorModel::Container(m),
            _ => false,
        },
{
    match lane {
        Lane::Jpeg => match jpeg_parse(bytes) {
            Ok(j) => Ok(Container::Jpeg(j)),
            Err(m) => Err(MetadataError::Container(m)),
        },
        Lane::Png => match png_parse(bytes) {
            Ok(p) => Ok(Container::Png(p)),
            Err(m) => Err(MetadataError::Container(m)),
        },
    }
}

fn read_exif(c: &Container) -> (r: Option<Vec<u8>>)
    ensures
        match r {
            Some(v) => model_exif(container_model(*c)) == Some(v@),
            None => model_exif(container_model(*c)) is None,
        },
{
    match c {
        Container::Jpeg(j) => jpeg_exif(j),
        Container::Png(p) => png_exif(p),
    }
}

fn count_without_exif(j: &img_parts::jpeg::Jpeg) -> (n: usize)
    ensures
        n == without_exif(jpeg_segments(*j)).len(),
{
    let heads = jpeg_segment_heads(j);
    let ghost segs = jpeg_segments(*j);
    let ghost pred = |s: (u8, Seq<u8>, Seq<u8>)| segment_exif(s) is None;
    let mut n: usize = 0;
    let mut i: usize = 0;
    reveal(Seq::filter);
    assert(segs.take(0).filter(pred) =~= Seq::<(u8, Seq<u8>, Seq<u8>)>::empty());
    while i < heads.len()
        invariant
            heads@.len() == segs.len(),
            forall|k: int|
                0 <= k < heads@.len() ==> heads@[k].0 == segs[k].0 && heads@[k].1@ == segs[k].1,
            pred == (|s: (u8, Seq<u8>, Seq<u8>)| segment_exif(s) is None),
            i <= heads@.len(),
            n == segs.take(i as int).filter(pred).len(),
            n <= i,
        decreases heads@.len() - i,
    {
        reveal(Seq::filter);
        assert(segs.take(i + 1).drop_last() =~= segs.take(i as int));
        assert(segs.take(i + 1).last() == segs[i as int]);
        let is_exif = heads[i].0 == 0xE1 && crate::image::starts_with(
            heads[i].1.as_slice(),
            &[0x45u8, 0x78u8, 0x69u8, 0x66u8, 0u8, 0u8],
        );
        proof {
            let pre: Seq<u8> = seq![0x45u8, 0x78u8, 0x69u8, 0x66u8, 0u8, 0u8];
            assert(pre =~= exif_prefix());
            assert(is_exif == (segment_exif(segs[i as int]) is Some));
        }
        if !is_exif {
            n = n + 1;
        }
        i = i + 1;
    }
    assert(segs.take(i as int) =~= segs);
    n
}

fn count_without_exif_chunks(p: &img_parts::png::Png) -> (n: usize)
    ensures
        n == without_chunk(png_chunks(*p), exif_chunk_type()).len(),
{
    let kinds = png_chunk_kinds(p);
    let ghost cs = png_chunks(*p);
    let ghost pred = container::not_kind(exif_chunk_type());
    let mut n: usize = 0;
    let mut i: usize = 0;
    reveal(Seq::filter);
    assert(cs.take(0).filter(pred) =~= Seq::<(Seq<u8>, Seq<u8>)>::empty());
    while i < kinds.len()
        invariant
            kinds@.len() == cs.len(),
            forall|k: int| 0 <= k < kinds@.len() ==> kinds@[k]@ == cs[k].0,
            pred == container::not_kind(exif_chunk_type()),
            i <= kinds@.len(),
            n == cs.take(i as int).filter(pred).len(),
            n <= i,
        decreases kinds@.len() - i,
    {
        reveal(Seq::filter);
        assert(cs.take(i + 1).drop_last() =~= cs.take(i as int));
        assert(cs.take(i + 1).last() == cs[i as int]);
        let k = kinds[i];
        let is_exif = k[0] == 0x65 && k[1] == 0x58 && k[2] == 0x49 && k[3] == 0x66;
        proof {
            assert(k@.len() == 4);
            if is_exif {
                assert(k@ =~= exif_chunk_type());
            } else {
                assert(k@ != exif_chunk_type()) by {
                    if k@ == exif_chunk_type() {
                        assert(k@[0] == 0x65 && k@[1] == 0x58 && k@[2] == 0x49 && k@[3] == 0x66);
                    }
                }
            }
        }
        if !is_exif {
            n = n + 1;
        }
        i = i + 1;
    }
    assert(cs.take(i as int) =~= cs);
    n
}

/// The message when a segment is too long for its 16-bit length field.
pub open spec fn segment_too_large_message() -> Seq<char> {
    "a JPEG segment is too large for its 16-bit length field"@
}

/// The message when an ICC segment ends before its sequence bytes.
pub open spec fn truncated_icc_message() -> Seq<char> {
    "truncated ICC profile segment"@
}

/// What encoding JPEG segments gives: refused when a segment does not fit
/// its length field, else the encoder's outcome.
pub open spec fn spec_jpeg_encode(segs: Seq<(u8, Seq<u8>, Seq<u8>)>) -> Result<Seq<u8>, Seq<char>> {
    if segments_fit(segs) {
        jpeg_encode_outcome(segs)
    } else {
        Err(segment_too_large_message())
    }
}

/// Whether every segment of `j` fits its length field.
fn jpeg_fits(j: &img_parts::jpeg::Jpeg) -> (b: bool)
    ensures
        b == segments_fit(jpeg_segments(*j)),
{
    let heads = jpeg_segment_heads(j);
    let ghost segs = jpeg_segments(*j);
    let mut i: usize = 0;
    while i < heads.len()
        invariant
            heads@.len() == segs.len(),
            segs == jpeg_segments(*j),
            forall|k: int| 0 <= k < heads@.len() ==> heads@[k].1@ == segs[k].1,
            i <= heads@.len(),
            forall|k: int| 0 <= k < i ==> (#[trigger] segs[k]).1.len() <= 65533,
        decreases heads@.len() - i,
    {
        if heads[i].1.len() > 65533 {
            assert(heads@[i as int].1@ == segs[i as int].1);
            assert(segs[i as int].1.len() > 65533);
            assert(!segments_fit(segs));
            return false;
        }
        i = i + 1;
    }
    true
}

/// Whether every ICC segment of `j` carries its sequence bytes.
fn jpeg_icc_whole(j: &img_parts::jpeg::Jpeg) -> (b: bool)
    ensures
        b == icc_segments_whole(jpeg_segments(*j)),
{
    let heads = jpeg_segment_heads(j);
    let ghost segs = jpeg_segments(*j);
    let mut i: usize = 0;
    while i < heads.len()
        invariant
            heads@.len() == segs.len(),
            forall|k: int|
                0 <= k < heads@.len() ==> heads@[k].0 == segs[k].0 && heads@[k].1@ == segs[k].1,
            segs == jpeg_segments(*j),
            i <= heads@.len(),
            forall|k: int| 0 <= k < i && segment_is_icc(#[trigger] segs[k]) ==> segs[k].1.len() >= 14,
        decreases heads@.len() - i,
    {
        let is_icc = heads[i].0 == 0xE2 && crate::image::starts_with(
            heads[i].1.as_slice(),
            &[0x49u8, 0x43u8, 0x43u8, 0x5Fu8, 0x50u8, 0x52u8, 0x4Fu8, 0x46u8, 0x49u8, 0x4Cu8, 0x45u8, 0u8],
        );
        proof {
            let pre: Seq<u8> = seq![0x49u8, 0x43u8, 0x43u8, 0x5Fu8, 0x50u8, 0x52u8, 0x4Fu8, 0x46u8, 0x49u8, 0x4Cu8, 0x45u8, 0u8];
            assert(pre =~= icc_prefix());
            assert(is_icc == segment_is_icc(segs[i as int]));
        }
        if is_icc && heads[i].1.len() < 14 {
            assert(heads@[i as int].1@ == segs[i as int].1);
            assert(segment_is_icc(segs[i as int]) && segs[i as int].1.len() < 14);
            assert(!icc_segments_whole(segs));
            return false;
        }
        i = i + 1;
    }
    true
}

/// Encode `j`, refusing a segment too large for its length field.
fn encode_jpeg_checked(j: img_parts::jpeg::Jpeg) -> (r: Result<Vec<u8>, String>)
    ensures
        match r {
            Ok(v) => spec_jpeg_encode(jpeg_segments(j)) == Ok::<Seq<u8>, Seq<char>>(v@),
            Err(m) => spec_jpeg_encode(jpeg_segments(j)) == Err::<Seq<u8>, Seq<char>>(m@),
        },
{
    if !jpeg_fits(&j) {
        let m = "a JPEG segment is too large for its 16-bit length field".to_owned();
        proof {
            reveal_strlit("a JPEG segment is too large for its 16-bit length field");
        }
        return Err(m);
    }
    jpeg_encode(j)
}

/// Store `tiff` as the container's EXIF block and encode the container.
fn store_exif(c: Container, tiff: Vec<u8>) -> (r: Result<Vec<u8>, MetadataError>)
    ensures
        outcome(r) == spec_store_exif(container_model(c), tiff@),
{
    match c {
        Container::Jpeg(mut j) => {
            let ghost s0 = jpeg_segments(j);
            if count_without_exif(&j) < 3 {
                let e = MetadataError::Container("too few segments to place an EXIF block".to_owned());
                assert(e@ == MetadataErrorModel::Container(no_room_message()));
                return Err(e);
            }
            let ghost tv = tiff@;
            jpeg_set_exif(&mut j, Some(tiff));
            assert(jpeg_segments(j) == jpeg_with_exif(s0, Some(tv)));
            match encode_jpeg_checked(j) {
                Ok(v) => Ok(v),
                Err(m) => Err(MetadataError::Container(m)),
            }
        },
        Container::Png(mut p) => {
            if count_without_exif_chunks(&p) < 1 {
                return Err(MetadataError::Container("too few segments to place an EXIF block".to_owned()));
            }
            png_set_exif(&mut p, Some(tiff));
            match png_encode(p) {
                Ok(v) => Ok(v),
                Err(m) => Err(MetadataError::Container(m)),
            }
        },
    }
}

// ── Clean GPS ───────────────────────────────────────────────────────────────

/// The TIFF block with the GPS pointer dropped from IFD0.
pub open spec fn gps_removed(t: TiffModel) -> TiffModel {
    TiffModel { ifd0: IfdModel { entries: spec_remove_gps_entries(t.ifd0.entries), ..t.ifd0 } }
}

/// What cleaning GPS from `bytes` gives: the bytes unchanged when there is no
/// EXIF block, else the container with the GPS pointer removed from its EXIF.
pub open spec fn spec_clean_gps(bytes: Seq<u8>) -> Result<Seq<u8>, MetadataErrorModel> {
    match spec_sniff(bytes) {
        Err(n) => Err(MetadataErrorModel::UnsupportedFormat(n)),
        Ok(lane) => match spec_open(lane, bytes) {
            Err(m) => Err(MetadataErrorModel::Container(m)),
            Ok(c) => match model_exif(c) {
                None => Ok(bytes),
                Some(exif) => match spec_parse(exif) {
                    Err(e) => Err(MetadataErrorModel::Exif(spec_error_message(e))),
                    Ok(t) => spec_store_exif(c, spec_serialize(gps_removed(t))),
                },
            },
        },
    }
}

/// Remove GPS location from the EXIF block of a JPEG or PNG, keeping every
/// other tag and the pixels; input without EXIF is returned unchanged.
pub fn clean_gps(bytes: &[u8]) -> (r: Result<Vec<u8>, MetadataError>)
    ensures
        outcome(r) == spec_clean_gps(bytes@),
{
    let lane = match sniff(bytes) {
        Ok(l) => l,
        Err(e) => {
            return Err(e);
        },
    };
    let c = match open_container(lane, bytes) {
        Ok(c) => c,
        Err(e) => {
            return Err(e);
        },
    };
    let exif = match read_exif(&c) {
        Some(x) => x,
        None => {
            return Ok(vstd::slice::slice_to_vec(bytes));
        },
    };
    let mut parsed = match tiff::parse(exif.as_slice()) {
        Ok(t) => t,
        Err(e) => {
            return Err(MetadataError::Exif(e.message()));
        },
    };
    tiff::remove_gps(&mut parsed.ifd0);
    let out_tiff = tiff::serialize(&parsed);
    store_exif(c, out_tiff)
}

// ── Set tags ────────────────────────────────────────────────────────────────

/// Descriptive tags to set; `None` leaves a tag as it is.
#[derive(Debug, Clone)]
pub struct TagSet {
    pub artist: Option<String>,
    pub copyright: Option<String>,
    pub description: Option<String>,
}

impl Default for TagSet {
    fn default() -> (t: TagSet)
        ensures
            t.artist is None,
            t.copyright is None,
            t.description is None,
    {
        TagSet { artist: None, copyright: None, description: None }
    }
}

/// The entries after setting `tag` to `text` when it is given.
pub open spec fn set_if(es: Seq<tiff::EntryModel>, tag: u16, text: Option<String>) -> Seq<tiff::EntryModel> {
    match text {
        Some(t) => spec_set_ascii_entries(es, tag, vstd::utf8::encode_utf8(t@)),
        None => es,
    }
}

/// The TIFF block with the given tags set: description, then artist, then
/// copyright.
pub open spec fn tagged(t: TiffModel, tags: TagSet) -> TiffModel {
    let e1 = set_if(t.ifd0.entries, TAG_IMAGE_DESCRIPTION, tags.description);
    let e2 = set_if(e1, TAG_ARTIST, tags.artist);
    let e3 = set_if(e2, TAG_COPYRIGHT, tags.copyright);
    TiffModel { ifd0: IfdModel { entries: e3, ..t.ifd0 } }
}

/// The empty TIFF block a container without EXIF starts from.
pub open spec fn minimal_model() -> TiffModel {
    TiffModel { ifd0: IfdModel { entries: Seq::empty(), next: None, thumbnail: None } }
}

/// What setting `tags` on `bytes` gives: the container's EXIF block (or an
/// empty one) with the tags set, stored back.
pub open spec fn spec_set_tags(bytes: Seq<u8>, tags: TagSet) -> Result<Seq<u8>, MetadataErrorModel> {
    match spec_sniff(bytes) {
        Err(n) => Err(MetadataErrorModel::UnsupportedFormat(n)),
        Ok(lane) => match spec_open(lane, bytes) {
            Err(m) => Err(MetadataErrorModel::Container(m)),
            Ok(c) => {
                let base = match model_exif(c) {
                    Some(exif) => spec_parse(exif),
                    None => Ok(minimal_model()),
                };
                match base {
                    Err(e) => Err(MetadataErrorModel::Exif(spec_error_message(e))),
                    Ok(t) => spec_store_exif(c, spec_serialize(tagged(t, tags))),
                }
            },
        },
    }
}

/// Set descriptive tags (artist, copyright, description) in the EXIF block
/// of a JPEG or PNG, creating the block when there is none; every other tag
/// and the pixels are kept.
pub fn set_tags(bytes: &[u8], tags: &TagSet) -> (r: Result<Vec<u8>, MetadataError>)
    ensures
        outcome(r) == spec_set_tags(bytes@, *tags),
{
    let lane = match sniff(bytes) {
        Ok(l) => l,
        Err(e) => {
            return Err(e);
        },
    };
    let c = match open_container(lane, bytes) {
        Ok(c) => c,
        Err(e) => {
            return Err(e);
        },
    };
    let mut parsed = match read_exif(&c) {
        Some(exif) => match tiff::parse(exif.as_slice()) {
            Ok(t) => t,
            Err(e) => {
                return Err(MetadataError::Exif(e.message()));
            },
        },
        None => tiff::minimal(),
    };
    let ghost t0 = parsed@;
    match &tags.description {
        Some(d) => tiff::set_ascii_tag(&mut parsed.ifd0, TAG_IMAGE_DESCRIPTION, d.as_str()),
        None => {},
    }
    match &tags.artist {
        Some(a) => tiff::set_ascii_tag(&mut parsed.ifd0, TAG_ARTIST, a.as_str()),
        None => {},
    }
    match &tags.copyright {
        Some(c) => tiff::set_ascii_tag(&mut parsed.ifd0, TAG_COPYRIGHT, c.as_str()),
        None => {},
    }
    assert(parsed@ == tagged(t0, *tags));
    let out_tiff = tiff::serialize(&parsed);
    store_exif(c, out_tiff)
}

// ── Strip ───────────────────────────────────────────────────────────────────

/// The segments without any marker in `0xE1..m`, removed one marker at a
/// time in ascending order.
pub open spec fn without_app_below(segs: Seq<(u8, Seq<u8>, Seq<u8>)>, m: int) -> Seq<(u8, Seq<u8>, Seq<u8>)>
    decreases m,
{
    if m <= 0xE1 {
        segs
    } else {
        without_marker(without_app_below(segs, m - 1), (m - 1) as u8)
    }
}

/// A JPEG with every `APP1`..`APP15` and `COM` segment removed (`APP0`, the
/// JFIF header, stays).
pub open spec fn jpeg_stripped(segs: Seq<(u8, Seq<u8>, Seq<u8>)>) -> Seq<(u8, Seq<u8>, Seq<u8>)> {
    without_marker(without_app_below(segs, 0xF0), 0xFE)
}

/// The PNG metadata chunk types a strip removes, in order: `eXIf`, `iCCP`,
/// `tEXt`, `zTXt`, `iTXt`, `tIME`.
pub open spec fn png_metadata_kinds() -> Seq<Seq<u8>> {
    seq![
        seq![0x65u8, 0x58u8, 0x49u8, 0x66u8],
        seq![0x69u8, 0x43u8, 0x43u8, 0x50u8],
        seq![0x74u8, 0x45u8, 0x58u8, 0x74u8],
        seq![0x7Au8, 0x54u8, 0x58u8, 0x74u8],
        seq![0x69u8, 0x54u8, 0x58u8, 0x74u8],
        seq![0x74u8, 0x49u8, 0x4Du8, 0x45u8],
    ]
}

/// The chunks without the first `k` metadata kinds, removed in order.
pub open spec fn without_kinds(chunks: Seq<(Seq<u8>, Seq<u8>)>, k: int) -> Seq<(Seq<u8>, Seq<u8>)>
    decreases k,
{
    if k <= 0 {
        chunks
    } else {
        without_chunk(without_kinds(chunks, k - 1), png_metadata_kinds()[k - 1])
    }
}

/// Whether JPEG marker `m` opens a metadata segment: `APP1`..`APP15` or `COM`.
pub open spec fn is_metadata_marker(m: u8) -> bool {
    (0xE1 <= m && m <= 0xEF) || m == 0xFE
}

proof fn lemma_filter_members<A>(s: Seq<A>, pred: spec_fn(A) -> bool, x: A)
    ensures
        s.filter(pred).contains(x) <==> (s.contains(x) && pred(x)),
{
    if s.filter(pred).contains(x) {
        s.lemma_filter_contains_rev(pred, x);
        let k = choose|k: int| 0 <= k < s.filter(pred).len() && s.filter(pred)[k] == x;
        s.lemma_filter_pred(pred, k);
    }
    if s.contains(x) && pred(x) {
        let i = choose|i: int| 0 <= i < s.len() && s[i] == x;
        s.lemma_filter_contains(pred, i);
    }
}

proof fn lemma_without_app_below(segs: Seq<(u8, Seq<u8>, Seq<u8>)>, m: int, x: (u8, Seq<u8>, Seq<u8>))
    requires
        0xE1 <= m <= 0xF0,
    ensures
        without_app_below(segs, m).contains(x) <==> (segs.contains(x) && !(0xE1 <= x.0 < m)),
    decreases m,
{
    if m > 0xE1 {
        lemma_without_app_below(segs, m - 1, x);
        lemma_filter_members(without_app_below(segs, m - 1), not_marker((m - 1) as u8), x);
    }
}

/// Stripping a JPEG keeps exactly its segments that carry no metadata: no
/// `APP1`..`APP15` or `COM` segment is left, and every other segment stays.
pub proof fn law_jpeg_strip_members(segs: Seq<(u8, Seq<u8>, Seq<u8>)>, x: (u8, Seq<u8>, Seq<u8>))
    ensures
        jpeg_stripped(segs).contains(x) <==> (segs.contains(x) && !is_metadata_marker(x.0)),
{
    lemma_without_app_below(segs, 0xF0, x);
    lemma_filter_members(without_app_below(segs, 0xF0), not_marker(0xFE), x);
}

proof fn lemma_without_kinds(chunks: Seq<(Seq<u8>, Seq<u8>)>, k: int, x: (Seq<u8>, Seq<u8>))
    requires
        0 <= k <= 6,
    ensures
        without_kinds(chunks, k).contains(x) <==> (chunks.contains(x) && !png_metadata_kinds().take(
            k,
        ).contains(x.0)),
    decreases k,
{
    if k > 0 {
        lemma_without_kinds(chunks, k - 1, x);
        lemma_filter_members(without_kinds(chunks, k - 1), not_kind(png_metadata_kinds()[k - 1]), x);
        let t = png_metadata_kinds().take(k);
        assert(t.drop_last() =~= png_metadata_kinds().take(k - 1));
        assert(t.contains(x.0) <==> (t.drop_last().contains(x.0) || x.0 == t.last())) by {
            if t.contains(x.0) {
                let i = choose|i: int| 0 <= i < t.len() && t[i] == x.0;
                if i < t.len() - 1 {
                    assert(t.drop_last()[i] == x.0);
                }
            }
            if t.drop_last().contains(x.0) {
                let i = choose|i: int| 0 <= i < t.drop_last().len() && t.drop_last()[i] == x.0;
                assert(t[i] == x.0);
            }
            if x.0 == t.last() {
                assert(t[t.len() - 1] == x.0);
            }
        }
    }
}

/// Stripping a PNG keeps exactly its chunks that carry no metadata: no
/// `eXIf`, `iCCP`, `tEXt`, `zTXt`, `iTXt` or `tIME` chunk is left, and every
/// other chunk stays.
pub proof fn law_png_strip_members(chunks: Seq<(Seq<u8>, Seq<u8>)>, x: (Seq<u8>, Seq<u8>))
    ensures
        without_kinds(chunks, 6).contains(x) <==> (chunks.contains(x)
            && !png_metadata_kinds().contains(x.0)),
{
    lemma_without_kinds(chunks, 6, x);
    assert(png_metadata_kinds().take(6) =~= png_metadata_kinds());
}

proof fn lemma_filter_all<A>(s: Seq<A>, pred: spec_fn(A) -> bool)
    requires
        forall|i: int| 0 <= i < s.len() ==> pred(#[trigger] s[i]),
    ensures
        s.filter(pred) == s,
    decreases s.len(),
{
    reveal(Seq::filter);
    if s.len() > 0 {
        lemma_filter_all(s.drop_last(), pred);
        assert(s.drop_last().push(s.last()) =~= s);
    }
}

proof fn lemma_first_exif_at(segs: Seq<(u8, Seq<u8>, Seq<u8>)>, j: int)
    requires
        0 <= j < segs.len(),
        segment_exif(segs[j]) is Some,
        forall|i: int| 0 <= i < j ==> segment_exif(#[trigger] segs[i]) is None,
    ensures
        first_exif(segs) == segment_exif(segs[j]),
    decreases j,
{
    if j > 0 {
        assert(segment_exif(segs[0]) is None);
        let rest = segs.drop_first();
        assert forall|i: int| 0 <= i < j - 1 implies segment_exif(#[trigger] rest[i]) is None by {
            assert(rest[i] == segs[i + 1]);
        }
        lemma_first_exif_at(rest, j - 1);
    }
}

proof fn lemma_first_exif_chunk_at(chunks: Seq<(Seq<u8>, Seq<u8>)>, j: int)
    requires
        0 <= j < chunks.len(),
        chunks[j].0 == exif_chunk_type(),
        forall|i: int| 0 <= i < j ==> (#[trigger] chunks[i]).0 != exif_chunk_type(),
    ensures
        first_exif_chunk(chunks) == Some(chunks[j].1),
    decreases j,
{
    if j > 0 {
        assert(chunks[0].0 != exif_chunk_type());
        let rest = chunks.drop_first();
        assert forall|i: int| 0 <= i < j - 1 implies (#[trigger] rest[i]).0 != exif_chunk_type() by {
            assert(rest[i] == chunks[i + 1]);
        }
        lemma_first_exif_chunk_at(rest, j - 1);
    }
}

/// Placing an EXIF block in a JPEG, as setting tags and removing GPS do,
/// keeps every other segment (the compressed scan among them) in its order,
/// and the EXIF block read back from the result is the one placed.
pub proof fn law_jpeg_exif_replaced(segs: Seq<(u8, Seq<u8>, Seq<u8>)>, tiff: Seq<u8>)
    requires
        without_exif(segs).len() >= 3,
    ensures
        without_exif(jpeg_with_exif(segs, Some(tiff))) == without_exif(segs),
        first_exif(jpeg_with_exif(segs, Some(tiff))) == Some(tiff),
{
    let pred = |s: (u8, Seq<u8>, Seq<u8>)| segment_exif(s) is None;
    let k = without_exif(segs);
    assert(k == segs.filter(pred));
    assert forall|i: int| 0 <= i < k.len() implies pred(#[trigger] k[i]) by {
        segs.lemma_filter_pred(pred, i);
    }
    let e = (app1(), exif_prefix() + tiff, Seq::<u8>::empty());
    assert((exif_prefix() + tiff).take(6) =~= exif_prefix());
    assert((exif_prefix() + tiff).skip(6) =~= tiff);
    assert(segment_exif(e) == Some(tiff));
    let r = k.insert(3, e);
    assert(r =~= (k.take(3) + seq![e]) + k.skip(3));
    Seq::filter_distributes_over_add(k.take(3) + seq![e], k.skip(3), pred);
    Seq::filter_distributes_over_add(k.take(3), seq![e], pred);
    reveal(Seq::filter);
    assert(seq![e].drop_last() =~= Seq::<(u8, Seq<u8>, Seq<u8>)>::empty());
    assert(seq![e].drop_last().filter(pred) =~= Seq::<(u8, Seq<u8>, Seq<u8>)>::empty());
    assert(seq![e].last() == e);
    assert(!pred(e));
    assert(seq![e].filter(pred) =~= Seq::<(u8, Seq<u8>, Seq<u8>)>::empty());
    lemma_filter_all(k.take(3), pred);
    lemma_filter_all(k.skip(3), pred);
    assert(k.take(3) + k.skip(3) =~= k);
    assert(r.filter(pred) == k);
    assert(jpeg_with_exif(segs, Some(tiff)) == r);
    assert forall|i: int| 0 <= i < 3 implies segment_exif(#[trigger] r[i]) is None by {
        assert(r[i] == k[i]);
        assert(pred(k[i]));
    }
    lemma_first_exif_at(r, 3);
}

/// Placing an EXIF block in a PNG keeps every other chunk (the `IDAT` data
/// among them) in its order, and the EXIF block read back from the result is
/// the one placed.
pub proof fn law_png_exif_replaced(chunks: Seq<(Seq<u8>, Seq<u8>)>, tiff: Seq<u8>)
    requires
        without_chunk(chunks, exif_chunk_type()).len() >= 1,
    ensures
        without_chunk(png_with_exif(chunks, Some(tiff)), exif_chunk_type()) == without_chunk(
            chunks,
            exif_chunk_type(),
        ),
        first_exif_chunk(png_with_exif(chunks, Some(tiff))) == Some(tiff),
{
    let pred = not_kind(exif_chunk_type());
    let k = without_chunk(chunks, exif_chunk_type());
    assert forall|i: int| 0 <= i < k.len() implies pred(#[trigger] k[i]) by {
        chunks.lemma_filter_pred(pred, i);
    }
    let e = (exif_chunk_type(), tiff);
    let j = k.len() - 1;
    let r = k.insert(j, e);
    assert(r =~= (k.take(j) + seq![e]) + k.skip(j));
    Seq::filter_distributes_over_add(k.take(j) + seq![e], k.skip(j), pred);
    Seq::filter_distributes_over_add(k.take(j), seq![e], pred);
    reveal(Seq::filter);
    assert(seq![e].drop_last() =~= Seq::<(Seq<u8>, Seq<u8>)>::empty());
    assert(seq![e].drop_last().filter(pred) =~= Seq::<(Seq<u8>, Seq<u8>)>::empty());
    assert(seq![e].last() == e);
    assert(!pred(e));
    assert(seq![e].filter(pred) =~= Seq::<(Seq<u8>, Seq<u8>)>::empty());
    lemma_filter_all(k.take(j), pred);
    lemma_filter_all(k.skip(j), pred);
    assert(k.take(j) + k.skip(j) =~= k);
    assert(png_with_exif(chunks, Some(tiff)) == r);
    assert forall|i: int| 0 <= i < j implies (#[trigger] r[i]).0 != exif_chunk_type() by {
        assert(r[i] == k[i]);
        assert(pred(k[i]));
    }
    lemma_first_exif_chunk_at(r, j);
}

/// Whether a PNG chunk type is one of the metadata chunks stripping
/// removes: `eXIf`, `iCCP`, `tEXt`, `zTXt`, `iTXt` or `tIME`.
pub open spec fn is_png_metadata_chunk(k: Seq<u8>) -> bool {
    ||| k == seq![0x65u8, 0x58u8, 0x49u8, 0x66u8]
    ||| k == seq![0x69u8, 0x43u8, 0x43u8, 0x50u8]
    ||| k == seq![0x74u8, 0x45u8, 0x58u8, 0x74u8]
    ||| k == seq![0x7Au8, 0x54u8, 0x58u8, 0x74u8]
    ||| k == seq![0x69u8, 0x54u8, 0x58u8, 0x74u8]
    ||| k == seq![0x74u8, 0x49u8, 0x4Du8, 0x45u8]
}

/// Stripping a PNG re-encodes exactly the chunks it had that are not
/// `eXIf`, `iCCP`, `tEXt`, `zTXt`, `iTXt` or `tIME`: none of those six
/// remains, and every other chunk stays.
pub proof fn law_png_strip_removes_metadata(bytes: Seq<u8>, chunks: Seq<(Seq<u8>, Seq<u8>)>)
    requires
        spec_sniff(bytes) == Ok::<Lane, Seq<char>>(Lane::Png),
        spec_open(Lane::Png, bytes) == Ok::<ContainerModel, Seq<char>>(ContainerModel::Png(chunks)),
    ensures
        exists|kept: Seq<(Seq<u8>, Seq<u8>)>|
            #![trigger png_encode_outcome(kept)]
            spec_strip_all(bytes) == match png_encode_outcome(kept) {
                Ok(v) => Ok(v),
                Err(m) => Err(MetadataErrorModel::Container(m)),
            } && forall|x: (Seq<u8>, Seq<u8>)|
                #[trigger] kept.contains(x) <==> (chunks.contains(x) && !is_png_metadata_chunk(x.0)),
{
    let kept = without_kinds(chunks, 6);
    let ks = png_metadata_kinds();
    assert forall|x: (Seq<u8>, Seq<u8>)|
        #[trigger] kept.contains(x) <==> (chunks.contains(x) && !is_png_metadata_chunk(x.0)) by {
        law_png_strip_members(chunks, x);
        if ks.contains(x.0) {
            let i = choose|i: int| 0 <= i < ks.len() && ks[i] == x.0;
            assert(is_png_metadata_chunk(x.0));
        }
        if is_png_metadata_chunk(x.0) {
            if x.0 == ks[0] {
            } else if x.0 == ks[1] {
            } else if x.0 == ks[2] {
            } else if x.0 == ks[3] {
            } else if x.0 == ks[4] {
            } else {
                assert(x.0 == ks[5]);
            }
            assert(ks.contains(x.0));
        }
    }
    assert(spec_strip_all(bytes) == match png_encode_outcome(kept) {
        Ok(v) => Ok(v),
        Err(m) => Err(MetadataErrorModel::Container(m)),
    });
}

/// What stripping `bytes` gives: the container without its metadata
/// segments or chunks, re-encoded.
pub open spec fn spec_strip_all(bytes: Seq<u8>) -> Result<Seq<u8>, MetadataErrorModel> {
    match spec_sniff(bytes) {
        Err(n) => Err(MetadataErrorModel::UnsupportedFormat(n)),
        Ok(lane) => match spec_open(lane, bytes) {
            Err(m) => Err(MetadataErrorModel::Container(m)),
            Ok(ContainerModel::Jpeg(s)) => match spec_jpeg_encode(jpeg_stripped(s)) {
                Ok(v) => Ok(v),
                Err(m) => Err(MetadataErrorModel::Container(m)),
            },
            Ok(ContainerModel::Png(c)) => match png_encode_outcome(without_kinds(c, 6)) {
                Ok(v) => Ok(v),
                Err(m) => Err(MetadataErrorModel::Container(m)),
            },
        },
    }
}

/// Strip every metadata segment (JPEG `APP1`..`APP15`, `COM`) or chunk (PNG
/// `eXIf`, `iCCP`, `tEXt`, `zTXt`, `iTXt`, `tIME`), keeping the pixels.
pub fn strip_all(bytes: &[u8]) -> (r: Result<Vec<u8>, MetadataError>)
    ensures
        outcome(r) == spec_strip_all(bytes@),
{
    let lane = match sniff(bytes) {
        Ok(l) => l,
        Err(e) => {
            return Err(e);
        },
    };
    match open_container(lane, bytes) {
        Err(e) => Err(e),
        Ok(Container::Jpeg(mut j)) => {
            let ghost s0 = jpeg_segments(j);
            let mut m: u8 = 0xE1;
            while m <= 0xEF
                invariant
                    0xE1 <= m <= 0xF0,
                    jpeg_segments(j) == without_app_below(s0, m as int),
                decreases 0xF0 - m,
            {
                jpeg_remove_marker(&mut j, m);
                m = m + 1;
            }
            jpeg_remove_marker(&mut j, 0xFE);
            match encode_jpeg_checked(j) {
                Ok(v) => Ok(v),
                Err(e) => Err(MetadataError::Container(e)),
            }
        },
        Ok(Container::Png(mut p)) => {
            let ghost c0 = png_chunks(p);
            let kinds: [[u8; 4]; 6] = [
                [0x65, 0x58, 0x49, 0x66],
                [0x69, 0x43, 0x43, 0x50],
                [0x74, 0x45, 0x58, 0x74],
                [0x7A, 0x54, 0x58, 0x74],
                [0x69, 0x54, 0x58, 0x74],
                [0x74, 0x49, 0x4D, 0x45],
            ];
            assert(forall|k: int| 0 <= k < 6 ==> #[trigger] kinds@[k]@ == png_metadata_kinds()[k]) by {
                assert(kinds@[0]@ =~= png_metadata_kinds()[0]);
                assert(kinds@[1]@ =~= png_metadata_kinds()[1]);
                assert(kinds@[2]@ =~= png_metadata_kinds()[2]);
                assert(kinds@[3]@ =~= png_metadata_kinds()[3]);
                assert(kinds@[4]@ =~= png_metadata_kinds()[4]);
                assert(kinds@[5]@ =~= png_metadata_kinds()[5]);
            }
            let mut k: usize = 0;
            while k < 6
                invariant
                    k <= 6,
                    forall|i: int| 0 <= i < 6 ==> #[trigger] kinds@[i]@ == png_metadata_kinds()[i],
                    png_chunks(p) == without_kinds(c0, k as int),
                decreases 6 - k,
            {
                png_remove_kind(&mut p, kinds[k]);
                k = k + 1;
            }
            match png_encode(p) {
                Ok(v) => Ok(v),
                Err(e) => Err(MetadataError::Container(e)),
            }
        },
    }
}

// ── Copy metadata ───────────────────────────────────────────────────────────

/// The message when copying between anything but two JPEGs.
pub open spec fn jpeg_only_message() -> Seq<char> {
    "copy-metadata supports JPEG only in v1"@
}

/// Copying EXIF and ICC from JPEG segments `src` into JPEG segments `dst`.
pub open spec fn spec_copy_segments(src: Seq<(u8, Seq<u8>, Seq<u8>)>, dst: Seq<(u8, Seq<u8>, Seq<u8>)>) -> Result<Seq<u8>, MetadataErrorModel> {
    let exif = first_exif(src);
    if exif is Some && without_exif(dst).len() < 3 {
        Err(MetadataErrorModel::Container(no_room_message()))
    } else {
        let d1 = jpeg_with_exif(dst, exif);
        if !icc_segments_whole(src) || !icc_segments_whole(d1) {
            Err(MetadataErrorModel::Container(truncated_icc_message()))
        } else {
            let icc = jpeg_icc_profile(src);
            if icc is Some && without_icc(d1).len() < 3 {
                Err(MetadataErrorModel::Container(no_room_message()))
            } else {
                match spec_jpeg_encode(jpeg_with_icc(d1, icc)) {
                    Ok(v) => Ok(v),
                    Err(m) => Err(MetadataErrorModel::Container(m)),
                }
            }
        }
    }
}

/// What copying the EXIF and ICC metadata of `from` onto `to` gives (both
/// must be JPEGs).
pub open spec fn spec_copy_metadata(from: Seq<u8>, to: Seq<u8>) -> Result<Seq<u8>, MetadataErrorModel> {
    match spec_sniff(from) {
        Err(n) => Err(MetadataErrorModel::UnsupportedFormat(n)),
        Ok(lf) => if lf != Lane::Jpeg {
            Err(MetadataErrorModel::UnsupportedFormat(jpeg_only_message()))
        } else {
            match spec_sniff(to) {
                Err(n) => Err(MetadataErrorModel::UnsupportedFormat(n)),
                Ok(lt) => if lt != Lane::Jpeg {
                    Err(MetadataErrorModel::UnsupportedFormat(jpeg_only_message()))
                } else {
                    match jpeg_parse_outcome(from) {
                        Err(m) => Err(MetadataErrorModel::Container(m)),
                        Ok(src) => match jpeg_parse_outcome(to) {
                            Err(m) => Err(MetadataErrorModel::Container(m)),
                            Ok(dst) => spec_copy_segments(src, dst),
                        },
                    }
                },
            }
        },
    }
}

fn count_without_icc(j: &img_parts::jpeg::Jpeg) -> (n: usize)
    ensures
        n == without_icc(jpeg_segments(*j)).len(),
{
    let heads = jpeg_segment_heads(j);
    let ghost segs = jpeg_segments(*j);
    let ghost pred = |s: (u8, Seq<u8>, Seq<u8>)| !segment_is_icc(s);
    let mut n: usize = 0;
    let mut i: usize = 0;
    reveal(Seq::filter);
    assert(segs.take(0).filter(pred) =~= Seq::<(u8, Seq<u8>, Seq<u8>)>::empty());
    while i < heads.len()
        invariant
            heads@.len() == segs.len(),
            forall|k: int|
                0 <= k < heads@.len() ==> heads@[k].0 == segs[k].0 && heads@[k].1@ == segs[k].1,
            pred == (|s: (u8, Seq<u8>, Seq<u8>)| !segment_is_icc(s)),
            i <= heads@.len(),
            n == segs.take(i as int).filter(pred).len(),
            n <= i,
        decreases heads@.len() - i,
    {
        reveal(Seq::filter);
        assert(segs.take(i + 1).drop_last() =~= segs.take(i as int));
        assert(segs.take(i + 1).last() == segs[i as int]);
        let is_icc = heads[i].0 == 0xE2 && crate::image::starts_with(
            heads[i].1.as_slice(),
            &[0x49u8, 0x43u8, 0x43u8, 0x5Fu8, 0x50u8, 0x52u8, 0x4Fu8, 0x46u8, 0x49u8, 0x4Cu8, 0x45u8, 0u8],
        );
        proof {
            let pre: Seq<u8> = seq![0x49u8, 0x43u8, 0x43u8, 0x5Fu8, 0x50u8, 0x52u8, 0x4Fu8, 0x46u8, 0x49u8, 0x4Cu8, 0x45u8, 0u8];
            assert(pre =~= icc_prefix());
            assert(is_icc == segment_is_icc(segs[i as int]));
        }
        if !is_icc {
            n = n + 1;
        }
        i = i + 1;
    }
    assert(segs.take(i as int) =~= segs);
    n
}

/// Copy the EXIF block and the ICC profile of JPEG `from` onto JPEG `to`
/// (replacing `to`'s own), keeping `to`'s pixels.
pub fn copy_metadata(from: &[u8], to: &[u8]) -> (r: Result<Vec<u8>, MetadataError>)
    ensures
        outcome(r) == spec_copy_metadata(from@, to@),
{
    let lf = match sniff(from) {
        Ok(l) => l,
        Err(e) => {
            return Err(e);
        },
    };
    if lf != Lane::Jpeg {
        return Err(MetadataError::UnsupportedFormat("copy-metadata supports JPEG only in v1".to_owned()));
    }
    let lt = match sniff(to) {
        Ok(l) => l,
        Err(e) => {
            return Err(e);
        },
    };
    if lt != Lane::Jpeg {
        return Err(MetadataError::UnsupportedFormat("copy-metadata supports JPEG only in v1".to_owned()));
    }
    let src = match jpeg_parse(from) {
        Ok(j) => j,
        Err(m) => {
            return Err(MetadataError::Container(m));
        },
    };
    let mut dst = match jpeg_parse(to) {
        Ok(j) => j,
        Err(m) => {
            return Err(MetadataError::Container(m));
        },
    };
    let exif = jpeg_exif(&src);
    if exif.is_some() && count_without_exif(&dst) < 3 {
        return Err(MetadataError::Container("too few segments to place an EXIF block".to_owned()));
    }
    jpeg_set_exif(&mut dst, exif);
    if !jpeg_icc_whole(&src) || !jpeg_icc_whole(&dst) {
        return Err(MetadataError::Container("truncated ICC profile segment".to_owned()));
    }
    let icc = jpeg_icc(&src);
    if icc.is_some() && count_without_icc(&dst) < 3 {
        return Err(MetadataError::Container("too few segments to place an EXIF block".to_owned()));
    }
    jpeg_set_icc(&mut dst, icc);
    match encode_jpeg_checked(dst) {
        Ok(v) => Ok(v),
        Err(m) => Err(MetadataError::Container(m)),
    }
}

} // verus!
