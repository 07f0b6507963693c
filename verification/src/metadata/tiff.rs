//! A bounded, panic-free binary TIFF-IFD reader and a normalizing
//! little-endian writer.
//!
//! The reader operates on the bare TIFF block of an EXIF payload (`II*\0` /
//! `MM\0*`, no `"Exif\0\0"` prefix). Every offset, length and index read here
//! is bounds-checked and yields an [`Error`] instead of a panic; sub-IFD
//! recursion and the IFD0 -> IFD1 chain are guarded both by a depth cap
//! ([`MAX_IFD_DEPTH`]) and by a set of already-visited offsets, so cyclic
//! offset chains terminate with [`Error::RecursionLimit`].
//!
//! Every entry keeps its raw `(tag, type, count, value-bytes)` so unknown tags
//! round-trip verbatim; pointer tags additionally carry the parsed sub-[`Ifd`].
//! IFD1's thumbnail blob (`0x0201` / `0x0202`) is captured so it can be
//! relocated on serialize.
//!
//! The meaning of a parse is the recursive spec [`spec_parse`]; the meaning of
//! a serialization is [`spec_serialize`]. The executable functions are proved
//! to compute exactly those.

use std::collections::HashSet;
use vstd::prelude::*;
use vstd::slice::{slice_subrange, slice_to_vec};
use vstd::string::StringSliceAdditionalSpecFns;

verus! {

broadcast use vstd::std_specs::hash::group_hash_axioms;

/// A tag-level error from the TIFF-IFD parser.
#[derive(Debug, Clone, PartialEq, Eq)]
pub enum Error {
    /// The block is too short to hold a TIFF header (carries its length).
    Truncated(usize),
    /// The first two bytes are neither `II` nor `MM`.
    BadByteOrder,
    /// The header's magic number is not 42.
    BadMagic,
    /// An IFD offset or value range lies outside the block.
    OutOfBounds,
    /// Sub-IFD recursion exceeded the depth cap, or an offset repeated.
    RecursionLimit(usize),
    /// An offset or length computation overflowed.
    Overflow,
}

impl Error {
    /// A human-readable message for this error.
    pub fn message(&self) -> (s: String)
        ensures
            s@ == spec_error_message(*self),
    {
        match self {
            Error::Truncated(_) => String::from_str("TIFF block too short"),
            Error::BadByteOrder => String::from_str("bad TIFF byte-order marker"),
            Error::BadMagic => String::from_str("bad TIFF magic number"),
            Error::OutOfBounds => String::from_str("IFD offset/length out of bounds"),
            Error::RecursionLimit(_) => String::from_str(
                "sub-IFD recursion exceeded the depth cap (cyclic or malicious offsets)",
            ),
            Error::Overflow => String::from_str("integer overflow while computing an offset/length"),
        }
    }
}

/// The message text of each error kind.
pub open spec fn spec_error_message(e: Error) -> Seq<char> {
    match e {
        Error::Truncated(_) => "TIFF block too short"@,
        Error::BadByteOrder => "bad TIFF byte-order marker"@,
        Error::BadMagic => "bad TIFF magic number"@,
        Error::OutOfBounds => "IFD offset/length out of bounds"@,
        Error::RecursionLimit(_) => "sub-IFD recursion exceeded the depth cap (cyclic or malicious offsets)"@,
        Error::Overflow => "integer overflow while computing an offset/length"@,
    }
}

/// Cap on IFD recursion/chaining (sub-IFDs and the IFD0 -> IFD1 link).
pub const MAX_IFD_DEPTH: usize = 8;

/// Pointer tag whose `LONG` value is the offset of the ExifIFD.
pub const EXIF_PTR: u16 = 0x8769;

/// Pointer tag whose `LONG` value is the offset of the GPS IFD.
pub const GPS_PTR: u16 = 0x8825;

/// Pointer tag whose `LONG` value is the offset of the Interoperability IFD.
pub const INTEROP_PTR: u16 = 0xA005;

/// IFD0 `ImageDescription` (ASCII).
pub const TAG_IMAGE_DESCRIPTION: u16 = 0x010E;

/// IFD0 `Artist` (ASCII).
pub const TAG_ARTIST: u16 = 0x013B;

/// IFD0 `Copyright` (ASCII).
pub const TAG_COPYRIGHT: u16 = 0x8298;

/// IFD1 thumbnail offset tag (`JPEGInterchangeFormat`).
pub const TAG_THUMB_OFFSET: u16 = 0x0201;

/// IFD1 thumbnail length tag (`JPEGInterchangeFormatLength`).
pub const TAG_THUMB_LENGTH: u16 = 0x0202;

/// TIFF field type `LONG`.
pub const TY_LONG: u16 = 4;

/// TIFF field type `ASCII`.
pub const TY_ASCII: u16 = 2;

/// Byte width of one element of TIFF field type `ty` (TIFF 6.0 section 2);
/// unknown codes count as byte-sized.
pub open spec fn spec_type_size(ty: u16) -> int {
    if ty == 1 || ty == 2 || ty == 6 || ty == 7 {
        1
    } else if ty == 3 || ty == 8 {
        2
    } else if ty == 4 || ty == 9 || ty == 11 {
        4
    } else if ty == 5 || ty == 10 || ty == 12 {
        8
    } else {
        1
    }
}

/// Byte width of one element of TIFF field type `ty`.
pub fn type_size(ty: u16) -> (n: usize)
    ensures
        n == spec_type_size(ty),
        1 <= n <= 8,
{
    match ty {
        1 | 2 | 6 | 7 => 1,
        3 | 8 => 2,
        4 | 9 | 11 => 4,
        5 | 10 | 12 => 8,
        _ => 1,
    }
}

/// Byte width of the units a value of type `ty` is stored in, each in the
/// block's byte order: a `RATIONAL` is two `LONG`s, so its units are four
/// bytes wide; byte-sized and unknown types have one-byte units, which no
/// byte order changes.
pub open spec fn spec_unit_size(ty: u16) -> int {
    if ty == 3 || ty == 8 {
        2
    } else if ty == 4 || ty == 9 || ty == 11 || ty == 5 || ty == 10 {
        4
    } else if ty == 12 {
        8
    } else {
        1
    }
}

/// Byte width of the units a value of type `ty` is stored in.
pub fn unit_size(ty: u16) -> (n: usize)
    ensures
        n == spec_unit_size(ty),
        1 <= n <= 8,
{
    match ty {
        3 | 8 => 2,
        4 | 9 | 11 | 5 | 10 => 4,
        12 => 8,
        _ => 1,
    }
}

/// `v` with the bytes of each whole `u`-byte unit reversed; a trailing
/// partial unit is kept as it is.
#[verifier::opaque]
pub open spec fn swap_units(v: Seq<u8>, u: int) -> Seq<u8>
    decreases v.len(),
{
    if u <= 0 || v.len() < u {
        v
    } else {
        v.take(u).reverse() + swap_units(v.skip(u), u)
    }
}

/// A value of type `ty` read in the block's byte order (`le`), with every
/// unit re-encoded little-endian.
pub open spec fn le_value(v: Seq<u8>, ty: u16, le: bool) -> Seq<u8> {
    if le {
        v
    } else {
        swap_units(v, spec_unit_size(ty))
    }
}

/// Re-encode the `u`-byte big-endian units of `v` little-endian.
fn to_little_endian(v: &[u8], u: usize) -> (out: Vec<u8>)
    requires
        1 <= u <= 8,
    ensures
        out@ == swap_units(v@, u as int),
{
    reveal(swap_units);
    let mut out: Vec<u8> = Vec::new();
    let n = v.len();
    let mut base: usize = 0;
    assert(v@.skip(0) =~= v@);
    assert(out@ + swap_units(v@.skip(0), u as int) =~= swap_units(v@, u as int));
    while u <= n - base
        invariant
            base <= n,
            n == v@.len(),
            1 <= u <= 8,
            out@ + swap_units(v@.skip(base as int), u as int) == swap_units(v@, u as int),
        decreases n - base,
    {
        let ghost rest = v@.skip(base as int);
        let ghost chunk = rest.take(u as int).reverse();
        let ghost out0 = out@;
        let mut k: usize = 0;
        while k < u
            invariant
                k <= u,
                1 <= u <= 8,
                base + u <= n,
                n == v@.len(),
                rest == v@.skip(base as int),
                chunk == rest.take(u as int).reverse(),
                out@ == out0 + chunk.take(k as int),
            decreases u - k,
        {
            assert(chunk[k as int] == v@[base + u - 1 - k]);
            out.push(v[base + u - 1 - k]);
            assert(out@ =~= out0 + chunk.take(k + 1));
            k = k + 1;
        }
        assert(chunk.take(u as int) =~= chunk);
        assert(rest.skip(u as int) =~= v@.skip(base + u));
        assert(swap_units(rest, u as int) == chunk + swap_units(rest.skip(u as int), u as int)) by {
            reveal(swap_units);
        }
        assert(out@ + swap_units(v@.skip(base + u), u as int) =~= out0 + swap_units(rest, u as int));
        base = base + u;
    }
    let ghost mid = out@;
    let mut i: usize = base;
    while i < n
        invariant
            base <= i <= n,
            n == v@.len(),
            out@ == mid + v@.subrange(base as int, i as int),
        decreases n - i,
    {
        out.push(v[i]);
        assert(out@ =~= mid + v@.subrange(base as int, i + 1));
        i = i + 1;
    }
    assert(v@.skip(base as int) =~= v@.subrange(base as int, n as int));
    assert(swap_units(v@.skip(base as int), u as int) == v@.skip(base as int)) by {
        reveal(swap_units);
    }
    out
}

/// Whether `tag` is one of the three sub-IFD pointer tags.
pub open spec fn is_pointer_tag(tag: u16) -> bool {
    tag == EXIF_PTR || tag == GPS_PTR || tag == INTEROP_PTR
}

// ── Data model ──────────────────────────────────────────────────────────────

/// One IFD entry: an opaque `(tag, type, count, value-bytes)` tuple, plus the
/// parsed sub-IFD for pointer tags.
#[derive(Debug)]
pub struct Entry {
    pub tag: u16,
    pub ty: u16,
    pub count: u32,
    /// The raw value bytes (length = `type_size(ty) * count`).
    pub value: Vec<u8>,
    /// Parsed sub-IFD for pointer tags.
    pub sub: Option<Box<Ifd>>,
}

/// One IFD: its entries, an optional next-IFD link, and (on IFD1) the
/// thumbnail bytes located by `0x0201`/`0x0202`.
#[derive(Debug)]
pub struct Ifd {
    pub entries: Vec<Entry>,
    pub next: Option<Box<Ifd>>,
    pub thumbnail: Option<Vec<u8>>,
}

/// A parsed TIFF block: its IFD0 (with sub-IFDs and the IFD1 chain).
#[derive(Debug)]
pub struct Tiff {
    pub ifd0: Ifd,
}

/// The mathematical value of an [`Entry`].
#[verifier::ext_equal]
pub struct EntryModel {
    pub tag: u16,
    pub ty: u16,
    pub count: u32,
    pub value: Seq<u8>,
    pub sub: Option<IfdModel>,
}

/// The mathematical value of an [`Ifd`].
#[verifier::ext_equal]
pub struct IfdModel {
    pub entries: Seq<EntryModel>,
    pub next: Option<Box<IfdModel>>,
    pub thumbnail: Option<Seq<u8>>,
}

/// The mathematical value of a [`Tiff`].
#[verifier::ext_equal]
pub struct TiffModel {
    pub ifd0: IfdModel,
}

/// The model of an exec entry.
pub open spec fn entry_model(e: Entry) -> EntryModel
    decreases e,
{
    EntryModel {
        tag: e.tag,
        ty: e.ty,
        count: e.count,
        value: e.value@,
        sub: match e.sub {
            Some(b) => Some(ifd_model(*b)),
            None => None,
        },
    }
}

/// A placeholder model (only used outside a sequence's index range).
pub open spec fn empty_entry_model() -> EntryModel {
    EntryModel { tag: 0, ty: 0, count: 0, value: Seq::empty(), sub: None }
}

/// The model of a sequence of exec entries.
pub open spec fn entries_model(es: Seq<Entry>) -> Seq<EntryModel>
    decreases es,
    via entries_model_decreases
{
    Seq::new(
        es.len(),
        |i: int|
            if 0 <= i < es.len() {
                entry_model(es[i])
            } else {
                empty_entry_model()
            },
    )
}

#[via_fn]
proof fn entries_model_decreases(es: Seq<Entry>) {
    assert forall|i: int| 0 <= i < es.len() implies decreases_to!(es => es[i]) by {}
}

/// The model of an exec IFD.
pub open spec fn ifd_model(d: Ifd) -> IfdModel
    decreases d,
    via ifd_model_decreases
{
    IfdModel {
        entries: Seq::new(
            d.entries@.len(),
            |i: int|
                if 0 <= i < d.entries@.len() {
                    entry_model(d.entries@[i])
                } else {
                    empty_entry_model()
                },
        ),
        next: match d.next {
            Some(b) => Some(Box::new(ifd_model(*b))),
            None => None,
        },
        thumbnail: match d.thumbnail {
            Some(t) => Some(t@),
            None => None,
        },
    }
}

#[via_fn]
proof fn ifd_model_decreases(d: Ifd) {
    assert forall|i: int| 0 <= i < d.entries@.len() implies decreases_to!(d => d.entries@[i]) by {
        assert(decreases_to!(d => d.entries));
        assert(decreases_to!(d.entries => d.entries@));
        assert(decreases_to!(d.entries@ => d.entries@[i]));
    }
}

impl View for Entry {
    type V = EntryModel;

    open spec fn view(&self) -> EntryModel {
        entry_model(*self)
    }
}

impl View for Ifd {
    type V = IfdModel;

    open spec fn view(&self) -> IfdModel {
        ifd_model(*self)
    }
}

impl View for Tiff {
    type V = TiffModel;

    open spec fn view(&self) -> TiffModel {
        TiffModel { ifd0: ifd_model(self.ifd0) }
    }
}

/// The entries of an IFD's model are the models of its exec entries.
pub proof fn lemma_ifd_entries_model(d: Ifd)
    ensures
        ifd_model(d).entries == entries_model(d.entries@),
        ifd_model(d).entries.len() == d.entries@.len(),
{
    assert(ifd_model(d).entries =~= entries_model(d.entries@));
}

// ── Byte reads (spec) ───────────────────────────────────────────────────────

/// The 16-bit value stored at `buf[at..at + 2]` in the given byte order.
pub open spec fn u16_at(buf: Seq<u8>, at: int, le: bool) -> u16 {
    if le {
        (buf[at] + 256 * buf[at + 1]) as u16
    } else {
        (256 * buf[at] + buf[at + 1]) as u16
    }
}

/// The 32-bit value stored at `buf[at..at + 4]` in the given byte order.
pub open spec fn u32_at(buf: Seq<u8>, at: int, le: bool) -> u32 {
    if le {
        (buf[at] + 256 * buf[at + 1] + 65536 * buf[at + 2] + 16777216 * buf[at + 3]) as u32
    } else {
        (16777216 * buf[at] + 65536 * buf[at + 1] + 256 * buf[at + 2] + buf[at + 3]) as u32
    }
}

/// The outcome of checking that `n` bytes starting at `start` lie inside a
/// block of length `len`: the end offset, or the error the reader reports.
pub open spec fn spec_range(len: int, start: int, n: int) -> Result<usize, Error> {
    if start + n > usize::MAX {
        Err(Error::Overflow)
    } else if start + n > len {
        Err(Error::OutOfBounds)
    } else {
        Ok((start + n) as usize)
    }
}

// ── Parse (spec) ────────────────────────────────────────────────────────────

/// The value bytes of the entry whose 12-byte record starts at `at`.
pub open spec fn spec_entry_value(buf: Seq<u8>, at: int, le: bool) -> Result<Seq<u8>, Error> {
    let ty = u16_at(buf, at + 2, le);
    let count = u32_at(buf, at + 4, le);
    let vlen = spec_type_size(ty) * count;
    if vlen > usize::MAX {
        Err(Error::Overflow)
    } else if vlen <= 4 {
        Ok(buf.subrange(at + 8, at + 8 + vlen))
    } else {
        let voff = u32_at(buf, at + 8, le) as int;
        match spec_range(buf.len() as int, voff, vlen) {
            Err(e) => Err(e),
            Ok(_) => Ok(buf.subrange(voff, voff + vlen)),
        }
    }
}

/// Whether the entry record at `at` is a sub-IFD pointer (a pointer tag of
/// type `LONG` whose value occupies exactly 4 bytes).
pub open spec fn spec_entry_is_pointer(buf: Seq<u8>, at: int, le: bool) -> bool {
    let tag = u16_at(buf, at, le);
    let ty = u16_at(buf, at + 2, le);
    let count = u32_at(buf, at + 4, le);
    is_pointer_tag(tag) && ty == TY_LONG && spec_type_size(ty) * count == 4
}

/// Parse the IFD at `offset`, recursing into pointer-tag sub-IFDs and the
/// next-IFD link. `depth` is the nesting depth and `seen` the offsets already
/// visited in this parse; the result carries the updated `seen`.
pub open spec fn spec_parse_ifd(
    buf: Seq<u8>,
    offset: int,
    le: bool,
    depth: int,
    seen: Set<usize>,
) -> Result<(IfdModel, Set<usize>), Error>
    decreases MAX_IFD_DEPTH - depth, 3int, 0int,
{
    if depth > MAX_IFD_DEPTH {
        Err(Error::RecursionLimit(MAX_IFD_DEPTH))
    } else if seen.contains(offset as usize) {
        Err(Error::RecursionLimit(MAX_IFD_DEPTH))
    } else {
        match spec_range(buf.len() as int, offset, 2) {
            Err(e) => Err(e),
            Ok(_) => {
                let count = u16_at(buf, offset, le) as int;
                match spec_range(buf.len() as int, offset + 2, count * 12) {
                    Err(e) => Err(e),
                    Ok(_) => match spec_range(buf.len() as int, offset + 2 + count * 12, 4) {
                        Err(e) => Err(e),
                        Ok(_) => spec_ifd_tail(
                            buf,
                            offset + 2,
                            count,
                            le,
                            depth,
                            spec_parse_entries(
                                buf,
                                offset + 2,
                                count,
                                le,
                                depth,
                                seen.insert(offset as usize),
                            ),
                        ),
                    },
                }
            },
        }
    }
}

/// The rest of an IFD parse once its `count` entries starting at `dir_start`
/// have been parsed into `entries_res`: the next-IFD link, then the
/// thumbnail blob.

pub open spec fn spec_ifd_tail(
    buf: Seq<u8>,
    dir_start: int,
    count: int,
    le: bool,
    depth: int,
    entries_res: Result<(Seq<EntryModel>, Set<usize>), Error>,
) -> Result<(IfdModel, Set<usize>), Error>
    decreases MAX_IFD_DEPTH - depth, 2int, 0int,
{
    match entries_res {
        Err(e) => Err(e),
        Ok((entries, seen2)) => {
            let next_raw = u32_at(buf, dir_start + count * 12, le);
            let next_res: Result<(Option<Box<IfdModel>>, Set<usize>), Error> = if next_raw == 0 {
                Ok((None, seen2))
            } else if depth + 1 > MAX_IFD_DEPTH {
                Err(Error::RecursionLimit(MAX_IFD_DEPTH))
            } else {
                match spec_parse_ifd(buf, next_raw as int, le, depth + 1, seen2) {
                    Err(e) => Err(e),
                    Ok((n, s)) => Ok((Some(Box::new(n)), s)),
                }
            };
            match next_res {
                Err(e) => Err(e),
                Ok((next, seen3)) => {
                    let toff = spec_thumb_field(buf, dir_start, count, le, TAG_THUMB_OFFSET);
                    let tlen = spec_thumb_field(buf, dir_start, count, le, TAG_THUMB_LENGTH);
                    if toff is Some && tlen is Some {
                        let o = toff->0 as int;
                        let l = tlen->0 as int;
                        match spec_range(buf.len() as int, o, l) {
                            Err(e) => Err(e),
                            Ok(_) => Ok(
                                (
                                    IfdModel {
                                        entries,
                                        next,
                                        thumbnail: Some(buf.subrange(o, o + l)),
                                    },
                                    seen3,
                                ),
                            ),
                        }
                    } else {
                        Ok((IfdModel { entries, next, thumbnail: None }, seen3))
                    }
                },
            }
        },
    }
}

/// Parse the first `n` entry records of the directory starting at
/// `dir_start`, threading the visited-offset set through them in order.
pub open spec fn spec_parse_entries(
    buf: Seq<u8>,
    dir_start: int,
    n: int,
    le: bool,
    depth: int,
    seen: Set<usize>,
) -> Result<(Seq<EntryModel>, Set<usize>), Error>
    decreases MAX_IFD_DEPTH - depth, 1int, n,
{
    if n <= 0 {
        Ok((Seq::empty(), seen))
    } else {
        match spec_parse_entries(buf, dir_start, n - 1, le, depth, seen) {
            Err(e) => Err(e),
            Ok((es, s)) => match spec_parse_entry(buf, dir_start + (n - 1) * 12, le, depth, s) {
                Err(e) => Err(e),
                Ok((e, s2)) => Ok((es.push(e), s2)),
            },
        }
    }
}

/// Parse the one entry record at `at` (and its sub-IFD, for a pointer).

pub open spec fn spec_parse_entry(
    buf: Seq<u8>,
    at: int,
    le: bool,
    depth: int,
    seen: Set<usize>,
) -> Result<(EntryModel, Set<usize>), Error>
    decreases MAX_IFD_DEPTH - depth, 0int, 0int,
{
    let tag = u16_at(buf, at, le);
    let ty = u16_at(buf, at + 2, le);
    let count = u32_at(buf, at + 4, le);
    match spec_entry_value(buf, at, le) {
        Err(e) => Err(e),
        Ok(value) => if spec_entry_is_pointer(buf, at, le) {
            if depth + 1 > MAX_IFD_DEPTH {
                Err(Error::RecursionLimit(MAX_IFD_DEPTH))
            } else {
                match spec_parse_ifd(buf, u32_at(buf, at + 8, le) as int, le, depth + 1, seen) {
                    Err(e) => Err(e),
                    Ok((sub, s)) => Ok(
                        (EntryModel { tag, ty, count, value: le_value(value, ty, le), sub: Some(sub) }, s),
                    ),
                }
            }
        } else {
            Ok((EntryModel { tag, ty, count, value: le_value(value, ty, le), sub: None }, seen))
        },
    }
}

/// The inline 4-byte value of the last of the first `n` entries carrying
/// `tag` with a 4-byte value (the thumbnail offset/length lookup).
pub open spec fn spec_thumb_field(buf: Seq<u8>, dir_start: int, n: int, le: bool, tag: u16) -> Option<
    u32,
>
    decreases n,
{
    if n <= 0 {
        None
    } else {
        let at = dir_start + (n - 1) * 12;
        let ty = u16_at(buf, at + 2, le);
        let count = u32_at(buf, at + 4, le);
        if u16_at(buf, at, le) == tag && spec_type_size(ty) * count == 4 {
            Some(u32_at(buf, at + 8, le))
        } else {
            spec_thumb_field(buf, dir_start, n - 1, le, tag)
        }
    }
}

/// The meaning of [`parse`]: the TIFF model of `buf`, or the error the
/// reader reports for it.
pub open spec fn spec_parse(buf: Seq<u8>) -> Result<TiffModel, Error> {
    if buf.len() < 8 {
        Err(Error::Truncated(buf.len() as usize))
    } else if !((buf[0] == 0x49 && buf[1] == 0x49) || (buf[0] == 0x4D && buf[1] == 0x4D)) {
        Err(Error::BadByteOrder)
    } else {
        let le = buf[0] == 0x49;
        if u16_at(buf, 2, le) != 42 {
            Err(Error::BadMagic)
        } else {
            match spec_parse_ifd(buf, u32_at(buf, 4, le) as int, le, 0, Set::empty()) {
                Err(e) => Err(e),
                Ok((ifd0, _)) => Ok(TiffModel { ifd0 }),
            }
        }
    }
}

/// The outcome of reading a 16-bit value at `at`.
pub open spec fn spec_read_u16(buf: Seq<u8>, at: int, le: bool) -> Result<u16, Error> {
    match spec_range(buf.len() as int, at, 2) {
        Err(e) => Err(e),
        Ok(_) => Ok(u16_at(buf, at, le)),
    }
}

/// The outcome of reading a 32-bit value at `at`.
pub open spec fn spec_read_u32(buf: Seq<u8>, at: int, le: bool) -> Result<u32, Error> {
    match spec_range(buf.len() as int, at, 4) {
        Err(e) => Err(e),
        Ok(_) => Ok(u32_at(buf, at, le)),
    }
}

// ── Bounds-checked byte readers ─────────────────────────────────────────────

/// Check that `n` bytes starting at `start` fit in a block of length `len`,
/// returning the end offset.
fn check_range(len: usize, start: usize, n: usize) -> (r: Result<usize, Error>)
    ensures
        r == spec_range(len as int, start as int, n as int),
{
    match start.checked_add(n) {
        None => Err(Error::Overflow),
        Some(end) => if end > len {
            Err(Error::OutOfBounds)
        } else {
            Ok(end)
        },
    }
}

/// The `len` bytes of `buf` starting at `start`, bounds- and overflow-checked.
fn get_slice(buf: &[u8], start: usize, len: usize) -> (r: Result<&[u8], Error>)
    ensures
        match r {
            Ok(s) => spec_range(buf@.len() as int, start as int, len as int) is Ok && s@
                == buf@.subrange(start as int, start + len),
            Err(e) => spec_range(buf@.len() as int, start as int, len as int) == Err::<
                usize,
                Error,
            >(e),
        },
{
    match check_range(buf.len(), start, len) {
        Err(e) => Err(e),
        Ok(end) => Ok(slice_subrange(buf, start, end)),
    }
}

/// Read a 16-bit value at `at` in the given byte order.
fn read_u16(buf: &[u8], at: usize, le: bool) -> (r: Result<u16, Error>)
    ensures
        r == spec_read_u16(buf@, at as int, le),
{
    match get_slice(buf, at, 2) {
        Err(e) => Err(e),
        Ok(s) => {
            let b0 = s[0] as u16;
            let b1 = s[1] as u16;
            if le {
                Ok(b0 + 256 * b1)
            } else {
                Ok(256 * b0 + b1)
            }
        },
    }
}

/// Read a 32-bit value at `at` in the given byte order.
fn read_u32(buf: &[u8], at: usize, le: bool) -> (r: Result<u32, Error>)
    ensures
        r == spec_read_u32(buf@, at as int, le),
{
    match get_slice(buf, at, 4) {
        Err(e) => Err(e),
        Ok(s) => Ok(value_as_u32(s, le)),
    }
}

/// Decode a 4-byte value slot as a `u32` in the given byte order.
fn value_as_u32(bytes: &[u8], le: bool) -> (v: u32)
    requires
        bytes@.len() == 4,
    ensures
        v == u32_at(bytes@, 0, le),
{
    let b0 = bytes[0] as u32;
    let b1 = bytes[1] as u32;
    let b2 = bytes[2] as u32;
    let b3 = bytes[3] as u32;
    if le {
        b0 + 256 * b1 + 65536 * b2 + 16777216 * b3
    } else {
        16777216 * b0 + 65536 * b1 + 256 * b2 + b3
    }
}

// ── Parse ───────────────────────────────────────────────────────────────────

proof fn lemma_entries_model_push(es: Seq<Entry>, e: Entry)
    ensures
        entries_model(es.push(e)) == entries_model(es).push(entry_model(e)),
{
    assert(entries_model(es.push(e)) =~= entries_model(es).push(entry_model(e)));
}

proof fn lemma_entries_err(
    buf: Seq<u8>,
    dir_start: int,
    k: int,
    n: int,
    le: bool,
    depth: int,
    seen: Set<usize>,
)
    requires
        0 <= k <= n,
        spec_parse_entries(buf, dir_start, k, le, depth, seen) is Err,
    ensures
        spec_parse_entries(buf, dir_start, n, le, depth, seen) == spec_parse_entries(
            buf,
            dir_start,
            k,
            le,
            depth,
            seen,
        ),
    decreases n - k,
{
    if n > k {
        lemma_entries_err(buf, dir_start, k, n - 1, le, depth, seen);
    }
}

proof fn lemma_entries_step(
    buf: Seq<u8>,
    dir_start: int,
    n: int,
    le: bool,
    depth: int,
    seen: Set<usize>,
)
    requires
        0 <= n,
    ensures
        spec_parse_entries(buf, dir_start, 0, le, depth, seen) == Ok::<
            (Seq<EntryModel>, Set<usize>),
            Error,
        >((Seq::empty(), seen)),
        spec_parse_entries(buf, dir_start, n + 1, le, depth, seen) == match spec_parse_entries(
            buf,
            dir_start,
            n,
            le,
            depth,
            seen,
        ) {
            Err(e) => Err(e),
            Ok((es, s)) => match spec_parse_entry(buf, dir_start + n * 12, le, depth, s) {
                Err(e) => Err(e),
                Ok((e, s2)) => Ok((es.push(e), s2)),
            },
        },
{
}

proof fn lemma_ifd_entries_err(
    buf: Seq<u8>,
    offset: int,
    le: bool,
    depth: int,
    seen: Set<usize>,
    e: Error,
)
    requires
        0 <= depth <= MAX_IFD_DEPTH,
        0 <= offset,
        buf.len() <= usize::MAX,
        !seen.contains(offset as usize),
        offset + 2 + u16_at(buf, offset, le) * 12 + 4 <= buf.len(),
        spec_parse_entries(
            buf,
            offset + 2,
            u16_at(buf, offset, le) as int,
            le,
            depth,
            seen.insert(offset as usize),
        ) == Err::<(Seq<EntryModel>, Set<usize>), Error>(e),
    ensures
        spec_parse_ifd(buf, offset, le, depth, seen) == Err::<(IfdModel, Set<usize>), Error>(e),
{
}

/// Parse a bare TIFF/EXIF block (no `"Exif\0\0"` prefix). Malformed,
/// truncated or cyclic input yields an [`Error`], never a panic.
pub fn parse(buf: &[u8]) -> (r: Result<Tiff, Error>)
    ensures
        spec_parse(buf@) == match r {
            Ok(t) => Ok(t@),
            Err(e) => Err::<TiffModel, Error>(e),
        },
{
    if buf.len() < 8 {
        return Err(Error::Truncated(buf.len()));
    }
    let little_endian = if buf[0] == 0x49 && buf[1] == 0x49 {
        true
    } else if buf[0] == 0x4D && buf[1] == 0x4D {
        false
    } else {
        return Err(Error::BadByteOrder);
    };
    let magic = match read_u16(buf, 2, little_endian) {
        Err(e) => return Err(e),
        Ok(m) => m,
    };
    if magic != 42 {
        return Err(Error::BadMagic);
    }
    let ifd0_offset = match read_u32(buf, 4, little_endian) {
        Err(e) => return Err(e),
        Ok(o) => o as usize,
    };
    let mut seen: HashSet<usize> = HashSet::new();
    match parse_ifd(buf, ifd0_offset, little_endian, 0, &mut seen) {
        Err(e) => Err(e),
        Ok(ifd0) => Ok(Tiff { ifd0 }),
    }
}

/// Parse the one entry record at `at` (and, for a pointer tag, its sub-IFD).
#[verifier::rlimit(40)]
fn parse_entry(buf: &[u8], at: usize, le: bool, depth: usize, seen: &mut HashSet<usize>) -> (r:
    Result<Entry, Error>)
    requires
        at + 12 <= buf@.len(),
        depth <= MAX_IFD_DEPTH,
    ensures
        spec_parse_entry(buf@, at as int, le, depth as int, old(seen)@) == match r {
            Ok(e) => Ok((e@, final(seen)@)),
            Err(e) => Err::<(EntryModel, Set<usize>), Error>(e),
        },
    decreases MAX_IFD_DEPTH - depth, 0int,
{
    let _len = buf.len();
    let tag = match read_u16(buf, at, le) {
        Err(e) => return Err(e),
        Ok(v) => v,
    };
    let ty = match read_u16(buf, at + 2, le) {
        Err(e) => return Err(e),
        Ok(v) => v,
    };
    let raw_count = match read_u32(buf, at + 4, le) {
        Err(e) => return Err(e),
        Ok(v) => v,
    };
    let elem_size = type_size(ty);
    let vlen = match elem_size.checked_mul(raw_count as usize) {
        None => return Err(Error::Overflow),
        Some(v) => v,
    };
    let inline_slot = match get_slice(buf, at + 8, 4) {
        Err(e) => return Err(e),
        Ok(s) => s,
    };
    let value = if vlen <= 4 {
        slice_to_vec(slice_subrange(inline_slot, 0, vlen))
    } else {
        let value_offset = value_as_u32(inline_slot, le) as usize;
        match get_slice(buf, value_offset, vlen) {
            Err(e) => return Err(e),
            Ok(s) => slice_to_vec(s),
        }
    };
    assert(value@ == spec_entry_value(buf@, at as int, le)->Ok_0);
    let value = if le {
        value
    } else {
        to_little_endian(value.as_slice(), unit_size(ty))
    };
    let sub = if (tag == EXIF_PTR || tag == GPS_PTR || tag == INTEROP_PTR) && ty == TY_LONG && vlen
        == 4 {
        if depth + 1 > MAX_IFD_DEPTH {
            return Err(Error::RecursionLimit(MAX_IFD_DEPTH));
        }
        let sub_offset = value_as_u32(inline_slot, le) as usize;
        match parse_ifd(buf, sub_offset, le, depth + 1, seen) {
            Err(e) => return Err(e),
            Ok(d) => Some(Box::new(d)),
        }
    } else {
        None
    };
    Ok(Entry { tag, ty, count: raw_count, value, sub })
}

/// Parse one IFD at `offset`, recursing into pointer-tag sub-IFDs and
/// following the next-IFD link. `depth` bounds the recursion and `seen`
/// (offsets already visited in this parse) catches cycles.
#[verifier::rlimit(40)]
fn parse_ifd(buf: &[u8], offset: usize, le: bool, depth: usize, seen: &mut HashSet<usize>) -> (r:
    Result<Ifd, Error>)
    ensures
        spec_parse_ifd(buf@, offset as int, le, depth as int, old(seen)@) == match r {
            Ok(d) => Ok((d@, final(seen)@)),
            Err(e) => Err::<(IfdModel, Set<usize>), Error>(e),
        },
    decreases MAX_IFD_DEPTH - depth, 3int,
{
    if depth > MAX_IFD_DEPTH {
        return Err(Error::RecursionLimit(MAX_IFD_DEPTH));
    }
    let ghost seen0 = seen@;
    if !seen.insert(offset) {
        return Err(Error::RecursionLimit(MAX_IFD_DEPTH));
    }
    let ghost seen1 = seen@;
    let _len = buf.len();
    let count = match read_u16(buf, offset, le) {
        Err(e) => return Err(e),
        Ok(c) => c as usize,
    };
    let dir_start = offset + 2;
    let entries_len = count * 12;
    let next_offset_pos = match dir_start.checked_add(entries_len) {
        None => return Err(Error::Overflow),
        Some(p) => p,
    };
    match get_slice(buf, dir_start, entries_len) {
        Err(e) => return Err(e),
        Ok(_) => {},
    }
    match get_slice(buf, next_offset_pos, 4) {
        Err(e) => return Err(e),
        Ok(_) => {},
    }
    let mut entries: Vec<Entry> = Vec::new();
    let mut thumb_offset: Option<u32> = None;
    let mut thumb_len: Option<u32> = None;
    let mut i: usize = 0;
    assert(entries_model(entries@) =~= Seq::<EntryModel>::empty());
    proof {
        lemma_entries_step(buf@, dir_start as int, 0, le, depth as int, seen1);
    }
    while i < count
        invariant
            0 <= i <= count,
            buf@.len() <= usize::MAX,
            seen0 == old(seen)@,
            !seen0.contains(offset),
            seen1 == seen0.insert(offset),
            offset + 2 <= buf@.len(),
            count == u16_at(buf@, offset as int, le),
            dir_start == offset + 2,
            next_offset_pos == dir_start + count * 12,
            next_offset_pos + 4 <= buf@.len(),
            depth <= MAX_IFD_DEPTH,
            spec_parse_entries(buf@, dir_start as int, i as int, le, depth as int, seen1) == Ok::<
                (Seq<EntryModel>, Set<usize>),
                Error,
            >((entries_model(entries@), seen@)),
            thumb_offset == spec_thumb_field(
                buf@,
                dir_start as int,
                i as int,
                le,
                TAG_THUMB_OFFSET,
            ),
            thumb_len == spec_thumb_field(buf@, dir_start as int, i as int, le, TAG_THUMB_LENGTH),
        decreases count - i,
    {
        let entry_off = dir_start + i * 12;
        proof {
            lemma_entries_step(buf@, dir_start as int, i as int, le, depth as int, seen1);
        }
        let e = match parse_entry(buf, entry_off, le, depth, seen) {
            Err(e) => {
                proof {
                    lemma_entries_err(
                        buf@,
                        dir_start as int,
                        i + 1,
                        count as int,
                        le,
                        depth as int,
                        seen1,
                    );
                    lemma_ifd_entries_err(buf@, offset as int, le, depth as int, seen0, e);
                }
                return Err(e);
            },
            Ok(e) => e,
        };
        let four_bytes = (type_size(e.ty) as u64) * (e.count as u64) == 4;
        if (e.tag == TAG_THUMB_OFFSET || e.tag == TAG_THUMB_LENGTH) && four_bytes {
            let slot_value = match read_u32(buf, entry_off + 8, le) {
                Err(err) => return Err(err),
                Ok(v) => v,
            };
            if e.tag == TAG_THUMB_OFFSET {
                thumb_offset = Some(slot_value);
            } else {
                thumb_len = Some(slot_value);
            }
        }
        proof {
            lemma_entries_model_push(entries@, e);
        }
        entries.push(e);
        i = i + 1;
    }
    let next_raw = match read_u32(buf, next_offset_pos, le) {
        Err(e) => return Err(e),
        Ok(v) => v,
    };
    let next = if next_raw == 0 {
        None
    } else {
        if depth + 1 > MAX_IFD_DEPTH {
            return Err(Error::RecursionLimit(MAX_IFD_DEPTH));
        }
        match parse_ifd(buf, next_raw as usize, le, depth + 1, seen) {
            Err(e) => return Err(e),
            Ok(d) => Some(Box::new(d)),
        }
    };
    let thumbnail = match (thumb_offset, thumb_len) {
        (Some(off), Some(len)) => match get_slice(buf, off as usize, len as usize) {
            Err(e) => return Err(e),
            Ok(s) => Some(slice_to_vec(s)),
        },
        _ => None,
    };
    let d = Ifd { entries, next, thumbnail };
    proof {
        lemma_ifd_entries_model(d);
    }
    Ok(d)
}


// ── Edits (spec) ────────────────────────────────────────────────────────────

/// Index of the first entry of `es` carrying `tag`, if any.
pub open spec fn first_tag_index(es: Seq<EntryModel>, tag: u16) -> Option<int>
    decreases es.len(),
{
    if es.len() == 0 {
        None
    } else {
        match first_tag_index(es.drop_last(), tag) {
            Some(i) => Some(i),
            None => if es.last().tag == tag {
                Some(es.len() - 1)
            } else {
                None
            },
        }
    }
}

/// The `ASCII` entry that [`set_ascii_tag`] writes for `tag` and the UTF-8
/// bytes `text`: the bytes plus a trailing NUL.
pub open spec fn ascii_entry(tag: u16, text: Seq<u8>) -> EntryModel {
    EntryModel {
        tag,
        ty: TY_ASCII,
        count: (text.len() + 1) as u32,
        value: text.push(0u8),
        sub: None,
    }
}

/// Where an entry with tag `key` goes when inserted into `s` so that it
/// follows every entry whose tag is not greater than `key`, counting from
/// the back.
pub open spec fn insert_pos(s: Seq<EntryModel>, key: u16) -> int
    decreases s.len(),
{
    if s.len() == 0 {
        0
    } else if s.last().tag <= key {
        s.len() as int
    } else {
        insert_pos(s.drop_last(), key)
    }
}

/// `s` stably sorted by tag (entries with equal tags keep their order).
pub open spec fn sort_by_tag(s: Seq<EntryModel>) -> Seq<EntryModel>
    decreases s.len(),
{
    if s.len() == 0 {
        s
    } else {
        let sorted = sort_by_tag(s.drop_last());
        sorted.insert(insert_pos(sorted, s.last().tag), s.last())
    }
}

/// Whether `s` is in ascending tag order.
pub open spec fn sorted_by_tag(s: Seq<EntryModel>) -> bool {
    forall|i: int, j: int| 0 <= i <= j < s.len() ==> s[i].tag <= s[j].tag
}

/// The entries after setting the `ASCII` tag `tag` to `text`: the first entry
/// carrying `tag` is overwritten in place; without one, the new entry is
/// appended and the directory is stably re-sorted by tag.
pub open spec fn spec_set_ascii_entries(es: Seq<EntryModel>, tag: u16, text: Seq<u8>) -> Seq<
    EntryModel,
> {
    match first_tag_index(es, tag) {
        Some(i) => es.update(i, ascii_entry(tag, text)),
        None => sort_by_tag(es.push(ascii_entry(tag, text))),
    }
}

/// The entries without the GPS pointer.
pub open spec fn spec_remove_gps_entries(es: Seq<EntryModel>) -> Seq<EntryModel> {
    es.filter(|e: EntryModel| e.tag != GPS_PTR)
}

// ── Edits ───────────────────────────────────────────────────────────────────

proof fn lemma_entries_model_insert(es: Seq<Entry>, i: int, e: Entry)
    requires
        0 <= i <= es.len(),
    ensures
        entries_model(es.insert(i, e)) == entries_model(es).insert(i, entry_model(e)),
{
    assert(entries_model(es.insert(i, e)) =~= entries_model(es).insert(i, entry_model(e)));
}

proof fn lemma_entries_model_update(es: Seq<Entry>, i: int, e: Entry)
    requires
        0 <= i < es.len(),
    ensures
        entries_model(es.update(i, e)) == entries_model(es).update(i, entry_model(e)),
{
    assert(entries_model(es.update(i, e)) =~= entries_model(es).update(i, entry_model(e)));
}

proof fn lemma_entries_model_subrange(es: Seq<Entry>, a: int, b: int)
    requires
        0 <= a <= b <= es.len(),
    ensures
        entries_model(es.subrange(a, b)) == entries_model(es).subrange(a, b),
{
    assert(entries_model(es.subrange(a, b)) =~= entries_model(es).subrange(a, b));
}

proof fn lemma_first_tag_index_prefix(es: Seq<EntryModel>, k: int, tag: u16)
    requires
        0 <= k <= es.len(),
        first_tag_index(es.subrange(0, k), tag) is Some,
    ensures
        first_tag_index(es, tag) == first_tag_index(es.subrange(0, k), tag),
    decreases es.len(),
{
    if k < es.len() {
        assert(es.drop_last().subrange(0, k) =~= es.subrange(0, k));
        lemma_first_tag_index_prefix(es.drop_last(), k, tag);
    } else {
        assert(es.subrange(0, k) =~= es);
    }
}

/// What [`first_tag_index`] returns, stated by quantifiers.
pub proof fn lemma_first_tag_index(es: Seq<EntryModel>, tag: u16)
    ensures
        match first_tag_index(es, tag) {
            Some(i) => 0 <= i < es.len() && es[i].tag == tag && forall|j: int|
                0 <= j < i ==> es[j].tag != tag,
            None => forall|j: int| 0 <= j < es.len() ==> es[j].tag != tag,
        },
    decreases es.len(),
{
    if es.len() > 0 {
        let d = es.drop_last();
        lemma_first_tag_index(d, tag);
        assert(forall|j: int| 0 <= j < d.len() ==> d[j] == es[j]);
    }
}

/// Index of the first entry carrying `tag`.
fn find_tag(entries: &Vec<Entry>, tag: u16) -> (r: Option<usize>)
    ensures
        r matches Some(i) ==> i < entries@.len(),
        match r {
            Some(i) => first_tag_index(entries_model(entries@), tag) == Some(i as int),
            None => first_tag_index(entries_model(entries@), tag) is None,
        },
{
    let ghost es = entries_model(entries@);
    let mut i: usize = 0;
    while i < entries.len()
        invariant
            0 <= i <= entries@.len(),
            es == entries_model(entries@),
            first_tag_index(es.subrange(0, i as int), tag) is None,
        decreases entries@.len() - i,
    {
        assert(es.subrange(0, i + 1).drop_last() =~= es.subrange(0, i as int));
        if entries[i].tag == tag {
            proof {
                lemma_first_tag_index_prefix(es, i + 1, tag);
            }
            return Some(i);
        }
        i = i + 1;
    }
    assert(es.subrange(0, i as int) =~= es);
    None
}

/// Position at which an entry with tag `key` is inserted into `entries`.
fn insert_position(entries: &Vec<Entry>, key: u16) -> (p: usize)
    ensures
        p == insert_pos(entries_model(entries@), key),
        p <= entries@.len(),
{
    let ghost es = entries_model(entries@);
    let mut j: usize = entries.len();
    assert(es.subrange(0, j as int) =~= es);
    while j > 0 && entries[j - 1].tag > key
        invariant
            0 <= j <= entries@.len(),
            es == entries_model(entries@),
            insert_pos(es, key) == insert_pos(es.subrange(0, j as int), key),
        decreases j,
    {
        assert(es.subrange(0, j as int).drop_last() =~= es.subrange(0, j - 1));
        j = j - 1;
    }
    j
}

/// Stably sort `v` by tag (an insertion sort: each entry goes after every
/// entry already placed whose tag is not greater).
fn sort_entries_by_tag(v: Vec<Entry>) -> (out: Vec<Entry>)
    ensures
        entries_model(out@) == sort_by_tag(entries_model(v@)),
{
    let ghost orig = entries_model(v@);
    let ghost total = v@.len();
    assert(total == v.len());
    let mut src = v;
    let mut out: Vec<Entry> = Vec::new();
    let mut k: usize = 0;
    assert(orig.subrange(0, 0) =~= Seq::<EntryModel>::empty());
    assert(entries_model(out@) =~= Seq::<EntryModel>::empty());
    while src.len() > 0
        invariant
            k + src@.len() == total,
            total <= usize::MAX,
            orig.len() == total,
            entries_model(src@) == orig.subrange(k as int, total as int),
            entries_model(out@) == sort_by_tag(orig.subrange(0, k as int)),
        decreases src@.len(),
    {
        proof {
            lemma_entries_model_subrange(src@, 1, src@.len() as int);
        }
        assert(entries_model(src@)[0] == entry_model(src@[0]));
        let e = src.remove(0);
        assert(orig.subrange(0, k + 1).drop_last() =~= orig.subrange(0, k as int));
        assert(entry_model(e) == orig[k as int]);
        assert(orig.subrange(k + 1, total as int) =~= orig.subrange(k as int, total as int).subrange(
            1,
            total - k,
        ));
        let p = insert_position(&out, e.tag);
        proof {
            lemma_entries_model_insert(out@, p as int, e);
        }
        out.insert(p, e);
        k = k + 1;
    }
    assert(orig.subrange(0, k as int) =~= orig);
    out
}

/// Set (add or overwrite) an `ASCII` IFD0 entry: `value` = the UTF-8 bytes
/// of `text` plus a trailing NUL. The first entry already carrying `tag` is
/// overwritten in place (no duplicate entries); otherwise the entry is
/// appended and the directory re-sorted by tag, as TIFF requires ascending
/// tag order.
pub fn set_ascii_tag(ifd0: &mut Ifd, tag: u16, text: &str)
    ensures
        final(ifd0)@ == (IfdModel {
            entries: spec_set_ascii_entries(old(ifd0)@.entries, tag, text.spec_bytes()),
            ..old(ifd0)@
        }),
{
    let bytes = text.as_bytes();
    let mut value = slice_to_vec(bytes);
    value.push(0u8);
    let count = value.len() as u32;
    proof {
        lemma_ifd_entries_model(*ifd0);
    }
    let ghost es = entries_model(ifd0.entries@);
    let ghost ne = ascii_entry(tag, text.spec_bytes());
    let mut entries: Vec<Entry> = Vec::new();
    std::mem::swap(&mut entries, &mut ifd0.entries);
    match find_tag(&entries, tag) {
        Some(i) => {
            let new_entry = Entry { tag, ty: TY_ASCII, count, value, sub: None };
            assert(entry_model(new_entry) == ne);
            proof {
                lemma_entries_model_update(entries@, i as int, new_entry);
            }
            entries.set(i, new_entry);
        },
        None => {
            let new_entry = Entry { tag, ty: TY_ASCII, count, value, sub: None };
            assert(entry_model(new_entry) == ne);
            proof {
                lemma_entries_model_push(entries@, new_entry);
            }
            entries.push(new_entry);
            entries = sort_entries_by_tag(entries);
        },
    }
    ifd0.entries = entries;
    proof {
        lemma_ifd_entries_model(*ifd0);
    }
    assert(ifd0@ =~= (IfdModel {
        entries: spec_set_ascii_entries(old(ifd0)@.entries, tag, text.spec_bytes()),
        ..old(ifd0)@
    }));
}

/// Drop the IFD0 GPS pointer entry (`GPS_PTR`), orphaning its sub-IFD. A
/// no-op when there is no GPS entry.
pub fn remove_gps(ifd0: &mut Ifd)
    ensures
        final(ifd0)@ == (IfdModel {
            entries: spec_remove_gps_entries(old(ifd0)@.entries),
            ..old(ifd0)@
        }),
{
    proof {
        lemma_ifd_entries_model(*ifd0);
    }
    let ghost orig = entries_model(ifd0.entries@);
    let ghost total = ifd0.entries@.len();
    assert(total == ifd0.entries.len());
    let mut src: Vec<Entry> = Vec::new();
    std::mem::swap(&mut src, &mut ifd0.entries);
    let mut kept: Vec<Entry> = Vec::new();
    let mut k: usize = 0;
    assert(orig.subrange(0, 0) =~= Seq::<EntryModel>::empty());
    assert(entries_model(kept@) =~= Seq::<EntryModel>::empty());
    while src.len() > 0
        invariant
            k + src@.len() == total,
            total <= usize::MAX,
            orig.len() == total,
            entries_model(src@) == orig.subrange(k as int, total as int),
            entries_model(kept@) == spec_remove_gps_entries(orig.subrange(0, k as int)),
        decreases src@.len(),
    {
        proof {
            lemma_entries_model_subrange(src@, 1, src@.len() as int);
        }
        assert(entries_model(src@)[0] == entry_model(src@[0]));
        let e = src.remove(0);
        assert(orig.subrange(0, k + 1).drop_last() =~= orig.subrange(0, k as int));
        assert(entry_model(e) == orig[k as int]);
        assert(orig.subrange(k + 1, total as int) =~= orig.subrange(k as int, total as int).subrange(
            1,
            total - k,
        ));
        let ghost pre = orig.subrange(0, k as int);
        let ghost pre1 = orig.subrange(0, k + 1);
        assert(pre1.drop_last() =~= pre);
        assert(pre1.last() == orig[k as int]);
        assert(spec_remove_gps_entries(pre1) == if orig[k as int].tag != GPS_PTR {
            spec_remove_gps_entries(pre).push(orig[k as int])
        } else {
            spec_remove_gps_entries(pre)
        }) by {
            reveal(Seq::filter);
        }
        if e.tag != GPS_PTR {
            proof {
                lemma_entries_model_push(kept@, e);
            }
            kept.push(e);
        }
        k = k + 1;
    }
    assert(orig.subrange(0, k as int) =~= orig);
    ifd0.entries = kept;
    proof {
        lemma_ifd_entries_model(*ifd0);
    }
    assert(ifd0@ =~= (IfdModel { entries: spec_remove_gps_entries(old(ifd0)@.entries), ..old(ifd0)@ }));
}

/// A minimal TIFF with an empty IFD0 (the starting point when a file has no
/// EXIF block yet).
pub fn minimal() -> (t: Tiff)
    ensures
        t@ == (TiffModel {
            ifd0: IfdModel { entries: Seq::empty(), next: None, thumbnail: None },
        }),
{
    let t = Tiff { ifd0: Ifd { entries: Vec::new(), next: None, thumbnail: None } };
    assert(t@.ifd0.entries =~= Seq::<EntryModel>::empty());
    t
}


// ── Serialize (spec) ────────────────────────────────────────────────────────

/// The two little-endian bytes of `v`.
pub open spec fn le16(v: u16) -> Seq<u8> {
    seq![(v % 256) as u8, (v / 256) as u8]
}

/// The four little-endian bytes of `v`.
pub open spec fn le32(v: u32) -> Seq<u8> {
    seq![
        (v % 256) as u8,
        ((v / 256) % 256) as u8,
        ((v / 65536) % 256) as u8,
        (v / 16777216) as u8,
    ]
}

/// `out` with `bytes` written over the positions starting at `at` (positions
/// past the end of `out` are dropped, so the length never changes).
pub open spec fn write_at(out: Seq<u8>, at: int, bytes: Seq<u8>) -> Seq<u8> {
    Seq::new(out.len(), |i: int| if at <= i < at + bytes.len() { bytes[i - at] } else { out[i] })
}

/// `out`, padded with one zero byte when its length is odd.
pub open spec fn pad_even(out: Seq<u8>) -> Seq<u8> {
    if out.len() % 2 == 1 {
        out.push(0u8)
    } else {
        out
    }
}

/// `n` zero bytes.
pub open spec fn zeros(n: nat) -> Seq<u8> {
    Seq::new(n, |i: int| 0u8)
}

/// The 4-byte inline value slot of an entry whose value fits: its bytes
/// followed by zero padding.
pub open spec fn inline_slot(value: Seq<u8>) -> Seq<u8> {
    value + zeros((4 - value.len()) as nat)
}

/// Append `d` (its directory, sub-IFDs, out-of-line values, thumbnail blob
/// and `next` chain) to `out`. The directory (2-byte count, 12 bytes per
/// entry, 4-byte next-IFD slot) is reserved first and its slots patched as
/// the pieces they point to are appended.
pub open spec fn spec_put_ifd(out: Seq<u8>, d: IfdModel) -> Seq<u8>
    decreases d, 0int,
    via put_decreases_ifd
{
    let n = d.entries.len();
    let dir_start = out.len() + 2int;
    let o1 = out + le16(n as u16) + zeros(n * 12 + 4);
    let o2 = spec_put_entries(o1, dir_start, d.entries, d.thumbnail is Some, n as int);
    let o3 = match d.thumbnail {
        None => o2,
        Some(t) => {
            let p = pad_even(o2);
            let o = p + t;
            match first_tag_index(d.entries, TAG_THUMB_OFFSET) {
                Some(i) => write_at(o, dir_start + i * 12 + 8, le32(p.len() as u32)),
                None => o,
            }
        },
    };
    match d.next {
        None => o3,
        Some(nx) => {
            let p = pad_even(o3);
            spec_put_ifd(write_at(p, dir_start + n * 12, le32(p.len() as u32)), *nx)
        },
    }
}

/// Write the first `k` entries of `es` into their directory slots (the
/// directory starts at `dir_start`), appending what they point to.
pub open spec fn spec_put_entries(
    out: Seq<u8>,
    dir_start: int,
    es: Seq<EntryModel>,
    has_thumb: bool,
    k: int,
) -> Seq<u8>
    decreases es, k,
    via put_decreases_entries
{
    if k <= 0 || k > es.len() {
        out
    } else {
        let o = spec_put_entries(out, dir_start, es, has_thumb, k - 1);
        spec_put_entry(o, dir_start + (k - 1) * 12, es[k - 1], has_thumb)
    }
}

/// Write entry `e` into the 12-byte slot at `slot`, appending its sub-IFD or
/// out-of-line value. With a thumbnail present, the `0x0201` offset slot is
/// left zero here and patched once the blob has been placed.
pub open spec fn spec_put_entry(out: Seq<u8>, slot: int, e: EntryModel, has_thumb: bool) -> Seq<
    u8,
>
    decreases e, 0int,
    via put_decreases_entry
{
    let o = write_at(write_at(write_at(out, slot, le16(e.tag)), slot + 2, le16(e.ty)), slot + 4, le32(e.count));
    if e.tag == TAG_THUMB_OFFSET && has_thumb {
        o
    } else {
        match e.sub {
            Some(sub) => write_at(spec_put_ifd(o, sub), slot + 8, le32(o.len() as u32)),
            None => if e.value.len() <= 4 {
                write_at(o, slot + 8, inline_slot(e.value))
            } else {
                let p = pad_even(o);
                write_at(p + e.value, slot + 8, le32(p.len() as u32))
            },
        }
    }
}

#[via_fn]
proof fn put_decreases_ifd(out: Seq<u8>, d: IfdModel) {
    assert(decreases_to!(d => d.entries));
    if let Some(nx) = d.next {
        assert(decreases_to!(d => d.next));
        assert(decreases_to!(d.next => nx));
        assert(decreases_to!(d => *nx));
    }
}

#[via_fn]
proof fn put_decreases_entries(
    out: Seq<u8>,
    dir_start: int,
    es: Seq<EntryModel>,
    has_thumb: bool,
    k: int,
) {
    if 0 < k <= es.len() {
        assert(decreases_to!(es => es[k - 1]));
    }
}

#[via_fn]
proof fn put_decreases_entry(out: Seq<u8>, slot: int, e: EntryModel, has_thumb: bool) {
    if let Some(sub) = e.sub {
        assert(decreases_to!(e => e.sub));
        assert(decreases_to!(e.sub => sub));
    }
}

/// The bytes [`serialize`] produces: a little-endian header pointing at
/// offset 8, followed by IFD0 and everything it reaches. Entry values are
/// held little-endian in the model ([`parse`] re-encodes a big-endian
/// block's values unit by unit, see [`le_value`]), and every count, offset
/// and header field is written little-endian, so the block is little-endian
/// throughout.
pub open spec fn spec_serialize(t: TiffModel) -> Seq<u8> {
    spec_put_ifd(seq![0x49u8, 0x49u8, 42u8, 0u8, 8u8, 0u8, 0u8, 0u8], t.ifd0)
}


// ── Serialize ───────────────────────────────────────────────────────────────

/// Append the little-endian bytes of `v`.
fn push_u16_le(out: &mut Vec<u8>, v: u16)
    ensures
        final(out)@ == old(out)@ + le16(v),
{
    out.push((v % 256) as u8);
    out.push((v / 256) as u8);
    assert(out@ =~= old(out)@ + le16(v));
}

/// Append `n` zero bytes.
fn push_zeros(out: &mut Vec<u8>, n: usize)
    ensures
        final(out)@ == old(out)@ + zeros(n as nat),
{
    let mut j: usize = 0;
    while j < n
        invariant
            j <= n,
            out@ == old(out)@ + zeros(j as nat),
        decreases n - j,
    {
        out.push(0u8);
        assert(old(out)@ + zeros((j + 1) as nat) =~= (old(out)@ + zeros(j as nat)).push(0u8));
        j = j + 1;
    }
}

/// Append `bytes`.
fn append_bytes(out: &mut Vec<u8>, bytes: &[u8])
    ensures
        final(out)@ == old(out)@ + bytes@,
{
    let mut j: usize = 0;
    while j < bytes.len()
        invariant
            j <= bytes@.len(),
            out@ == old(out)@ + bytes@.subrange(0, j as int),
        decreases bytes@.len() - j,
    {
        out.push(bytes[j]);
        assert(old(out)@ + bytes@.subrange(0, j + 1) =~= (old(out)@ + bytes@.subrange(
            0,
            j as int,
        )).push(bytes@[j as int]));
        j = j + 1;
    }
    assert(bytes@.subrange(0, j as int) =~= bytes@);
}

/// Pad `out` to an even length (keeps out-of-line data word-aligned).
fn pad_to_even(out: &mut Vec<u8>)
    ensures
        final(out)@ == pad_even(old(out)@),
{
    if out.len() % 2 == 1 {
        out.push(0u8);
    }
}

/// Overwrite the two bytes at `at` with `v`, little-endian.
fn write_u16_le(out: &mut Vec<u8>, at: usize, v: u16)
    requires
        at + 2 <= old(out)@.len(),
    ensures
        final(out)@ == write_at(old(out)@, at as int, le16(v)),
{
    let _len = out.len();
    out[at] = (v % 256) as u8;
    out[at + 1] = (v / 256) as u8;
    assert(out@ =~= write_at(old(out)@, at as int, le16(v)));
}

/// Overwrite the four bytes at `at` with `v`, little-endian.
fn write_u32_le(out: &mut Vec<u8>, at: usize, v: u32)
    requires
        at + 4 <= old(out)@.len(),
    ensures
        final(out)@ == write_at(old(out)@, at as int, le32(v)),
{
    let _len = out.len();
    out[at] = (v % 256) as u8;
    out[at + 1] = ((v / 256) % 256) as u8;
    out[at + 2] = ((v / 65536) % 256) as u8;
    out[at + 3] = (v / 16777216) as u8;
    assert(out@ =~= write_at(old(out)@, at as int, le32(v)));
}

/// Overwrite the 4-byte value slot at `at` with `value` (at most 4 bytes)
/// followed by zero padding.
fn write_inline_slot(out: &mut Vec<u8>, at: usize, value: &[u8])
    requires
        at + 4 <= old(out)@.len(),
        value@.len() <= 4,
    ensures
        final(out)@ == write_at(old(out)@, at as int, inline_slot(value@)),
{
    let _len = out.len();
    let mut j: usize = 0;
    while j < 4
        invariant
            j <= 4,
            at + 4 <= old(out)@.len(),
            old(out)@.len() <= usize::MAX,
            value@.len() <= 4,
            out@ == write_at(old(out)@, at as int, inline_slot(value@).subrange(0, j as int)),
        decreases 4 - j,
    {
        let b = if j < value.len() {
            value[j]
        } else {
            0u8
        };
        assert(b == inline_slot(value@)[j as int]);
        out[at + j] = b;
        assert(out@ =~= write_at(
            old(out)@,
            at as int,
            inline_slot(value@).subrange(0, j + 1),
        ));
        j = j + 1;
    }
    assert(inline_slot(value@).subrange(0, 4) =~= inline_slot(value@));
}

/// Serialize a [`Tiff`] to a normalized little-endian TIFF block, whatever
/// the byte order it was read in.
pub fn serialize(tiff: &Tiff) -> (out: Vec<u8>)
    ensures
        out@ == spec_serialize(tiff@),
{
    let mut out: Vec<u8> = vec![0x49u8, 0x49u8, 42u8, 0u8, 8u8, 0u8, 0u8, 0u8];
    put_ifd(&mut out, &tiff.ifd0);
    out
}

/// Append `ifd` (its directory, sub-IFDs, out-of-line values, thumbnail blob
/// and `next` chain) to `out`, patching the offset slots of the directory it
/// reserved as the pieces are placed.
fn put_ifd(out: &mut Vec<u8>, ifd: &Ifd)
    ensures
        final(out)@ == spec_put_ifd(old(out)@, ifd@),
        final(out)@.len() >= old(out)@.len(),
    decreases ifd, 0int,
{
    proof {
        lemma_ifd_entries_model(*ifd);
    }
    let n = ifd.entries.len();
    push_u16_le(out, #[verifier::truncate] (n as u16));
    let dir_start = out.len();
    let mut k: usize = 0;
    assert(zeros(0) =~= Seq::<u8>::empty());
    while k < n
        invariant
            k <= n,
            n == ifd.entries@.len(),
            dir_start == old(out)@.len() + 2,
            out@ == old(out)@ + le16(n as u16) + zeros((k * 12) as nat),
        decreases n - k,
    {
        push_zeros(out, 12);
        assert(old(out)@ + le16(n as u16) + zeros((k * 12) as nat) + zeros(12) =~= old(out)@ + le16(
            n as u16,
        ) + zeros(((k + 1) * 12) as nat));
        k = k + 1;
    }
    push_zeros(out, 4);
    let _len = out.len();
    let ghost o1 = out@;
    assert(o1 =~= old(out)@ + le16(n as u16) + zeros((n * 12 + 4) as nat));
    let has_thumb = ifd.thumbnail.is_some();
    let mut i: usize = 0;
    while i < n
        invariant
            i <= n,
            n == ifd.entries@.len(),
            n == ifd@.entries.len(),
            ifd@.entries == entries_model(ifd.entries@),
            has_thumb == ifd@.thumbnail is Some,
            o1.len() == dir_start + n * 12 + 4,
            o1.len() <= usize::MAX,
            out@.len() >= o1.len(),
            out@ == spec_put_entries(o1, dir_start as int, ifd@.entries, has_thumb, i as int),
        decreases n - i,
    {
        let entry = &ifd.entries[i];
        proof {
            assert(decreases_to!(*ifd => ifd.entries));
            assert(decreases_to!(ifd.entries => ifd.entries@));
            assert(decreases_to!(ifd.entries@ => ifd.entries@[i as int]));
        }
        put_entry(out, dir_start + i * 12, entry, has_thumb);
        i = i + 1;
    }
    match &ifd.thumbnail {
        None => {},
        Some(thumb) => {
            pad_to_even(out);
            let thumb_at = out.len();
            append_bytes(out, thumb.as_slice());
            match find_tag(&ifd.entries, TAG_THUMB_OFFSET) {
                Some(j) => {
                    write_u32_le(out, dir_start + j * 12 + 8, #[verifier::truncate] (thumb_at as u32));
                },
                None => {},
            }
        },
    }
    let next_slot = dir_start + n * 12;
    match &ifd.next {
        None => {},
        Some(next) => {
            pad_to_even(out);
            let next_at = out.len();
            write_u32_le(out, next_slot, #[verifier::truncate] (next_at as u32));
            proof {
                assert(decreases_to!(*ifd => ifd.next));
            }
            put_ifd(out, next);
        },
    }
}

/// Write `entry` into the 12-byte directory slot at `slot`, appending its
/// sub-IFD or out-of-line value.
fn put_entry(out: &mut Vec<u8>, slot: usize, entry: &Entry, has_thumb: bool)
    requires
        slot + 12 <= old(out)@.len(),
    ensures
        final(out)@ == spec_put_entry(old(out)@, slot as int, entry@, has_thumb),
        final(out)@.len() >= old(out)@.len(),
    decreases entry, 0int,
{
    let _len = out.len();
    write_u16_le(out, slot, entry.tag);
    write_u16_le(out, slot + 2, entry.ty);
    write_u32_le(out, slot + 4, entry.count);
    if entry.tag == TAG_THUMB_OFFSET && has_thumb {
        return ;
    }
    match &entry.sub {
        Some(sub) => {
            let sub_at = out.len();
            proof {
                assert(decreases_to!(*entry => entry.sub));
            }
            put_ifd(out, sub);
            write_u32_le(out, slot + 8, #[verifier::truncate] (sub_at as u32));
        },
        None => {
            if entry.value.len() <= 4 {
                write_inline_slot(out, slot + 8, entry.value.as_slice());
            } else {
                pad_to_even(out);
                let value_at = out.len();
                append_bytes(out, entry.value.as_slice());
                write_u32_le(out, slot + 8, #[verifier::truncate] (value_at as u32));
            }
        },
    }
}


// ── Laws ────────────────────────────────────────────────────────────────────

/// After [`remove_gps`], no IFD0 entry is the GPS pointer, every other entry
/// is kept in its order, and removing again changes nothing.
pub proof fn law_remove_gps(es: Seq<EntryModel>)
    ensures
        forall|i: int|
            0 <= i < spec_remove_gps_entries(es).len() ==> #[trigger] spec_remove_gps_entries(
                es,
            )[i].tag != GPS_PTR,
        spec_remove_gps_entries(spec_remove_gps_entries(es)) == spec_remove_gps_entries(es),
        (forall|i: int| 0 <= i < es.len() ==> #[trigger] es[i].tag != GPS_PTR)
            ==> spec_remove_gps_entries(es) == es,
    decreases es.len(),
{
    reveal(Seq::filter);
    let pred = |e: EntryModel| e.tag != GPS_PTR;
    es.filter_lemma(pred);
    if es.len() > 0 {
        let d = es.drop_last();
        law_remove_gps(d);
        assert(forall|i: int| 0 <= i < d.len() ==> d[i] == es[i]);
        let r = spec_remove_gps_entries(es);
        let rd = spec_remove_gps_entries(d);
        if es.last().tag != GPS_PTR {
            assert(r == rd.push(es.last()));
            assert(r.drop_last() =~= rd);
        } else {
            assert(r == rd);
        }
    } else {
        assert(spec_remove_gps_entries(es) =~= es);
    }
}

proof fn lemma_first_tag_index_same_tags(a: Seq<EntryModel>, b: Seq<EntryModel>, tag: u16)
    requires
        a.len() == b.len(),
        forall|i: int| 0 <= i < a.len() ==> #[trigger] a[i].tag == b[i].tag,
    ensures
        first_tag_index(a, tag) == first_tag_index(b, tag),
    decreases a.len(),
{
    if a.len() > 0 {
        let da = a.drop_last();
        let db = b.drop_last();
        assert forall|i: int| 0 <= i < da.len() implies #[trigger] da[i].tag == db[i].tag by {
            assert(a[i].tag == b[i].tag);
        }
        lemma_first_tag_index_same_tags(da, db, tag);
    }
}

proof fn lemma_insert_pos(s: Seq<EntryModel>, key: u16)
    ensures
        0 <= insert_pos(s, key) <= s.len(),
        forall|i: int| insert_pos(s, key) <= i < s.len() ==> #[trigger] s[i].tag > key,
        insert_pos(s, key) > 0 ==> s[insert_pos(s, key) - 1].tag <= key,
    decreases s.len(),
{
    if s.len() > 0 && s.last().tag > key {
        let d = s.drop_last();
        lemma_insert_pos(d, key);
        assert(forall|i: int| 0 <= i < d.len() ==> d[i] == s[i]);
    }
}

proof fn lemma_sort_by_tag(s: Seq<EntryModel>)
    ensures
        sort_by_tag(s).len() == s.len(),
        forall|x: EntryModel| #[trigger] sort_by_tag(s).contains(x) <==> s.contains(x),
        sorted_by_tag(sort_by_tag(s)),
    decreases s.len(),
{
    if s.len() > 0 {
        let d = s.drop_last();
        lemma_sort_by_tag(d);
        let sorted = sort_by_tag(d);
        let e = s.last();
        let p = insert_pos(sorted, e.tag);
        lemma_insert_pos(sorted, e.tag);
        let r = sorted.insert(p, e);
        assert(r == sort_by_tag(s));
        assert forall|x: EntryModel| #[trigger] r.contains(x) <==> s.contains(x) by {
            if r.contains(x) {
                let k = choose|k: int| 0 <= k < r.len() && r[k] == x;
                if k < p {
                    assert(sorted[k] == x);
                    assert(sorted.contains(x));
                    assert(d.contains(x));
                    let m = choose|m: int| 0 <= m < d.len() && d[m] == x;
                    assert(s[m] == x);
                } else if k > p {
                    assert(sorted[k - 1] == x);
                    assert(sorted.contains(x));
                    assert(d.contains(x));
                    let m = choose|m: int| 0 <= m < d.len() && d[m] == x;
                    assert(s[m] == x);
                } else {
                    assert(s[s.len() - 1] == x);
                }
            }
            if s.contains(x) {
                let k = choose|k: int| 0 <= k < s.len() && s[k] == x;
                if k == s.len() - 1 {
                    assert(r[p] == x);
                } else {
                    assert(d[k] == x);
                    assert(sorted.contains(x));
                    let m = choose|m: int| 0 <= m < sorted.len() && sorted[m] == x;
                    if m < p {
                        assert(r[m] == x);
                    } else {
                        assert(r[m + 1] == x);
                    }
                }
            }
        }
        assert forall|i: int, j: int| 0 <= i <= j < r.len() implies r[i].tag <= r[j].tag by {
            if i < p && j < p {
                assert(r[i] == sorted[i] && r[j] == sorted[j]);
            } else if i < p && j == p {
                assert(sorted[i].tag <= sorted[p - 1].tag);
            } else if i < p && j > p {
                assert(r[j] == sorted[j - 1]);
            } else if i == p && j > p {
                assert(r[j] == sorted[j - 1]);
            } else if i > p {
                assert(r[i] == sorted[i - 1] && r[j] == sorted[j - 1]);
            }
        }
    }
}

/// After [`set_ascii_tag`], the first entry carrying `tag` is the `ASCII`
/// entry holding `text` plus its trailing NUL.
pub proof fn law_set_ascii_tag_lookup(es: Seq<EntryModel>, tag: u16, text: Seq<u8>)
    ensures
        first_tag_index(spec_set_ascii_entries(es, tag, text), tag) matches Some(i)
            && spec_set_ascii_entries(es, tag, text)[i] == ascii_entry(tag, text),
{
    let ne = ascii_entry(tag, text);
    let r = spec_set_ascii_entries(es, tag, text);
    lemma_first_tag_index(es, tag);
    match first_tag_index(es, tag) {
        Some(i) => {
            lemma_first_tag_index_same_tags(r, es, tag);
        },
        None => {
            let s = es.push(ne);
            lemma_sort_by_tag(s);
            assert(s[es.len() as int] == ne);
            assert(r.contains(ne));
            lemma_first_tag_index(r, tag);
            let k = choose|k: int| 0 <= k < r.len() && r[k] == ne;
            assert(r[k].tag == tag);
            let j = first_tag_index(r, tag)->0;
            assert(r.contains(r[j]));
            assert(sort_by_tag(s).contains(r[j]));
            assert(s.contains(r[j]));
            let m = choose|m: int| 0 <= m < s.len() && s[m] == r[j];
            assert(m == es.len());
        },
    }
}

/// Setting the same `ASCII` tag to the same text twice is the same as
/// setting it once.
pub proof fn law_set_ascii_tag_idempotent(es: Seq<EntryModel>, tag: u16, text: Seq<u8>)
    ensures
        spec_set_ascii_entries(spec_set_ascii_entries(es, tag, text), tag, text)
            == spec_set_ascii_entries(es, tag, text),
{
    law_set_ascii_tag_lookup(es, tag, text);
    let r = spec_set_ascii_entries(es, tag, text);
    lemma_first_tag_index(r, tag);
    assert(r.update(first_tag_index(r, tag)->0, ascii_entry(tag, text)) =~= r);
}

/// [`set_ascii_tag`] keeps a tag-sorted directory sorted; when it appends a
/// new entry, the result is sorted whatever the input order.
pub proof fn law_set_ascii_tag_sorted(es: Seq<EntryModel>, tag: u16, text: Seq<u8>)
    ensures
        sorted_by_tag(es) ==> sorted_by_tag(spec_set_ascii_entries(es, tag, text)),
        first_tag_index(es, tag) is None ==> sorted_by_tag(spec_set_ascii_entries(es, tag, text)),
{
    lemma_first_tag_index(es, tag);
    match first_tag_index(es, tag) {
        Some(i) => {
            let r = spec_set_ascii_entries(es, tag, text);
            assert(forall|k: int| 0 <= k < r.len() ==> r[k].tag == es[k].tag);
        },
        None => {
            lemma_sort_by_tag(es.push(ascii_entry(tag, text)));
        },
    }
}

} // verus!
