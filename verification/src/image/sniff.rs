//! Container sniffing by ISOBMFF `ftyp` brand.
//!
//! AVIF and HEIC are both ISOBMFF files; their `ftyp` box names a major brand
//! and a list of compatible brands. Detection by brand is a pure byte
//! predicate over the header, independent of any codec.

use vstd::prelude::*;

verus! {

/// A family of `ftyp` brands.
#[derive(Debug, Clone, Copy, PartialEq, Eq)]
pub enum BrandFamily {
    /// `avif`, `avis`.
    Avif,
    /// The HEVC-coded HEIF brands: `heic`, `heix`, `heim`, `heis`, `hevc`,
    /// `hevx`.
    Heic,
}

/// Four ASCII bytes.
pub open spec fn fourcc(a: char, b: char, c: char, d: char) -> Seq<u8> {
    seq![a as u8, b as u8, c as u8, d as u8]
}

/// Whether the four bytes `b` are a brand of `family`.
pub open spec fn is_family_brand(family: BrandFamily, b: Seq<u8>) -> bool {
    match family {
        BrandFamily::Avif => b == fourcc('a', 'v', 'i', 'f') || b == fourcc('a', 'v', 'i', 's'),
        BrandFamily::Heic => b == fourcc('h', 'e', 'i', 'c') || b == fourcc('h', 'e', 'i', 'x')
            || b == fourcc('h', 'e', 'i', 'm') || b == fourcc('h', 'e', 'i', 's') || b == fourcc(
            'h',
            'e',
            'v',
            'c',
        ) || b == fourcc('h', 'e', 'v', 'x'),
    }
}

/// The big-endian `u32` at `bytes[at..at + 4]`.
pub open spec fn be32(bytes: Seq<u8>, at: int) -> int {
    bytes[at] * 16777216 + bytes[at + 1] * 65536 + bytes[at + 2] * 256 + bytes[at + 3]
}

/// Where the brand scan stops: the `ftyp` box's declared size, clamped to
/// `8..=len`.
pub open spec fn ftyp_end(bytes: Seq<u8>) -> int {
    let size = be32(bytes, 0);
    if size < 8 {
        8
    } else if size > bytes.len() {
        bytes.len() as int
    } else {
        size
    }
}

/// Whether `bytes` opens with an `ftyp` box whose major brand, or one of its
/// compatible brands within the declared box, belongs to `family`.
pub open spec fn spec_ftyp_has_brand(bytes: Seq<u8>, family: BrandFamily) -> bool {
    &&& bytes.len() >= 12
    &&& bytes.subrange(4, 8) == fourcc('f', 't', 'y', 'p')
    &&& (is_family_brand(family, bytes.subrange(8, 12)) || exists|k: int|
        0 <= k && 16 + 4 * k + 4 <= ftyp_end(bytes) && #[trigger] is_family_brand(
            family,
            bytes.subrange(16 + 4 * k, 20 + 4 * k),
        ))
}

/// Whether `bytes` is an ISOBMFF file advertising an AVIF brand.
pub open spec fn spec_is_avif(bytes: Seq<u8>) -> bool {
    spec_ftyp_has_brand(bytes, BrandFamily::Avif)
}

/// Whether the four bytes at `bytes[at..at + 4]` are a brand of `family`.
fn brand_matches(bytes: &[u8], at: usize, family: BrandFamily) -> (b: bool)
    requires
        at + 4 <= bytes@.len(),
    ensures
        b == is_family_brand(family, bytes@.subrange(at as int, at + 4)),
{
    let b0 = bytes[at];
    let b1 = bytes[at + 1];
    let b2 = bytes[at + 2];
    let b3 = bytes[at + 3];
    let ghost s = bytes@.subrange(at as int, at + 4);
    assert(s == seq![b0, b1, b2, b3]);
    match family {
        BrandFamily::Avif => b0 == 0x61 && b1 == 0x76 && b2 == 0x69 && (b3 == 0x66 || b3 == 0x73),
        BrandFamily::Heic => b0 == 0x68 && b1 == 0x65 && ((b2 == 0x69 && (b3 == 0x63 || b3 == 0x78
            || b3 == 0x6D || b3 == 0x73)) || (b2 == 0x76 && (b3 == 0x63 || b3 == 0x78))),
    }
}

/// Whether `bytes` opens with an `ftyp` box advertising a brand of `family`,
/// as its major brand or among the compatible brands inside the declared box
/// (clamped to the buffer).
pub fn ftyp_has_brand(bytes: &[u8], family: BrandFamily) -> (b: bool)
    ensures
        b == spec_ftyp_has_brand(bytes@, family),
{
    if bytes.len() < 12 || bytes[4] != 0x66 || bytes[5] != 0x74 || bytes[6] != 0x79 || bytes[7]
        != 0x70 {
        proof {
            if bytes@.len() >= 12 {
                assert(bytes@.subrange(4, 8)[0] == bytes@[4]);
                assert(bytes@.subrange(4, 8)[1] == bytes@[5]);
                assert(bytes@.subrange(4, 8)[2] == bytes@[6]);
                assert(bytes@.subrange(4, 8)[3] == bytes@[7]);
            }
        }
        return false;
    }
    assert(bytes@.subrange(4, 8) =~= fourcc('f', 't', 'y', 'p'));
    let box_size = (bytes[0] as usize) * 16777216 + (bytes[1] as usize) * 65536 + (bytes[2] as usize)
        * 256 + (bytes[3] as usize);
    let end = if box_size < 8 {
        8
    } else if box_size > bytes.len() {
        bytes.len()
    } else {
        box_size
    };
    assert(end == ftyp_end(bytes@));
    if brand_matches(bytes, 8, family) {
        return true;
    }
    let mut i: usize = 16;
    while i <= end && end - i >= 4
        invariant
            16 <= i,
            (i - 16) % 4 == 0,
            bytes@.len() >= 12,
            bytes@.subrange(4, 8) == fourcc('f', 't', 'y', 'p'),
            end == ftyp_end(bytes@),
            end <= bytes@.len(),
            forall|k: int|
                0 <= k && 16 + 4 * k + 4 <= i ==> !#[trigger] is_family_brand(
                    family,
                    bytes@.subrange(16 + 4 * k, 20 + 4 * k),
                ),
        decreases end + 4 - i,
    {
        if brand_matches(bytes, i, family) {
            let ghost k = (i - 16) / 4;
            assert(16 + 4 * k == i);
            assert(is_family_brand(
                family,
                bytes@.subrange(16 + 4 * ((i - 16) / 4), 20 + 4 * ((i - 16) / 4)),
            ));
            return true;
        }
        i = i + 4;
    }
    assert forall|k: int|
        0 <= k && 16 + 4 * k + 4 <= ftyp_end(bytes@) implies !#[trigger] is_family_brand(
        family,
        bytes@.subrange(16 + 4 * k, 20 + 4 * k),
    ) by {
        assert(16 + 4 * k + 4 <= i);
    }
    false
}

/// Whether `bytes` is an ISOBMFF file whose `ftyp` box advertises an AVIF
/// brand (`avif`/`avis`).
pub fn is_avif(bytes: &[u8]) -> (b: bool)
    ensures
        b == spec_is_avif(bytes@),
{
    ftyp_has_brand(bytes, BrandFamily::Avif)
}

} // verus!
