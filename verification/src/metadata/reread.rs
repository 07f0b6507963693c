//! What reading back a written TIFF block gives: the writer's bytes parse to
//! the IFD that was written.

use vstd::prelude::*;

use super::tiff::{
    spec_range, first_tag_index, is_pointer_tag as pointer_tag, MAX_IFD_DEPTH, TAG_THUMB_LENGTH,
    spec_entry_is_pointer, spec_parse_entry, spec_parse_entries, spec_parse_ifd, spec_ifd_tail, spec_put_ifd, spec_thumb_field,
    is_pointer_tag, le16, le32, spec_entry_value, spec_parse, spec_put_entries, spec_put_entry,
    spec_serialize, spec_type_size, lemma_first_tag_index, u16_at, u32_at, inline_slot, pad_even, write_at, zeros,
    EntryModel, Error, IfdModel, TiffModel, TAG_THUMB_OFFSET, TY_LONG,
};

verus! {

proof fn lemma_le16(v: u16)
    ensures
        u16_at(le16(v), 0, true) == v,
{
    let b = le16(v);
    assert(b[0] == v % 256);
    assert(b[1] == v / 256);
}

proof fn lemma_le32(v: u32)
    ensures
        u32_at(le32(v), 0, true) == v,
{
    let b = le32(v);
    assert(b[0] == v % 256);
    assert(b[1] == (v / 256) % 256);
    assert(b[2] == (v / 65536) % 256);
    assert(b[3] == v / 16777216);
    assert(v % 256 + 256 * ((v / 256) % 256) + 65536 * ((v / 65536) % 256) + 16777216 * (v
        / 16777216) == v) by (nonlinear_arith);
}

/// Two byte strings that agree on `[at, at + 2)` read the same 16-bit value there.
proof fn lemma_u16_agree(a: Seq<u8>, b: Seq<u8>, at: int)
    requires
        a[at] == b[at],
        a[at + 1] == b[at + 1],
    ensures
        u16_at(a, at, true) == u16_at(b, at, true),
{
}

/// Two byte strings that agree on `[at, at + 4)` read the same 32-bit value there.
proof fn lemma_u32_agree(a: Seq<u8>, b: Seq<u8>, at: int)
    requires
        a[at] == b[at],
        a[at + 1] == b[at + 1],
        a[at + 2] == b[at + 2],
        a[at + 3] == b[at + 3],
    ensures
        u32_at(a, at, true) == u32_at(b, at, true),
{
}

/// Bytes written at `at` read back as a 16-bit value.
proof fn lemma_write_u16(out: Seq<u8>, at: int, v: u16)
    requires
        0 <= at,
        at + 2 <= out.len(),
    ensures
        u16_at(write_at(out, at, le16(v)), at, true) == v,
{
    let w = write_at(out, at, le16(v));
    lemma_le16(v);
    assert(w[at] == le16(v)[0]);
    assert(w[at + 1] == le16(v)[1]);
}

/// Bytes written at `at` read back as a 32-bit value.
proof fn lemma_write_u32(out: Seq<u8>, at: int, v: u32)
    requires
        0 <= at,
        at + 4 <= out.len(),
    ensures
        u32_at(write_at(out, at, le32(v)), at, true) == v,
{
    let w = write_at(out, at, le32(v));
    lemma_le32(v);
    assert(w[at] == le32(v)[0]);
    assert(w[at + 1] == le32(v)[1]);
    assert(w[at + 2] == le32(v)[2]);
    assert(w[at + 3] == le32(v)[3]);
}

/// Whether an entry is written back exactly as it was read: its value has
/// the width its type and count give, and it is neither a sub-IFD pointer
/// nor a thumbnail offset (whose values the writer relocates).
pub open spec fn plain_entry(e: EntryModel) -> bool {
    &&& e.value.len() == spec_type_size(e.ty) * e.count
    &&& e.sub is None
    &&& !(is_pointer_tag(e.tag) && e.ty == TY_LONG && e.value.len() == 4)
    &&& !(e.tag == TAG_THUMB_OFFSET && e.value.len() == 4)
}

/// Whether the 12-byte record at `slot` of `buf` reads back as `e`, with an
/// out-of-line value placed at or after `floor`.
spec fn reads_as(buf: Seq<u8>, slot: int, e: EntryModel, floor: int) -> bool {
    &&& u16_at(buf, slot, true) == e.tag
    &&& u16_at(buf, slot + 2, true) == e.ty
    &&& u32_at(buf, slot + 4, true) == e.count
    &&& spec_entry_value(buf, slot, true) == Ok::<Seq<u8>, Error>(e.value)
    &&& e.value.len() > 4 ==> (floor <= u32_at(buf, slot + 8, true) && u32_at(buf, slot + 8, true)
        + e.value.len() <= buf.len())
}

/// Writing one plain entry into its slot changes nothing outside the slot
/// but what it appends, and the slot reads back as the entry.
proof fn lemma_put_entry(o: Seq<u8>, slot: int, e: EntryModel, floor: int)
    requires
        0 <= slot,
        slot + 12 <= floor,
        floor <= o.len(),
        plain_entry(e),
        spec_put_entry(o, slot, e, false).len() <= u32::MAX,
    ensures
        spec_put_entry(o, slot, e, false).len() >= o.len(),
        forall|p: int|
            0 <= p < o.len() && !(slot <= p < slot + 12) ==> #[trigger] spec_put_entry(
                o,
                slot,
                e,
                false,
            )[p] == o[p],
        reads_as(spec_put_entry(o, slot, e, false), slot, e, floor),
{
    let w1 = write_at(o, slot, le16(e.tag));
    let w2 = write_at(w1, slot + 2, le16(e.ty));
    let w3 = write_at(w2, slot + 4, le32(e.count));
    let r = spec_put_entry(o, slot, e, false);
    lemma_write_u16(o, slot, e.tag);
    lemma_write_u16(w1, slot + 2, e.ty);
    lemma_write_u32(w2, slot + 4, e.count);
    lemma_u16_agree(w1, w3, slot);
    lemma_u16_agree(w2, w3, slot + 2);
    assert(w3.len() == o.len());
    if e.value.len() <= 4 {
        let v = inline_slot(e.value);
        assert(v.len() == 4);
        assert(r == write_at(w3, slot + 8, v));
        lemma_u16_agree(w3, r, slot);
        lemma_u16_agree(w3, r, slot + 2);
        lemma_u32_agree(w3, r, slot + 4);
        assert(r.subrange(slot + 8, slot + 8 + e.value.len()) =~= e.value);
    } else {
        let pd = pad_even(w3);
        let q = pd + e.value;
        assert(r == write_at(q, slot + 8, le32(pd.len() as u32)));
        assert(pd.len() <= r.len());
        assert(forall|i: int| 0 <= i < w3.len() ==> #[trigger] pd[i] == w3[i]);
        assert(forall|i: int| 0 <= i < pd.len() ==> #[trigger] q[i] == pd[i]);
        lemma_u16_agree(w3, r, slot);
        lemma_u16_agree(w3, r, slot + 2);
        lemma_u32_agree(w3, r, slot + 4);
        lemma_write_u32(q, slot + 8, pd.len() as u32);
        assert(r.subrange(pd.len() as int, (pd.len() + e.value.len()) as int) =~= e.value);
    }
}

/// A plain entry's write never shortens the buffer.
proof fn lemma_put_entry_grows(o: Seq<u8>, slot: int, e: EntryModel)
    requires
        plain_entry(e),
    ensures
        spec_put_entry(o, slot, e, false).len() >= o.len(),
{
}

/// Writing more plain entries never shortens the buffer.
proof fn lemma_put_entries_grow(o1: Seq<u8>, dir: int, es: Seq<EntryModel>, j: int, k: int)
    requires
        0 <= j <= k <= es.len(),
        forall|i: int| 0 <= i < es.len() ==> plain_entry(#[trigger] es[i]),
    ensures
        spec_put_entries(o1, dir, es, false, j).len() <= spec_put_entries(o1, dir, es, false, k).len(),
    decreases k,
{
    if j < k {
        lemma_put_entries_grow(o1, dir, es, j, k - 1);
        lemma_put_entry_grows(spec_put_entries(o1, dir, es, false, k - 1), dir + (k - 1) * 12, es[k - 1]);
    }
}

/// A record that reads back as `e` still does after changes that leave its
/// slot and everything at or after `floor` alone and only lengthen the buffer.
proof fn lemma_reads_as_frame(a: Seq<u8>, b: Seq<u8>, slot: int, e: EntryModel, floor: int, lo: int, hi: int)
    requires
        0 <= slot,
        slot + 12 <= lo,
        hi <= floor,
        slot + 12 <= a.len(),
        reads_as(a, slot, e, floor),
        b.len() >= a.len(),
        forall|p: int| 0 <= p < a.len() && !(lo <= p < hi) ==> #[trigger] b[p] == a[p],
    ensures
        reads_as(b, slot, e, floor),
{
    assert(b[slot] == a[slot] && b[slot + 1] == a[slot + 1]);
    assert(b[slot + 2] == a[slot + 2] && b[slot + 3] == a[slot + 3]);
    assert(b[slot + 4] == a[slot + 4] && b[slot + 5] == a[slot + 5]);
    assert(b[slot + 6] == a[slot + 6] && b[slot + 7] == a[slot + 7]);
    assert(b[slot + 8] == a[slot + 8] && b[slot + 9] == a[slot + 9]);
    assert(b[slot + 10] == a[slot + 10] && b[slot + 11] == a[slot + 11]);
    lemma_u16_agree(a, b, slot);
    lemma_u16_agree(a, b, slot + 2);
    lemma_u32_agree(a, b, slot + 4);
    lemma_u32_agree(a, b, slot + 8);
    let vlen = e.value.len() as int;
    if vlen <= 4 {
        assert(b.subrange(slot + 8, slot + 8 + vlen) =~= a.subrange(slot + 8, slot + 8 + vlen));
    } else {
        let voff = u32_at(a, slot + 8, true) as int;
        assert(b.subrange(voff, voff + vlen) =~= a.subrange(voff, voff + vlen));
    }
}

/// After the first `k` plain entries are written, the directory stretch
/// outside their slots is as it was, and each of their slots reads back as
/// its entry.
proof fn lemma_put_entries(o1: Seq<u8>, dir: int, es: Seq<EntryModel>, k: int)
    requires
        0 <= dir,
        0 <= k <= es.len(),
        dir + 12 * es.len() <= o1.len(),
        forall|i: int| 0 <= i < es.len() ==> plain_entry(#[trigger] es[i]),
        spec_put_entries(o1, dir, es, false, es.len() as int).len() <= u32::MAX,
    ensures
        spec_put_entries(o1, dir, es, false, k).len() >= o1.len(),
        forall|p: int|
            0 <= p < o1.len() && !(dir <= p < dir + 12 * k) ==> #[trigger] spec_put_entries(
                o1,
                dir,
                es,
                false,
                k,
            )[p] == o1[p],
        forall|j: int|
            0 <= j < k ==> reads_as(
                spec_put_entries(o1, dir, es, false, k),
                dir + 12 * j,
                #[trigger] es[j],
                o1.len() as int,
            ),
    decreases k,
{
    if k > 0 {
        lemma_put_entries(o1, dir, es, k - 1);
        let a = spec_put_entries(o1, dir, es, false, k - 1);
        let s = dir + (k - 1) * 12;
        let b = spec_put_entries(o1, dir, es, false, k);
        assert(b == spec_put_entry(a, s, es[k - 1], false));
        lemma_put_entries_grow(o1, dir, es, k, es.len() as int);
        lemma_put_entry(a, s, es[k - 1], o1.len() as int);
        assert forall|j: int| 0 <= j < k implies reads_as(b, dir + 12 * j, #[trigger] es[j], o1.len() as int) by {
            if j < k - 1 {
                lemma_reads_as_frame(a, b, dir + 12 * j, es[j], o1.len() as int, s, s + 12);
            } else {
                assert(dir + 12 * j == s);
            }
        }
    }
}

/// Reading back records that read as plain entries gives those entries.
proof fn lemma_parse_entries(
    buf: Seq<u8>,
    dir: int,
    es: Seq<EntryModel>,
    n: int,
    depth: int,
    seen: Set<usize>,
    floor: int,
)
    requires
        0 <= n <= es.len(),
        forall|i: int| 0 <= i < es.len() ==> plain_entry(#[trigger] es[i]),
        forall|j: int| 0 <= j < n ==> reads_as(buf, dir + 12 * j, #[trigger] es[j], floor),
    ensures
        spec_parse_entries(buf, dir, n, true, depth, seen) == Ok::<
            (Seq<EntryModel>, Set<usize>),
            Error,
        >((es.take(n), seen)),
    decreases n,
{
    if n > 0 {
        lemma_parse_entries(buf, dir, es, n - 1, depth, seen, floor);
        let e = es[n - 1];
        assert(reads_as(buf, dir + 12 * (n - 1), e, floor));
        let at = dir + (n - 1) * 12;
        assert(at == dir + 12 * (n - 1));
        assert(!spec_entry_is_pointer(buf, at, true));
        assert(spec_entry_value(buf, at, true) == Ok::<Seq<u8>, Error>(e.value));
        assert(EntryModel { tag: e.tag, ty: e.ty, count: e.count, value: e.value, sub: None } == e);
        assert(spec_parse_entry(buf, at, true, depth, seen) == Ok::<(EntryModel, Set<usize>), Error>(
            (e, seen),
        ));
        assert(es.take(n - 1).push(e) =~= es.take(n));
    } else {
        assert(es.take(n) =~= Seq::<EntryModel>::empty());
    }
}

/// No record that reads as a plain entry is taken for a thumbnail offset.
proof fn lemma_no_thumb_field(buf: Seq<u8>, dir: int, es: Seq<EntryModel>, n: int, floor: int)
    requires
        0 <= n <= es.len(),
        forall|i: int| 0 <= i < es.len() ==> plain_entry(#[trigger] es[i]),
        forall|j: int| 0 <= j < n ==> reads_as(buf, dir + 12 * j, #[trigger] es[j], floor),
    ensures
        spec_thumb_field(buf, dir, n, true, TAG_THUMB_OFFSET) is None,
    decreases n,
{
    if n > 0 {
        lemma_no_thumb_field(buf, dir, es, n - 1, floor);
        assert(reads_as(buf, dir + 12 * (n - 1), es[n - 1], floor));
        assert(dir + (n - 1) * 12 == dir + 12 * (n - 1));
    }
}

/// Whether an IFD0 is a single directory of plain entries: no sub-IFD, no
/// next IFD, no thumbnail, and fewer entries than a 16-bit count holds.
pub open spec fn flat_ifd(d: IfdModel) -> bool {
    &&& d.entries.len() < 65536
    &&& d.next is None
    &&& d.thumbnail is None
    &&& forall|i: int| 0 <= i < d.entries.len() ==> plain_entry(#[trigger] d.entries[i])
}

/// Reading back what the writer produces for a single directory of plain
/// entries gives that directory again: every entry's tag, type, count and
/// value bytes, in order, whatever the tag means.
pub proof fn law_flat_reread(d: IfdModel)
    requires
        flat_ifd(d),
        spec_serialize(TiffModel { ifd0: d }).len() <= u32::MAX,
    ensures
        spec_parse(spec_serialize(TiffModel { ifd0: d })) == Ok::<TiffModel, Error>(
            TiffModel { ifd0: d },
        ),
{
    let es = d.entries;
    let n = es.len() as int;
    let h: Seq<u8> = seq![0x49u8, 0x49u8, 42u8, 0u8, 8u8, 0u8, 0u8, 0u8];
    let o1 = h + le16(n as u16) + zeros((n * 12 + 4) as nat);
    let buf = spec_put_entries(o1, 10, es, false, n);
    assert(spec_serialize(TiffModel { ifd0: d }) == spec_put_ifd(h, d));
    assert(spec_put_ifd(h, d) == buf);
    lemma_put_entries(o1, 10, es, n);
    let l0 = o1.len() as int;
    assert(l0 == 14 + 12 * n);
    assert forall|p: int| 0 <= p < 10 implies buf[p] == o1[p] by {}
    assert forall|p: int| 10 + 12 * n <= p < l0 implies buf[p] == o1[p] && o1[p] == 0 by {}
    assert(buf[0] == 0x49 && buf[1] == 0x49 && buf[2] == 42 && buf[3] == 0);
    assert(buf[4] == 8 && buf[5] == 0 && buf[6] == 0 && buf[7] == 0);
    assert(u16_at(buf, 2, true) == 42);
    assert(u32_at(buf, 4, true) == 8);
    lemma_le16(n as u16);
    assert(buf[8] == le16(n as u16)[0] && buf[9] == le16(n as u16)[1]);
    assert(u16_at(buf, 8, true) == n);
    assert(buf[10 + 12 * n] == 0 && buf[11 + 12 * n] == 0 && buf[12 + 12 * n] == 0 && buf[13 + 12
        * n] == 0);
    assert(u32_at(buf, 10 + n * 12, true) == 0);
    let seen = Set::<usize>::empty().insert(8);
    lemma_parse_entries(buf, 10, es, n, 0, seen, l0);
    assert(es.take(n) =~= es);
    lemma_no_thumb_field(buf, 10, es, n, l0);
    assert(spec_ifd_tail(buf, 10, n, true, 0, spec_parse_entries(buf, 10, n, true, 0, seen))
        == Ok::<(IfdModel, Set<usize>), Error>((IfdModel { entries: es, next: None, thumbnail: None }, seen)));
    assert(spec_parse_ifd(buf, 8, true, 0, Set::empty()) == Ok::<(IfdModel, Set<usize>), Error>(
        (IfdModel { entries: es, next: None, thumbnail: None }, seen)));
    assert(d == IfdModel { entries: es, next: None, thumbnail: None });
}

// ── Writing keeps what came before ─────────────────────────────────────────

/// Appending an IFD keeps every byte already written.
proof fn lemma_put_ifd_prefix(out: Seq<u8>, d: IfdModel)
    ensures
        spec_put_ifd(out, d).len() >= out.len() + 2 + 12 * d.entries.len() + 4,
        forall|p: int| 0 <= p < out.len() ==> #[trigger] spec_put_ifd(out, d)[p] == out[p],
    decreases d, 0int,
{
    let n = d.entries.len() as int;
    let dir = out.len() + 2int;
    let o1 = out + le16(n as u16) + zeros((n * 12 + 4) as nat);
    assert(decreases_to!(d => d.entries));
    lemma_put_entries_frame(o1, dir, d.entries, d.thumbnail is Some, n);
    let o2 = spec_put_entries(o1, dir, d.entries, d.thumbnail is Some, n);
    let o3 = match d.thumbnail {
        None => o2,
        Some(t) => {
            let p = pad_even(o2);
            let o = p + t;
            match first_tag_index(d.entries, TAG_THUMB_OFFSET) {
                Some(i) => write_at(o, dir + i * 12 + 8, le32(p.len() as u32)),
                None => o,
            }
        },
    };
    assert(o3.len() >= o2.len());
    assert(forall|p: int| 0 <= p < out.len() ==> #[trigger] o3[p] == out[p]) by {
        assert(forall|p: int| 0 <= p < out.len() ==> #[trigger] o1[p] == out[p]);
        assert(forall|p: int| 0 <= p < out.len() ==> #[trigger] o2[p] == o1[p]);
        match d.thumbnail {
            None => {},
            Some(t) => {
                lemma_first_tag_index(d.entries, TAG_THUMB_OFFSET);
            },
        }
    }
    match d.next {
        None => {},
        Some(nx) => {
            let pd = pad_even(o3);
            let x = write_at(pd, dir + n * 12, le32(pd.len() as u32));
            assert(decreases_to!(d => d.next));
            assert(decreases_to!(d.next => nx));
            lemma_put_ifd_prefix(x, *nx);
            assert(spec_put_ifd(out, d) == spec_put_ifd(x, *nx));
            assert(forall|p: int| 0 <= p < out.len() ==> #[trigger] x[p] == out[p]);
        },
    }
}

/// Writing entries changes only their slots and appends.
proof fn lemma_put_entries_frame(o: Seq<u8>, dir: int, es: Seq<EntryModel>, ht: bool, k: int)
    requires
        0 <= dir,
        dir + 12 * es.len() <= o.len(),
        0 <= k <= es.len(),
    ensures
        spec_put_entries(o, dir, es, ht, k).len() >= o.len(),
        forall|p: int|
            0 <= p < o.len() && !(dir <= p < dir + 12 * k) ==> #[trigger] spec_put_entries(
                o,
                dir,
                es,
                ht,
                k,
            )[p] == o[p],
    decreases es, k,
{
    if k > 0 {
        lemma_put_entries_frame(o, dir, es, ht, k - 1);
        let a = spec_put_entries(o, dir, es, ht, k - 1);
        assert(decreases_to!(es => es[k - 1]));
        lemma_put_entry_frame(a, dir + (k - 1) * 12, es[k - 1], ht);
    }
}

/// Writing one entry changes only its slot and appends.
proof fn lemma_put_entry_frame(o: Seq<u8>, slot: int, e: EntryModel, ht: bool)
    requires
        0 <= slot,
        slot + 12 <= o.len(),
    ensures
        spec_put_entry(o, slot, e, ht).len() >= o.len(),
        forall|p: int|
            0 <= p < o.len() && !(slot <= p < slot + 12) ==> #[trigger] spec_put_entry(
                o,
                slot,
                e,
                ht,
            )[p] == o[p],
    decreases e, 0int,
{
    let oh = write_at(write_at(write_at(o, slot, le16(e.tag)), slot + 2, le16(e.ty)), slot + 4, le32(e.count));
    if !(e.tag == TAG_THUMB_OFFSET && ht) {
        match e.sub {
            Some(sub) => {
                assert(decreases_to!(e => e.sub));
                assert(decreases_to!(e.sub => sub));
                lemma_put_ifd_prefix(oh, sub);
            },
            None => {
                if e.value.len() > 4 {
                    let pd = pad_even(oh);
                    assert(forall|i: int| 0 <= i < oh.len() ==> #[trigger] pd[i] == oh[i]);
                }
            },
        }
    }
}

// ── Well-formed blocks and what reading them back gives ─────────────────────

/// Whether an entry has the shape of a sub-IFD pointer (a pointer tag of type
/// `LONG` with a four-byte value), which the reader follows.
pub open spec fn pointer_shaped(e: EntryModel) -> bool {
    pointer_tag(e.tag) && e.ty == TY_LONG && e.value.len() == 4
}

/// Index of the last of the first `k` entries that carries `tag` with a
/// four-byte value (where the reader looks for the thumbnail fields).
pub open spec fn last_four_byte(es: Seq<EntryModel>, k: int, tag: u16) -> Option<int>
    decreases k,
{
    if k <= 0 {
        None
    } else if es[k - 1].tag == tag && es[k - 1].value.len() == 4 {
        Some(k - 1)
    } else {
        last_four_byte(es, k - 1, tag)
    }
}

/// Whether an IFD's thumbnail and its `0x0201`/`0x0202` entries agree: with
/// a thumbnail, exactly one offset entry (four bytes) and a four-byte length
/// entry whose value is the thumbnail's length; without one, not both
/// fields present.
pub open spec fn thumb_ok(d: IfdModel) -> bool {
    let es = d.entries;
    let n = es.len() as int;
    match d.thumbnail {
        None => !(last_four_byte(es, n, TAG_THUMB_OFFSET) is Some && last_four_byte(
            es,
            n,
            TAG_THUMB_LENGTH,
        ) is Some),
        Some(t) => {
            &&& first_tag_index(es, TAG_THUMB_OFFSET) is Some
            &&& last_four_byte(es, n, TAG_THUMB_OFFSET) == first_tag_index(es, TAG_THUMB_OFFSET)
            &&& forall|i: int|
                0 <= i < n && (#[trigger] es[i]).tag == TAG_THUMB_OFFSET ==> es[i].value.len() == 4
            &&& last_four_byte(es, n, TAG_THUMB_LENGTH) matches Some(j) && u32_at(
                es[j].value,
                0,
                true,
            ) == t.len()
        },
    }
}

/// Whether an entry can be written and read back: its value has the width
/// its type and count give, and it carries a sub-IFD exactly when it has the
/// shape of a pointer, that sub-IFD being well formed one level deeper.
pub open spec fn wf_entry(e: EntryModel, depth: int) -> bool
    decreases e, 0int,
    via wf_decreases_entry
{
    &&& e.value.len() == spec_type_size(e.ty) * e.count
    &&& (e.sub is Some <==> pointer_shaped(e))
    &&& match e.sub {
        Some(sub) => wf_ifd(sub, depth + 1),
        None => true,
    }
}

/// Whether the first `k` entries are well formed at `depth`.
pub open spec fn wf_entries(es: Seq<EntryModel>, k: int, depth: int) -> bool
    decreases es, k,
    via wf_decreases_entries
{
    if k <= 0 || k > es.len() {
        true
    } else {
        wf_entries(es, k - 1, depth) && wf_entry(es[k - 1], depth)
    }
}

/// Whether an IFD at nesting `depth` can be written and read back: within
/// the reader's depth cap, fewer entries than a 16-bit count holds, every
/// entry well formed, its thumbnail fields consistent, and its next IFD
/// well formed one level deeper.
pub open spec fn wf_ifd(d: IfdModel, depth: int) -> bool
    decreases d, 0int,
    via wf_decreases_ifd
{
    &&& 0 <= depth <= MAX_IFD_DEPTH
    &&& d.entries.len() < 65536
    &&& wf_entries(d.entries, d.entries.len() as int, depth)
    &&& thumb_ok(d)
    &&& match d.next {
        Some(nx) => wf_ifd(*nx, depth + 1),
        None => true,
    }
}

#[via_fn]
proof fn wf_decreases_entry(e: EntryModel, depth: int) {
    if let Some(sub) = e.sub {
        assert(decreases_to!(e => e.sub));
        assert(decreases_to!(e.sub => sub));
    }
}

#[via_fn]
proof fn wf_decreases_entries(es: Seq<EntryModel>, k: int, depth: int) {
    if 0 < k <= es.len() {
        assert(decreases_to!(es => es[k - 1]));
    }
}

#[via_fn]
proof fn wf_decreases_ifd(d: IfdModel, depth: int) {
    assert(decreases_to!(d => d.entries));
    if let Some(nx) = d.next {
        assert(decreases_to!(d => d.next));
        assert(decreases_to!(d.next => nx));
    }
}

/// Whether `p` is what reading back entry `e` gives: the same tag, type and
/// count, a value of the same length that is `e`'s own unless it is a
/// relocated offset (a sub-IFD pointer, or the thumbnail offset of an IFD
/// with a thumbnail), and a sub-IFD read back from `e`'s.
pub open spec fn reread_entry(p: EntryModel, e: EntryModel, ht: bool) -> bool
    decreases e, 0int,
    via rr_decreases_entry
{
    &&& p.tag == e.tag
    &&& p.ty == e.ty
    &&& p.count == e.count
    &&& p.value.len() == e.value.len()
    &&& (e.sub is None && !(ht && e.tag == TAG_THUMB_OFFSET)) ==> p.value == e.value
    &&& match (p.sub, e.sub) {
        (None, None) => true,
        (Some(a), Some(b)) => reread_ifd(a, b),
        _ => false,
    }
}

/// Whether the first `k` entries of `ps` are what reading back those of
/// `es` gives.
pub open spec fn reread_entries(ps: Seq<EntryModel>, es: Seq<EntryModel>, k: int, ht: bool) -> bool
    decreases es, k,
    via rr_decreases_entries
{
    if k <= 0 || k > es.len() {
        true
    } else {
        reread_entries(ps, es, k - 1, ht) && reread_entry(ps[k - 1], es[k - 1], ht)
    }
}

/// Whether `p` is what reading back IFD `d` gives: its entries entry for
/// entry, the same thumbnail bytes, and its next IFD read back.
pub open spec fn reread_ifd(p: IfdModel, d: IfdModel) -> bool
    decreases d, 0int,
    via rr_decreases_ifd
{
    &&& p.entries.len() == d.entries.len()
    &&& reread_entries(p.entries, d.entries, d.entries.len() as int, d.thumbnail is Some)
    &&& p.thumbnail == d.thumbnail
    &&& match (p.next, d.next) {
        (None, None) => true,
        (Some(a), Some(b)) => reread_ifd(*a, *b),
        _ => false,
    }
}

#[via_fn]
proof fn rr_decreases_entry(p: EntryModel, e: EntryModel, ht: bool) {
    if let Some(sub) = e.sub {
        assert(decreases_to!(e => e.sub));
        assert(decreases_to!(e.sub => sub));
    }
}

#[via_fn]
proof fn rr_decreases_entries(ps: Seq<EntryModel>, es: Seq<EntryModel>, k: int, ht: bool) {
    if 0 < k <= es.len() {
        assert(decreases_to!(es => es[k - 1]));
    }
}

#[via_fn]
proof fn rr_decreases_ifd(p: IfdModel, d: IfdModel) {
    assert(decreases_to!(d => d.entries));
    if let Some(nx) = d.next {
        assert(decreases_to!(d => d.next));
        assert(decreases_to!(d.next => nx));
    }
}

// ── Reading back, piece by piece ───────────────────────────────────────────

proof fn lemma_wf_entries(es: Seq<EntryModel>, k: int, depth: int, j: int)
    requires
        wf_entries(es, k, depth),
        0 <= j < k <= es.len(),
    ensures
        wf_entry(es[j], depth),
    decreases k,
{
    if j < k - 1 {
        lemma_wf_entries(es, k - 1, depth, j);
    }
}

proof fn lemma_reread_entries_push(
    ps: Seq<EntryModel>,
    pe: EntryModel,
    es: Seq<EntryModel>,
    k: int,
    ht: bool,
)
    requires
        0 <= k < es.len(),
        ps.len() == k,
        reread_entries(ps, es, k, ht),
        reread_entry(pe, es[k], ht),
    ensures
        reread_entries(ps.push(pe), es, k + 1, ht),
{
    lemma_reread_entries_ext(ps, ps.push(pe), es, k, ht);
}

proof fn lemma_reread_entries_ext(
    ps: Seq<EntryModel>,
    qs: Seq<EntryModel>,
    es: Seq<EntryModel>,
    k: int,
    ht: bool,
)
    requires
        0 <= k <= es.len(),
        k <= ps.len(),
        k <= qs.len(),
        forall|i: int| 0 <= i < k ==> ps[i] == qs[i],
        reread_entries(ps, es, k, ht),
    ensures
        reread_entries(qs, es, k, ht),
    decreases k,
{
    if k > 0 {
        lemma_reread_entries_ext(ps, qs, es, k - 1, ht);
    }
}

/// Whether the record at `slot` of `buf` carries `e`'s tag, type and count.
spec fn header_reads(buf: Seq<u8>, slot: int, e: EntryModel) -> bool {
    &&& u16_at(buf, slot, true) == e.tag
    &&& u16_at(buf, slot + 2, true) == e.ty
    &&& u32_at(buf, slot + 4, true) == e.count
}

/// Entries written after the first `j` change only their own slots and
/// append.
proof fn lemma_put_entries_later(o: Seq<u8>, dir: int, es: Seq<EntryModel>, ht: bool, j: int, k: int)
    requires
        0 <= dir,
        dir + 12 * es.len() <= o.len(),
        0 <= j <= k <= es.len(),
    ensures
        spec_put_entries(o, dir, es, ht, j).len() <= spec_put_entries(o, dir, es, ht, k).len(),
        forall|p: int|
            0 <= p < spec_put_entries(o, dir, es, ht, j).len() && !(dir + 12 * j <= p < dir + 12
                * k) ==> #[trigger] spec_put_entries(o, dir, es, ht, k)[p] == spec_put_entries(
                o,
                dir,
                es,
                ht,
                j,
            )[p],
    decreases k,
{
    if j < k {
        lemma_put_entries_later(o, dir, es, ht, j, k - 1);
        lemma_put_entries_frame(o, dir, es, ht, k - 1);
        let a = spec_put_entries(o, dir, es, ht, k - 1);
        lemma_put_entry_frame(a, dir + (k - 1) * 12, es[k - 1], ht);
    }
}

/// The reader's thumbnail lookup over records that carry the entries'
/// headers finds the last four-byte entry with the tag.
proof fn lemma_thumb_field(buf: Seq<u8>, dir: int, es: Seq<EntryModel>, k: int, tag: u16, depth: int)
    requires
        0 <= k <= es.len(),
        wf_entries(es, es.len() as int, depth),
        forall|j: int| 0 <= j < k ==> header_reads(buf, dir + 12 * j, #[trigger] es[j]),
    ensures
        spec_thumb_field(buf, dir, k, true, tag) == match last_four_byte(es, k, tag) {
            None => None::<u32>,
            Some(j) => Some(u32_at(buf, dir + 12 * j + 8, true)),
        },
    decreases k,
{
    if k > 0 {
        lemma_thumb_field(buf, dir, es, k - 1, tag, depth);
        lemma_wf_entries(es, es.len() as int, depth, k - 1);
        assert(header_reads(buf, dir + 12 * (k - 1), es[k - 1]));
        assert(dir + (k - 1) * 12 == dir + 12 * (k - 1));
    }
}

/// The header writes of an entry's slot.
spec fn head_written(a: Seq<u8>, slot: int, e: EntryModel) -> Seq<u8> {
    write_at(write_at(write_at(a, slot, le16(e.tag)), slot + 2, le16(e.ty)), slot + 4, le32(e.count))
}

/// Whether `buf` agrees with `r` on the slot at `s`: all twelve bytes, or
/// only the eight header bytes.
spec fn slot_agrees(buf: Seq<u8>, r: Seq<u8>, s: int, full: bool) -> bool {
    forall|p: int| s <= p < s + (if full { 12int } else { 8int }) ==> #[trigger] buf[p] == r[p]
}

/// Whether entry `e`'s value bytes are left for a later patch (the
/// thumbnail offset of an IFD with a thumbnail).
spec fn skipped(e: EntryModel, ht: bool) -> bool {
    ht && e.tag == TAG_THUMB_OFFSET
}

/// What the bytes of entry `j`'s record, read from `buf`, say once all the
/// entries are written: its header, its value, and where its sub-IFD is.
#[verifier::rlimit(100)]
#[verifier::spinoff_prover]
proof fn lemma_entry_bytes(o1: Seq<u8>, dir: int, es: Seq<EntryModel>, ht: bool, j: int, depth: int, buf: Seq<u8>)
    requires
        0 <= j < es.len(),
        0 <= dir,
        dir + 12 * es.len() + 4 <= o1.len(),
        wf_entry(es[j], depth),
        skipped(es[j], ht) ==> es[j].value.len() == 4,
        spec_put_entries(o1, dir, es, ht, es.len() as int).len() <= buf.len(),
        buf.len() <= u32::MAX,
        forall|p: int|
            o1.len() <= p < spec_put_entries(o1, dir, es, ht, es.len() as int).len() ==> #[trigger] buf[p]
                == spec_put_entries(o1, dir, es, ht, es.len() as int)[p],
        slot_agrees(buf, spec_put_entries(o1, dir, es, ht, es.len() as int), dir + 12 * j, !skipped(es[j], ht)),
    ensures
        header_reads(buf, dir + 12 * j, es[j]),
        spec_entry_is_pointer(buf, dir + 12 * j, true) == (es[j].sub is Some),
        spec_entry_value(buf, dir + 12 * j, true) matches Ok(v) && v.len() == es[j].value.len(),
        (es[j].sub is None && !skipped(es[j], ht)) ==> spec_entry_value(buf, dir + 12 * j, true) == Ok::<
            Seq<u8>,
            Error,
        >(es[j].value),
        es[j].sub matches Some(sub) ==> ({
            let a = spec_put_entries(o1, dir, es, ht, j);
            let w = spec_put_ifd(head_written(a, dir + 12 * j, es[j]), sub);
            &&& u32_at(buf, dir + 12 * j + 8, true) == a.len()
            &&& a.len() >= o1.len()
            &&& w.len() == spec_put_entries(o1, dir, es, ht, j + 1).len()
            &&& forall|p: int| a.len() <= p < w.len() ==> #[trigger] buf[p] == w[p]
        }),
{
    let n = es.len() as int;
    let rn = spec_put_entries(o1, dir, es, ht, n);
    let a = spec_put_entries(o1, dir, es, ht, j);
    let b = spec_put_entries(o1, dir, es, ht, j + 1);
    let s = dir + 12 * j;
    let e = es[j];
    assert(s == dir + j * 12);
    lemma_put_entries_frame(o1, dir, es, ht, j);
    lemma_put_entries_later(o1, dir, es, ht, j + 1, n);
    assert(b == spec_put_entry(a, s, e, ht));
    let w1 = write_at(a, s, le16(e.tag));
    let w2 = write_at(w1, s + 2, le16(e.ty));
    let oh = head_written(a, s, e);
    lemma_write_u16(a, s, e.tag);
    lemma_write_u16(w1, s + 2, e.ty);
    lemma_write_u32(w2, s + 4, e.count);
    lemma_u16_agree(w1, oh, s);
    lemma_u16_agree(w2, oh, s + 2);
    lemma_put_entry_frame(a, s, e, ht);
    // the header bytes are the same in `b`, `rn` and `buf`
    assert(b.len() >= oh.len());
    let hb = if skipped(e, ht) { oh } else { b };
    assert forall|p: int| s <= p < s + 8 implies #[trigger] buf[p] == oh[p] by {
        assert(buf[p] == rn[p]);
        assert(rn[p] == b[p]);
        if !skipped(e, ht) {
            match e.sub {
                Some(sub) => {
                    lemma_put_ifd_prefix(oh, sub);
                    assert(b == write_at(spec_put_ifd(oh, sub), s + 8, le32(oh.len() as u32)));
                },
                None => {
                    if e.value.len() > 4 {
                        let pd = pad_even(oh);
                        assert(pd[p] == oh[p]);
                    }
                },
            }
        }
    }
    lemma_u16_agree(oh, buf, s);
    lemma_u16_agree(oh, buf, s + 2);
    lemma_u32_agree(oh, buf, s + 4);
    assert(header_reads(buf, s, e));
    if skipped(e, ht) {
        assert(buf.subrange(s + 8, s + 12).len() == 4);
    } else {
        match e.sub {
            Some(sub) => {
                lemma_put_ifd_prefix(oh, sub);
                let w = spec_put_ifd(oh, sub);
                assert(b == write_at(w, s + 8, le32(oh.len() as u32)));
                lemma_write_u32(w, s + 8, oh.len() as u32);
                assert forall|p: int| s + 8 <= p < s + 12 implies #[trigger] buf[p] == b[p] by {
                    assert(buf[p] == rn[p]);
                }
                lemma_u32_agree(b, buf, s + 8);
                assert forall|p: int| a.len() <= p < w.len() implies #[trigger] buf[p] == w[p] by {
                    assert(buf[p] == rn[p]);
                    assert(rn[p] == b[p]);
                }
            },
            None => {
                assert forall|p: int| s + 8 <= p < s + 12 implies #[trigger] buf[p] == b[p] by {
                    assert(buf[p] == rn[p]);
                }
                if e.value.len() <= 4 {
                    let v = inline_slot(e.value);
                    assert(b == write_at(oh, s + 8, v));
                    assert(buf.subrange(s + 8, s + 8 + e.value.len()) =~= e.value);
                } else {
                    let pd = pad_even(oh);
                    let q = pd + e.value;
                    assert(b == write_at(q, s + 8, le32(pd.len() as u32)));
                    lemma_write_u32(q, s + 8, pd.len() as u32);
                    lemma_u32_agree(b, buf, s + 8);
                    assert forall|p: int| pd.len() <= p < pd.len() + e.value.len() implies #[trigger] buf[p]
                        == e.value[p - pd.len()] by {
                        assert(buf[p] == rn[p]);
                        assert(rn[p] == b[p]);
                    }
                    assert(buf.subrange(pd.len() as int, (pd.len() + e.value.len()) as int) =~= e.value);
                }
            },
        }
    }
}

/// Reading back the first `k` records of a written directory gives entries
/// that read back as the first `k` entries, visiting only offsets below
/// what those entries wrote.
#[verifier::rlimit(100)]
#[verifier::spinoff_prover]
proof fn lemma_reread_entries(
    o1: Seq<u8>,
    dir: int,
    es: Seq<EntryModel>,
    ht: bool,
    k: int,
    depth: int,
    seen: Set<usize>,
    buf: Seq<u8>,
)
    requires
        0 <= k <= es.len(),
        0 <= dir,
        8 <= o1.len(),
        dir + 12 * es.len() + 4 <= o1.len(),
        wf_entries(es, es.len() as int, depth),
        forall|j: int| 0 <= j < es.len() && skipped(#[trigger] es[j], ht) ==> es[j].value.len() == 4,
        spec_put_entries(o1, dir, es, ht, es.len() as int).len() <= buf.len(),
        buf.len() <= u32::MAX,
        forall|p: int|
            o1.len() <= p < spec_put_entries(o1, dir, es, ht, es.len() as int).len() ==> #[trigger] buf[p]
                == spec_put_entries(o1, dir, es, ht, es.len() as int)[p],
        forall|j: int|
            0 <= j < es.len() ==> slot_agrees(
                buf,
                spec_put_entries(o1, dir, es, ht, es.len() as int),
                dir + 12 * j,
                !skipped(#[trigger] es[j], ht),
            ),
        forall|x: usize| seen.contains(x) ==> x < o1.len(),
    ensures
        spec_parse_entries(buf, dir, k, true, depth, seen) matches Ok((ps, sk)) && ps.len() == k
            && reread_entries(ps, es, k, ht) && forall|x: usize|
            sk.contains(x) ==> x < spec_put_entries(o1, dir, es, ht, k).len(),
    decreases es, k,
{
    if k > 0 {
        lemma_reread_entries(o1, dir, es, ht, k - 1, depth, seen, buf);
        let j = k - 1;
        let e = es[j];
        lemma_wf_entries(es, es.len() as int, depth, j);
        lemma_entry_bytes(o1, dir, es, ht, j, depth, buf);
        lemma_put_entries_frame(o1, dir, es, ht, j);
        lemma_put_entries_later(o1, dir, es, ht, j, k);
        lemma_put_entries_later(o1, dir, es, ht, k, es.len() as int);
        let at = dir + j * 12;
        assert(at == dir + 12 * j);
        let prev = spec_parse_entries(buf, dir, j, true, depth, seen);
        let ps = prev->Ok_0.0;
        let sj = prev->Ok_0.1;
        let v = spec_entry_value(buf, at, true)->Ok_0;
        match e.sub {
            Some(sub) => {
                let a = spec_put_entries(o1, dir, es, ht, j);
                let oh = head_written(a, at, e);
                assert(decreases_to!(es => es[j]));
                assert(decreases_to!(es[j] => es[j].sub));
                assert(decreases_to!(es[j].sub => sub));
                lemma_reread_ifd(oh, sub, depth + 1, sj, buf);
                let r = spec_parse_ifd(buf, a.len() as int, true, depth + 1, sj);
                let pe = EntryModel { tag: e.tag, ty: e.ty, count: e.count, value: v, sub: Some(r->Ok_0.0) };
                assert(spec_parse_entry(buf, at, true, depth, sj) == Ok::<(EntryModel, Set<usize>), Error>(
                    (pe, r->Ok_0.1),
                ));
                assert(reread_entry(pe, e, ht));
                lemma_reread_entries_push(ps, pe, es, j, ht);
            },
            None => {
                let pe = EntryModel { tag: e.tag, ty: e.ty, count: e.count, value: v, sub: None };
                assert(spec_parse_entry(buf, at, true, depth, sj) == Ok::<(EntryModel, Set<usize>), Error>(
                    (pe, sj),
                ));
                assert(reread_entry(pe, e, ht));
                lemma_reread_entries_push(ps, pe, es, j, ht);
            },
        }
    }
}

/// The directory an IFD reserves after `out`: its count and zeroed slots.
spec fn ifd_o1(out: Seq<u8>, d: IfdModel) -> Seq<u8> {
    out + le16(d.entries.len() as u16) + zeros((d.entries.len() * 12 + 4) as nat)
}

/// The bytes once the IFD's entries are written.
spec fn ifd_o2(out: Seq<u8>, d: IfdModel) -> Seq<u8> {
    spec_put_entries(ifd_o1(out, d), out.len() + 2int, d.entries, d.thumbnail is Some, d.entries.len() as int)
}

/// The index of the thumbnail offset entry the writer patches, or -1.
spec fn thumb_index(d: IfdModel) -> int {
    match first_tag_index(d.entries, TAG_THUMB_OFFSET) {
        Some(i) => i,
        None => -1,
    }
}

/// The bytes once the IFD's thumbnail is placed.
spec fn ifd_o3(out: Seq<u8>, d: IfdModel) -> Seq<u8> {
    let o2 = ifd_o2(out, d);
    match d.thumbnail {
        None => o2,
        Some(t) => {
            let p = pad_even(o2);
            let o = p + t;
            match first_tag_index(d.entries, TAG_THUMB_OFFSET) {
                Some(i) => write_at(o, out.len() + 2int + i * 12 + 8, le32(p.len() as u32)),
                None => o,
            }
        },
    }
}

/// The bytes once the next-IFD link is patched, before the next IFD.
spec fn ifd_xl(out: Seq<u8>, d: IfdModel) -> Seq<u8> {
    let p = pad_even(ifd_o3(out, d));
    write_at(p, out.len() + 2int + d.entries.len() * 12, le32(p.len() as u32))
}

/// Where the pieces of a written IFD stand.
#[verifier::rlimit(100)]
#[verifier::spinoff_prover]
proof fn lemma_ifd_layout(out: Seq<u8>, d: IfdModel)
    ensures
        ({
            let n = d.entries.len() as int;
            let dir = out.len() + 2int;
            let link = dir + 12 * n;
            let ht = d.thumbnail is Some;
            let k0 = thumb_index(d);
            let o1 = ifd_o1(out, d);
            let o2 = ifd_o2(out, d);
            let o3 = ifd_o3(out, d);
            let w = spec_put_ifd(out, d);
            &&& o1.len() == out.len() + 12 * n + 6
            &&& o2.len() >= o1.len()
            &&& o3.len() >= o2.len()
            &&& w.len() >= o3.len()
            &&& w == match d.next {
                None => o3,
                Some(nx) => spec_put_ifd(ifd_xl(out, d), *nx),
            }
            &&& (forall|p: int|
                0 <= p < o1.len() && !(dir <= p < dir + 12 * n) ==> #[trigger] o2[p] == o1[p])
            &&& (forall|p: int|
                0 <= p < o2.len() && !(ht && dir + 12 * k0 + 8 <= p < dir + 12 * k0 + 12)
                    ==> #[trigger] o3[p] == o2[p])
            &&& (forall|p: int|
                0 <= p < o3.len() && !(d.next is Some && link <= p < link + 4) ==> #[trigger] w[p]
                    == o3[p])
            &&& (first_tag_index(d.entries, TAG_THUMB_OFFSET) is Some ==> 0 <= k0 < n && d.entries[k0].tag
                == TAG_THUMB_OFFSET)
        }),
{
    let es = d.entries;
    let n = es.len() as int;
    let dir = out.len() + 2int;
    let ht = d.thumbnail is Some;
    let o1 = ifd_o1(out, d);
    let o2 = ifd_o2(out, d);
    let o3 = ifd_o3(out, d);
    let w = spec_put_ifd(out, d);
    let k0 = thumb_index(d);
    let link = dir + 12 * n;
    assert(link == dir + n * 12);
    lemma_put_entries_frame(o1, dir, es, ht, n);
    lemma_first_tag_index(es, TAG_THUMB_OFFSET);
    let pd2 = pad_even(o2);
    assert forall|p: int|
        0 <= p < o2.len() && !(ht && dir + 12 * k0 + 8 <= p < dir + 12 * k0 + 12) implies #[trigger] o3[p]
        == o2[p] by {
        if ht {
            assert(pd2[p] == o2[p]);
        }
    }
    let pd3 = pad_even(o3);
    let xl = ifd_xl(out, d);
    match d.next {
        None => {},
        Some(nx) => {
            lemma_put_ifd_prefix(xl, *nx);
        },
    }
    assert forall|p: int|
        0 <= p < o3.len() && !(d.next is Some && link <= p < link + 4) implies #[trigger] w[p] == o3[p] by {
        if d.next is Some {
            assert(xl[p] == pd3[p]);
            assert(pd3[p] == o3[p]);
        }
    }
}

/// What the directory of an IFD written after `out` reads as in `buf`.
#[verifier::rlimit(100)]
#[verifier::spinoff_prover]
proof fn lemma_ifd_dir_reads(out: Seq<u8>, d: IfdModel, depth: int, buf: Seq<u8>)
    requires
        wf_ifd(d, depth),
        8 <= out.len(),
        spec_put_ifd(out, d).len() <= buf.len(),
        buf.len() <= u32::MAX,
        forall|p: int| out.len() <= p < spec_put_ifd(out, d).len() ==> #[trigger] buf[p] == spec_put_ifd(
            out,
            d,
        )[p],
    ensures
        ({
            let n = d.entries.len() as int;
            let dir = out.len() + 2int;
            let ht = d.thumbnail is Some;
            let o1 = ifd_o1(out, d);
            let o2 = ifd_o2(out, d);
            &&& u16_at(buf, out.len() as int, true) == n
            &&& (forall|p: int| o1.len() <= p < o2.len() ==> #[trigger] buf[p] == o2[p])
            &&& (forall|j: int|
                0 <= j < n ==> slot_agrees(buf, o2, dir + 12 * j, !skipped(#[trigger] d.entries[j], ht)))
            &&& (forall|j: int|
                0 <= j < n && skipped(#[trigger] d.entries[j], ht) ==> d.entries[j].value.len() == 4)
            &&& u32_at(buf, dir + n * 12, true) == match d.next {
                None => 0,
                Some(_) => pad_even(ifd_o3(out, d)).len(),
            }
        }),
{
    let es = d.entries;
    let n = es.len() as int;
    let off = out.len() as int;
    let dir = off + 2;
    let ht = d.thumbnail is Some;
    let o1 = ifd_o1(out, d);
    let o2 = ifd_o2(out, d);
    let o3 = ifd_o3(out, d);
    let w = spec_put_ifd(out, d);
    let k0 = thumb_index(d);
    let link = dir + 12 * n;
    lemma_ifd_layout(out, d);
    assert forall|p: int| o1.len() <= p < o2.len() implies #[trigger] buf[p] == o2[p] by {
        assert(buf[p] == w[p]);
        assert(w[p] == o3[p]);
    }
    assert forall|j: int| 0 <= j < n implies slot_agrees(buf, o2, dir + 12 * j, !skipped(#[trigger] es[j], ht)) by {
        assert forall|p: int| dir + 12 * j <= p < dir + 12 * j + (if !skipped(es[j], ht) { 12int } else { 8int })
            implies #[trigger] buf[p] == o2[p] by {
            assert(buf[p] == w[p]);
            assert(w[p] == o3[p]);
        }
    }
    assert(buf[off] == o1[off] && buf[off + 1] == o1[off + 1]) by {
        assert(buf[off] == w[off] && w[off] == o3[off] && o3[off] == o2[off]);
        assert(buf[off + 1] == w[off + 1] && w[off + 1] == o3[off + 1] && o3[off + 1] == o2[off + 1]);
    }
    lemma_le16(n as u16);
    assert(o1[off] == le16(n as u16)[0] && o1[off + 1] == le16(n as u16)[1]);
    assert(link == dir + n * 12);
    match d.next {
        None => {
            assert forall|p: int| link <= p < link + 4 implies #[trigger] buf[p] == 0 by {
                assert(buf[p] == w[p]);
                assert(o3[p] == o2[p]);
                assert(o2[p] == o1[p]);
            }
        },
        Some(nx) => {
            let pd3 = pad_even(o3);
            let xl = ifd_xl(out, d);
            lemma_put_ifd_prefix(xl, *nx);
            lemma_write_u32(pd3, link, pd3.len() as u32);
            assert forall|p: int| link <= p < link + 4 implies #[trigger] buf[p] == xl[p] by {
                assert(buf[p] == w[p]);
            }
            lemma_u32_agree(xl, buf, link);
        },
    }
}

/// The thumbnail the reader finds in the directory of an IFD written after
/// `out` is the IFD's own.
#[verifier::rlimit(100)]
#[verifier::spinoff_prover]
proof fn lemma_ifd_thumb(out: Seq<u8>, d: IfdModel, depth: int, buf: Seq<u8>)
    requires
        wf_ifd(d, depth),
        8 <= out.len(),
        spec_put_ifd(out, d).len() <= buf.len(),
        buf.len() <= u32::MAX,
        forall|p: int| out.len() <= p < spec_put_ifd(out, d).len() ==> #[trigger] buf[p] == spec_put_ifd(
            out,
            d,
        )[p],
    ensures
        ({
            let n = d.entries.len() as int;
            let dir = out.len() + 2int;
            let toff = spec_thumb_field(buf, dir, n, true, TAG_THUMB_OFFSET);
            let tlen = spec_thumb_field(buf, dir, n, true, TAG_THUMB_LENGTH);
            match d.thumbnail {
                None => !(toff is Some && tlen is Some),
                Some(t) => toff is Some && tlen == Some(t.len() as u32) && spec_range(
                    buf.len() as int,
                    toff->Some_0 as int,
                    t.len() as int,
                ) is Ok && buf.subrange(toff->Some_0 as int, toff->Some_0 + t.len()) == t,
            }
        }),
{
    let es = d.entries;
    let n = es.len() as int;
    let dir = out.len() + 2int;
    let ht = d.thumbnail is Some;
    let o1 = ifd_o1(out, d);
    let o2 = ifd_o2(out, d);
    let o3 = ifd_o3(out, d);
    let w = spec_put_ifd(out, d);
    let k0 = thumb_index(d);
    lemma_ifd_layout(out, d);
    lemma_ifd_dir_reads(out, d, depth, buf);
    assert forall|j: int| 0 <= j < n implies header_reads(buf, dir + 12 * j, #[trigger] es[j]) by {
        lemma_wf_entries(es, n, depth, j);
        lemma_entry_bytes(o1, dir, es, ht, j, depth, buf);
    }
    lemma_thumb_field(buf, dir, es, n, TAG_THUMB_OFFSET, depth);
    lemma_thumb_field(buf, dir, es, n, TAG_THUMB_LENGTH, depth);
    match d.thumbnail {
        None => {},
        Some(t) => {
            let pd2 = pad_even(o2);
            let q = pd2.len() as int;
            let sk = dir + 12 * k0 + 8;
            assert(sk == dir + k0 * 12 + 8);
            lemma_write_u32(pd2 + t, sk, q as u32);
            assert forall|p: int| sk <= p < sk + 4 implies #[trigger] buf[p] == o3[p] by {
                assert(buf[p] == w[p]);
            }
            lemma_u32_agree(o3, buf, sk);
            let jl = last_four_byte(es, n, TAG_THUMB_LENGTH)->Some_0;
            lemma_last_four_byte(es, n, TAG_THUMB_LENGTH);
            lemma_wf_entries(es, n, depth, jl);
            lemma_entry_bytes(o1, dir, es, ht, jl, depth, buf);
            let sl = dir + 12 * jl + 8;
            let lv = es[jl].value;
            assert(buf.subrange(sl, sl + 4) == lv);
            assert(buf[sl] == lv[0] && buf[sl + 1] == lv[1] && buf[sl + 2] == lv[2] && buf[sl + 3] == lv[3]);
            assert forall|p: int| q <= p < q + t.len() implies #[trigger] buf[p] == t[p - q] by {
                assert(buf[p] == w[p]);
                assert(w[p] == o3[p]);
            }
            assert(buf.subrange(q, q + t.len()) =~= t);
        },
    }
}

/// What [`last_four_byte`] returns, stated by quantifiers.
proof fn lemma_last_four_byte(es: Seq<EntryModel>, k: int, tag: u16)
    requires
        0 <= k <= es.len(),
    ensures
        last_four_byte(es, k, tag) matches Some(j) ==> 0 <= j < k && es[j].tag == tag && es[j].value.len()
            == 4,
    decreases k,
{
    if k > 0 {
        lemma_last_four_byte(es, k - 1, tag);
    }
}

/// Reading back an IFD written after `out` gives an IFD that reads back as
/// it, visiting only offsets below the end of what was written.
#[verifier::rlimit(100)]
#[verifier::spinoff_prover]
proof fn lemma_reread_ifd(out: Seq<u8>, d: IfdModel, depth: int, seen: Set<usize>, buf: Seq<u8>)
    requires
        wf_ifd(d, depth),
        8 <= out.len(),
        spec_put_ifd(out, d).len() <= buf.len(),
        buf.len() <= u32::MAX,
        forall|p: int| out.len() <= p < spec_put_ifd(out, d).len() ==> #[trigger] buf[p] == spec_put_ifd(
            out,
            d,
        )[p],
        forall|x: usize| seen.contains(x) ==> x < out.len(),
    ensures
        spec_parse_ifd(buf, out.len() as int, true, depth, seen) matches Ok((p, s2)) && reread_ifd(p, d)
            && forall|x: usize| s2.contains(x) ==> x < spec_put_ifd(out, d).len(),
    decreases d, 0int,
{
    let es = d.entries;
    let n = es.len() as int;
    let off = out.len() as int;
    let dir = off + 2;
    let ht = d.thumbnail is Some;
    let o1 = ifd_o1(out, d);
    let o2 = ifd_o2(out, d);
    let w = spec_put_ifd(out, d);
    lemma_ifd_layout(out, d);
    lemma_ifd_dir_reads(out, d, depth, buf);
    lemma_ifd_thumb(out, d, depth, buf);
    let seen1 = seen.insert(off as usize);
    lemma_reread_entries(o1, dir, es, ht, n, depth, seen1, buf);
    let pe = spec_parse_entries(buf, dir, n, true, depth, seen1);
    let ps = pe->Ok_0.0;
    let sn = pe->Ok_0.1;
    let th: Option<Seq<u8>> = d.thumbnail;
    match d.next {
        None => {
            assert(spec_ifd_tail(buf, dir, n, true, depth, pe) == Ok::<(IfdModel, Set<usize>), Error>(
                (IfdModel { entries: ps, next: None, thumbnail: th }, sn),
            ));
        },
        Some(nx) => {
            let xl = ifd_xl(out, d);
            assert(decreases_to!(d => d.next));
            assert(decreases_to!(d.next => nx));
            lemma_reread_ifd(xl, *nx, depth + 1, sn, buf);
            let r = spec_parse_ifd(buf, xl.len() as int, true, depth + 1, sn);
            assert(spec_ifd_tail(buf, dir, n, true, depth, pe) == Ok::<(IfdModel, Set<usize>), Error>(
                (IfdModel { entries: ps, next: Some(Box::new(r->Ok_0.0)), thumbnail: th }, r->Ok_0.1),
            ));
        },
    }
}
/// Reading back what the writer produces for a well-formed TIFF block gives
/// that block again, through its sub-IFDs, its next-IFD chain and its
/// thumbnail: every entry's tag, type and count, in order, and its value
/// bytes, except those of sub-IFD pointers and of the thumbnail offset,
/// which hold the offsets the writer relocated them to.
pub proof fn law_reread(t: TiffModel)
    requires
        wf_ifd(t.ifd0, 0),
        spec_serialize(t).len() <= u32::MAX,
    ensures
        spec_parse(spec_serialize(t)) matches Ok(p) && reread_ifd(p.ifd0, t.ifd0),
{
    let h: Seq<u8> = seq![0x49u8, 0x49u8, 42u8, 0u8, 8u8, 0u8, 0u8, 0u8];
    let buf = spec_serialize(t);
    assert(buf == spec_put_ifd(h, t.ifd0));
    lemma_put_ifd_prefix(h, t.ifd0);
    assert(buf[0] == 0x49 && buf[1] == 0x49 && buf[2] == 42 && buf[3] == 0);
    assert(buf[4] == 8 && buf[5] == 0 && buf[6] == 0 && buf[7] == 0);
    assert(u16_at(buf, 2, true) == 42);
    assert(u32_at(buf, 4, true) == 8);
    lemma_reread_ifd(h, t.ifd0, 0, Set::empty(), buf);
}

} // verus!
