//! The deterministic order of lint findings.
//!
//! Paths are ordered component by component, the way `std::path::Path`
//! orders them on Unix: a path is split at `/`, empty segments and `.`
//! segments (except a leading `.` of a relative path) are dropped, a leading
//! `/` becomes a root component, and components compare first by kind
//! (root < `.` < `..` < name) and then by their characters.

use vstd::prelude::*;

verus! {

// ── Character sequences ────────────────────────────────────────────────────

/// Lexicographic comparison of two character sequences by code point:
/// `-1` (less), `0` (equal) or `1` (greater). A proper prefix is less.
pub open spec fn compare_chars(a: Seq<char>, b: Seq<char>) -> int
    decreases a.len(),
{
    if a.len() == 0 {
        if b.len() == 0 {
            0
        } else {
            -1
        }
    } else if b.len() == 0 {
        1
    } else if a[0] == b[0] {
        compare_chars(a.drop_first(), b.drop_first())
    } else if (a[0] as u32) < (b[0] as u32) {
        -1
    } else {
        1
    }
}

proof fn lemma_compare_chars_skip(a: Seq<char>, b: Seq<char>, i: int)
    requires
        0 <= i <= a.len(),
        i <= b.len(),
        forall|j: int| 0 <= j < i ==> a[j] == b[j],
    ensures
        compare_chars(a, b) == compare_chars(a.skip(i), b.skip(i)),
    decreases i,
{
    if i > 0 {
        assert(a[0] == b[0]);
        lemma_compare_chars_skip(a.drop_first(), b.drop_first(), i - 1);
        assert(a.drop_first().skip(i - 1) =~= a.skip(i));
        assert(b.drop_first().skip(i - 1) =~= b.skip(i));
    } else {
        assert(a.skip(0) =~= a);
        assert(b.skip(0) =~= b);
    }
}

proof fn lemma_compare_chars_at(a: Seq<char>, b: Seq<char>, i: int)
    requires
        0 <= i < a.len(),
        i < b.len(),
    ensures
        compare_chars(a.skip(i), b.skip(i)) == if a[i] == b[i] {
            compare_chars(a.skip(i + 1), b.skip(i + 1))
        } else if (a[i] as u32) < (b[i] as u32) {
            -1
        } else {
            1
        },
{
    assert(a.skip(i).drop_first() =~= a.skip(i + 1));
    assert(b.skip(i).drop_first() =~= b.skip(i + 1));
}

/// Compare two character vectors by code point.
pub fn compare_char_vecs(a: &Vec<char>, b: &Vec<char>) -> (r: i8)
    ensures
        r as int == compare_chars(a@, b@),
{
    let mut i: usize = 0;
    while i < a.len() && i < b.len()
        invariant
            i <= a@.len(),
            i <= b@.len(),
            forall|j: int| 0 <= j < i ==> a@[j] == b@[j],
        decreases a@.len() - i,
    {
        let x = a[i];
        let y = b[i];
        if x != y {
            proof {
                lemma_compare_chars_skip(a@, b@, i as int);
                lemma_compare_chars_at(a@, b@, i as int);
            }
            if (x as u32) < (y as u32) {
                return -1;
            } else {
                return 1;
            }
        }
        i = i + 1;
    }
    proof {
        lemma_compare_chars_skip(a@, b@, i as int);
    }
    if i < a.len() {
        1
    } else if i < b.len() {
        -1
    } else {
        0
    }
}

/// Compare two strings by code point (the order of `str`'s `Ord`).
pub fn compare_strs(a: &str, b: &str) -> (r: i8)
    ensures
        r as int == compare_chars(a@, b@),
{
    let n = a.unicode_len();
    let m = b.unicode_len();
    let mut i: usize = 0;
    while i < n && i < m
        invariant
            n == a@.len(),
            m == b@.len(),
            i <= n,
            i <= m,
            forall|j: int| 0 <= j < i ==> a@[j] == b@[j],
        decreases n - i,
    {
        let x = a.get_char(i);
        let y = b.get_char(i);
        if x != y {
            proof {
                lemma_compare_chars_skip(a@, b@, i as int);
                lemma_compare_chars_at(a@, b@, i as int);
            }
            if (x as u32) < (y as u32) {
                return -1;
            } else {
                return 1;
            }
        }
        i = i + 1;
    }
    proof {
        lemma_compare_chars_skip(a@, b@, i as int);
    }
    if i < n {
        1
    } else if i < m {
        -1
    } else {
        0
    }
}

// ── Path components ────────────────────────────────────────────────────────

/// The `/`-separated segments of `s`, empty segments included.
pub open spec fn segments(s: Seq<char>) -> Seq<Seq<char>>
    decreases s.len(),
{
    if s.len() == 0 {
        seq![Seq::<char>::empty()]
    } else {
        let prev = segments(s.drop_last());
        if s.last() == '/' {
            prev.push(Seq::<char>::empty())
        } else {
            prev.update(prev.len() - 1, prev.last().push(s.last()))
        }
    }
}

proof fn lemma_segments_nonempty(s: Seq<char>)
    ensures
        segments(s).len() >= 1,
    decreases s.len(),
{
    if s.len() > 0 {
        lemma_segments_nonempty(s.drop_last());
    }
}

/// Component kinds, in their order: root `/`, current dir `.`, parent `..`,
/// and a name.
pub open spec fn kind_root() -> u8 {
    1
}

pub open spec fn kind_cur() -> u8 {
    2
}

pub open spec fn kind_parent() -> u8 {
    3
}

pub open spec fn kind_name() -> u8 {
    4
}

/// The component a segment contributes: none for an empty segment or a `.`
/// that is not the first segment of a relative path.
pub open spec fn component_of(seg: Seq<char>, first: bool, rooted: bool) -> Option<(u8, Seq<char>)> {
    if seg.len() == 0 {
        None
    } else if seg == seq!['.'] {
        if first && !rooted {
            Some((kind_cur(), seg))
        } else {
            None
        }
    } else if seg == seq!['.', '.'] {
        Some((kind_parent(), seg))
    } else {
        Some((kind_name(), seg))
    }
}

/// The components contributed by `segs`, in order.
pub open spec fn components_of_segments(segs: Seq<Seq<char>>, rooted: bool) -> Seq<(u8, Seq<char>)>
    decreases segs.len(),
{
    if segs.len() == 0 {
        Seq::empty()
    } else {
        let prev = components_of_segments(segs.drop_last(), rooted);
        match component_of(segs.last(), segs.len() == 1, rooted) {
            Some(c) => prev.push(c),
            None => prev,
        }
    }
}

/// The components of path `s`.
pub open spec fn path_components(s: Seq<char>) -> Seq<(u8, Seq<char>)> {
    let rooted = s.len() > 0 && s[0] == '/';
    let body = components_of_segments(segments(s), rooted);
    if rooted {
        seq![(kind_root(), seq!['/'])] + body
    } else {
        body
    }
}

/// The view of executable components.
pub open spec fn components_view(v: Seq<(u8, Vec<char>)>) -> Seq<(u8, Seq<char>)> {
    Seq::new(v.len(), |i: int| (v[i].0, v[i].1@))
}

/// The view of executable segments.
pub open spec fn segments_view(v: Seq<Vec<char>>) -> Seq<Seq<char>> {
    Seq::new(v.len(), |i: int| v[i]@)
}

/// Split `p` at every `/`.
fn split_segments(p: &str) -> (r: Vec<Vec<char>>)
    ensures
        segments_view(r@) == segments(p@),
{
    let n = p.unicode_len();
    let mut segs: Vec<Vec<char>> = Vec::new();
    segs.push(Vec::new());
    assert(segments_view(segs@) =~= segments(p@.take(0)));
    let mut i: usize = 0;
    while i < n
        invariant
            n == p@.len(),
            i <= n,
            segments_view(segs@) == segments(p@.take(i as int)),
        decreases n - i,
    {
        proof {
            lemma_segments_nonempty(p@.take(i as int));
        }
        let c = p.get_char(i);
        let ghost prev = segments(p@.take(i as int));
        assert(p@.take(i + 1).drop_last() =~= p@.take(i as int));
        assert(p@.take(i + 1).last() == c);
        if c == '/' {
            segs.push(Vec::new());
            assert(segments_view(segs@) =~= prev.push(Seq::<char>::empty()));
        } else {
            let last = segs.len() - 1;
            assert(segs@[last as int]@ == prev.last());
            let mut seg = segs.remove(last);
            seg.push(c);
            segs.push(seg);
            assert(segments_view(segs@) =~= prev.update(prev.len() - 1, prev.last().push(c)));
        }
        i = i + 1;
    }
    assert(p@.take(n as int) =~= p@);
    segs
}

/// The component segment `seg` contributes (see [`component_of`]).
fn component_for(seg: Vec<char>, first: bool, rooted: bool) -> (r: Option<(u8, Vec<char>)>)
    ensures
        match r {
            Some(c) => component_of(seg@, first, rooted) == Some((c.0, c.1@)),
            None => component_of(seg@, first, rooted) is None,
        },
{
    let len = seg.len();
    if len == 0 {
        None
    } else if len == 1 && seg[0] == '.' {
        assert(seg@ =~= seq!['.']);
        if first && !rooted {
            Some((2u8, seg))
        } else {
            None
        }
    } else if len == 2 && seg[0] == '.' && seg[1] == '.' {
        assert(seg@ =~= seq!['.', '.']);
        Some((3u8, seg))
    } else {
        assert(seg@ != seq!['.']) by {
            if seg@ == seq!['.'] {
                assert(seg@[0] == '.');
            }
        }
        assert(seg@ != seq!['.', '.']) by {
            if seg@ == seq!['.', '.'] {
                assert(seg@[0] == '.' && seg@[1] == '.');
            }
        }
        Some((4u8, seg))
    }
}

/// The components of path `p`, each as its kind and characters.
pub fn path_components_of(p: &str) -> (r: Vec<(u8, Vec<char>)>)
    ensures
        components_view(r@) == path_components(p@),
{
    let n = p.unicode_len();
    let rooted = n > 0 && p.get_char(0) == '/';
    let mut segs = split_segments(p);
    let ghost all = segments(p@);
    let ghost total = all.len();
    assert(total == segs.len());
    let mut out: Vec<(u8, Vec<char>)> = Vec::new();
    if rooted {
        let mut root: Vec<char> = Vec::new();
        root.push('/');
        out.push((1u8, root));
    }
    let ghost head: Seq<(u8, Seq<char>)> = if rooted {
        seq![(kind_root(), seq!['/'])]
    } else {
        Seq::empty()
    };
    assert(components_view(out@) =~= head + components_of_segments(all.take(0), rooted));
    let mut j: usize = 0;
    while segs.len() > 0
        invariant
            j + segs@.len() == total,
            total == all.len(),
            total <= usize::MAX,
            segments_view(segs@) == all.skip(j as int),
            components_view(out@) == head + components_of_segments(all.take(j as int), rooted),
        decreases segs@.len(),
    {
        let ghost old_segs = segs@;
        assert(segments_view(old_segs)[0] == old_segs[0]@);
        let seg = segs.remove(0);
        assert forall|k: int| 0 <= k < segs@.len() implies segments_view(segs@)[k] == all.skip(
            j + 1,
        )[k] by {
            assert(segs@[k] == old_segs[k + 1]);
            assert(segments_view(old_segs)[k + 1] == all.skip(j as int)[k + 1]);
        }
        assert(segments_view(segs@) =~= all.skip(j + 1));
        let ghost pre = all.take(j as int);
        assert(all.take(j + 1).drop_last() =~= pre);
        assert(all.take(j + 1).last() == seg@);
        let ghost sv = seg@;
        match component_for(seg, j == 0, rooted) {
            Some(c) => {
                let ghost cv = (c.0, c.1@);
                let ghost before = components_view(out@);
                out.push(c);
                assert(components_view(out@) =~= before.push(cv));
                assert(components_view(out@) =~= head + components_of_segments(pre, rooted).push(cv));
            },
            None => {},
        }
        j = j + 1;
    }
    assert(all.take(j as int) =~= all);
    out
}

// ── Component sequences ────────────────────────────────────────────────────

/// Compare two components: by kind, then by characters.
pub open spec fn compare_component(a: (u8, Seq<char>), b: (u8, Seq<char>)) -> int {
    if a.0 < b.0 {
        -1
    } else if a.0 > b.0 {
        1
    } else {
        compare_chars(a.1, b.1)
    }
}

/// Lexicographic comparison of component sequences (a proper prefix is less).
pub open spec fn compare_components(a: Seq<(u8, Seq<char>)>, b: Seq<(u8, Seq<char>)>) -> int
    decreases a.len(),
{
    if a.len() == 0 {
        if b.len() == 0 {
            0
        } else {
            -1
        }
    } else if b.len() == 0 {
        1
    } else if compare_component(a[0], b[0]) != 0 {
        compare_component(a[0], b[0])
    } else {
        compare_components(a.drop_first(), b.drop_first())
    }
}

/// The order of two paths, as `std::path::Path` orders them.
pub open spec fn compare_paths(a: Seq<char>, b: Seq<char>) -> int {
    compare_components(path_components(a), path_components(b))
}

proof fn lemma_compare_components_skip(a: Seq<(u8, Seq<char>)>, b: Seq<(u8, Seq<char>)>, i: int)
    requires
        0 <= i <= a.len(),
        i <= b.len(),
        forall|j: int| 0 <= j < i ==> compare_component(a[j], b[j]) == 0,
    ensures
        compare_components(a, b) == compare_components(a.skip(i), b.skip(i)),
    decreases i,
{
    if i > 0 {
        assert(compare_component(a[0], b[0]) == 0);
        lemma_compare_components_skip(a.drop_first(), b.drop_first(), i - 1);
        assert(a.drop_first().skip(i - 1) =~= a.skip(i));
        assert(b.drop_first().skip(i - 1) =~= b.skip(i));
    } else {
        assert(a.skip(0) =~= a);
        assert(b.skip(0) =~= b);
    }
}

proof fn lemma_compare_components_at(a: Seq<(u8, Seq<char>)>, b: Seq<(u8, Seq<char>)>, i: int)
    requires
        0 <= i < a.len(),
        i < b.len(),
    ensures
        compare_components(a.skip(i), b.skip(i)) == if compare_component(a[i], b[i]) != 0 {
            compare_component(a[i], b[i])
        } else {
            compare_components(a.skip(i + 1), b.skip(i + 1))
        },
{
    assert(a.skip(i).drop_first() =~= a.skip(i + 1));
    assert(b.skip(i).drop_first() =~= b.skip(i + 1));
}

/// Compare two paths component-wise.
pub fn compare_path_strs(a: &str, b: &str) -> (r: i8)
    ensures
        r as int == compare_paths(a@, b@),
{
    let ca = path_components_of(a);
    let cb = path_components_of(b);
    let ghost va = components_view(ca@);
    let ghost vb = components_view(cb@);
    let mut i: usize = 0;
    while i < ca.len() && i < cb.len()
        invariant
            va == components_view(ca@),
            vb == components_view(cb@),
            va == path_components(a@),
            vb == path_components(b@),
            i <= ca@.len(),
            i <= cb@.len(),
            forall|j: int| 0 <= j < i ==> compare_component(va[j], vb[j]) == 0,
        decreases ca@.len() - i,
    {
        let ka = ca[i].0;
        let kb = cb[i].0;
        let c: i8 = if ka < kb {
            -1
        } else if ka > kb {
            1
        } else {
            compare_char_vecs(&ca[i].1, &cb[i].1)
        };
        assert(va[i as int] == (ka, ca@[i as int].1@));
        assert(vb[i as int] == (kb, cb@[i as int].1@));
        assert(c as int == compare_component(va[i as int], vb[i as int]));
        proof {
            lemma_compare_components_skip(va, vb, i as int);
            lemma_compare_components_at(va, vb, i as int);
        }
        if c != 0 {
            return c;
        }
        i = i + 1;
    }
    proof {
        lemma_compare_components_skip(va, vb, i as int);
    }
    assert(va.len() == ca@.len() && vb.len() == cb@.len());
    assert(va == path_components(a@));
    assert(vb == path_components(b@));
    if i < ca.len() {
        1
    } else if i < cb.len() {
        -1
    } else {
        0
    }
}


// ── Order laws ─────────────────────────────────────────────────────────────

/// Swapping the arguments negates a character comparison.
pub proof fn lemma_compare_chars_antisym(a: Seq<char>, b: Seq<char>)
    ensures
        compare_chars(a, b) == -compare_chars(b, a),
    decreases a.len(),
{
    if a.len() > 0 && b.len() > 0 {
        if a[0] == b[0] {
            lemma_compare_chars_antisym(a.drop_first(), b.drop_first());
        } else {
            vstd::utf8::char_u32_cast(a[0], a[0] as u32);
            vstd::utf8::char_u32_cast(b[0], b[0] as u32);
        }
    }
}

/// Character sequences compare equal only when they are the same.
pub proof fn lemma_compare_chars_eq(a: Seq<char>, b: Seq<char>)
    requires
        compare_chars(a, b) == 0,
    ensures
        a == b,
    decreases a.len(),
{
    if a.len() > 0 {
        lemma_compare_chars_eq(a.drop_first(), b.drop_first());
        assert(a =~= seq![a[0]] + a.drop_first());
        assert(b =~= seq![b[0]] + b.drop_first());
    } else {
        assert(a =~= b);
    }
}

/// The character order is transitive.
pub proof fn lemma_compare_chars_trans(a: Seq<char>, b: Seq<char>, c: Seq<char>)
    requires
        compare_chars(a, b) <= 0,
        compare_chars(b, c) <= 0,
    ensures
        compare_chars(a, c) <= 0,
    decreases a.len(),
{
    if a.len() > 0 && b.len() > 0 && c.len() > 0 && a[0] == b[0] && b[0] == c[0] {
        lemma_compare_chars_trans(a.drop_first(), b.drop_first(), c.drop_first());
    }
}

proof fn lemma_compare_component_laws(x: (u8, Seq<char>), y: (u8, Seq<char>), z: (u8, Seq<char>))
    ensures
        compare_component(x, y) == -compare_component(y, x),
        compare_component(x, y) == 0 ==> x == y,
        compare_component(x, y) <= 0 && compare_component(y, z) <= 0 ==> compare_component(x, z)
            <= 0,
{
    lemma_compare_chars_antisym(x.1, y.1);
    if compare_component(x, y) == 0 {
        lemma_compare_chars_eq(x.1, y.1);
    }
    if compare_component(x, y) <= 0 && compare_component(y, z) <= 0 && x.0 == y.0 && y.0 == z.0 {
        lemma_compare_chars_trans(x.1, y.1, z.1);
    }
}

/// Swapping the arguments negates a component-sequence comparison.
pub proof fn lemma_compare_components_antisym(a: Seq<(u8, Seq<char>)>, b: Seq<(u8, Seq<char>)>)
    ensures
        compare_components(a, b) == -compare_components(b, a),
    decreases a.len(),
{
    if a.len() > 0 && b.len() > 0 {
        lemma_compare_component_laws(a[0], b[0], b[0]);
        lemma_compare_components_antisym(a.drop_first(), b.drop_first());
    }
}

/// Component sequences compare equal only when they are the same.
pub proof fn lemma_compare_components_eq(a: Seq<(u8, Seq<char>)>, b: Seq<(u8, Seq<char>)>)
    requires
        compare_components(a, b) == 0,
    ensures
        a == b,
    decreases a.len(),
{
    if a.len() > 0 {
        lemma_compare_component_laws(a[0], b[0], b[0]);
        lemma_compare_components_eq(a.drop_first(), b.drop_first());
        assert(a =~= seq![a[0]] + a.drop_first());
        assert(b =~= seq![b[0]] + b.drop_first());
    } else {
        assert(a =~= b);
    }
}

/// The component-sequence order is transitive.
pub proof fn lemma_compare_components_trans(
    a: Seq<(u8, Seq<char>)>,
    b: Seq<(u8, Seq<char>)>,
    c: Seq<(u8, Seq<char>)>,
)
    requires
        compare_components(a, b) <= 0,
        compare_components(b, c) <= 0,
    ensures
        compare_components(a, c) <= 0,
    decreases a.len(),
{
    if a.len() > 0 && b.len() > 0 && c.len() > 0 {
        let (x, y, z) = (a[0], b[0], c[0]);
        lemma_compare_component_laws(x, y, z);
        lemma_compare_component_laws(y, z, x);
        lemma_compare_component_laws(z, x, y);
        lemma_compare_component_laws(x, z, y);
        if compare_component(x, y) == 0 && compare_component(y, z) == 0 {
            lemma_compare_components_trans(a.drop_first(), b.drop_first(), c.drop_first());
        }
    }
}

} // verus!
