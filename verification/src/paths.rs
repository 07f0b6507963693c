//! Path-string helpers: the file name, its extension, the parent's file
//! name, ASCII lowercasing, and token replacement.
//!
//! Paths are `/`-separated strings, the way the library receives them from
//! the command line; like `std::path`, the helpers ignore trailing
//! separators and `.` segments, and a root, `.` or `..` has no file name.

use crate::strings::push_char;
use vstd::prelude::*;

verus! {

/// Index of the last `c` in `s`, or -1.
pub open spec fn last_index_of(s: Seq<char>, c: char) -> int
    decreases s.len(),
{
    if s.len() == 0 {
        -1
    } else if s.last() == c {
        s.len() - 1
    } else {
        last_index_of(s.drop_last(), c)
    }
}

/// What [`last_index_of`] returns, stated by quantifiers.
pub proof fn lemma_last_index_of(s: Seq<char>, c: char)
    ensures
        -1 <= last_index_of(s, c) < s.len(),
        last_index_of(s, c) >= 0 ==> s[last_index_of(s, c)] == c,
        forall|j: int| last_index_of(s, c) < j < s.len() ==> #[trigger] s[j] != c,
    decreases s.len(),
{
    if s.len() > 0 && s.last() != c {
        lemma_last_index_of(s.drop_last(), c);
        assert(forall|j: int| 0 <= j < s.len() - 1 ==> s.drop_last()[j] == s[j]);
    }
}

proof fn lemma_last_index_of_char(s: Seq<char>, c: char, i: int)
    requires
        -1 <= i < s.len(),
        i >= 0 ==> s[i] == c,
        forall|j: int| i < j < s.len() ==> #[trigger] s[j] != c,
    ensures
        last_index_of(s, c) == i,
    decreases s.len(),
{
    if s.len() > 0 && i < s.len() - 1 {
        let d = s.drop_last();
        assert(forall|j: int| 0 <= j < d.len() ==> d[j] == s[j]);
        lemma_last_index_of_char(d, c, i);
    }
}

/// Index of the last `c` in `s`, or `None`.
pub fn last_index(s: &str, c: char) -> (r: Option<usize>)
    ensures
        match r {
            Some(i) => last_index_of(s@, c) == i,
            None => last_index_of(s@, c) == -1,
        },
{
    let n = s.unicode_len();
    let mut j: usize = n;
    while j > 0
        invariant
            j <= n,
            n == s@.len(),
            forall|k: int| j <= k < n ==> #[trigger] s@[k] != c,
        decreases j,
    {
        if s.get_char(j - 1) == c {
            proof {
                lemma_last_index_of_char(s@, c, j - 1);
            }
            return Some(j - 1);
        }
        j = j - 1;
    }
    proof {
        lemma_last_index_of_char(s@, c, -1);
    }
    None
}

/// The length of `s` once trailing `/` characters and trailing `/.`
/// segments are dropped: `std::path` ignores both when it splits a path
/// into components (`a/b/`, `a/b/.` and `a/b` all end in `b`).
pub open spec fn trim_end_len(s: Seq<char>) -> int
    decreases s.len(),
{
    if s.len() == 0 {
        0
    } else if s.last() == '/' {
        trim_end_len(s.drop_last())
    } else if s.len() >= 2 && s.last() == '.' && s[s.len() - 2] == '/' {
        trim_end_len(s.drop_last())
    } else {
        s.len() as int
    }
}

proof fn lemma_trim_end_len(s: Seq<char>)
    ensures
        0 <= trim_end_len(s) <= s.len(),
        trim_end_len(s) == trim_end_len(s.take(trim_end_len(s))),
    decreases s.len(),
{
    if s.len() > 0 && (s.last() == '/' || (s.len() >= 2 && s.last() == '.' && s[s.len() - 2] == '/')) {
        lemma_trim_end_len(s.drop_last());
        let k = trim_end_len(s);
        assert(s.drop_last().take(k) =~= s.take(k));
    } else {
        assert(s.take(s.len() as int) =~= s);
    }
}

/// `path` without its trailing separators and `/.` segments.
pub open spec fn spec_trimmed(path: Seq<char>) -> Seq<char> {
    path.take(trim_end_len(path))
}

/// The last `/`-separated component of `path`.
pub open spec fn spec_last_component(path: Seq<char>) -> Seq<char> {
    path.subrange(last_index_of(path, '/') + 1, path.len() as int)
}

/// The file name of `path`, as `Path::file_name` gives it: the last
/// component once trailing separators and `.` segments are dropped, unless
/// that is empty (a root or an empty path), `.` or `..`.
pub open spec fn spec_file_name(path: Seq<char>) -> Option<Seq<char>> {
    let f = spec_last_component(spec_trimmed(path));
    if f.len() == 0 || f == seq!['.'] || f == seq!['.', '.'] {
        None
    } else {
        Some(f)
    }
}

/// The extension of `path`'s file name: the text after its last `.`, when
/// that `.` is not the name's first character.
pub open spec fn spec_extension(path: Seq<char>) -> Option<Seq<char>> {
    match spec_file_name(path) {
        None => None,
        Some(f) => {
            let d = last_index_of(f, '.');
            if d <= 0 {
                None
            } else {
                Some(f.subrange(d + 1, f.len() as int))
            }
        },
    }
}

/// The file name of `path`'s parent directory (`Path::parent` then
/// `Path::file_name`), when there is one.
pub open spec fn spec_parent_name(path: Seq<char>) -> Option<Seq<char>> {
    let t = spec_trimmed(path);
    let f = spec_last_component(t);
    if f.len() == 0 {
        None
    } else {
        spec_file_name(t.take(t.len() - f.len()))
    }
}

/// An extension is a proper suffix of the file name, after a dot.
pub proof fn lemma_extension_suffix(path: Seq<char>)
    ensures
        spec_extension(path) matches Some(e) ==> (spec_file_name(path) matches Some(name) && e.len()
            + 1 < name.len() + 1 && e.len() + 1 < name.len()),
{
    match spec_file_name(path) {
        Some(f) => lemma_last_index_of(f, '.'),
        None => {},
    }
}

/// The length of `path` once trailing separators and `/.` segments are
/// dropped.
fn trimmed_len(path: &str) -> (n: usize)
    ensures
        n == trim_end_len(path@),
{
    let len = path.unicode_len();
    let mut end: usize = len;
    proof {
        assert(path@.take(len as int) =~= path@);
    }
    loop
        invariant
            end <= len,
            len == path@.len(),
            trim_end_len(path@) == trim_end_len(path@.take(end as int)),
        decreases end,
    {
        let ghost t = path@.take(end as int);
        if end > 0 && path.get_char(end - 1) == '/' {
            assert(t.drop_last() =~= path@.take(end - 1));
            end = end - 1;
        } else if end >= 2 && path.get_char(end - 1) == '.' && path.get_char(end - 2) == '/' {
            assert(t.drop_last() =~= path@.take(end - 1));
            end = end - 1;
        } else {
            return end;
        }
    }
}

/// The last component of `path`.
pub fn last_component(path: &str) -> (f: &str)
    ensures
        f@ == spec_last_component(path@),
{
    let n = path.unicode_len();
    proof {
        lemma_last_index_of(path@, '/');
    }
    let start = match last_index(path, '/') {
        Some(i) => i + 1,
        None => 0,
    };
    path.substring_char(start, n)
}

fn is_dot_or_dotdot(f: &str) -> (b: bool)
    ensures
        b == (f@ == seq!['.'] || f@ == seq!['.', '.']),
{
    let n = f.unicode_len();
    if n == 1 {
        let b = f.get_char(0) == '.';
        assert(b ==> f@ =~= seq!['.']);
        assert(f@ == seq!['.'] ==> f@[0] == '.');
        b
    } else if n == 2 {
        let b = f.get_char(0) == '.' && f.get_char(1) == '.';
        assert(b ==> f@ =~= seq!['.', '.']);
        assert(f@ == seq!['.', '.'] ==> f@[0] == '.' && f@[1] == '.');
        b
    } else {
        false
    }
}

/// The file name of `path` (see [`spec_file_name`]).
pub fn file_name(path: &str) -> (r: Option<&str>)
    ensures
        match r {
            Some(f) => spec_file_name(path@) == Some(f@),
            None => spec_file_name(path@) is None,
        },
{
    let n = trimmed_len(path);
    proof {
        lemma_trim_end_len(path@);
    }
    let t = path.substring_char(0, n);
    let f = last_component(t);
    if f.unicode_len() == 0 || is_dot_or_dotdot(f) {
        None
    } else {
        Some(f)
    }
}

/// The extension of `path`'s file name, if any.
pub fn extension(path: &str) -> (r: Option<&str>)
    ensures
        match r {
            Some(e) => spec_extension(path@) == Some(e@),
            None => spec_extension(path@) is None,
        },
{
    let f = match file_name(path) {
        None => return None,
        Some(f) => f,
    };
    let fl = f.unicode_len();
    proof {
        lemma_last_index_of(f@, '.');
    }
    match last_index(f, '.') {
        Some(d) => if d == 0 {
            None
        } else {
            Some(f.substring_char(d + 1, fl))
        },
        None => None,
    }
}

/// The file name of `path`'s parent directory, if any.
pub fn parent_name(path: &str) -> (r: Option<&str>)
    ensures
        match r {
            Some(p) => spec_parent_name(path@) == Some(p@),
            None => spec_parent_name(path@) is None,
        },
{
    let n = trimmed_len(path);
    proof {
        lemma_trim_end_len(path@);
    }
    let t = path.substring_char(0, n);
    let f = last_component(t);
    let fl = f.unicode_len();
    if fl == 0 {
        None
    } else {
        proof {
            lemma_last_index_of(t@, '/');
        }
        file_name(t.substring_char(0, n - fl))
    }
}

/// `c` lowercased when it is an ASCII capital letter.
pub open spec fn char_lower(c: char) -> char {
    if 'A' <= c && c <= 'Z' {
        ((c as u32) + 32) as char
    } else {
        c
    }
}

/// `c` lowercased when it is an ASCII capital letter.
pub fn lower_char(c: char) -> (l: char)
    ensures
        l == char_lower(c),
{
    if 'A' <= c && c <= 'Z' {
        ((c as u8) + 32) as char
    } else {
        c
    }
}

/// `s` with its ASCII capitals lowercased.
pub open spec fn ascii_lowercase(s: Seq<char>) -> Seq<char> {
    Seq::new(s.len(), |i: int| char_lower(s[i]))
}

/// `s` with its ASCII capitals lowercased.
pub fn to_ascii_lowercase(s: &str) -> (r: String)
    ensures
        r@ == ascii_lowercase(s@),
{
    let n = s.unicode_len();
    let mut out = String::new();
    let mut i: usize = 0;
    while i < n
        invariant
            i <= n,
            n == s@.len(),
            out@ == Seq::new(i as nat, |k: int| char_lower(s@[k])),
        decreases n - i,
    {
        push_char(&mut out, lower_char(s.get_char(i)));
        assert(out@ =~= Seq::new((i + 1) as nat, |k: int| char_lower(s@[k])));
        i = i + 1;
    }
    out
}

/// `s` with every non-overlapping occurrence of `pat` (scanning left to
/// right) replaced by `rep`.
pub open spec fn replace_all(s: Seq<char>, pat: Seq<char>, rep: Seq<char>) -> Seq<char>
    decreases s.len(),
{
    if s.len() == 0 {
        s
    } else if 0 < pat.len() <= s.len() && s.subrange(0, pat.len() as int) == pat {
        rep + replace_all(s.subrange(pat.len() as int, s.len() as int), pat, rep)
    } else {
        seq![s[0]] + replace_all(s.subrange(1, s.len() as int), pat, rep)
    }
}

/// Whether `pat` occurs in `s` at `i`.
fn occurs_at(s: &str, i: usize, pat: &str) -> (b: bool)
    requires
        i <= s@.len(),
    ensures
        b == (pat@.len() <= s@.len() - i && s@.subrange(i as int, i + pat@.len()) == pat@),
{
    let n = s.unicode_len();
    let m = pat.unicode_len();
    if m > n - i {
        return false;
    }
    let mut k: usize = 0;
    while k < m
        invariant
            k <= m,
            m == pat@.len(),
            n == s@.len(),
            i + m <= n,
            forall|j: int| 0 <= j < k ==> #[trigger] s@[i + j] == pat@[j],
        decreases m - k,
    {
        if s.get_char(i + k) != pat.get_char(k) {
            assert(s@.subrange(i as int, i + m)[k as int] != pat@[k as int]);
            return false;
        }
        k = k + 1;
    }
    assert forall|j: int| 0 <= j < m implies #[trigger] s@.subrange(i as int, i + m)[j] == pat@[j] by {
        assert(s@[i + j] == pat@[j]);
    }
    assert(s@.subrange(i as int, i + m) =~= pat@);
    true
}

/// `s` with every non-overlapping occurrence of the non-empty `pat`
/// (scanning left to right) replaced by `rep`.
pub fn replace(s: &str, pat: &str, rep: &str) -> (r: String)
    requires
        pat@.len() > 0,
    ensures
        r@ == replace_all(s@, pat@, rep@),
{
    let n = s.unicode_len();
    let m = pat.unicode_len();
    let mut out = String::new();
    let mut i: usize = 0;
    assert(s@.subrange(0, n as int) =~= s@);
    assert(out@ + replace_all(s@, pat@, rep@) =~= replace_all(s@, pat@, rep@));
    while i < n
        invariant
            i <= n,
            n == s@.len(),
            m == pat@.len(),
            m > 0,
            out@ + replace_all(s@.subrange(i as int, n as int), pat@, rep@) == replace_all(s@, pat@, rep@),
        decreases n - i,
    {
        let ghost rest = s@.subrange(i as int, n as int);
        if occurs_at(s, i, pat) {
            assert(rest.subrange(0, m as int) =~= s@.subrange(i as int, i + m));
            assert(rest.subrange(m as int, rest.len() as int) =~= s@.subrange(i + m, n as int));
            let ghost before = out@;
            crate::strings::push_str(&mut out, rep);
            assert(out@ + replace_all(s@.subrange(i + m, n as int), pat@, rep@) =~= before + (rep@
                + replace_all(s@.subrange(i + m, n as int), pat@, rep@)));
            i = i + m;
        } else {
            assert(!(0 < m <= rest.len() && rest.subrange(0, m as int) == pat@)) by {
                if m <= rest.len() {
                    assert(rest.subrange(0, m as int) =~= s@.subrange(i as int, i + m));
                }
            }
            assert(rest.subrange(1, rest.len() as int) =~= s@.subrange(i + 1, n as int));
            let ghost before = out@;
            let c = s.get_char(i);
            push_char(&mut out, c);
            assert(out@ + replace_all(s@.subrange(i + 1, n as int), pat@, rep@) =~= before + (seq![c]
                + replace_all(s@.subrange(i + 1, n as int), pat@, rep@)));
            i = i + 1;
        }
    }
    assert(s@.subrange(n as int, n as int) =~= Seq::<char>::empty());
    out
}

} // verus!
