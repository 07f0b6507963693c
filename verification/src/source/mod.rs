//! Input descriptions: what to load and what to call it. A CLI argument is
//! stdin (`-`), a glob pattern, a directory or a single file; the
//! filesystem walk itself happens at the edge, and this module decides the
//! dispatch, the image-extension filter, the output stem and the order.

use vstd::prelude::*;

use crate::image::raw::{eq_ignore_case, ext_is};
use crate::lint::order::{
    compare_path_strs, compare_paths, lemma_compare_components_antisym, lemma_compare_components_trans,
    components_view, kind_root, path_components, path_components_of,
};
use crate::paths::{extension, file_name, spec_extension, spec_file_name};
use crate::strings::{push_char, push_str};

verus! {

/// One resolved input the pipeline will process.
#[derive(Debug, Clone, PartialEq, Eq)]
pub enum Input {
    /// A file on disk.
    Path(String),
    /// Bytes read from stdin; `stem` is the synthetic output name.
    Stdin { bytes: Vec<u8>, stem: String },
}

/// The stem of a path: its file name without the extension (and its dot);
/// empty when the path has no file name.
pub open spec fn spec_file_stem(path: Seq<char>) -> Seq<char> {
    match spec_file_name(path) {
        None => Seq::empty(),
        Some(name) => match spec_extension(path) {
            Some(e) => name.subrange(0, name.len() - e.len() - 1),
            None => name,
        },
    }
}

/// The output stem of an input.
pub open spec fn spec_stem(i: Input) -> Seq<char> {
    match i {
        Input::Path(p) => spec_file_stem(p@),
        Input::Stdin { stem, .. } => stem@,
    }
}

impl Input {
    /// The output stem for name templates: a file input's file name without
    /// its extension, or the stdin input's synthetic stem. Never contains a
    /// path separator.
    pub fn stem(&self) -> (s: &str)
        ensures
            s@ == spec_stem(*self),
    {
        match self {
            Input::Path(p) => {
                proof {
                    crate::paths::lemma_extension_suffix(p@);
                }
                match file_name(p.as_str()) {
                    None => {
                        proof {
                            reveal_strlit("");
                        }
                        assert(""@ =~= Seq::<char>::empty());
                        ""
                    },
                    Some(name) => match extension(p.as_str()) {
                        Some(e) => {
                            let n = name.unicode_len();
                            let el = e.unicode_len();
                            let r = name.substring_char(0, n - el - 1);
                            r
                        },
                        None => name,
                    },
                }
            },
            Input::Stdin { stem, .. } => stem.as_str(),
        }
    }

    /// The path of a file input; `None` for stdin.
    pub fn path(&self) -> (p: Option<&str>)
        ensures
            match self {
                Input::Path(q) => p matches Some(s) && s@ == q@,
                Input::Stdin { .. } => p is None,
            },
    {
        match self {
            Input::Path(p) => Some(p.as_str()),
            Input::Stdin { .. } => None,
        }
    }
}

/// Errors resolving a CLI input argument into inputs.
#[derive(Debug, Clone, PartialEq, Eq)]
pub enum SourceError {
    /// A path that does not exist or is unreadable, or a glob that matched
    /// nothing.
    NotFound(String),
    /// The glob pattern itself was invalid.
    InvalidPattern { pattern: String, reason: String },
    /// Reading stdin failed.
    Stdin(String),
}

/// The human message of a source error.
pub open spec fn spec_source_error_message(e: SourceError) -> Seq<char> {
    match e {
        SourceError::NotFound(p) => "input not found or unreadable: "@ + p@,
        SourceError::InvalidPattern { pattern, reason } => "invalid glob pattern '"@ + pattern@
            + "': "@ + reason@,
        SourceError::Stdin(_) => "could not read image from stdin"@,
    }
}

impl SourceError {
    /// The human message.
    pub fn message(&self) -> (m: String)
        ensures
            m@ == spec_source_error_message(*self),
    {
        let mut m = String::new();
        match self {
            SourceError::NotFound(p) => {
                push_str(&mut m, "input not found or unreadable: ");
                push_str(&mut m, p.as_str());
            },
            SourceError::InvalidPattern { pattern, reason } => {
                push_str(&mut m, "invalid glob pattern '");
                push_str(&mut m, pattern.as_str());
                push_str(&mut m, "': ");
                push_str(&mut m, reason.as_str());
            },
            SourceError::Stdin(_) => {
                push_str(&mut m, "could not read image from stdin");
            },
        }
        m
    }
}

// ── Classification ──────────────────────────────────────────────────────────

/// Whether `c` is a glob metacharacter.
pub open spec fn is_glob_meta(c: char) -> bool {
    c == '*' || c == '?' || c == '['
}

/// Whether `s` contains a glob metacharacter.
pub open spec fn spec_looks_like_glob(s: Seq<char>) -> bool {
    exists|i: int| 0 <= i < s.len() && is_glob_meta(s[i])
}

/// Whether a string looks like a glob pattern (contains `*`, `?` or `[`).
pub fn looks_like_glob(arg: &str) -> (b: bool)
    ensures
        b == spec_looks_like_glob(arg@),
{
    let n = arg.unicode_len();
    let mut i: usize = 0;
    while i < n
        invariant
            n == arg@.len(),
            i <= n,
            forall|j: int| 0 <= j < i ==> !is_glob_meta(arg@[j]),
        decreases n - i,
    {
        let c = arg.get_char(i);
        if c == '*' || c == '?' || c == '[' {
            assert(is_glob_meta(arg@[i as int]));
            return true;
        }
        i = i + 1;
    }
    false
}

/// The part of a glob pattern before its first metacharacter (the whole
/// pattern when it has none): the directory the expansion is anchored at.
pub open spec fn spec_glob_prefix(s: Seq<char>) -> Seq<char>
    decreases s.len(),
{
    if s.len() == 0 {
        s
    } else if is_glob_meta(s[0]) {
        Seq::empty()
    } else {
        seq![s[0]] + spec_glob_prefix(s.drop_first())
    }
}

proof fn lemma_glob_prefix(s: Seq<char>, i: int)
    requires
        0 <= i <= s.len(),
        forall|j: int| 0 <= j < i ==> !is_glob_meta(s[j]),
    ensures
        spec_glob_prefix(s) == s.take(i) + spec_glob_prefix(s.skip(i)),
    decreases i,
{
    if i > 0 {
        lemma_glob_prefix(s.drop_first(), i - 1);
        assert(s.drop_first().take(i - 1) =~= s.take(i).drop_first());
        assert(s.drop_first().skip(i - 1) =~= s.skip(i));
        assert(seq![s[0]] + s.take(i).drop_first() =~= s.take(i));
    } else {
        assert(s.take(0) + spec_glob_prefix(s.skip(0)) =~= spec_glob_prefix(s)) by {
            assert(s.skip(0) =~= s);
        }
    }
}

/// The part of `pattern` before its first glob metacharacter.
pub fn glob_prefix(pattern: &str) -> (p: &str)
    ensures
        p@ == spec_glob_prefix(pattern@),
{
    let n = pattern.unicode_len();
    let mut i: usize = 0;
    while i < n
        invariant
            n == pattern@.len(),
            i <= n,
            forall|j: int| 0 <= j < i ==> !is_glob_meta(pattern@[j]),
        decreases n - i,
    {
        let c = pattern.get_char(i);
        if c == '*' || c == '?' || c == '[' {
            proof {
                lemma_glob_prefix(pattern@, i as int);
                assert(pattern@.skip(i as int)[0] == c);
                assert(spec_glob_prefix(pattern@.skip(i as int)) =~= Seq::<char>::empty());
                assert(pattern@.take(i as int) + Seq::<char>::empty() =~= pattern@.take(i as int));
            }
            return pattern.substring_char(0, i);
        }
        i = i + 1;
    }
    proof {
        lemma_glob_prefix(pattern@, n as int);
        assert(pattern@.skip(n as int) =~= Seq::<char>::empty());
        assert(pattern@.take(n as int) + Seq::<char>::empty() =~= pattern@);
    }
    pattern
}

/// How a CLI input argument is resolved, decided before touching the
/// filesystem (a directory is told from a file at the edge).
#[derive(Debug, Clone, Copy, PartialEq, Eq, Structural)]
pub enum InputShape {
    /// `-`: read stdin.
    Stdin,
    /// A glob pattern: expand it.
    Glob,
    /// A directory or a single file.
    PathLike,
}

/// The dispatch shape of an argument: `-` is stdin, a pattern with a glob
/// metacharacter is a glob, anything else names a path.
pub fn input_shape(arg: &str) -> (s: InputShape)
    ensures
        s == (if arg@ == "-"@ {
            InputShape::Stdin
        } else if spec_looks_like_glob(arg@) {
            InputShape::Glob
        } else {
            InputShape::PathLike
        }),
{
    if crate::strings::str_eq(arg, "-") {
        InputShape::Stdin
    } else if looks_like_glob(arg) {
        InputShape::Glob
    } else {
        InputShape::PathLike
    }
}

// ── Image extensions ────────────────────────────────────────────────────────

/// The image extensions a directory listing or a broad glob keeps
/// (lowercase).
pub open spec fn image_extensions() -> Seq<Seq<char>> {
    seq!["jpg"@, "jpeg"@, "png"@, "gif"@, "bmp"@, "tif"@, "tiff"@, "ico"@]
}

/// Whether `path`'s extension is an image extension, ignoring ASCII case.
pub open spec fn spec_has_image_extension(path: Seq<char>) -> bool {
    spec_extension(path) matches Some(e) && exists|k: int|
        0 <= k < image_extensions().len() && eq_ignore_case(e, #[trigger] image_extensions()[k])
}

/// Whether `path` has an image extension (case-insensitive). Image-ness is
/// decided by extension, never by decoding.
pub fn has_image_extension(path: &str) -> (b: bool)
    ensures
        b == spec_has_image_extension(path@),
{
    let ext = match extension(path) {
        Some(e) => e,
        None => {
            return false;
        },
    };
    let exts: [&str; 8] = ["jpg", "jpeg", "png", "gif", "bmp", "tif", "tiff", "ico"];
    assert(forall|k: int| 0 <= k < 8 ==> #[trigger] exts@[k]@ == image_extensions()[k]);
    let mut k: usize = 0;
    while k < 8
        invariant
            k <= 8,
            spec_extension(path@) == Some(ext@),
            forall|j: int| 0 <= j < 8 ==> #[trigger] exts@[j]@ == image_extensions()[j],
            forall|j: int| 0 <= j < k ==> !eq_ignore_case(ext@, #[trigger] image_extensions()[j]),
        decreases 8 - k,
    {
        if ext_is(ext, exts[k]) {
            assert(eq_ignore_case(ext@, image_extensions()[k as int]));
            return true;
        }
        k = k + 1;
    }
    false
}

// ── Order of resolved paths ─────────────────────────────────────────────────

/// Where a stable insertion puts path `x` into `s`: after every path that
/// does not order after it.
pub open spec fn path_insert_pos(s: Seq<Seq<char>>, x: Seq<char>) -> int
    decreases s.len(),
{
    if s.len() == 0 {
        0
    } else if compare_paths(s.last(), x) <= 0 {
        s.len() as int
    } else {
        path_insert_pos(s.drop_last(), x)
    }
}

/// `s` stably sorted the way `PathBuf` orders paths.
pub open spec fn sorted_paths(s: Seq<Seq<char>>) -> Seq<Seq<char>>
    decreases s.len(),
{
    if s.len() == 0 {
        s
    } else {
        let sorted = sorted_paths(s.drop_last());
        sorted.insert(path_insert_pos(sorted, s.last()), s.last())
    }
}

/// Every path of `s` orders no later than each path after it.
pub open spec fn paths_in_order(s: Seq<Seq<char>>) -> bool {
    forall|i: int, j: int| 0 <= i < j < s.len() ==> compare_paths(s[i], s[j]) <= 0
}

proof fn lemma_compare_paths_laws(a: Seq<char>, b: Seq<char>, c: Seq<char>)
    ensures
        compare_paths(a, b) == -compare_paths(b, a),
        compare_paths(a, b) <= 0 && compare_paths(b, c) <= 0 ==> compare_paths(a, c) <= 0,
{
    lemma_compare_components_antisym(path_components(a), path_components(b));
    if compare_paths(a, b) <= 0 && compare_paths(b, c) <= 0 {
        lemma_compare_components_trans(path_components(a), path_components(b), path_components(c));
    }
}

proof fn lemma_path_insert_pos(s: Seq<Seq<char>>, x: Seq<char>)
    ensures
        0 <= path_insert_pos(s, x) <= s.len(),
        forall|k: int| path_insert_pos(s, x) <= k < s.len() ==> compare_paths(#[trigger] s[k], x) > 0,
        path_insert_pos(s, x) > 0 ==> compare_paths(s[path_insert_pos(s, x) - 1], x) <= 0,
    decreases s.len(),
{
    if s.len() > 0 && compare_paths(s.last(), x) > 0 {
        let t = s.drop_last();
        lemma_path_insert_pos(t, x);
        assert forall|k: int| path_insert_pos(s, x) <= k < s.len() implies compare_paths(
            #[trigger] s[k],
            x,
        ) > 0 by {
            if k < t.len() {
                assert(s[k] == t[k]);
            }
        }
    }
}

/// Sorting resolved paths puts them in `PathBuf` order and keeps every one
/// of them: the result is a permutation of the input.
pub proof fn law_sorted_paths(s: Seq<Seq<char>>)
    ensures
        paths_in_order(sorted_paths(s)),
        sorted_paths(s).to_multiset() == s.to_multiset(),
    decreases s.len(),
{
    if s.len() > 0 {
        let prev = s.drop_last();
        let x = s.last();
        law_sorted_paths(prev);
        let sorted = sorted_paths(prev);
        let p = path_insert_pos(sorted, x);
        lemma_path_insert_pos(sorted, x);
        let r = sorted.insert(p, x);
        assert forall|i: int, j: int| 0 <= i < j < r.len() implies compare_paths(r[i], r[j]) <= 0 by {
            if j < p {
                assert(r[i] == sorted[i] && r[j] == sorted[j]);
            } else if j == p {
                assert(r[i] == sorted[i] && r[j] == x);
                if i < p - 1 {
                    lemma_compare_paths_laws(sorted[i], sorted[p - 1], x);
                }
            } else if i == p {
                assert(r[i] == x && r[j] == sorted[j - 1]);
                lemma_compare_paths_laws(sorted[j - 1], x, x);
            } else if i < p {
                assert(r[i] == sorted[i] && r[j] == sorted[j - 1]);
            } else {
                assert(r[i] == sorted[i - 1] && r[j] == sorted[j - 1]);
            }
        }
        vstd::seq_lib::to_multiset_insert(sorted, p, x);
        vstd::seq_lib::to_multiset_build(prev, x);
        assert(prev.push(x) =~= s);
    }
}

/// The views of a sequence of strings.
pub open spec fn strings_view(v: Seq<String>) -> Seq<Seq<char>> {
    Seq::new(v.len(), |i: int| v[i]@)
}

fn path_insert_position(out: &Vec<String>, x: &String) -> (p: usize)
    ensures
        p == path_insert_pos(strings_view(out@), x@),
        p <= out@.len(),
{
    let ghost fs = strings_view(out@);
    let mut j: usize = out.len();
    assert(fs.subrange(0, j as int) =~= fs);
    while j > 0 && compare_path_strs(out[j - 1].as_str(), x.as_str()) > 0
        invariant
            0 <= j <= out@.len(),
            fs == strings_view(out@),
            path_insert_pos(fs, x@) == path_insert_pos(fs.subrange(0, j as int), x@),
        decreases j,
    {
        assert(fs.subrange(0, j as int).drop_last() =~= fs.subrange(0, j - 1));
        j = j - 1;
    }
    j
}

/// Sort paths stably in `PathBuf` order (component by component).
pub fn sort_paths(paths: Vec<String>) -> (out: Vec<String>)
    ensures
        strings_view(out@) == sorted_paths(strings_view(paths@)),
        paths_in_order(strings_view(out@)),
        strings_view(out@).to_multiset() == strings_view(paths@).to_multiset(),
{
    let ghost orig = strings_view(paths@);
    let ghost total = paths@.len();
    assert(total == paths.len());
    proof {
        law_sorted_paths(orig);
    }
    let mut src = paths;
    let mut out: Vec<String> = Vec::new();
    let mut k: usize = 0;
    assert(orig.subrange(0, 0) =~= Seq::<Seq<char>>::empty());
    assert(strings_view(out@) =~= Seq::<Seq<char>>::empty());
    while src.len() > 0
        invariant
            k + src@.len() == total,
            total <= usize::MAX,
            orig.len() == total,
            strings_view(src@) == orig.subrange(k as int, total as int),
            strings_view(out@) == sorted_paths(orig.subrange(0, k as int)),
        decreases src@.len(),
    {
        let ghost old_src = src@;
        assert(strings_view(old_src)[0] == old_src[0]@);
        let f = src.remove(0);
        assert forall|i: int| 0 <= i < src@.len() implies strings_view(src@)[i] == orig.subrange(
            k + 1,
            total as int,
        )[i] by {
            assert(src@[i] == old_src[i + 1]);
            assert(strings_view(old_src)[i + 1] == orig.subrange(k as int, total as int)[i + 1]);
        }
        assert(strings_view(src@) =~= orig.subrange(k + 1, total as int));
        assert(orig.subrange(0, k + 1).drop_last() =~= orig.subrange(0, k as int));
        assert(f@ == orig[k as int]);
        let p = path_insert_position(&out, &f);
        let ghost before = out@;
        out.insert(p, f);
        assert(strings_view(out@) =~= strings_view(before).insert(p as int, f@));
        k = k + 1;
    }
    assert(orig.subrange(0, k as int) =~= orig);
    out
}

// ── Filtering what a glob or a directory listing yields ─────────────────────

/// One path a glob expansion yielded, with what the file system said of it:
/// whether it stays inside the pattern's base directory once symlinks are
/// resolved (true when the base could not be resolved; false when the entry
/// itself could not be).
pub struct GlobEntry {
    pub path: String,
    pub within_root: bool,
}

/// One top-level entry of a directory listing, with what the file system
/// said of it: whether it resolves to a path inside the directory, and
/// whether it resolves to a directory.
pub struct DirEntry {
    pub path: String,
    pub within_root: bool,
    pub is_dir: bool,
}

/// The paths a glob expansion keeps, in the order it yielded them: image
/// files that stay inside the base directory.
pub open spec fn glob_kept(es: Seq<GlobEntry>) -> Seq<Seq<char>>
    decreases es.len(),
{
    if es.len() == 0 {
        Seq::empty()
    } else {
        let e = es.last();
        glob_kept(es.drop_last()) + if e.within_root && spec_has_image_extension(e.path@) {
            seq![e.path@]
        } else {
            Seq::empty()
        }
    }
}

/// The paths a directory listing keeps, in listing order: image files (not
/// directories) that resolve inside the directory.
pub open spec fn dir_kept(es: Seq<DirEntry>) -> Seq<Seq<char>>
    decreases es.len(),
{
    if es.len() == 0 {
        Seq::empty()
    } else {
        let e = es.last();
        dir_kept(es.drop_last()) + if e.within_root && !e.is_dir && spec_has_image_extension(e.path@) {
            seq![e.path@]
        } else {
            Seq::empty()
        }
    }
}

/// Whether `v` is the file inputs for `paths`, in order.
pub open spec fn inputs_for(v: Seq<Input>, paths: Seq<Seq<char>>) -> bool {
    &&& v.len() == paths.len()
    &&& forall|i: int| 0 <= i < v.len() ==> (#[trigger] v[i] matches Input::Path(p) && p@ == paths[i])
}

fn into_inputs(paths: Vec<String>) -> (v: Vec<Input>)
    ensures
        inputs_for(v@, strings_view(paths@)),
{
    let ghost pv = strings_view(paths@);
    assert(pv.len() == paths.len());
    let mut src = paths;
    let mut out: Vec<Input> = Vec::new();
    let mut k: usize = 0;
    while src.len() > 0
        invariant
            k + src@.len() == pv.len(),
            pv.len() <= usize::MAX,
            strings_view(src@) == pv.subrange(k as int, pv.len() as int),
            inputs_for(out@, pv.subrange(0, k as int)),
        decreases src@.len(),
    {
        let ghost old_src = src@;
        assert(strings_view(old_src)[0] == old_src[0]@);
        let p = src.remove(0);
        assert forall|i: int| 0 <= i < src@.len() implies strings_view(src@)[i] == pv.subrange(
            k + 1,
            pv.len() as int,
        )[i] by {
            assert(src@[i] == old_src[i + 1]);
            assert(strings_view(old_src)[i + 1] == pv.subrange(k as int, pv.len() as int)[i + 1]);
        }
        assert(strings_view(src@) =~= pv.subrange(k + 1, pv.len() as int));
        let ghost before = out@;
        out.push(Input::Path(p));
        assert forall|i: int| 0 <= i < out@.len() implies (#[trigger] out@[i] matches Input::Path(q) && q@
            == pv.subrange(0, k + 1)[i]) by {
            if i < before.len() {
                assert(out@[i] == before[i]);
            }
        }
        k = k + 1;
    }
    assert(pv.subrange(0, k as int) =~= pv);
    out
}

/// What a glob expansion resolves to: the kept paths (image files inside
/// the base directory), sorted; no kept path at all is
/// [`SourceError::NotFound`] naming the pattern.
pub fn glob_inputs(pattern: &str, entries: Vec<GlobEntry>) -> (r: Result<Vec<Input>, SourceError>)
    ensures
        glob_kept(entries@).len() == 0 ==> (r matches Err(SourceError::NotFound(p)) && p@ == pattern@),
        glob_kept(entries@).len() > 0 ==> (r matches Ok(v) && inputs_for(v@, sorted_paths(glob_kept(entries@)))),
{
    let ghost es = entries@;
    assert(es.len() == entries.len());
    let mut kept: Vec<String> = Vec::new();
    let mut src = entries;
    let mut k: usize = 0;
    assert(es.subrange(0, 0) =~= Seq::<GlobEntry>::empty());
    while src.len() > 0
        invariant
            k + src@.len() == es.len(),
            es.len() <= usize::MAX,
            src@ == es.subrange(k as int, es.len() as int),
            strings_view(kept@) == glob_kept(es.subrange(0, k as int)),
        decreases src@.len(),
    {
        let e = src.remove(0);
        assert(e == es[k as int]);
        assert(es.subrange(0, k + 1).drop_last() =~= es.subrange(0, k as int));
        let keep = e.within_root && has_image_extension(e.path.as_str());
        let ghost before = kept@;
        if keep {
            kept.push(e.path);
            assert(strings_view(kept@) =~= strings_view(before) + seq![es[k as int].path@]);
        } else {
            assert(strings_view(kept@) =~= strings_view(before) + Seq::<Seq<char>>::empty());
        }
        assert(src@ =~= es.subrange(k + 1, es.len() as int));
        k = k + 1;
    }
    assert(es.subrange(0, k as int) =~= es);
    if kept.len() == 0 {
        let mut p = String::new();
        push_str(&mut p, pattern);
        return Err(SourceError::NotFound(p));
    }
    let sorted = sort_paths(kept);
    Ok(into_inputs(sorted))
}

/// What a directory listing resolves to: the kept entries (image files,
/// not directories, that resolve inside the directory), sorted. An empty
/// result is no error.
pub fn directory_inputs(entries: Vec<DirEntry>) -> (v: Vec<Input>)
    ensures
        inputs_for(v@, sorted_paths(dir_kept(entries@))),
{
    let ghost es = entries@;
    assert(es.len() == entries.len());
    let mut kept: Vec<String> = Vec::new();
    let mut src = entries;
    let mut k: usize = 0;
    assert(es.subrange(0, 0) =~= Seq::<DirEntry>::empty());
    while src.len() > 0
        invariant
            k + src@.len() == es.len(),
            es.len() <= usize::MAX,
            src@ == es.subrange(k as int, es.len() as int),
            strings_view(kept@) == dir_kept(es.subrange(0, k as int)),
        decreases src@.len(),
    {
        let e = src.remove(0);
        assert(e == es[k as int]);
        assert(es.subrange(0, k + 1).drop_last() =~= es.subrange(0, k as int));
        let keep = e.within_root && !e.is_dir && has_image_extension(e.path.as_str());
        let ghost before = kept@;
        if keep {
            kept.push(e.path);
            assert(strings_view(kept@) =~= strings_view(before) + seq![es[k as int].path@]);
        } else {
            assert(strings_view(kept@) =~= strings_view(before) + Seq::<Seq<char>>::empty());
        }
        assert(src@ =~= es.subrange(k + 1, es.len() as int));
        k = k + 1;
    }
    assert(es.subrange(0, k as int) =~= es);
    let sorted = sort_paths(kept);
    into_inputs(sorted)
}

// ── The base directory of a glob ────────────────────────────────────────────

/// Components rejoined into a path: `/` between them, none after a root.
pub open spec fn join_components(cs: Seq<(u8, Seq<char>)>) -> Seq<char>
    decreases cs.len(),
{
    if cs.len() == 0 {
        Seq::empty()
    } else if cs.len() == 1 {
        cs.last().1
    } else if cs[cs.len() - 2].0 == kind_root() {
        join_components(cs.drop_last()) + cs.last().1
    } else {
        join_components(cs.drop_last()) + seq!['/'] + cs.last().1
    }
}

/// The parent of `path`, as its components without the last one rejoined:
/// none when the path is empty or is a root.
pub open spec fn spec_parent(path: Seq<char>) -> Option<Seq<char>> {
    let cs = path_components(path);
    if cs.len() == 0 || cs.last().0 == kind_root() {
        None
    } else {
        Some(join_components(cs.drop_last()))
    }
}

/// The directory a glob expansion is anchored at, for the symlink-escape
/// check: the pattern's literal prefix when that is a directory, else the
/// prefix's parent, else `.`.
pub open spec fn spec_glob_base_dir(pattern: Seq<char>, prefix_is_dir: bool) -> Seq<char> {
    let pre = spec_glob_prefix(pattern);
    if prefix_is_dir {
        pre
    } else {
        match spec_parent(pre) {
            Some(q) => if q.len() > 0 {
                q
            } else {
                seq!['.']
            },
            None => seq!['.'],
        }
    }
}

fn push_chars(s: &mut String, v: &Vec<char>)
    ensures
        final(s)@ == old(s)@ + v@,
{
    let mut i: usize = 0;
    while i < v.len()
        invariant
            i <= v@.len(),
            s@ == old(s)@ + v@.take(i as int),
        decreases v@.len() - i,
    {
        push_char(s, v[i]);
        assert(v@.take(i + 1) =~= v@.take(i as int).push(v@[i as int]));
        i = i + 1;
    }
    assert(v@.take(i as int) =~= v@);
}

fn join_components_of(cs: &Vec<(u8, Vec<char>)>, n: usize) -> (r: String)
    requires
        n <= cs@.len(),
    ensures
        r@ == join_components(components_view(cs@).take(n as int)),
{
    let ghost view = components_view(cs@);
    let mut s = String::new();
    let mut i: usize = 0;
    assert(view.take(0) =~= Seq::<(u8, Seq<char>)>::empty());
    while i < n
        invariant
            n <= cs@.len(),
            view == components_view(cs@),
            i <= n,
            s@ == join_components(view.take(i as int)),
        decreases n - i,
    {
        let ghost t = view.take(i + 1);
        assert(t.drop_last() =~= view.take(i as int));
        assert(t.last() == (cs@[i as int].0, cs@[i as int].1@));
        if i > 0 {
            assert(t[t.len() - 2] == view[i - 1]);
            assert(view[i - 1].0 == cs@[i - 1].0);
            if cs[i - 1].0 != 1u8 {
                push_char(&mut s, '/');
            }
        } else {
            assert(s@ =~= Seq::<char>::empty());
        }
        push_chars(&mut s, &cs[i].1);
        i = i + 1;
    }
    s
}

/// The directory a glob expansion is anchored at (see
/// [`spec_glob_base_dir`]); `prefix_is_dir` is what the file system says of
/// the pattern's literal prefix.
pub fn glob_base_dir(pattern: &str, prefix_is_dir: bool) -> (r: String)
    ensures
        r@ == spec_glob_base_dir(pattern@, prefix_is_dir),
{
    let pre = glob_prefix(pattern);
    if prefix_is_dir {
        let mut r = String::new();
        push_str(&mut r, pre);
        return r;
    }
    let cs = path_components_of(pre);
    let ghost view = components_view(cs@);
    let n = cs.len();
    let mut r = String::new();
    if n == 0 || cs[n - 1].0 == 1u8 {
        assert(n > 0 ==> view.last().0 == cs@[n - 1].0);
        push_char(&mut r, '.');
        assert(r@ =~= seq!['.']);
        return r;
    }
    assert(view.last().0 == cs@[n - 1].0);
    let joined = join_components_of(&cs, n - 1);
    assert(view.take(n - 1) =~= view.drop_last());
    if joined.unicode_len() == 0 {
        push_char(&mut r, '.');
        assert(r@ =~= seq!['.']);
        r
    } else {
        joined
    }
}

} // verus!
