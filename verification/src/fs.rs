//! Local and remote paths, exclusion patterns, file fingerprints and the plan
//! that `m87 sync` carries out.
use vstd::prelude::*;

use crate::text::{
    chars_eq, chars_eq_str, chars_of, contains_char, decimal, ends_with, is_prefix, is_suffix,
    push_decimal, push_char, split_char, split_on, split_once, split_once_spec, starts_with,
    string_from_chars, string_from_str, views,
};

verus! {

// ---------------------------------------------------------------------------
// Local or remote paths
// ---------------------------------------------------------------------------

/// A path on this machine, or a path on a device (`<device>:<path>`).
#[derive(Debug, Clone)]
pub enum LocalOrRemotePath {
    Local(String),
    Remote { device: String, path: String },
}

/// The mathematical value of a [`LocalOrRemotePath`].
pub enum PathView {
    Local(Seq<char>),
    Remote { device: Seq<char>, path: Seq<char> },
}

impl View for LocalOrRemotePath {
    type V = PathView;

    open spec fn view(&self) -> PathView {
        match self {
            LocalOrRemotePath::Local(p) => PathView::Local(p@),
            LocalOrRemotePath::Remote { device, path } => PathView::Remote {
                device: device@,
                path: path@,
            },
        }
    }
}

/// How a command-line path is read: text before the first `:` names a device
/// and the rest is the path on it; text without `:` is a local path.
pub open spec fn parse_path(s: Seq<char>) -> PathView {
    match split_once_spec(s, ':') {
        Some((dev, path)) => PathView::Remote { device: dev, path: path },
        None => PathView::Local(s),
    }
}

/// The path `full`, on the same side (local, or the same device) as `base`.
pub open spec fn path_like(base: PathView, full: Seq<char>) -> PathView {
    match base {
        PathView::Local(_) => PathView::Local(full),
        PathView::Remote { device, .. } => PathView::Remote { device: device, path: full },
    }
}

impl LocalOrRemotePath {
    /// Reads `<device>:<path>` as a remote path and anything without `:` as a
    /// local path.
    pub fn parse(s: &str) -> (r: LocalOrRemotePath)
        ensures
            r@ == parse_path(s@),
    {
        let cs = chars_of(s);
        match split_once(cs.as_slice(), ':') {
            Some((dev, path)) => LocalOrRemotePath::Remote {
                device: string_from_chars(dev.as_slice()),
                path: string_from_chars(path.as_slice()),
            },
            None => LocalOrRemotePath::Local(string_from_chars(cs.as_slice())),
        }
    }

    /// The path `full` on the same side as `base`.
    pub fn from_path(base: &LocalOrRemotePath, full: &str) -> (r: LocalOrRemotePath)
        ensures
            r@ == path_like(base@, full@),
    {
        let full_s = string_from_chars(chars_of(full).as_slice());
        match base {
            LocalOrRemotePath::Local(_) => LocalOrRemotePath::Local(full_s),
            LocalOrRemotePath::Remote { device, .. } => LocalOrRemotePath::Remote {
                device: device.clone(),
                path: full_s,
            },
        }
    }
}

/// A device name and a path on it, written the way [`LocalOrRemotePath::parse`]
/// reads them back, whenever the device name holds no `:`.
pub proof fn lemma_parse_remote_roundtrip(device: Seq<char>, path: Seq<char>)
    requires
        !device.contains(':'),
    ensures
        parse_path(device + seq![':'] + path) == (PathView::Remote { device, path }),
{
    let s = device + seq![':'] + path;
    assert forall|k: int| 0 <= k < device.len() implies s[k] != ':' by {
        assert(s[k] == device[k]);
    }
    assert(s[device.len() as int] == ':');
    crate::text::lemma_first_index_of_char(s, ':', device.len() as int);
    assert(s.take(device.len() as int) =~= device);
    assert(s.skip(device.len() + 1int) =~= path);
}

// ---------------------------------------------------------------------------
// Fingerprints
// ---------------------------------------------------------------------------

/// The cheap fingerprint of a file: `"<size>:<mtime_secs>"`, with `0` seconds
/// when the modification time is unknown.
pub open spec fn fingerprint_of(size: u64, mtime_secs: Option<u64>) -> Seq<char> {
    decimal(size as nat) + seq![':'] + decimal(
        match mtime_secs {
            Some(t) => t as nat,
            None => 0,
        },
    )
}

/// The fingerprint of a file of `size` bytes last modified `mtime_secs`
/// seconds after the Unix epoch.
pub fn fingerprint(size: u64, mtime_secs: Option<u64>) -> (r: String)
    ensures
        r@ == fingerprint_of(size, mtime_secs),
{
    let secs: u64 = match mtime_secs {
        Some(t) => t,
        None => 0,
    };
    let mut s = String::new();
    push_decimal(&mut s, size);
    push_char(&mut s, ':');
    push_decimal(&mut s, secs);
    assert(s@ =~= fingerprint_of(size, mtime_secs));
    s
}

// ---------------------------------------------------------------------------
// Exclusion patterns
// ---------------------------------------------------------------------------

/// A piece of a `/`-separated path that `Path::components` reports as a
/// normal component (not empty, not `.`, not `..`).
pub open spec fn is_normal_name(n: Seq<char>) -> bool {
    n.len() > 0 && n != "."@ && n != ".."@
}

/// `Path::file_name` for a `/`-separated path, or empty where it has none:
/// the last piece that is neither empty nor `.`, unless that piece is `..`.
pub open spec fn last_name(segs: Seq<Seq<char>>) -> Seq<char>
    decreases segs.len(),
{
    if segs.len() == 0 {
        Seq::empty()
    } else if segs.last().len() == 0 || segs.last() == "."@ {
        last_name(segs.drop_last())
    } else if segs.last() == ".."@ {
        Seq::empty()
    } else {
        segs.last()
    }
}

/// The file name of a relative path, empty when it has none.
pub open spec fn file_name_of(p: Seq<char>) -> Seq<char> {
    last_name(split_on(p, '/'))
}

/// One exclusion pattern matches a path: the pattern equals a component of
/// the path, or the pattern has exactly one `*` and the file name starts with
/// the text before it and ends with the text after it.
pub open spec fn pattern_matches(p: Seq<char>, pattern: Seq<char>) -> bool {
    let segs = split_on(p, '/');
    let parts = split_on(pattern, '*');
    ||| (is_normal_name(pattern) && segs.contains(pattern))
    ||| (pattern.contains('*') && parts.len() == 2 && is_prefix(parts[0], file_name_of(p))
        && is_suffix(parts[1], file_name_of(p)))
}

/// Some pattern of `excludes` matches the path.
pub open spec fn excluded(p: Seq<char>, excludes: Seq<Seq<char>>) -> bool {
    exists|i: int| 0 <= i < excludes.len() && pattern_matches(p, #[trigger] excludes[i])
}

/// Splitting `d/n` at every `/`, where `n` holds no `/`, gives the pieces
/// of `d` followed by `n`.
proof fn lemma_split_then_name(d: Seq<char>, n: Seq<char>)
    requires
        !n.contains('/'),
    ensures
        split_on(d + seq!['/'] + n, '/') == split_on(d, '/').push(n),
    decreases d.len(),
{
    let s = d + seq!['/'] + n;
    crate::text::lemma_first_index_of(d, '/');
    assert forall|k: int| 0 <= k < n.len() implies n[k] != '/' by {
        if n[k] == '/' {
            assert(n.contains('/'));
        }
    }
    match crate::text::first_index_of(d, '/') {
        Some(i) => {
            crate::text::lemma_first_index_of_char(s, '/', i);
            assert(s.take(i) =~= d.take(i));
            assert(s.skip(i + 1) =~= d.skip(i + 1) + seq!['/'] + n);
            lemma_split_then_name(d.skip(i + 1), n);
            assert(split_on(s, '/') =~= split_on(d, '/').push(n));
        },
        None => {
            crate::text::lemma_first_index_of_char(s, '/', d.len() as int);
            assert(s.take(d.len() as int) =~= d);
            assert(s.skip(d.len() as int + 1) =~= n);
            crate::text::lemma_first_index_of_none(n, '/');
            assert(split_on(n, '/') == seq![n]);
            assert(split_on(d, '/') == seq![d]);
            assert(split_on(s, '/') == seq![s.take(d.len() as int)] + split_on(
                s.skip(d.len() as int + 1),
                '/',
            ));
            assert(split_on(s, '/') =~= split_on(d, '/').push(n));
        },
    }
}

/// The file name of a path is its last component: for any directory `d`
/// and a normal name `n` (not empty, `.` or `..`, without `/`), the file
/// name of `d/n` is `n`.
pub proof fn lemma_file_name_of_last_component(d: Seq<char>, n: Seq<char>)
    requires
        is_normal_name(n),
        !n.contains('/'),
    ensures
        file_name_of(d + seq!['/'] + n) == n,
{
    lemma_split_then_name(d, n);
    let segs = split_on(d, '/').push(n);
    assert(segs.last() == n);
}

/// A `*<ext>` pattern excludes every file whose name ends in `<ext>`, in
/// whatever directory it lies: `*.log` excludes `logs/app.log`.
pub proof fn lemma_star_pattern_excludes_by_name(d: Seq<char>, n: Seq<char>, ext: Seq<char>)
    requires
        is_normal_name(n),
        !n.contains('/'),
        !ext.contains('*'),
        is_suffix(ext, n),
    ensures
        excluded(d + seq!['/'] + n, seq![seq!['*'] + ext]),
{
    let p = d + seq!['/'] + n;
    let pat = seq!['*'] + ext;
    lemma_file_name_of_last_component(d, n);
    crate::text::lemma_first_index_of_char(pat, '*', 0);
    assert forall|k: int| 0 <= k < ext.len() implies ext[k] != '*' by {
        if ext[k] == '*' {
            assert(ext.contains('*'));
        }
    }
    crate::text::lemma_first_index_of_none(ext, '*');
    assert(pat.skip(1) =~= ext);
    assert(pat.take(0) =~= Seq::<char>::empty());
    let parts = split_on(pat, '*');
    assert(split_on(ext, '*') == seq![ext]);
    assert(parts == seq![pat.take(0)] + split_on(pat.skip(1), '*'));
    assert(parts =~= seq![Seq::<char>::empty(), ext]);
    assert(pat[0] == '*');
    assert(pat.contains('*'));
    assert(n.take(0) =~= Seq::<char>::empty());
    assert(is_prefix(parts[0], file_name_of(p)));
    assert(pattern_matches(p, seq![pat][0]));
}

/// `Path::file_name` of a `/`-separated path, empty when there is none.
fn file_name(segs: &Vec<Vec<char>>) -> (r: Vec<char>)
    ensures
        r@ == last_name(views(segs@)),
{
    proof {
        reveal_strlit(".");
        reveal_strlit("..");
    }
    let ghost sv = views(segs@);
    let mut i = segs.len();
    assert(sv.take(i as int) =~= sv);
    while i > 0
        invariant
            i <= segs.len(),
            sv == views(segs@),
            last_name(sv.take(i as int)) == last_name(sv),
        decreases i,
    {
        let seg = &segs[i - 1];
        let ghost pre = sv.take(i as int);
        assert(pre.last() == seg@);
        assert(pre.drop_last() =~= sv.take(i - 1));
        if seg.len() == 0 || chars_eq_str(seg.as_slice(), ".") {
            i = i - 1;
        } else if chars_eq_str(seg.as_slice(), "..") {
            return Vec::new();
        } else {
            return seg.clone();
        }
    }
    assert(sv.take(0) =~= Seq::<Seq<char>>::empty());
    Vec::new()
}

/// A component of `segs` equals `name`.
fn has_segment(segs: &Vec<Vec<char>>, name: &[char]) -> (r: bool)
    ensures
        r == views(segs@).contains(name@),
{
    let mut i: usize = 0;
    while i < segs.len()
        invariant
            i <= segs.len(),
            forall|k: int| 0 <= k < i ==> views(segs@)[k] != name@,
        decreases segs.len() - i,
    {
        if chars_eq(segs[i].as_slice(), name) {
            assert(views(segs@)[i as int] == name@);
            return true;
        }
        i = i + 1;
    }
    false
}

/// Whether one pattern matches a path given by its pieces and file name.
fn matches_pattern(
    p: Ghost<Seq<char>>,
    segs: &Vec<Vec<char>>,
    name: &Vec<char>,
    pattern: &[char],
) -> (r: bool)
    requires
        views(segs@) == split_on(p@, '/'),
        name@ == file_name_of(p@),
    ensures
        r == pattern_matches(p@, pattern@),
{
    proof {
        reveal_strlit(".");
        reveal_strlit("..");
    }
    let normal = pattern.len() > 0 && !chars_eq_str(pattern, ".") && !chars_eq_str(pattern, "..");
    if normal && has_segment(segs, pattern) {
        return true;
    }
    if contains_char(pattern, '*') {
        let parts = split_char(pattern, '*');
        if parts.len() == 2 {
            assert(parts@[0]@ == views(parts@)[0]);
            assert(parts@[1]@ == views(parts@)[1]);
            return starts_with(name.as_slice(), parts[0].as_slice()) && ends_with(
                name.as_slice(),
                parts[1].as_slice(),
            );
        }
    }
    false
}

/// Whether a relative path matches any exclusion pattern. Patterns support
/// simple glob matching: `*.log` matches files ending in `.log`; `.git` and
/// `node_modules` match a path component of that exact name.
pub fn matches_exclude(rel_path: &str, excludes: &[String]) -> (r: bool)
    ensures
        r == excluded(rel_path@, excludes@.map_values(|e: String| e@)),
{
    let ghost ev = excludes@.map_values(|e: String| e@);
    if excludes.len() == 0 {
        return false;
    }
    let cs = chars_of(rel_path);
    let segs = split_char(cs.as_slice(), '/');
    let name = file_name(&segs);
    let mut i: usize = 0;
    while i < excludes.len()
        invariant
            i <= excludes.len(),
            ev == excludes@.map_values(|e: String| e@),
            views(segs@) == split_on(rel_path@, '/'),
            name@ == file_name_of(rel_path@),
            forall|k: int| 0 <= k < i ==> !pattern_matches(rel_path@, #[trigger] ev[k]),
        decreases excludes.len() - i,
    {
        let pat = chars_of(excludes[i].as_str());
        if matches_pattern(Ghost(rel_path@), &segs, &name, pat.as_slice()) {
            assert(ev[i as int] == excludes@[i as int]@);
            return true;
        }
        i = i + 1;
    }
    false
}

// ---------------------------------------------------------------------------
// Sync plans
// ---------------------------------------------------------------------------

/// One file of a tree: its path relative to the root (using `/`) and its
/// fingerprint.
#[derive(Debug, Clone)]
pub struct FileEntry {
    pub rel: String,
    pub fingerprint: String,
}

/// The files below a root directory, local or on a device.
#[derive(Debug, Clone)]
pub struct FileTree {
    pub root: String,
    pub files: Vec<FileEntry>,
}

/// The `(path, fingerprint)` pairs of a list of entries.
pub open spec fn entries(files: Seq<FileEntry>) -> Seq<(Seq<char>, Seq<char>)> {
    files.map_values(|f: FileEntry| (f.rel@, f.fingerprint@))
}

/// The map from relative path to fingerprint that a list of entries builds
/// when inserted in order (a later entry for the same path wins).
pub open spec fn tree_map(es: Seq<(Seq<char>, Seq<char>)>) -> Map<Seq<char>, Seq<char>>
    decreases es.len(),
{
    if es.len() == 0 {
        Map::empty()
    } else {
        tree_map(es.drop_last()).insert(es.last().0, es.last().1)
    }
}

/// The paths to copy: each source entry whose path the destination lacks or
/// holds with another fingerprint, in source order.
pub open spec fn uploads_of(src: Seq<(Seq<char>, Seq<char>)>, dst: Map<Seq<char>, Seq<char>>) -> Seq<
    Seq<char>,
>
    decreases src.len(),
{
    if src.len() == 0 {
        seq![]
    } else {
        let prev = uploads_of(src.drop_last(), dst);
        let (k, v) = src.last();
        if dst.contains_key(k) && dst[k] == v {
            prev
        } else {
            prev.push(k)
        }
    }
}

/// The paths to delete: each destination entry whose path the source lacks,
/// in destination order.
pub open spec fn deletes_of(dst: Seq<(Seq<char>, Seq<char>)>, src: Map<Seq<char>, Seq<char>>) -> Seq<
    Seq<char>,
>
    decreases dst.len(),
{
    if dst.len() == 0 {
        seq![]
    } else {
        let prev = deletes_of(dst.drop_last(), src);
        let (k, _v) = dst.last();
        if src.contains_key(k) {
            prev
        } else {
            prev.push(k)
        }
    }
}

/// What `m87 sync` does to the destination: every listed path is copied from
/// the source (taking the source's fingerprint), then every path to delete is
/// removed.
pub open spec fn apply_uploads(
    dst: Map<Seq<char>, Seq<char>>,
    src: Map<Seq<char>, Seq<char>>,
    ups: Seq<Seq<char>>,
) -> Map<Seq<char>, Seq<char>>
    decreases ups.len(),
{
    if ups.len() == 0 {
        dst
    } else {
        apply_uploads(dst, src, ups.drop_last()).insert(ups.last(), src[ups.last()])
    }
}

/// The destination after the deletions.
pub open spec fn apply_deletes(dst: Map<Seq<char>, Seq<char>>, dels: Seq<Seq<char>>) -> Map<
    Seq<char>,
    Seq<char>,
>
    decreases dels.len(),
{
    if dels.len() == 0 {
        dst
    } else {
        apply_deletes(dst, dels.drop_last()).remove(dels.last())
    }
}

/// The files to copy and to delete so that the destination catches up with
/// the source.
#[derive(Debug, Clone)]
pub struct SyncPlan {
    pub uploads: Vec<String>,
    pub deletes: Vec<String>,
}

/// The views of a list of strings.
pub open spec fn string_views(v: Seq<String>) -> Seq<Seq<char>> {
    v.map_values(|x: String| x@)
}

/// Each path of the map's domain stands in some entry with the map's value.
pub proof fn lemma_tree_map_witness(es: Seq<(Seq<char>, Seq<char>)>, k: Seq<char>)
    requires
        tree_map(es).contains_key(k),
    ensures
        exists|i: int| 0 <= i < es.len() && es[i] == (k, tree_map(es)[k]),
    decreases es.len(),
{
    if es.last().0 == k {
        assert(es[es.len() - 1] == (k, tree_map(es)[k]));
    } else {
        lemma_tree_map_witness(es.drop_last(), k);
        let i = choose|i: int|
            0 <= i < es.drop_last().len() && es.drop_last()[i] == (k, tree_map(es.drop_last())[k]);
        assert(es[i] == es.drop_last()[i]);
    }
}

/// Every path of the entries is in the map's domain.
pub proof fn lemma_tree_map_contains(es: Seq<(Seq<char>, Seq<char>)>, i: int)
    requires
        0 <= i < es.len(),
    ensures
        tree_map(es).contains_key(es[i].0),
    decreases es.len(),
{
    if i < es.len() - 1 {
        assert(es.drop_last()[i] == es[i]);
        lemma_tree_map_contains(es.drop_last(), i);
    }
}

/// Entries after position `n` that do not hold `k` leave the lookup of `k` alone.
pub proof fn lemma_tree_map_prefix(es: Seq<(Seq<char>, Seq<char>)>, n: int, k: Seq<char>)
    requires
        0 <= n <= es.len(),
        forall|j: int| n <= j < es.len() ==> es[j].0 != k,
    ensures
        tree_map(es).contains_key(k) == tree_map(es.take(n)).contains_key(k),
        tree_map(es).contains_key(k) ==> tree_map(es)[k] == tree_map(es.take(n))[k],
    decreases es.len() - n,
{
    if n < es.len() {
        assert(es.drop_last().len() == es.len() - 1);
        assert forall|j: int| n <= j < es.drop_last().len() implies es.drop_last()[j].0 != k by {
            assert(es.drop_last()[j] == es[j]);
        }
        lemma_tree_map_prefix(es.drop_last(), n, k);
        assert(es.drop_last().take(n) =~= es.take(n));
    } else {
        assert(es.take(n) =~= es);
    }
}

/// Paths in the upload list come from the source; a source path is uploaded
/// unless the destination holds it with the fingerprint that the source
/// map gives it.
pub proof fn lemma_uploads_of(
    src: Seq<(Seq<char>, Seq<char>)>,
    dst: Map<Seq<char>, Seq<char>>,
    k: Seq<char>,
)
    ensures
        uploads_of(src, dst).contains(k) ==> tree_map(src).contains_key(k),
        tree_map(src).contains_key(k) && !(dst.contains_key(k) && dst[k] == tree_map(src)[k])
            ==> uploads_of(src, dst).contains(k),
    decreases src.len(),
{
    if src.len() > 0 {
        let prev = src.drop_last();
        lemma_uploads_of(prev, dst, k);
        let (lk, lv) = src.last();
        if uploads_of(src, dst).contains(k) {
            if lk != k {
                if !(dst.contains_key(lk) && dst[lk] == lv) {
                    let i = choose|i: int|
                        0 <= i < uploads_of(src, dst).len() && uploads_of(src, dst)[i] == k;
                    if i < uploads_of(prev, dst).len() {
                        assert(uploads_of(prev, dst)[i] == k);
                    }
                }
            }
        }
        if tree_map(src).contains_key(k) && !(dst.contains_key(k) && dst[k] == tree_map(src)[k]) {
            if lk == k {
                assert(uploads_of(src, dst) == uploads_of(prev, dst).push(k));
                assert(uploads_of(src, dst)[uploads_of(prev, dst).len() as int] == k);
            } else {
                let i = choose|i: int|
                    0 <= i < uploads_of(prev, dst).len() && uploads_of(prev, dst)[i] == k;
                assert(uploads_of(src, dst)[i] == k);
            }
        }
    }
}

/// A path is deleted exactly when the destination has it and the source does not.
pub proof fn lemma_deletes_of(
    dst: Seq<(Seq<char>, Seq<char>)>,
    src: Map<Seq<char>, Seq<char>>,
    k: Seq<char>,
)
    ensures
        deletes_of(dst, src).contains(k) == (tree_map(dst).contains_key(k) && !src.contains_key(
            k,
        )),
    decreases dst.len(),
{
    if dst.len() > 0 {
        let prev = dst.drop_last();
        lemma_deletes_of(prev, src, k);
        let (lk, _lv) = dst.last();
        if deletes_of(dst, src).contains(k) {
            let i = choose|i: int|
                0 <= i < deletes_of(dst, src).len() && deletes_of(dst, src)[i] == k;
            if i < deletes_of(prev, src).len() {
                assert(deletes_of(prev, src)[i] == k);
            }
        }
        if tree_map(dst).contains_key(k) && !src.contains_key(k) {
            if lk == k {
                assert(deletes_of(dst, src)[deletes_of(prev, src).len() as int] == k);
            } else {
                let i = choose|i: int|
                    0 <= i < deletes_of(prev, src).len() && deletes_of(prev, src)[i] == k;
                assert(deletes_of(dst, src)[i] == k);
            }
        }
    }
}

/// After the uploads a listed path carries the source's fingerprint and any
/// other path keeps what it had.
pub proof fn lemma_apply_uploads(
    dst: Map<Seq<char>, Seq<char>>,
    src: Map<Seq<char>, Seq<char>>,
    ups: Seq<Seq<char>>,
    k: Seq<char>,
)
    ensures
        ups.contains(k) ==> apply_uploads(dst, src, ups).contains_key(k) && apply_uploads(
            dst,
            src,
            ups,
        )[k] == src[k],
        !ups.contains(k) ==> apply_uploads(dst, src, ups).contains_key(k) == dst.contains_key(k)
            && (dst.contains_key(k) ==> apply_uploads(dst, src, ups)[k] == dst[k]),
    decreases ups.len(),
{
    if ups.len() > 0 {
        lemma_apply_uploads(dst, src, ups.drop_last(), k);
        if ups.last() != k {
            if ups.contains(k) {
                let i = choose|i: int| 0 <= i < ups.len() && ups[i] == k;
                assert(ups.drop_last()[i] == k);
            }
            if ups.drop_last().contains(k) {
                let i = choose|i: int| 0 <= i < ups.drop_last().len() && ups.drop_last()[i] == k;
                assert(ups[i] == k);
            }
        } else {
            assert(ups[ups.len() - 1] == k);
        }
    }
}

/// After the deletions a listed path is gone and any other path keeps what it had.
pub proof fn lemma_apply_deletes(
    m: Map<Seq<char>, Seq<char>>,
    dels: Seq<Seq<char>>,
    k: Seq<char>,
)
    ensures
        dels.contains(k) ==> !apply_deletes(m, dels).contains_key(k),
        !dels.contains(k) ==> apply_deletes(m, dels).contains_key(k) == m.contains_key(k) && (
        m.contains_key(k) ==> apply_deletes(m, dels)[k] == m[k]),
    decreases dels.len(),
{
    if dels.len() > 0 {
        lemma_apply_deletes(m, dels.drop_last(), k);
        if dels.last() != k {
            if dels.contains(k) {
                let i = choose|i: int| 0 <= i < dels.len() && dels[i] == k;
                assert(dels.drop_last()[i] == k);
            }
            if dels.drop_last().contains(k) {
                let i = choose|i: int| 0 <= i < dels.drop_last().len() && dels.drop_last()[i] == k;
                assert(dels[i] == k);
            }
        }
    }
}

/// Sync with `--delete` mirrors the source: once the uploads and deletions of
/// the plan are carried out, the destination holds exactly the source's paths
/// with the source's fingerprints.
pub proof fn lemma_sync_with_delete_mirrors(
    src: Seq<(Seq<char>, Seq<char>)>,
    dst: Seq<(Seq<char>, Seq<char>)>,
)
    ensures
        apply_deletes(
            apply_uploads(tree_map(dst), tree_map(src), uploads_of(src, tree_map(dst))),
            deletes_of(dst, tree_map(src)),
        ) == tree_map(src),
{
    let sm = tree_map(src);
    let dm = tree_map(dst);
    let ups = uploads_of(src, dm);
    let dels = deletes_of(dst, sm);
    let after = apply_deletes(apply_uploads(dm, sm, ups), dels);
    assert forall|k: Seq<char>| #[trigger] after.contains_key(k) == sm.contains_key(k) by {
        lemma_uploads_of(src, dm, k);
        lemma_deletes_of(dst, sm, k);
        lemma_apply_uploads(dm, sm, ups, k);
        lemma_apply_deletes(apply_uploads(dm, sm, ups), dels, k);
    }
    assert forall|k: Seq<char>| #[trigger] after.contains_key(k) implies after[k] == sm[k] by {
        lemma_uploads_of(src, dm, k);
        lemma_deletes_of(dst, sm, k);
        lemma_apply_uploads(dm, sm, ups, k);
        lemma_apply_deletes(apply_uploads(dm, sm, ups), dels, k);
    }
    assert(after =~= sm);
}

/// Sync without `--delete` brings every source file over and keeps every
/// destination file that the source does not have.
pub proof fn lemma_sync_without_delete(
    src: Seq<(Seq<char>, Seq<char>)>,
    dst: Seq<(Seq<char>, Seq<char>)>,
    k: Seq<char>,
)
    ensures
        ({
            let after = apply_uploads(tree_map(dst), tree_map(src), uploads_of(src, tree_map(dst)));
            &&& tree_map(src).contains_key(k) ==> after.contains_key(k) && after[k] == tree_map(
                src,
            )[k]
            &&& !tree_map(src).contains_key(k) ==> after.contains_key(k) == tree_map(
                dst,
            ).contains_key(k) && (after.contains_key(k) ==> after[k] == tree_map(dst)[k])
        }),
{
    lemma_uploads_of(src, tree_map(dst), k);
    lemma_apply_uploads(tree_map(dst), tree_map(src), uploads_of(src, tree_map(dst)), k);
}

/// No two entries share a path.
pub open spec fn unique_paths(es: Seq<(Seq<char>, Seq<char>)>) -> bool {
    forall|i: int, j: int| 0 <= i < j < es.len() ==> es[i].0 != es[j].0
}

/// With unique paths, the map gives each entry's own fingerprint.
pub proof fn lemma_unique_lookup(es: Seq<(Seq<char>, Seq<char>)>, i: int)
    requires
        unique_paths(es),
        0 <= i < es.len(),
    ensures
        tree_map(es).contains_key(es[i].0),
        tree_map(es)[es[i].0] == es[i].1,
{
    lemma_tree_map_prefix(es, i + 1, es[i].0);
    assert(es.take(i + 1).drop_last() =~= es.take(i));
    assert(es.take(i + 1).last() == es[i]);
}

/// Nothing is uploaded when the destination already holds every entry.
proof fn lemma_uploads_empty(src: Seq<(Seq<char>, Seq<char>)>, dst: Map<Seq<char>, Seq<char>>)
    requires
        forall|i: int|
            0 <= i < src.len() ==> dst.contains_key(#[trigger] src[i].0) && dst[src[i].0]
                == src[i].1,
    ensures
        uploads_of(src, dst).len() == 0,
    decreases src.len(),
{
    if src.len() > 0 {
        assert forall|i: int| 0 <= i < src.drop_last().len() implies dst.contains_key(
            #[trigger] src.drop_last()[i].0,
        ) && dst[src.drop_last()[i].0] == src.drop_last()[i].1 by {
            assert(src.drop_last()[i] == src[i]);
        }
        lemma_uploads_empty(src.drop_last(), dst);
        assert(src.last() == src[src.len() - 1]);
    }
}

/// Nothing is deleted when the source holds every destination path.
proof fn lemma_deletes_empty(dst: Seq<(Seq<char>, Seq<char>)>, src: Map<Seq<char>, Seq<char>>)
    requires
        forall|i: int| 0 <= i < dst.len() ==> src.contains_key(#[trigger] dst[i].0),
    ensures
        deletes_of(dst, src).len() == 0,
    decreases dst.len(),
{
    if dst.len() > 0 {
        assert forall|i: int| 0 <= i < dst.drop_last().len() implies src.contains_key(
            #[trigger] dst.drop_last()[i].0,
        ) by {
            assert(dst.drop_last()[i] == dst[i]);
        }
        lemma_deletes_empty(dst.drop_last(), src);
        assert(dst.last() == dst[dst.len() - 1]);
    }
}

/// Sync is idempotent: once the destination agrees with a source whose
/// paths are unique, the plan copies and deletes nothing.
pub proof fn lemma_sync_idempotent(src: Seq<(Seq<char>, Seq<char>)>, dst: Seq<(Seq<char>, Seq<char>)>)
    requires
        unique_paths(src),
        tree_map(dst) == tree_map(src),
    ensures
        uploads_of(src, tree_map(dst)).len() == 0,
        deletes_of(dst, tree_map(src)).len() == 0,
{
    assert forall|i: int| 0 <= i < src.len() implies tree_map(dst).contains_key(
        #[trigger] src[i].0,
    ) && tree_map(dst)[src[i].0] == src[i].1 by {
        lemma_unique_lookup(src, i);
    }
    lemma_uploads_empty(src, tree_map(dst));
    assert forall|i: int| 0 <= i < dst.len() implies tree_map(src).contains_key(
        #[trigger] dst[i].0,
    ) by {
        lemma_tree_map_contains(dst, i);
    }
    lemma_deletes_empty(dst, tree_map(src));
}

/// The position of the entry that decides the fingerprint of `rel`: the last
/// entry with that path.
fn lookup(files: &Vec<FileEntry>, rel: &String) -> (r: Option<usize>)
    ensures
        match r {
            Some(i) => i < files.len() && tree_map(entries(files@)).contains_key(rel@) && tree_map(
                entries(files@),
            )[rel@] == files@[i as int].fingerprint@,
            None => !tree_map(entries(files@)).contains_key(rel@),
        },
{
    let ghost es = entries(files@);
    let mut i = files.len();
    while i > 0
        invariant
            i <= files.len(),
            es == entries(files@),
            forall|j: int| i <= j < es.len() ==> es[j].0 != rel@,
        decreases i,
    {
        if files[i - 1].rel == *rel {
            proof {
                lemma_tree_map_prefix(es, i as int, rel@);
                assert(es.take(i as int).last() == es[i - 1]);
            }
            return Some(i - 1);
        }
        assert(es[i - 1].0 == files@[i - 1].rel@);
        i = i - 1;
    }
    proof {
        lemma_tree_map_prefix(es, 0, rel@);
        assert(es.take(0) =~= Seq::<(Seq<char>, Seq<char>)>::empty());
    }
    None
}

/// The files that `m87 sync` copies (new or changed fingerprint, in source
/// order) and, with `delete`, the destination files it removes because the
/// source lacks them (in destination order).
pub fn plan_sync(src: &FileTree, dst: &FileTree, delete: bool) -> (plan: SyncPlan)
    ensures
        string_views(plan.uploads@) == uploads_of(entries(src.files@), tree_map(entries(dst.files@))),
        string_views(plan.deletes@) == (if delete {
            deletes_of(entries(dst.files@), tree_map(entries(src.files@)))
        } else {
            Seq::empty()
        }),
{
    let ghost se = entries(src.files@);
    let ghost de = entries(dst.files@);
    let mut uploads: Vec<String> = Vec::new();
    let mut i: usize = 0;
    while i < src.files.len()
        invariant
            i <= src.files.len(),
            se == entries(src.files@),
            de == entries(dst.files@),
            string_views(uploads@) == uploads_of(se.take(i as int), tree_map(de)),
        decreases src.files.len() - i,
    {
        let ghost before = uploads@;
        assert(se.take(i + 1).drop_last() =~= se.take(i as int));
        assert(se.take(i + 1).last() == se[i as int]);
        let f = &src.files[i];
        let unchanged = match lookup(&dst.files, &f.rel) {
            Some(j) => dst.files[j].fingerprint == f.fingerprint,
            None => false,
        };
        if !unchanged {
            uploads.push(f.rel.clone());
            assert(string_views(uploads@) =~= string_views(before).push(f.rel@));
        }
        i = i + 1;
    }
    assert(se.take(src.files.len() as int) =~= se);
    let mut deletes: Vec<String> = Vec::new();
    if delete {
        let mut j: usize = 0;
        while j < dst.files.len()
            invariant
                j <= dst.files.len(),
                se == entries(src.files@),
                de == entries(dst.files@),
                string_views(deletes@) == deletes_of(de.take(j as int), tree_map(se)),
            decreases dst.files.len() - j,
        {
            let ghost before = deletes@;
            assert(de.take(j + 1).drop_last() =~= de.take(j as int));
            assert(de.take(j + 1).last() == de[j as int]);
            let f = &dst.files[j];
            if lookup(&src.files, &f.rel).is_none() {
                deletes.push(f.rel.clone());
                assert(string_views(deletes@) =~= string_views(before).push(f.rel@));
            }
            j = j + 1;
        }
        assert(de.take(dst.files.len() as int) =~= de);
    } else {
        assert(string_views(deletes@) =~= Seq::<Seq<char>>::empty());
    }
    SyncPlan { uploads, deletes }
}

// ---------------------------------------------------------------------------
// Walking a remote tree
// ---------------------------------------------------------------------------

/// The device and path of a listing, which must be remote.
pub fn remote_target(path: &str) -> (r: Result<(String, String), String>)
    ensures
        match parse_path(path@) {
            PathView::Remote { device, path } => r matches Ok((d, p)) && d@ == device && p@ == path,
            PathView::Local(_) => r is Err && r->Err_0@ == "path must be <device>:<path>"@,
        },
{
    match LocalOrRemotePath::parse(path) {
        LocalOrRemotePath::Remote { device, path } => Ok((device, path)),
        LocalOrRemotePath::Local(_) => Err(string_from_str("path must be <device>:<path>")),
    }
}

/// The path of an entry relative to the root of a walk: none for `.` and
/// `..`; the name itself at the root; else `<rel>/<name>`.
pub open spec fn child_rel_of(rel: Seq<char>, name: Seq<char>) -> Option<Seq<char>> {
    if name == "."@ || name == ".."@ {
        None
    } else if rel.len() == 0 {
        Some(name)
    } else {
        Some(rel + seq!['/'] + name)
    }
}

/// The relative path of a directory entry met while walking a remote tree.
pub fn child_rel(rel: &str, name: &str) -> (r: Option<String>)
    ensures
        match child_rel_of(rel@, name@) {
            Some(c) => r is Some && r->0@ == c,
            None => r is None,
        },
{
    let n = chars_of(name);
    if chars_eq_str(n.as_slice(), ".") || chars_eq_str(n.as_slice(), "..") {
        return None;
    }
    let rc = chars_of(rel);
    if rc.len() == 0 {
        return Some(string_from_str(name));
    }
    let mut s = string_from_str(rel);
    push_char(&mut s, '/');
    s.append(name);
    Some(s)
}

/// The full path of a remote entry: the root itself, or `<root>/<rel>`.
pub fn remote_full_path(base: &str, rel: &str) -> (r: String)
    ensures
        r@ == (if rel@.len() == 0 {
            base@
        } else {
            base@ + seq!['/'] + rel@
        }),
{
    let rc = chars_of(rel);
    if rc.len() == 0 {
        return string_from_str(base);
    }
    let mut s = string_from_str(base);
    push_char(&mut s, '/');
    s.append(rel);
    s
}

} // verus!
