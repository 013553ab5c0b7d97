//! File paths as character sequences, read as `std::path` reads them on
//! the platform at hand, which is a [`PathStyle`]:
//! - on Unix, `/` separates components and a leading `/` is the root;
//! - on Windows, `/` and `\` both separate components, and a drive such as
//!   `C:` may come first, with the root (if any) just after it.
//!
//! On both, a `.` component at the start (after the drive) stands for the
//! current directory, and empty or `.` components elsewhere are ignored.
//!
//! Of Windows prefixes only drives are read: a network (`\\server\share`),
//! verbatim (`\\?\`) or device (`\\.\`) prefix reads here as a root
//! followed by ordinary components.
//!
//! The spec functions here describe what `Path::file_name`, `Path::parent`,
//! `Path::file_stem`, `Path::extension` and `Path::join` return, within the
//! limit above; the executable functions compute exactly that.
use vstd::prelude::*;
use crate::text::{chars_of, push_char, string_of};

verus! {

/// How paths are read: as on Unix, or as on Windows.
#[derive(Debug, Clone, Copy, PartialEq, Eq, Structural)]
pub enum PathStyle {
    /// `/` alone separates components.
    Unix,
    /// `/` and `\` separate components, and a drive letter with `:` may lead.
    Windows,
}

/// `\` separates path components on this platform (`std::path::is_separator`).
/// Nothing is claimed of the answer: it is the platform's.
#[verifier::external_body]
fn is_platform_separator(c: char) -> bool {
    std::path::is_separator(c)
}

impl PathStyle {
    /// The style of the platform the library runs on: Windows exactly when
    /// `\` separates path components there.
    pub fn host() -> (s: PathStyle) {
        if is_platform_separator('\\') {
            PathStyle::Windows
        } else {
            PathStyle::Unix
        }
    }
}

/// `c` separates path components in the style `style`.
pub open spec fn is_sep(style: PathStyle, c: char) -> bool {
    c == '/' || (style == PathStyle::Windows && c == '\\')
}

/// The separator that `join` inserts: `/` on Unix, `\` on Windows.
pub open spec fn main_sep(style: PathStyle) -> char {
    match style {
        PathStyle::Unix => '/',
        PathStyle::Windows => '\\',
    }
}

/// An ASCII letter.
pub open spec fn is_ascii_letter(c: char) -> bool {
    (97 <= (c as u32) && (c as u32) <= 122) || (65 <= (c as u32) && (c as u32) <= 90)
}

/// The path starts with a drive, such as `C:` (Windows only).
pub open spec fn has_drive(style: PathStyle, s: Seq<char>) -> bool {
    style == PathStyle::Windows && s.len() >= 2 && is_ascii_letter(s[0]) && s[1] == ':'
}

/// Length of the drive in front of the path: 2, or 0 without one.
pub open spec fn prefix_len(style: PathStyle, s: Seq<char>) -> int {
    if has_drive(style, s) {
        2
    } else {
        0
    }
}

/// The path has a root directory: a separator right after the drive (if any).
pub open spec fn has_root(style: PathStyle, s: Seq<char>) -> bool {
    s.len() > prefix_len(style, s) && is_sep(style, s[prefix_len(style, s)])
}

/// The path starts (after the drive) with a `.` component: `.` alone, or `.`
/// followed by a separator.
pub open spec fn lead_cur_dir(style: PathStyle, s: Seq<char>) -> bool {
    let p = prefix_len(style, s);
    &&& !has_root(style, s)
    &&& s.len() > p
    &&& s[p] == '.'
    &&& (s.len() == p + 1 || is_sep(style, s[p + 1]))
}

/// Index where the components after the drive, the root or the leading `.`
/// begin.
pub open spec fn body_start(style: PathStyle, s: Seq<char>) -> int {
    prefix_len(style, s) + if has_root(style, s) || lead_cur_dir(style, s) {
        1int
    } else {
        0int
    }
}

/// Start of the last segment of `s[b..end]`: just after its last separator,
/// or `b`.
pub open spec fn seg_start(style: PathStyle, s: Seq<char>, b: int, end: int) -> int
    decreases end - b,
{
    if end <= b {
        b
    } else if is_sep(style, s[end - 1]) {
        end
    } else {
        seg_start(style, s, b, end - 1)
    }
}

/// A segment that names no component: empty, or `.`.
pub open spec fn skippable(seg: Seq<char>) -> bool {
    seg.len() == 0 || seg == seq!['.']
}

/// Where the path ends once a last segment starting at `st` is removed,
/// together with the separator before it.
pub open spec fn cut(st: int, b: int) -> int {
    if st > b {
        st - 1
    } else {
        st
    }
}

/// Bounds of `seg_start`.
pub proof fn lemma_seg_start(style: PathStyle, s: Seq<char>, b: int, end: int)
    requires
        0 <= b <= end <= s.len(),
    ensures
        b <= seg_start(style, s, b, end) <= end,
        seg_start(style, s, b, end) > b ==> is_sep(style, s[seg_start(style, s, b, end) - 1]),
        forall|k: int| seg_start(style, s, b, end) <= k < end ==> !is_sep(style, s[k]),
    decreases end - b,
{
    if end > b && !is_sep(style, s[end - 1]) {
        lemma_seg_start(style, s, b, end - 1);
    }
}

/// End of `s[..end]` once trailing empty and `.` segments after `b` are removed.
pub open spec fn trim_tail(style: PathStyle, s: Seq<char>, b: int, end: int) -> int
    decreases end - b,
{
    if end <= b || b < 0 || end > s.len() {
        end
    } else {
        let st = seg_start(style, s, b, end);
        if skippable(s.subrange(st, end)) {
            proof {
                lemma_seg_start(style, s, b, end);
            }
            trim_tail(style, s, b, cut(st, b))
        } else {
            end
        }
    }
}

/// Bounds of `trim_tail`, and that it stops before a component.
pub proof fn lemma_trim_tail(style: PathStyle, s: Seq<char>, b: int, end: int)
    requires
        0 <= b <= end <= s.len(),
    ensures
        b <= trim_tail(style, s, b, end) <= end,
        trim_tail(style, s, b, end) > b ==> !skippable(
            s.subrange(seg_start(style, s, b, trim_tail(style, s, b, end)), trim_tail(style, s, b, end)),
        ),
    decreases end - b,
{
    if end > b {
        lemma_seg_start(style, s, b, end);
        let st = seg_start(style, s, b, end);
        if skippable(s.subrange(st, end)) {
            lemma_trim_tail(style, s, b, cut(st, b));
        }
    }
}

/// End of the path once trailing separators and `.` segments are removed.
pub open spec fn last_end(style: PathStyle, s: Seq<char>) -> int {
    trim_tail(style, s, body_start(style, s), s.len() as int)
}

/// The final component of the path, when it is a name (`Path::file_name`).
pub open spec fn file_name(style: PathStyle, s: Seq<char>) -> Option<Seq<char>> {
    let b = body_start(style, s);
    let e = last_end(style, s);
    if e > b {
        let seg = s.subrange(seg_start(style, s, b, e), e);
        if seg == seq!['.', '.'] {
            None
        } else {
            Some(seg)
        }
    } else {
        None
    }
}

/// The path without its final component (`Path::parent`); `None` for a
/// path that is only a drive, a root, or both, and for the empty path.
pub open spec fn parent(style: PathStyle, s: Seq<char>) -> Option<Seq<char>> {
    let b = body_start(style, s);
    let e = last_end(style, s);
    if e > b {
        Some(s.subrange(0, trim_tail(style, s, b, cut(seg_start(style, s, b, e), b))))
    } else if lead_cur_dir(style, s) {
        Some(s.subrange(0, prefix_len(style, s)))
    } else {
        None
    }
}

/// Index of the last `.` in `n`, or `-1`.
pub open spec fn last_dot(n: Seq<char>) -> int
    decreases n.len(),
{
    if n.len() == 0 {
        -1
    } else if n.last() == '.' {
        n.len() - 1
    } else {
        last_dot(n.drop_last())
    }
}

/// The part of a file name before its extension (as in `Path::file_stem`).
pub open spec fn stem_of(n: Seq<char>) -> Seq<char> {
    if n == seq!['.', '.'] || last_dot(n) <= 0 {
        n
    } else {
        n.take(last_dot(n))
    }
}

/// The extension of a file name, after its last `.` (as in `Path::extension`);
/// none when there is no `.` or the only one leads the name.
pub open spec fn ext_of(n: Seq<char>) -> Option<Seq<char>> {
    if n == seq!['.', '.'] || last_dot(n) <= 0 {
        None
    } else {
        Some(n.skip(last_dot(n) + 1))
    }
}

/// `Path::file_stem`.
pub open spec fn file_stem(style: PathStyle, s: Seq<char>) -> Option<Seq<char>> {
    match file_name(style, s) {
        Some(n) => Some(stem_of(n)),
        None => None,
    }
}

/// `Path::extension`.
pub open spec fn extension(style: PathStyle, s: Seq<char>) -> Option<Seq<char>> {
    match file_name(style, s) {
        Some(n) => ext_of(n),
        None => None,
    }
}

/// `join` puts a separator between `base` and a relative name: `base` is
/// not empty, does not end in a separator, and is not a bare drive.
pub open spec fn needs_sep(style: PathStyle, base: Seq<char>) -> bool {
    &&& base.len() > 0
    &&& !is_sep(style, base.last())
    &&& !(has_drive(style, base) && base.len() == 2)
}

/// `base.join(name)`: a `name` with a drive replaces `base`; one with a root
/// keeps only `base`'s drive; otherwise `name` follows `base`, with a
/// separator between them where [`needs_sep`] says so.
pub open spec fn join(style: PathStyle, base: Seq<char>, name: Seq<char>) -> Seq<char> {
    if has_drive(style, name) {
        name
    } else if has_root(style, name) {
        base.subrange(0, prefix_len(style, base)) + name
    } else if needs_sep(style, base) {
        base.push(main_sep(style)) + name
    } else {
        base + name
    }
}

/// Whether `c` separates path components in the style `style`.
pub fn is_separator_in(style: PathStyle, c: char) -> (b: bool)
    ensures
        b == is_sep(style, c),
{
    match style {
        PathStyle::Unix => c == '/',
        PathStyle::Windows => c == '/' || c == '\\',
    }
}

/// The separator that `join` inserts in the style `style`.
pub fn main_separator(style: PathStyle) -> (c: char)
    ensures
        c == main_sep(style),
{
    match style {
        PathStyle::Unix => '/',
        PathStyle::Windows => '\\',
    }
}

fn is_ascii_letter_char(c: char) -> (b: bool)
    ensures
        b == is_ascii_letter(c),
{
    let v = c as u32;
    (97 <= v && v <= 122) || (65 <= v && v <= 90)
}

pub(crate) fn prefix_len_of(style: PathStyle, s: &[char]) -> (p: usize)
    ensures
        p == prefix_len(style, s@),
        p <= s@.len(),
{
    match style {
        PathStyle::Unix => 0,
        PathStyle::Windows => if s.len() >= 2 && is_ascii_letter_char(s[0]) && s[1] == ':' {
            2
        } else {
            0
        },
    }
}

/// Whether the path has a root, and whether it starts with a `.` component.
fn root_and_cur_dir(style: PathStyle, s: &[char], p: usize) -> (r: (bool, bool))
    requires
        p == prefix_len(style, s@),
    ensures
        r.0 == has_root(style, s@),
        r.1 == lead_cur_dir(style, s@),
{
    let root = s.len() > p && is_separator_in(style, s[p]);
    let cur = !root && s.len() > p && s[p] == '.' && (s.len() == p + 1 || is_separator_in(style, s[p + 1]));
    (root, cur)
}

fn body_start_of(style: PathStyle, s: &[char]) -> (b: usize)
    ensures
        b == body_start(style, s@),
        b <= s@.len(),
{
    let p = prefix_len_of(style, s);
    let (root, cur) = root_and_cur_dir(style, s, p);
    if root || cur {
        p + 1
    } else {
        p
    }
}

fn seg_start_of(style: PathStyle, s: &[char], b: usize, end: usize) -> (st: usize)
    requires
        b <= end <= s@.len(),
    ensures
        st == seg_start(style, s@, b as int, end as int),
        b <= st <= end,
{
    proof {
        lemma_seg_start(style, s@, b as int, end as int);
    }
    let mut j = end;
    while j > b && !is_separator_in(style, s[j - 1])
        invariant
            b <= j <= end <= s@.len(),
            seg_start(style, s@, b as int, j as int) == seg_start(style, s@, b as int, end as int),
        decreases j,
    {
        j -= 1;
    }
    j
}

fn trim_tail_of(style: PathStyle, s: &[char], b: usize, end: usize) -> (e: usize)
    requires
        b <= end <= s@.len(),
    ensures
        e == trim_tail(style, s@, b as int, end as int),
        b <= e <= end,
{
    proof {
        lemma_trim_tail(style, s@, b as int, end as int);
    }
    let mut e = end;
    loop
        invariant
            b <= e <= end <= s@.len(),
            trim_tail(style, s@, b as int, e as int) == trim_tail(style, s@, b as int, end as int),
        decreases e,
    {
        if e <= b {
            return e;
        }
        let st = seg_start_of(style, s, b, e);
        let skip = st == e || (e - st == 1 && s[st] == '.');
        proof {
            let seg = s@.subrange(st as int, e as int);
            if e - st == 1 && s@[st as int] == '.' {
                assert(seg =~= seq!['.']);
            }
            if seg == seq!['.'] {
                assert(seg.len() == 1 && seg[0] == '.');
            }
            assert(skip == skippable(seg));
        }
        if !skip {
            return e;
        }
        e = if st > b { st - 1 } else { st };
    }
}

/// Bounds `(lo, hi)` of the file name within the path, when there is one.
fn file_name_range(style: PathStyle, s: &[char]) -> (r: Option<(usize, usize)>)
    ensures
        r matches Some((lo, hi)) ==> lo <= hi <= s@.len() && file_name(style, s@) == Some(
            s@.subrange(lo as int, hi as int),
        ),
        r is None ==> file_name(style, s@) is None,
{
    let b = body_start_of(style, s);
    let e = trim_tail_of(style, s, b, s.len());
    if e > b {
        let st = seg_start_of(style, s, b, e);
        let dotdot = e - st == 2 && s[st] == '.' && s[st + 1] == '.';
        proof {
            let seg = s@.subrange(st as int, e as int);
            if dotdot {
                assert(seg =~= seq!['.', '.']);
            }
            if seg == seq!['.', '.'] {
                assert(seg.len() == 2 && seg[0] == '.' && seg[1] == '.');
            }
        }
        if dotdot {
            None
        } else {
            Some((st, e))
        }
    } else {
        None
    }
}

/// Length of the parent prefix of the path, when it has a parent.
fn parent_len(style: PathStyle, s: &[char]) -> (r: Option<usize>)
    ensures
        r matches Some(k) ==> k <= s@.len() && parent(style, s@) == Some(s@.subrange(0, k as int)),
        r is None ==> parent(style, s@) is None,
{
    let b = body_start_of(style, s);
    let e = trim_tail_of(style, s, b, s.len());
    if e > b {
        let st = seg_start_of(style, s, b, e);
        let c = if st > b { st - 1 } else { st };
        Some(trim_tail_of(style, s, b, c))
    } else {
        let p = prefix_len_of(style, s);
        let (_, cur) = root_and_cur_dir(style, s, p);
        if cur {
            Some(p)
        } else {
            None
        }
    }
}

/// Index of the last `.` in `n[lo..hi]` relative to `lo`, as in [`last_dot`].
fn last_dot_of(n: &[char], lo: usize, hi: usize) -> (d: Option<usize>)
    requires
        lo <= hi <= n@.len(),
    ensures
        d matches Some(k) ==> k < hi - lo && last_dot(n@.subrange(lo as int, hi as int)) == k,
        d is None ==> last_dot(n@.subrange(lo as int, hi as int)) == -1,
{
    let mut j = hi;
    while j > lo && n[j - 1] != '.'
        invariant
            lo <= j <= hi <= n@.len(),
            last_dot(n@.subrange(lo as int, j as int)) == last_dot(n@.subrange(lo as int, hi as int)),
        decreases j,
    {
        assert(n@.subrange(lo as int, j as int).drop_last() =~= n@.subrange(lo as int, j - 1));
        j -= 1;
    }
    if j > lo {
        Some(j - 1 - lo)
    } else {
        None
    }
}

/// The final component of `path`, when it is a name (`Path::file_name`).
pub fn path_file_name(style: PathStyle, path: &str) -> (r: Option<String>)
    ensures
        r matches Some(n) ==> file_name(style, path@) == Some(n@),
        r is None ==> file_name(style, path@) is None,
{
    let s = chars_of(path);
    match file_name_range(style, &s) {
        Some((lo, hi)) => Some(string_of(slice_range(&s, lo, hi))),
        None => None,
    }
}

/// `path` without its final component (`Path::parent`).
pub fn path_parent(style: PathStyle, path: &str) -> (r: Option<String>)
    ensures
        r matches Some(p) ==> parent(style, path@) == Some(p@),
        r is None ==> parent(style, path@) is None,
{
    let s = chars_of(path);
    match parent_len(style, &s) {
        Some(k) => Some(string_of(slice_range(&s, 0, k))),
        None => None,
    }
}

/// Bounds of the stem and of the extension (if any) of the name `n[lo..hi]`.
fn split_name(n: &[char], lo: usize, hi: usize) -> (r: (usize, Option<usize>))
    requires
        lo <= hi <= n@.len(),
    ensures
        lo <= r.0 <= hi,
        stem_of(n@.subrange(lo as int, hi as int)) == n@.subrange(lo as int, r.0 as int),
        r.1 matches Some(x) ==> r.0 < x <= hi && ext_of(n@.subrange(lo as int, hi as int)) == Some(
            n@.subrange(x as int, hi as int),
        ),
        r.1 is None ==> ext_of(n@.subrange(lo as int, hi as int)) is None,
{
    let ghost name = n@.subrange(lo as int, hi as int);
    let dotdot = hi - lo == 2 && n[lo] == '.' && n[lo + 1] == '.';
    proof {
        if dotdot {
            assert(name =~= seq!['.', '.']);
        }
        if name == seq!['.', '.'] {
            assert(name.len() == 2 && name[0] == '.' && name[1] == '.');
        }
    }
    if dotdot {
        return (hi, None);
    }
    match last_dot_of(n, lo, hi) {
        Some(d) if d > 0 => {
            assert(name.take(d as int) =~= n@.subrange(lo as int, lo + d));
            assert(name.skip(d + 1) =~= n@.subrange(lo + d + 1, hi as int));
            (lo + d, Some(lo + d + 1))
        },
        _ => (hi, None),
    }
}

/// The name of the path's final component without its extension (`Path::file_stem`).
pub fn path_file_stem(style: PathStyle, path: &str) -> (r: Option<String>)
    ensures
        r matches Some(n) ==> file_stem(style, path@) == Some(n@),
        r is None ==> file_stem(style, path@) is None,
{
    let s = chars_of(path);
    match file_name_range(style, &s) {
        Some((lo, hi)) => {
            let (st, _) = split_name(&s, lo, hi);
            Some(string_of(slice_range(&s, lo, st)))
        },
        None => None,
    }
}

/// The extension of the path's final component (`Path::extension`).
pub fn path_extension(style: PathStyle, path: &str) -> (r: Option<String>)
    ensures
        r matches Some(n) ==> extension(style, path@) == Some(n@),
        r is None ==> extension(style, path@) is None,
{
    let s = chars_of(path);
    match file_name_range(style, &s) {
        Some((lo, hi)) => {
            let (_, x) = split_name(&s, lo, hi);
            match x {
                Some(x) => Some(string_of(slice_range(&s, x, hi))),
                None => None,
            }
        },
        None => None,
    }
}

/// `base.join(name)` (`Path::join`).
pub fn path_join(style: PathStyle, base: &str, name: &str) -> (r: String)
    ensures
        r@ == join(style, base@, name@),
{
    let b = chars_of(base);
    let n = chars_of(name);
    let np = prefix_len_of(style, &n);
    if np > 0 {
        return string_of(&n);
    }
    let mut r;
    if n.len() > 0 && is_separator_in(style, n[0]) {
        let bp = prefix_len_of(style, &b);
        r = string_of(slice_range(&b, 0, bp));
    } else {
        r = string_of(&b);
        let bp = prefix_len_of(style, &b);
        if b.len() > 0 && !is_separator_in(style, b[b.len() - 1]) && !(bp == 2 && b.len() == 2) {
            push_char(&mut r, main_separator(style));
        }
    }
    let mut i: usize = 0;
    let ghost r0 = r@;
    while i < n.len()
        invariant
            i <= n@.len(),
            r@ == r0 + n@.take(i as int),
        decreases n.len() - i,
    {
        push_char(&mut r, n[i]);
        assert(n@.take(i + 1) =~= n@.take(i as int).push(n@[i as int]));
        i += 1;
    }
    assert(n@.take(n@.len() as int) =~= n@);
    r
}

/// No separator occurs in `n`.
pub open spec fn no_sep(style: PathStyle, n: Seq<char>) -> bool {
    forall|k: int| 0 <= k < n.len() ==> !is_sep(style, #[trigger] n[k])
}

/// If `s[k-1]` is a separator and none occurs in `s[k..end]`, the last
/// segment of `s[b..end]` starts at `k`.
pub proof fn lemma_seg_start_at(style: PathStyle, s: Seq<char>, b: int, k: int, end: int)
    requires
        0 <= b < k <= end <= s.len(),
        is_sep(style, s[k - 1]),
        forall|j: int| k <= j < end ==> !is_sep(style, #[trigger] s[j]),
    ensures
        seg_start(style, s, b, end) == k,
    decreases end - k,
{
    if end > k {
        lemma_seg_start_at(style, s, b, k, end - 1);
    }
}

/// With no separator in `s[j..end]`, the last segment of `s[b..end]`
/// starts where that of `s[b..j]` does.
proof fn lemma_seg_start_skip(style: PathStyle, s: Seq<char>, b: int, j: int, end: int)
    requires
        0 <= b <= j <= end <= s.len(),
        forall|i: int| j <= i < end ==> !is_sep(style, #[trigger] s[i]),
    ensures
        seg_start(style, s, b, end) == seg_start(style, s, b, j),
    decreases end - j,
{
    if end > j {
        lemma_seg_start_skip(style, s, b, j, end - 1);
    }
}

/// `seg_start` reads nothing past `end`.
proof fn lemma_seg_start_prefix(style: PathStyle, s: Seq<char>, t: Seq<char>, b: int, end: int)
    requires
        0 <= b <= end <= s.len(),
        end <= t.len(),
        forall|j: int| 0 <= j < end ==> s[j] == t[j],
    ensures
        seg_start(style, s, b, end) == seg_start(style, t, b, end),
    decreases end - b,
{
    if end > b && !is_sep(style, s[end - 1]) {
        lemma_seg_start_prefix(style, s, t, b, end - 1);
    }
}

/// `trim_tail` reads nothing past `end`.
proof fn lemma_trim_tail_prefix(style: PathStyle, s: Seq<char>, t: Seq<char>, b: int, end: int)
    requires
        0 <= b <= end <= s.len(),
        end <= t.len(),
        forall|j: int| 0 <= j < end ==> s[j] == t[j],
    ensures
        trim_tail(style, s, b, end) == trim_tail(style, t, b, end),
    decreases end - b,
{
    if end > b {
        lemma_seg_start_prefix(style, s, t, b, end);
        lemma_seg_start(style, s, b, end);
        let st = seg_start(style, s, b, end);
        assert(s.subrange(st, end) =~= t.subrange(st, end));
        if skippable(s.subrange(st, end)) {
            lemma_trim_tail_prefix(style, s, t, b, cut(st, b));
        }
    }
}

/// A file name holds no separator.
pub proof fn lemma_file_name_no_sep(style: PathStyle, s: Seq<char>)
    ensures
        file_name(style, s) matches Some(n) ==> no_sep(style, n) && n.len() > 0,
{
    let b = body_start(style, s);
    let e = last_end(style, s);
    assert(b <= s.len());
    lemma_trim_tail(style, s, b, s.len() as int);
    if e > b {
        lemma_seg_start(style, s, b, e);
        let st = seg_start(style, s, b, e);
        let seg = s.subrange(st, e);
        assert forall|k: int| 0 <= k < seg.len() implies !is_sep(style, #[trigger] seg[k]) by {
            assert(seg[k] == s[st + k]);
        }
    }
}

/// Joining a plain name onto a directory whose last character is neither a
/// separator, nor a dot, nor the colon of a drive: the name is the file name
/// of the result, and the directory its parent.
pub proof fn lemma_join_name(style: PathStyle, q: Seq<char>, n: Seq<char>)
    requires
        q.len() > 0,
        !is_sep(style, q.last()),
        q.last() != '.',
        q.last() != ':',
        n.len() > 0,
        no_sep(style, n),
        !has_drive(style, n),
        n != seq!['.'],
        n != seq!['.', '.'],
    ensures
        join(style, q, n) == q.push(main_sep(style)) + n,
        file_name(style, join(style, q, n)) == Some(n),
        parent(style, join(style, q, n)) == Some(q),
{
    let o = q.push(main_sep(style)) + n;
    assert(!is_sep(style, n[0]));
    assert(!has_root(style, n));
    assert(!(has_drive(style, q) && q.len() == 2)) by {
        if has_drive(style, q) && q.len() == 2 {
            assert(q[1] == q.last());
        }
    }
    assert(join(style, q, n) == o);
    let b = body_start(style, o);
    let ql = q.len() as int;
    assert(o.len() == ql + 1 + n.len());
    assert(o[ql] == main_sep(style));
    assert forall|j: int| 0 <= j < ql implies o[j] == q[j] by {}
    assert forall|j: int| ql + 1 <= j < o.len() implies o[j] == n[j - ql - 1] by {}
    assert(b <= ql) by {
        if has_drive(style, o) {
            if ql == 1 {
                assert(o[1] == main_sep(style));
            }
            if ql == 2 {
                assert(o[1] == q[1]);
            }
        }
    }
    // The last segment of the joined path is `n`.
    assert forall|j: int| ql + 1 <= j < o.len() implies !is_sep(style, #[trigger] o[j]) by {
        assert(o[j] == n[j - ql - 1]);
    }
    lemma_seg_start_at(style, o, b, ql + 1, o.len() as int);
    assert(o.subrange(ql + 1, o.len() as int) =~= n);
    assert(!skippable(n));
    assert(last_end(style, o) == o.len());
    // Before it comes `q`, whose last segment is not skippable.
    assert(cut(ql + 1, b) == ql);
    assert(trim_tail(style, o, b, ql) == ql) by {
        if b < ql {
            lemma_seg_start(style, o, b, ql);
            let st = seg_start(style, o, b, ql);
            assert(st < ql) by {
                if st == ql {
                    assert(o[ql - 1] == q.last());
                }
            }
            let seg = o.subrange(st, ql);
            assert(seg.last() == q.last());
            assert(!skippable(seg)) by {
                if seg == seq!['.'] {
                    assert(seg.last() == '.');
                }
            }
        }
    }
    assert(o.subrange(0, ql) =~= q);
}

/// Joining a relative name onto a directory gives a longer path ending
/// with the name.
pub proof fn lemma_join_relative(style: PathStyle, p: Seq<char>, d: Seq<char>)
    requires
        d.len() > 0,
        !has_root(style, d),
        !has_drive(style, d),
    ensures
        join(style, p, d).len() > p.len(),
        join(style, p, d).last() == d.last(),
{
}

/// A path with a file name has a parent and a file stem.
pub proof fn lemma_named_file_has_parent(style: PathStyle, s: Seq<char>)
    ensures
        file_name(style, s) is Some ==> parent(style, s) is Some && file_stem(style, s) is Some,
        extension(style, s) is Some ==> file_name(style, s) is Some,
{
}

/// A file stem holds no separator and is not empty.
pub proof fn lemma_file_stem_no_sep(style: PathStyle, s: Seq<char>)
    ensures
        file_stem(style, s) matches Some(t) ==> no_sep(style, t) && t.len() > 0,
{
    lemma_file_name_no_sep(style, s);
    if let Some(n) = file_name(style, s) {
        let t = stem_of(n);
        if !(n == seq!['.', '.'] || last_dot(n) <= 0) {
            lemma_last_dot(n);
            assert forall|k: int| 0 <= k < t.len() implies !is_sep(style, #[trigger] t[k]) by {
                assert(t[k] == n[k]);
            }
        }
    }
}

/// Bounds of `last_dot`.
pub proof fn lemma_last_dot(n: Seq<char>)
    ensures
        -1 <= last_dot(n) < n.len(),
        last_dot(n) >= 0 ==> n[last_dot(n)] == '.',
    decreases n.len(),
{
    if n.len() > 0 && n.last() != '.' {
        lemma_last_dot(n.drop_last());
    }
}

/// A file put, under the name `n`, in the folder `d` next to the path whose
/// parent is `p`: its file name is `n`, its parent is `p` joined with `d`,
/// and it is not the path itself.
pub proof fn lemma_output_in_subfolder(style: PathStyle, src: Seq<char>, d: Seq<char>, n: Seq<char>)
    requires
        parent(style, src) is Some,
        d.len() > 0,
        !has_root(style, d),
        !has_drive(style, d),
        !is_sep(style, d.last()),
        d.last() != '.',
        d.last() != ':',
        n.len() > 0,
        no_sep(style, n),
        !has_drive(style, n),
        n != seq!['.'],
        n != seq!['.', '.'],
    ensures
        file_name(style, join(style, join(style, parent(style, src)->0, d), n)) == Some(n),
        parent(style, join(style, join(style, parent(style, src)->0, d), n)) == Some(join(style, parent(style, src)->0, d)),
        join(style, join(style, parent(style, src)->0, d), n) != src,
{
    let p = parent(style, src)->0;
    let q = join(style, p, d);
    lemma_join_relative(style, p, d);
    lemma_join_name(style, q, n);
    assert(q != p);
}

/// What `join(dir, n)` puts before `n`: nothing when `n` has a drive,
/// `dir`'s drive when `n` has a root, and otherwise `dir` with a separator
/// added where [`needs_sep`] says so.
pub open spec fn join_head(style: PathStyle, dir: Seq<char>, n: Seq<char>) -> Seq<char> {
    if has_drive(style, n) {
        Seq::<char>::empty()
    } else if has_root(style, n) {
        dir.subrange(0, prefix_len(style, dir))
    } else if needs_sep(style, dir) {
        dir.push(main_sep(style))
    } else {
        dir
    }
}

/// Two paths that agree on their first `j` characters, and go on past
/// them, have the same drive, root and leading `.`, provided those lie
/// within the `j` characters.
proof fn lemma_body_start_prefix(style: PathStyle, s: Seq<char>, t: Seq<char>, j: int)
    requires
        2 <= j < s.len(),
        j < t.len(),
        forall|i: int| 0 <= i < j ==> s[i] == t[i],
        has_drive(style, s) ==> j >= 4,
    ensures
        prefix_len(style, s) == prefix_len(style, t),
        has_root(style, s) == has_root(style, t),
        lead_cur_dir(style, s) == lead_cur_dir(style, t),
        body_start(style, s) == body_start(style, t),
{
    assert(s[0] == t[0] && s[1] == t[1]);
    if has_drive(style, s) {
        assert(s[2] == t[2] && s[3] == t[3]);
    }
}

/// Joining `stem.e` onto `dir`, for a stem that ends in a name and an
/// extension without `.` or separator: what comes before the name does not
/// depend on `e`, and the drive, root and leading `.` of the result end
/// before the stem's last character.
proof fn lemma_join_stem_ext(style: PathStyle, dir: Seq<char>, stem: Seq<char>, e: Seq<char>)
    requires
        needs_sep(style, stem),
        e.len() > 0,
        no_sep(style, e),
        forall|j: int| 0 <= j < e.len() ==> e[j] != '.',
    ensures
        join(style, dir, stem.push('.') + e) == join_head(style, dir, stem.push('.')) + (stem.push('.') + e),
        has_drive(style, join(style, dir, stem.push('.') + e)) ==> join_head(style, dir, stem.push('.')).len()
            + stem.len() + 1 >= 4,
        body_start(style, join(style, dir, stem.push('.') + e)) < join_head(style, dir, stem.push('.')).len()
            + stem.len(),
{
    let d = stem.push('.');
    let n = d + e;
    let l = stem.len() as int;
    assert forall|i: int| 0 <= i <= l implies n[i] == d[i] by {}
    assert(has_drive(style, n) == has_drive(style, d)) by {
        assert(n[0] == d[0] && n[1] == d[1]);
    }
    assert(has_drive(style, d) ==> l >= 3) by {
        if has_drive(style, d) && l < 3 {
            if l == 1 {
                assert(d[1] == '.');
            } else {
                assert(stem[0] == d[0] && stem[1] == d[1]);
            }
        }
    }
    assert(has_root(style, n) == has_root(style, d)) by {
        if has_drive(style, d) {
            assert(n[2] == d[2]);
        }
    }
    let h = join_head(style, dir, d);
    assert(join(style, dir, n) =~= h + n);
    let s = h + n;
    let hl = h.len() as int;
    let m = hl + l + 1;
    assert(h.len() == 1 ==> is_sep(style, h[0])) by {
        if h.len() == 1 {
            assert(!needs_sep(style, dir) && h == dir);
            assert(h[0] == dir.last());
        }
    }
    assert(s[m - 1] == '.') by {
        assert(s[m - 1] == n[l]);
    }
    assert(s[m - 2] == stem.last()) by {
        assert(s[m - 2] == n[l - 1]);
    }
    assert(has_drive(style, s) ==> m >= 4) by {
        if has_drive(style, s) && m < 4 {
            if hl == 0 {
                assert(s[0] == n[0] && s[1] == n[1]);
            } else if hl == 1 {
                assert(s[0] == h[0]);
            }
        }
    }
    let bs = body_start(style, s);
    let p = prefix_len(style, s);
    assert(bs < m - 1) by {
        if bs >= m - 1 {
            if m - 2 == p {
                assert(s[p + 1] == '.');
            } else if m - 2 == 1 && p == 2 {
                if hl == 0 {
                    assert(s[0] == stem[0] && s[1] == stem[1]);
                } else {
                    assert(s[0] == h[0]);
                }
            } else if m - 2 == 0 && p == 2 {
                assert(s[1] == '.');
            }
        }
    }
}

/// Two paths that agree on their first `m` characters, the last of them a
/// `.` after a non-separator past the drive, root and leading `.`, and then
/// go on with extensions (non-empty, no `.`, no separator): they share
/// their parent and their file stem.
proof fn lemma_same_but_extension(style: PathStyle, s1: Seq<char>, s2: Seq<char>, m: int, e1: Seq<char>, e2: Seq<char>)
    requires
        2 <= m,
        e1.len() > 0,
        e2.len() > 0,
        s1.len() == m + e1.len(),
        s2.len() == m + e2.len(),
        forall|i: int| 0 <= i < m ==> s1[i] == s2[i],
        forall|i: int| 0 <= i < e1.len() ==> s1[m + i] == e1[i],
        forall|i: int| 0 <= i < e2.len() ==> s2[m + i] == e2[i],
        s1[m - 1] == '.',
        !is_sep(style, s1[m - 2]),
        no_sep(style, e1),
        no_sep(style, e2),
        forall|j: int| 0 <= j < e1.len() ==> e1[j] != '.',
        forall|j: int| 0 <= j < e2.len() ==> e2[j] != '.',
        has_drive(style, s1) ==> m >= 4,
        body_start(style, s1) < m - 1,
    ensures
        parent(style, s1) is Some,
        parent(style, s1) == parent(style, s2),
        file_stem(style, s1) is Some,
        file_stem(style, s1) == file_stem(style, s2),
{
    assert forall|i: int| m - 1 <= i < s1.len() implies !is_sep(style, #[trigger] s1[i]) by {
        if i >= m {
            assert(s1[m + (i - m)] == e1[i - m]);
        }
    }
    assert forall|i: int| m - 1 <= i < s2.len() implies !is_sep(style, #[trigger] s2[i]) by {
        if i >= m {
            assert(s2[m + (i - m)] == e2[i - m]);
        }
    }
    lemma_body_start_prefix(style, s1, s2, m);
    let b = body_start(style, s1);
    lemma_seg_start_skip(style, s1, b, m - 1, s1.len() as int);
    lemma_seg_start_skip(style, s2, b, m - 1, s2.len() as int);
    lemma_seg_start_prefix(style, s1, s2, b, m - 1);
    lemma_seg_start(style, s1, b, m - 1);
    let k = seg_start(style, s1, b, m - 1);
    assert(k < m - 1) by {
        if k == m - 1 {
            assert(is_sep(style, s1[m - 2]));
        }
    }
    let t = s1.subrange(k, m - 1);
    assert(t.len() > 0);
    let n1 = t.push('.') + e1;
    let n2 = t.push('.') + e2;
    assert(s1.subrange(k, s1.len() as int) =~= n1);
    assert(s2.subrange(k, m - 1) =~= t);
    assert(s2.subrange(k, s2.len() as int) =~= n2);
    assert(!skippable(n1) && n1.len() >= 3);
    assert(!skippable(n2) && n2.len() >= 3);
    assert(trim_tail(style, s1, b, s1.len() as int) == s1.len());
    assert(trim_tail(style, s2, b, s2.len() as int) == s2.len());
    lemma_last_dot_before_ext(t, e1);
    lemma_last_dot_before_ext(t, e2);
    assert(n1.take(t.len() as int) =~= t);
    assert(n2.take(t.len() as int) =~= t);
    assert(file_stem(style, s1) == Some(t));
    assert(file_stem(style, s2) == Some(t));
    let c = cut(k, b);
    lemma_trim_tail_prefix(style, s1, s2, b, c);
    lemma_trim_tail(style, s1, b, c);
    let r = trim_tail(style, s1, b, c);
    assert(s1.subrange(0, r) =~= s2.subrange(0, r));
}

/// Two files of one stem in one folder, that differ only in their
/// extensions (each non-empty, without `.` or separator), share their
/// parent and their file stem, for any stem that ends in a name: one that
/// is not empty, does not end in a separator and is not a bare drive.
pub proof fn lemma_join_other_extension(
    style: PathStyle,
    dir: Seq<char>,
    stem: Seq<char>,
    e1: Seq<char>,
    e2: Seq<char>,
)
    requires
        needs_sep(style, stem),
        e1.len() > 0,
        e2.len() > 0,
        no_sep(style, e1),
        no_sep(style, e2),
        forall|j: int| 0 <= j < e1.len() ==> e1[j] != '.',
        forall|j: int| 0 <= j < e2.len() ==> e2[j] != '.',
    ensures
        parent(style, join(style, dir, stem.push('.') + e1)) is Some,
        parent(style, join(style, dir, stem.push('.') + e1)) == parent(style, join(style, dir, stem.push('.') + e2)),
        file_stem(style, join(style, dir, stem.push('.') + e1)) is Some,
        file_stem(style, join(style, dir, stem.push('.') + e1)) == file_stem(style, join(style, dir, stem.push('.') + e2)),
{
    lemma_join_stem_ext(style, dir, stem, e1);
    lemma_join_stem_ext(style, dir, stem, e2);
    let h = join_head(style, dir, stem.push('.'));
    let pre = h + stem.push('.');
    let m = pre.len() as int;
    let s1 = join(style, dir, stem.push('.') + e1);
    let s2 = join(style, dir, stem.push('.') + e2);
    assert(s1 =~= pre + e1);
    assert(s2 =~= pre + e2);
    assert forall|i: int| 0 <= i < m implies s1[i] == s2[i] by {
        assert(s1[i] == pre[i] && s2[i] == pre[i]);
    }
    assert(s1[m - 2] == stem.last());
    lemma_same_but_extension(style, s1, s2, m, e1, e2);
}

/// The last `.` of `x.e`, when `e` holds none, is the one after `x`.
proof fn lemma_last_dot_before_ext(x: Seq<char>, e: Seq<char>)
    requires
        forall|j: int| 0 <= j < e.len() ==> e[j] != '.',
    ensures
        last_dot(x.push('.') + e) == x.len(),
    decreases e.len(),
{
    let n = x.push('.') + e;
    if e.len() > 0 {
        assert(n.last() == e.last());
        assert(n.drop_last() =~= x.push('.') + e.drop_last());
        lemma_last_dot_before_ext(x, e.drop_last());
    } else {
        assert(n =~= x.push('.'));
    }
}

/// The characters `s[lo..hi]`.
pub fn slice_range(s: &[char], lo: usize, hi: usize) -> (r: &[char])
    requires
        lo <= hi <= s@.len(),
    ensures
        r@ == s@.subrange(lo as int, hi as int),
{
    vstd::slice::slice_subrange(s, lo, hi)
}

} // verus!
