//! Choosing, among the files found in a folder, those still to convert, and
//! adding up what a scan reports about them.
use vstd::prelude::*;
use crate::paths::{has_drive, is_sep, is_separator_in, prefix_len, prefix_len_of, PathStyle};
use crate::text::{chars_of, matches_at};

verus! {

/// What the caller found out about one file met while walking a folder.
pub struct ScanEntry {
    /// The file's path, as the directory walk gave it.
    pub path: String,
    /// It is a regular file.
    pub is_file: bool,
    /// Its size in bytes, when its metadata could be read.
    pub size: Option<u64>,
    /// Its converted version already exists.
    pub dest_exists: bool,
}

/// `name` is the segment of `s` that starts at `i`: it begins right after
/// the drive or a separator, and ends at the end of `s` or right before a
/// separator.
pub open spec fn segment_at(style: PathStyle, s: Seq<char>, name: Seq<char>, i: int) -> bool {
    &&& crate::text::occurs_at(s, name, i)
    &&& (i == prefix_len(style, s) || (i > 0 && is_sep(style, s[i - 1])))
    &&& (i + name.len() == s.len() || is_sep(style, s[i + name.len()]))
}

/// `name` is the drive of `s` or one of its separator-bounded segments. For
/// a name that is not empty, holds no separator and is neither `.` nor
/// `..`, this is whether one of the path's components is `name`.
pub open spec fn has_segment(style: PathStyle, s: Seq<char>, name: Seq<char>) -> bool {
    ||| (has_drive(style, s) && name == s.subrange(0, 2))
    ||| exists|i: int| #[trigger] segment_at(style, s, name, i)
}

/// Whether `name` is the drive of `path` or one of its segments.
pub fn path_has_segment(style: PathStyle, path: &str, name: &str) -> (b: bool)
    ensures
        b == has_segment(style, path@, name@),
{
    let s = chars_of(path);
    let w = chars_of(name);
    let p = prefix_len_of(style, &s);
    if p == 2 && w.len() == 2 && w[0] == s[0] && w[1] == s[1] {
        assert(w@ =~= s@.subrange(0, 2));
        return true;
    }
    assert(!(has_drive(style, s@) && w@ == s@.subrange(0, 2))) by {
        if has_drive(style, s@) && w@ == s@.subrange(0, 2) {
            assert(w@.len() == 2 && w@[0] == s@[0] && w@[1] == s@[1]);
        }
    }
    let mut i: usize = 0;
    loop
        invariant
            i <= s@.len(),
            s@ == path@,
            w@ == name@,
            p == prefix_len(style, s@),
            !(has_drive(style, s@) && w@ == s@.subrange(0, 2)),
            forall|k: int| 0 <= k < i ==> !#[trigger] segment_at(style, s@, w@, k),
        decreases s.len() - i,
    {
        if (i == p || (i > 0 && is_separator_in(style, s[i - 1]))) && matches_at(&s, i, &w) {
            if i + w.len() == s.len() || is_separator_in(style, s[i + w.len()]) {
                assert(segment_at(style, s@, w@, i as int));
                return true;
            }
        }
        if i == s.len() {
            assert forall|k: int| !#[trigger] segment_at(style, s@, w@, k) by {
                if segment_at(style, s@, w@, k) {
                    assert(k <= s@.len());
                }
            }
            return false;
        }
        i += 1;
    }
}

/// The paths of the first `n` entries whose key is set, in order.
pub open spec fn picked_paths(entries: Seq<ScanEntry>, keys: Seq<Option<Seq<char>>>, n: int) -> Seq<
    Seq<char>,
>
    decreases n,
{
    if n <= 0 {
        Seq::empty()
    } else if keys[n - 1] is Some {
        picked_paths(entries, keys, n - 1).push(entries[n - 1].path@)
    } else {
        picked_paths(entries, keys, n - 1)
    }
}

/// The total size of the first `n` entries whose key is set (an unknown
/// size counts as nothing).
pub open spec fn picked_total(entries: Seq<ScanEntry>, keys: Seq<Option<Seq<char>>>, n: int) -> int
    decreases n,
{
    if n <= 0 {
        0
    } else if keys[n - 1] is Some {
        picked_total(entries, keys, n - 1) + match entries[n - 1].size {
            Some(sz) => sz as int,
            None => 0,
        }
    } else {
        picked_total(entries, keys, n - 1)
    }
}

/// The distinct keys among the first `n`.
pub open spec fn picked_keys(keys: Seq<Option<Seq<char>>>, n: int) -> Set<Seq<char>> {
    Set::new(|k: Seq<char>| exists|i: int| 0 <= i < n && keys[i] == Some(k))
}

/// What a scan reports: the chosen paths in order, their total size, and
/// how many distinct folders (keys) they come from.
pub open spec fn picks_summary(
    entries: Seq<ScanEntry>,
    keys: Seq<Option<Seq<char>>>,
) -> (Seq<Seq<char>>, int, nat) {
    (
        picked_paths(entries, keys, entries.len() as int),
        picked_total(entries, keys, entries.len() as int),
        picked_keys(keys, entries.len() as int).len(),
    )
}

/// Every path a scan reports is that of an entry whose key is set.
pub proof fn lemma_picked_from_keys(entries: Seq<ScanEntry>, keys: Seq<Option<Seq<char>>>, n: int, j: int)
    requires
        0 <= n <= entries.len(),
        n <= keys.len(),
        0 <= j < picked_paths(entries, keys, n).len(),
    ensures
        exists|i: int| 0 <= i < n && keys[i] is Some && entries[i].path@ == picked_paths(entries, keys, n)[j],
    decreases n,
{
    if n > 0 {
        let prev = picked_paths(entries, keys, n - 1);
        if keys[n - 1] is Some && j == prev.len() {
            assert(entries[n - 1].path@ == picked_paths(entries, keys, n)[j]);
        } else {
            lemma_picked_from_keys(entries, keys, n - 1, j);
            let i = choose|i: int| 0 <= i < n - 1 && keys[i] is Some && entries[i].path@ == prev[j];
            assert(picked_paths(entries, keys, n)[j] == prev[j]);
            assert(keys[i] is Some && entries[i].path@ == picked_paths(entries, keys, n)[j]);
        }
    }
}

/// An entry whose key is set is reported.
pub proof fn lemma_key_picked(entries: Seq<ScanEntry>, keys: Seq<Option<Seq<char>>>, n: int, i: int)
    requires
        0 <= i < n <= entries.len(),
        n <= keys.len(),
        keys[i] is Some,
    ensures
        picked_paths(entries, keys, n).contains(entries[i].path@),
    decreases n,
{
    let p = picked_paths(entries, keys, n);
    if i == n - 1 {
        assert(p[p.len() - 1] == entries[i].path@);
    } else {
        lemma_key_picked(entries, keys, n - 1, i);
        let q = picked_paths(entries, keys, n - 1);
        let j = choose|j: int| 0 <= j < q.len() && q[j] == entries[i].path@;
        if keys[n - 1] is Some {
            assert(p[j] == q[j]);
        }
    }
}

/// When each set key is `key_of` the entry's path, the distinct keys are
/// the distinct values of `key_of` on the reported paths.
pub proof fn lemma_keys_of_picked(
    entries: Seq<ScanEntry>,
    keys: Seq<Option<Seq<char>>>,
    key_of: spec_fn(Seq<char>) -> Option<Seq<char>>,
)
    requires
        keys.len() == entries.len(),
        forall|i: int| 0 <= i < keys.len() && keys[i] is Some ==> keys[i] == key_of(#[trigger] entries[i].path@),
    ensures
        picked_keys(keys, entries.len() as int) == Set::new(
            |d: Seq<char>|
                exists|j: int|
                    0 <= j < picked_paths(entries, keys, entries.len() as int).len() && key_of(
                        picked_paths(entries, keys, entries.len() as int)[j],
                    ) == Some(d),
        ),
{
    let n = entries.len() as int;
    let p = picked_paths(entries, keys, n);
    let lhs = picked_keys(keys, n);
    let rhs = Set::new(|d: Seq<char>| exists|j: int| 0 <= j < p.len() && key_of(p[j]) == Some(d));
    assert forall|d: Seq<char>| lhs.contains(d) implies rhs.contains(d) by {
        let i = choose|i: int| 0 <= i < n && keys[i] == Some(d);
        assert(keys[i] == key_of(entries[i].path@));
        lemma_key_picked(entries, keys, n, i);
        let j = choose|j: int| 0 <= j < p.len() && p[j] == entries[i].path@;
        assert(key_of(p[j]) == Some(d));
    }
    assert forall|d: Seq<char>| rhs.contains(d) implies lhs.contains(d) by {
        let j = choose|j: int| 0 <= j < p.len() && key_of(p[j]) == Some(d);
        lemma_picked_from_keys(entries, keys, n, j);
        let i = choose|i: int| 0 <= i < n && keys[i] is Some && entries[i].path@ == p[j];
        assert(keys[i] == key_of(entries[i].path@));
        assert(keys[i] == Some(d));
    }
    assert(lhs =~= rhs);
}

/// When every set key is `f`, there is one distinct key if anything is
/// reported, and none otherwise.
pub proof fn lemma_single_key(entries: Seq<ScanEntry>, keys: Seq<Option<Seq<char>>>, f: Seq<char>)
    requires
        keys.len() == entries.len(),
        forall|i: int| 0 <= i < keys.len() && (#[trigger] keys[i]) is Some ==> keys[i] == Some(f),
    ensures
        picked_keys(keys, entries.len() as int).len() == (if picked_paths(entries, keys, entries.len() as int).len()
            > 0 {
            1nat
        } else {
            0nat
        }),
{
    let n = entries.len() as int;
    let p = picked_paths(entries, keys, n);
    let ks = picked_keys(keys, n);
    if p.len() > 0 {
        lemma_picked_from_keys(entries, keys, n, 0);
        let i = choose|i: int| 0 <= i < n && keys[i] is Some && entries[i].path@ == p[0];
        assert(ks =~= set![f]) by {
            assert(keys[i] == Some(f));
            assert(ks.contains(f));
        }
        assert(set![f].len() == 1) by {
            assert(set![f] =~= Set::<Seq<char>>::empty().insert(f));
        }
    } else {
        assert(ks =~= Set::<Seq<char>>::empty()) by {
            if exists|d: Seq<char>| ks.contains(d) {
                let d = choose|d: Seq<char>| ks.contains(d);
                let i = choose|i: int| 0 <= i < n && keys[i] == Some(d);
                lemma_key_picked(entries, keys, n, i);
            }
        }
    }
}

/// Views of optional strings.
pub open spec fn opt_views(keys: Seq<Option<String>>) -> Seq<Option<Seq<char>>> {
    keys.map_values(|k: Option<String>| match k {
        Some(s) => Some(s@),
        None => None,
    })
}

/// The strings of a vector, as character sequences.
pub open spec fn str_views(v: Seq<String>) -> Seq<Seq<char>> {
    v.map_values(|a: String| a@)
}

proof fn lemma_picked_total_monotone(entries: Seq<ScanEntry>, keys: Seq<Option<Seq<char>>>, m: int, n: int)
    requires
        0 <= m <= n,
    ensures
        picked_total(entries, keys, m) <= picked_total(entries, keys, n),
        picked_total(entries, keys, m) >= 0,
    decreases n,
{
    if m < n {
        lemma_picked_total_monotone(entries, keys, m, n - 1);
    } else if n > 0 {
        lemma_picked_total_monotone(entries, keys, n - 1, n - 1);
    }
}

/// Gathers the entries whose key is set: their paths in order, their total
/// size, and the number of distinct keys; `None` when the total size does
/// not fit in a `u64`.
pub fn gather(entries: &Vec<ScanEntry>, keys: &Vec<Option<String>>) -> (r: Option<(Vec<String>, u64, usize)>)
    requires
        entries@.len() == keys@.len(),
    ensures
        r is None <==> picks_summary(entries@, opt_views(keys@)).1 > u64::MAX,
        r matches Some((files, total, folders)) ==> {
            let s = picks_summary(entries@, opt_views(keys@));
            &&& str_views(files@) == s.0
            &&& total == s.1
            &&& folders == s.2
        },
{
    let ghost ks = opt_views(keys@);
    let mut files: Vec<String> = Vec::new();
    let mut total: u64 = 0;
    let mut seen: Vec<String> = Vec::new();
    let mut i: usize = 0;
    while i < entries.len()
        invariant
            i <= entries@.len(),
            entries@.len() == keys@.len(),
            ks == opt_views(keys@),
            str_views(files@) == picked_paths(entries@, ks, i as int),
            total == picked_total(entries@, ks, i as int),
            str_views(seen@).no_duplicates(),
            str_views(seen@).to_set() == picked_keys(ks, i as int),
            seen@.len() <= i,
        decreases entries.len() - i,
    {
        let ghost before = picked_keys(ks, i as int);
        match &keys[i] {
            Some(k) => {
                let add: u64 = match entries[i].size {
                    Some(sz) => sz,
                    None => 0,
                };
                if add > u64::MAX - total {
                    proof {
                        lemma_picked_total_monotone(entries@, ks, i + 1, entries@.len() as int);
                    }
                    return None;
                }
                total = total + add;
                let ghost fv = str_views(files@);
                files.push(entries[i].path.clone());
                assert(str_views(files@) =~= fv.push(entries@[i as int].path@));
                let mut found = false;
                let mut j: usize = 0;
                while j < seen.len()
                    invariant
                        j <= seen@.len(),
                        found ==> str_views(seen@).contains(k@),
                        !found ==> forall|m: int| 0 <= m < j ==> seen@[m]@ != k@,
                    decreases seen.len() - j,
                {
                    if seen[j] == *k {
                        found = true;
                        assert(str_views(seen@)[j as int] == k@);
                    }
                    j += 1;
                }
                proof {
                    assert(ks[i as int] == Some(k@));
                    assert(picked_keys(ks, i + 1) =~= before.insert(k@));
                }
                if !found {
                    let ghost sv = str_views(seen@);
                    seen.push(k.clone());
                    proof {
                        assert(str_views(seen@) =~= sv.push(k@));
                        assert(!sv.contains(k@)) by {
                            if sv.contains(k@) {
                                let m = choose|m: int| 0 <= m < sv.len() && sv[m] == k@;
                                assert(seen@[m]@ == k@);
                            }
                        }
                        assert(str_views(seen@).to_set() =~= sv.to_set().insert(k@)) by {
                            assert forall|x: Seq<char>| str_views(seen@).contains(x) <==> sv.to_set().insert(k@).contains(x) by {
                                if str_views(seen@).contains(x) {
                                    let m = choose|m: int| 0 <= m < str_views(seen@).len() && str_views(seen@)[m] == x;
                                    if m < sv.len() {
                                        assert(sv[m] == x);
                                    }
                                }
                                if sv.contains(x) {
                                    let m = choose|m: int| 0 <= m < sv.len() && sv[m] == x;
                                    assert(str_views(seen@)[m] == x);
                                }
                                if x == k@ {
                                    assert(str_views(seen@)[sv.len() as int] == x);
                                }
                            }
                        }
                    }
                } else {
                    proof {
                        assert(before.insert(k@) =~= before);
                    }
                }
            },
            None => {
                proof {
                    assert(ks[i as int] is None);
                    assert(picked_keys(ks, i + 1) =~= before) by {
                        assert forall|x: Seq<char>| picked_keys(ks, i + 1).contains(x) implies before.contains(x) by {
                            let m = choose|m: int| 0 <= m < i + 1 && ks[m] == Some(x);
                            assert(m < i);
                        }
                    }
                }
            },
        }
        i += 1;
    }
    proof {
        str_views(seen@).unique_seq_to_set();
    }
    Some((files, total, seen.len()))
}

} // verus!
