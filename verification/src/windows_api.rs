//! Top-level windows: which windows are listed, in what order, and the
//! process name shown for each.

use vstd::prelude::*;
use crate::models::{ProcessWindow, ScreenRect};
use crate::text::{chars_eq_str, chars_less, chars_of, is_blank, is_blank_seq, lemma_seq_less_total, lemma_seq_less_transitive, seq_less, string_of_range};
use crate::utils::{dto_of, rect_fits, rect_to_dto};

verus! {

// ---------------------------------------------------------------------------
// Process names
// ---------------------------------------------------------------------------

/// A separator in a path: `/` or `\`; after a verbatim prefix (`\\?\`) only `\`.
pub open spec fn is_path_sep(c: char, verbatim: bool) -> bool {
    c == '\\' || (!verbatim && c == '/')
}

/// `c` with `/` read as `\`, as prefixes are matched.
pub open spec fn norm_sep(c: char) -> char {
    if c == '/' {
        '\\'
    } else {
        c
    }
}

/// `s` holds `pat` at position `at`, with `/` read as `\`.
pub open spec fn has_at(s: Seq<char>, at: int, pat: Seq<char>) -> bool {
    &&& 0 <= at
    &&& at + pat.len() <= s.len()
    &&& forall|k: int| 0 <= k < pat.len() ==> norm_sep(#[trigger] s[at + k]) == pat[k]
}

pub open spec fn is_ascii_letter(c: char) -> bool {
    ('a' <= c && c <= 'z') || ('A' <= c && c <= 'Z')
}

/// The position of the first separator in `s` at or after `from`, or the
/// length of `s` where there is none.
pub open spec fn next_sep(s: Seq<char>, from: int, verbatim: bool) -> int
    decreases s.len() - from,
{
    if from < 0 || from >= s.len() {
        s.len() as int
    } else if is_path_sep(s[from], verbatim) {
        from
    } else {
        next_sep(s, from + 1, verbatim)
    }
}

/// The prefix of a Windows path, as `std::path` recognises it: its length
/// and whether it is verbatim, or `None` where the path has none.
/// - `\\?\UNC\server\share` (verbatim UNC), `\\?\C:` (verbatim disk) and
///   `\\?\name` (verbatim), where the first four characters are exactly
///   `\\?\`;
/// - `\\.\name` (device);
/// - `\\server\share` (UNC), where both server and share are non-empty;
/// - `C:` (disk).
/// Apart from the verbatim marker, `/` counts as `\` in the prefix.
pub open spec fn win_prefix(s: Seq<char>) -> Option<(int, bool)> {
    if has_at(s, 0, seq!['\\', '\\']) {
        if s.len() >= 4 && s[0] == '\\' && s[1] == '\\' && s[2] == '?' && s[3] == '\\' {
            if has_at(s, 4, seq!['U', 'N', 'C', '\\']) {
                let a = next_sep(s, 8, true);
                let b = next_sep(s, a + 1, true);
                if a < s.len() && b > a + 1 {
                    Some((b, true))
                } else {
                    Some((a, true))
                }
            } else if s.len() >= 6 && is_ascii_letter(s[4]) && s[5] == ':' && (s.len() == 6 || s[6]
                == '\\') {
                Some((6, true))
            } else {
                Some((next_sep(s, 4, true), true))
            }
        } else if has_at(s, 2, seq!['.', '\\']) {
            Some((next_sep(s, 4, false), false))
        } else {
            let a = next_sep(s, 2, false);
            let b = next_sep(s, a + 1, false);
            if a > 2 && a < s.len() && b > a + 1 {
                Some((b, false))
            } else {
                None
            }
        }
    } else if s.len() >= 2 && is_ascii_letter(s[0]) && s[1] == ':' {
        Some((2, false))
    } else {
        None
    }
}

/// The position of the last separator in `s`, or -1.
pub open spec fn last_sep(s: Seq<char>, verbatim: bool) -> int
    decreases s.len(),
{
    if s.len() == 0 {
        -1
    } else if is_path_sep(s.last(), verbatim) {
        s.len() - 1
    } else {
        last_sep(s.drop_last(), verbatim)
    }
}

/// The file name that the path body `s` (what follows the prefix) ends in:
/// its last component that is not empty (nor, outside verbatim paths, `.`),
/// or nothing where there is none or that component is `..` (or, in a
/// verbatim path, `.`).
pub open spec fn last_component(s: Seq<char>, verbatim: bool) -> Seq<char>
    decreases s.len(),
{
    let cut = last_sep(s, verbatim);
    let piece = s.subrange(cut + 1, s.len() as int);
    proof {
        lemma_last_sep_bounds(s, verbatim);
    }
    if piece.len() == 0 || (!verbatim && piece == seq!['.']) {
        if cut < 0 {
            Seq::empty()
        } else {
            proof {
                lemma_last_sep_bounds(s, verbatim);
            }
            last_component(s.subrange(0, cut), verbatim)
        }
    } else if piece == seq!['.', '.'] || piece == seq!['.'] {
        Seq::empty()
    } else {
        piece
    }
}

/// The file name of a Windows path, as `Path::file_name` gives it: the last
/// component after the prefix; empty where the path ends in `..` or names no
/// file.
pub open spec fn file_name_of(path: Seq<char>) -> Seq<char> {
    match win_prefix(path) {
        Some((n, verbatim)) => last_component(path.subrange(n, path.len() as int), verbatim),
        None => last_component(path, false),
    }
}

pub proof fn lemma_last_sep_bounds(s: Seq<char>, verbatim: bool)
    ensures
        -1 <= last_sep(s, verbatim) < s.len(),
        last_sep(s, verbatim) >= 0 ==> is_path_sep(s[last_sep(s, verbatim)], verbatim),
        forall|k: int| last_sep(s, verbatim) < k < s.len() ==> !is_path_sep(#[trigger] s[k], verbatim),
    decreases s.len(),
{
    if s.len() > 0 && !is_path_sep(s.last(), verbatim) {
        lemma_last_sep_bounds(s.drop_last(), verbatim);
        assert forall|k: int| last_sep(s, verbatim) < k < s.len() implies !is_path_sep(#[trigger] s[k], verbatim) by {
            if k < s.len() - 1 {
                assert(s[k] == s.drop_last()[k]);
            }
        }
    }
}

proof fn lemma_last_sep_of_prefix(s: Seq<char>, j: int, verbatim: bool)
    requires
        0 <= j <= s.len(),
        forall|k: int| j <= k < s.len() ==> !is_path_sep(#[trigger] s[k], verbatim),
    ensures
        last_sep(s, verbatim) == last_sep(s.subrange(0, j), verbatim),
    decreases s.len() - j,
{
    if j < s.len() {
        lemma_last_sep_of_prefix(s.drop_last(), j, verbatim);
        assert(s.drop_last().subrange(0, j) =~= s.subrange(0, j));
    } else {
        assert(s.subrange(0, j) =~= s);
    }
}

fn is_sep_char(c: char, verbatim: bool) -> (res: bool)
    ensures
        res == is_path_sep(c, verbatim),
{
    c == '\\' || (!verbatim && c == '/')
}

fn norm_sep_char(c: char) -> (res: char)
    ensures
        res == norm_sep(c),
{
    if c == '/' {
        '\\'
    } else {
        c
    }
}

fn is_ascii_letter_char(c: char) -> (res: bool)
    ensures
        res == is_ascii_letter(c),
{
    ('a' <= c && c <= 'z') || ('A' <= c && c <= 'Z')
}

/// Whether `v` holds `pat` at `at`, with `/` read as `\`.
fn has_at_chars(v: &Vec<char>, at: usize, pat: &str) -> (res: bool)
    ensures
        res == has_at(v@, at as int, pat@),
{
    let p = chars_of(pat);
    if at > v.len() || v.len() - at < p.len() {
        return false;
    }
    let mut k: usize = 0;
    while k < p.len()
        invariant
            p@ == pat@,
            at + p.len() <= v.len(),
            k <= p.len(),
            forall|q: int| 0 <= q < k ==> norm_sep(#[trigger] v@[at + q]) == p@[q],
        decreases p.len() - k,
    {
        if norm_sep_char(v[at + k]) != p[k] {
            return false;
        }
        k = k + 1;
    }
    true
}

/// The first separator at or after `from`, or the length of `v`.
fn next_sep_in(v: &Vec<char>, from: usize, verbatim: bool) -> (res: usize)
    ensures
        res == next_sep(v@, from as int, verbatim),
        res <= v.len(),
{
    if from >= v.len() {
        return v.len();
    }
    let mut i: usize = from;
    while i < v.len() && !is_sep_char(v[i], verbatim)
        invariant
            from <= i <= v.len(),
            next_sep(v@, from as int, verbatim) == next_sep(v@, i as int, verbatim),
        decreases v.len() - i,
    {
        i = i + 1;
    }
    i
}

/// The length of the prefix of the path `v` and whether it is verbatim;
/// `(0, false)` where it has none.
fn prefix_of(v: &Vec<char>) -> (res: (usize, bool))
    ensures
        match win_prefix(v@) {
            Some((n, verbatim)) => res.0 == n && res.1 == verbatim,
            None => res == (0usize, false),
        },
        res.0 <= v.len(),
{
    let n = v.len();
    if has_at_chars(v, 0, "\\\\") {
        proof {
            reveal_strlit("\\\\");
            assert("\\\\"@ =~= seq!['\\', '\\']);
        }
        if n >= 4 && v[0] == '\\' && v[1] == '\\' && v[2] == '?' && v[3] == '\\' {
            if has_at_chars(v, 4, "UNC\\") {
                proof {
                    reveal_strlit("UNC\\");
                    assert("UNC\\"@ =~= seq!['U', 'N', 'C', '\\']);
                }
                let a = next_sep_in(v, 8, true);
                if a < n {
                    let b = next_sep_in(v, a + 1, true);
                    if b > a + 1 {
                        return (b, true);
                    }
                }
                (a, true)
            } else {
                proof {
                    reveal_strlit("UNC\\");
                    assert("UNC\\"@ =~= seq!['U', 'N', 'C', '\\']);
                }
                if n >= 6 && is_ascii_letter_char(v[4]) && v[5] == ':' && (n == 6 || v[6] == '\\') {
                    (6, true)
                } else {
                    (next_sep_in(v, 4, true), true)
                }
            }
        } else if has_at_chars(v, 2, ".\\") {
            proof {
                reveal_strlit(".\\");
                assert(".\\"@ =~= seq!['.', '\\']);
            }
            (next_sep_in(v, 4, false), false)
        } else {
            proof {
                reveal_strlit(".\\");
                assert(".\\"@ =~= seq!['.', '\\']);
            }
            let a = next_sep_in(v, 2, false);
            if a > 2 && a < n {
                let b = next_sep_in(v, a + 1, false);
                if b > a + 1 {
                    return (b, false);
                }
            }
            (0, false)
        }
    } else {
        proof {
            reveal_strlit("\\\\");
            assert("\\\\"@ =~= seq!['\\', '\\']);
        }
        if n >= 2 && is_ascii_letter_char(v[0]) && v[1] == ':' {
            (2, false)
        } else {
            (0, false)
        }
    }
}

/// The name of the executable at `path`, as the process list shows it.
pub fn process_name_from_path(path: &str) -> (res: String)
    ensures
        res@ == file_name_of(path@),
{
    let v = chars_of(path);
    let n = v.len();
    let (start, verbatim) = prefix_of(&v);
    let ghost s = v@.subrange(start as int, n as int);
    assert(file_name_of(v@) == last_component(s, verbatim)) by {
        if win_prefix(v@) is None {
            assert(s =~= v@);
        }
    }
    let mut end: usize = n;
    loop
        invariant
            start <= end <= n == v.len(),
            v@ == path@,
            s == v@.subrange(start as int, n as int),
            file_name_of(v@) == last_component(s, verbatim),
            last_component(s, verbatim) == last_component(v@.subrange(start as int, end as int), verbatim),
        decreases end - start,
    {
        let ghost cur = v@.subrange(start as int, end as int);
        let mut k: usize = end;
        while k > start && !is_sep_char(v[k - 1], verbatim)
            invariant
                start <= k <= end <= n == v.len(),
                forall|q: int| k <= q < end ==> !is_path_sep(#[trigger] v@[q], verbatim),
            decreases k - start,
        {
            k = k - 1;
        }
        proof {
            lemma_last_sep_of_prefix(cur, k - start, verbatim);
            if k > start {
                assert(cur.subrange(0, k - start).last() == v@[k - 1]);
                assert(last_sep(cur.subrange(0, k - start), verbatim) == k - start - 1);
            } else {
                assert(cur.subrange(0, 0) =~= Seq::<char>::empty());
            }
            assert(last_sep(cur, verbatim) == k - start - 1);
            assert(cur.subrange(k - start, cur.len() as int) =~= v@.subrange(k as int, end as int));
        }
        let len = end - k;
        let is_dot = len == 1 && v[k] == '.';
        let is_dot_dot = len == 2 && v[k] == '.' && v[k + 1] == '.';
        proof {
            let piece = v@.subrange(k as int, end as int);
            if len == 1 {
                assert(piece[0] == v@[k as int]);
                assert(is_dot == (piece =~= seq!['.']));
            } else {
                assert(piece.len() != 1);
                assert(!is_dot);
                assert(piece != seq!['.']);
            }
            if len == 2 {
                assert(piece[0] == v@[k as int]);
                assert(piece[1] == v@[k + 1]);
                assert(is_dot_dot == (piece =~= seq!['.', '.']));
            } else {
                assert(piece.len() != 2);
                assert(piece != seq!['.', '.']);
            }
        }
        if len == 0 || (!verbatim && is_dot) {
            if k == start {
                return String::new();
            }
            assert(cur.subrange(0, k - start - 1) =~= v@.subrange(start as int, k - 1));
            end = k - 1;
        } else if is_dot_dot || is_dot {
            return String::new();
        } else {
            return string_of_range(&v, k, end);
        }
    }
}

// ---------------------------------------------------------------------------
// Which windows are listed
// ---------------------------------------------------------------------------

/// Whether a top-level window may be listed before its title is read: it is
/// visible, has no owner, has a title, and belongs to a process other than
/// the system (0) and this one.
pub fn top_level_candidate(visible: bool, has_owner: bool, title_len: i32, pid: u32, own_pid: u32) -> (res: bool)
    ensures
        res == (visible && !has_owner && title_len > 0 && pid != 0 && pid != own_pid),
{
    visible && !has_owner && title_len > 0 && pid != 0 && pid != own_pid
}

/// The window, unless its title is blank.
pub fn listed_window(window: ProcessWindow) -> (res: Option<ProcessWindow>)
    ensures
        is_blank_seq(window.title@) ==> res is None,
        !is_blank_seq(window.title@) ==> res == Some(window),
{
    if is_blank(window.title.as_str()) {
        None
    } else {
        Some(window)
    }
}

/// Whether the window under the cursor can be picked: there is a window, its
/// top-level ancestor exists and is visible, and it does not belong to this
/// process.
pub fn cursor_root_accepted(hwnd_is_null: bool, root_is_null: bool, root_visible: bool, pid: u32, own_pid: u32) -> (res: bool)
    ensures
        res == (!hwnd_is_null && !root_is_null && root_visible && pid != own_pid),
{
    !hwnd_is_null && !root_is_null && root_visible && pid != own_pid
}

/// A window of the process `process_id`, as the process list shows it: the
/// path of its executable (empty where it could not be read) and the name
/// taken from it.
pub fn process_from_hwnd(
    process_id: u32,
    title: String,
    hwnd: isize,
    class_name: String,
    rect: Option<ScreenRect>,
    exe_path: Option<String>,
) -> (res: ProcessWindow)
    requires
        rect matches Some(r) ==> rect_fits(r),
    ensures
        res.process_id == process_id,
        res.title == title,
        res.hwnd == hwnd,
        res.class_name == class_name,
        res.bounds == match rect {
            Some(r) => Some(dto_of(r)),
            None => None,
        },
        res.exe_path@ == match exe_path {
            Some(p) => p@,
            None => Seq::<char>::empty(),
        },
        res.process_name@ == file_name_of(res.exe_path@),
{
    let exe = match exe_path {
        Some(p) => p,
        None => String::new(),
    };
    let name = process_name_from_path(exe.as_str());
    let bounds = match rect {
        Some(r) => Some(rect_to_dto(r)),
        None => None,
    };
    ProcessWindow { process_id, title, hwnd, class_name, exe_path: exe, process_name: name, bounds }
}

// ---------------------------------------------------------------------------
// Order of the list
// ---------------------------------------------------------------------------

/// `str::to_lowercase`: the Unicode lower case of a text.
pub uninterp spec fn lowercase(s: Seq<char>) -> Seq<char>;

/// `str::to_lowercase`; what it gives is `lowercase` of its argument.
#[verifier::external_body]
fn to_lowercase(s: &str) -> (res: String)
    ensures
        res@ == lowercase(s@),
{
    s.to_lowercase()
}

/// `windows` with every window whose handle came before left out.
pub open spec fn dedup_by_hwnd(windows: Seq<ProcessWindow>) -> Seq<ProcessWindow>
    decreases windows.len(),
{
    if windows.len() == 0 {
        Seq::empty()
    } else {
        let r = dedup_by_hwnd(windows.drop_last());
        if exists|k: int| 0 <= k < r.len() && (#[trigger] r[k]).hwnd == windows.last().hwnd {
            r
        } else {
            r.push(windows.last())
        }
    }
}

/// No two windows of `windows` share a handle.
pub open spec fn hwnds_unique(windows: Seq<ProcessWindow>) -> bool {
    forall|a: int, b: int| 0 <= a < b < windows.len() ==> windows[a].hwnd != windows[b].hwnd
}

/// Some window of `windows` has the handle `hwnd`.
pub open spec fn lists_hwnd(windows: Seq<ProcessWindow>, hwnd: isize) -> bool {
    exists|j: int| 0 <= j < windows.len() && (#[trigger] windows[j]).hwnd == hwnd
}

proof fn lemma_dedup_by_hwnd(windows: Seq<ProcessWindow>)
    ensures
        hwnds_unique(dedup_by_hwnd(windows)),
        forall|k: int| 0 <= k < windows.len() ==> lists_hwnd(dedup_by_hwnd(windows), (#[trigger] windows[k]).hwnd),
    decreases windows.len(),
{
    if windows.len() > 0 {
        let t = windows.drop_last();
        let r = dedup_by_hwnd(t);
        lemma_dedup_by_hwnd(t);
        let w = windows.last();
        let d = dedup_by_hwnd(windows);
        if exists|k: int| 0 <= k < r.len() && (#[trigger] r[k]).hwnd == w.hwnd {
            assert(d == r);
            assert forall|k: int| 0 <= k < windows.len() implies lists_hwnd(d, (#[trigger] windows[k]).hwnd) by {
                if k < t.len() {
                    assert(windows[k] == t[k]);
                    assert(lists_hwnd(r, t[k].hwnd));
                }
            }
        } else {
            assert(d == r.push(w));
            assert forall|a: int, b: int| 0 <= a < b < d.len() implies d[a].hwnd != d[b].hwnd by {
                if b < r.len() {
                    assert(d[a] == r[a] && d[b] == r[b]);
                } else {
                    assert(d[a] == r[a]);
                }
            }
            assert forall|k: int| 0 <= k < windows.len() implies lists_hwnd(d, (#[trigger] windows[k]).hwnd) by {
                if k < t.len() {
                    assert(windows[k] == t[k]);
                    assert(lists_hwnd(r, t[k].hwnd));
                    let j = choose|j: int| 0 <= j < r.len() && (#[trigger] r[j]).hwnd == t[k].hwnd;
                    assert(d[j] == r[j]);
                } else {
                    assert(d[d.len() - 1] == w);
                }
            }
        }
    }
}

/// The sort key of a window: its title in lower case.
pub open spec fn title_key(w: ProcessWindow) -> Seq<char> {
    lowercase(w.title@)
}

/// Entry `a` comes before entry `b` by key, ties broken by position.
pub open spec fn key_before(keys: Seq<Seq<char>>, a: usize, b: usize) -> bool {
    seq_less(keys[a as int], keys[b as int]) || (keys[a as int] == keys[b as int] && a < b)
}

/// `order` lists each position of `keys` once, sorted by key and, among equal
/// keys, by position: the order a stable sort gives.
pub open spec fn stable_order(order: Seq<usize>, keys: Seq<Seq<char>>) -> bool {
    &&& order.len() == keys.len()
    &&& forall|a: int| 0 <= a < order.len() ==> (#[trigger] order[a]) < keys.len()
    &&& forall|a: int, b: int| 0 <= a < b < order.len() ==> order[a] != order[b]
    &&& forall|a: int, b: int|
        #![trigger order[a], order[b]]
        0 <= a < b < order.len() ==> key_before(keys, order[a], order[b])
}

/// The positions of `keys` in the order a stable sort by key gives.
fn stable_sort_order(keys: &Vec<Vec<char>>) -> (order: Vec<usize>)
    ensures
        stable_order(order@, crate::text::char_vecs_view(keys@)),
        forall|q: int| 0 <= q < keys.len() ==> #[trigger] order@.contains(q as usize),
{
    let ghost kv = crate::text::char_vecs_view(keys@);
    let mut order: Vec<usize> = Vec::new();
    let mut i: usize = 0;
    while i < keys.len()
        invariant
            kv == crate::text::char_vecs_view(keys@),
            i <= keys.len(),
            stable_order(order@, kv.take(i as int)),
            forall|q: int| 0 <= q < i ==> #[trigger] order@.contains(q as usize),
        decreases keys.len() - i,
    {
        let ghost ki = kv.take(i as int);
        let ghost kn = kv.take(i + 1);
        let mut p: usize = 0;
        while p < order.len() && !chars_less(&keys[i], &keys[order[p]])
            invariant
                kv == crate::text::char_vecs_view(keys@),
                i < keys.len(),
                p <= order.len(),
                order.len() == i,
                stable_order(order@, kv.take(i as int)),
                forall|a: int| 0 <= a < p ==> !seq_less(kv[i as int], kv[(#[trigger] order@[a]) as int]),
            decreases order.len() - p,
        {
            p = p + 1;
        }
        let ghost old_order = order@;
        order.insert(p, i);
        proof {
            let o = order@;
            assert(o == old_order.insert(p as int, i));
            assert forall|q: int| 0 <= q < i + 1 implies #[trigger] o.contains(q as usize) by {
                if q < i {
                    assert(old_order.contains(q as usize));
                    let a = choose|a: int| 0 <= a < old_order.len() && old_order[a] == q as usize;
                    if a < p {
                        assert(o[a] == old_order[a]);
                    } else {
                        assert(o[a + 1] == old_order[a]);
                    }
                } else {
                    assert(o[p as int] == i);
                }
            }
            assert forall|a: int| 0 <= a < old_order.len() implies (#[trigger] old_order[a]) < i by {}
            assert forall|a: int| 0 <= a < o.len() implies (#[trigger] o[a]) < kn.len() by {
                if a < p {
                    assert(o[a] == old_order[a]);
                } else if a > p {
                    assert(o[a] == old_order[a - 1]);
                }
            }
            assert forall|a: int, b: int| 0 <= a < b < o.len() implies o[a] != o[b] by {
                if a < p && b < p {
                    assert(o[a] == old_order[a] && o[b] == old_order[b]);
                } else if a < p && b == p {
                    assert(o[a] == old_order[a]);
                } else if a < p && b > p {
                    assert(o[a] == old_order[a] && o[b] == old_order[b - 1]);
                } else if a == p {
                    assert(o[b] == old_order[b - 1]);
                } else {
                    assert(o[a] == old_order[a - 1] && o[b] == old_order[b - 1]);
                }
            }
            assert forall|q: int| 0 <= q < kn.len() implies kn[q] == kv[q] by {}
            assert forall|a: int| 0 <= a < old_order.len() implies kn[(#[trigger] old_order[a]) as int] == ki[old_order[a] as int] by {}
            assert forall|a: int, b: int|
                #![trigger o[a], o[b]]
                0 <= a < b < o.len() implies key_before(kn, o[a], o[b]) by {
                if a < p && b < p {
                    assert(o[a] == old_order[a] && o[b] == old_order[b]);
                    assert(key_before(ki, old_order[a], old_order[b]));
                } else if a < p && b == p {
                    assert(o[a] == old_order[a]);
                    let ka = kv[old_order[a] as int];
                    let kk = kv[i as int];
                    assert(!seq_less(kk, ka));
                    lemma_seq_less_total(ka, kk);
                } else if a < p && b > p {
                    assert(o[a] == old_order[a] && o[b] == old_order[b - 1]);
                    assert(key_before(ki, old_order[a], old_order[b - 1]));
                } else if a == p {
                    assert(o[b] == old_order[b - 1]);
                    let kk = kv[i as int];
                    let kp = kv[old_order[p as int] as int];
                    assert(seq_less(kk, kp));
                    if b - 1 > p {
                        assert(key_before(ki, old_order[p as int], old_order[b - 1]));
                        let kb = kv[old_order[b - 1] as int];
                        if seq_less(kp, kb) {
                            lemma_seq_less_transitive(kk, kp, kb);
                        }
                    }
                } else {
                    assert(o[a] == old_order[a - 1] && o[b] == old_order[b - 1]);
                    assert(key_before(ki, old_order[a - 1], old_order[b - 1]));
                }
            }
        }
        i = i + 1;
    }
    assert(kv.take(keys.len() as int) =~= kv);
    order
}

/// Whether some window in `windows` has the handle `hwnd`.
fn has_hwnd(windows: &Vec<ProcessWindow>, hwnd: isize) -> (res: bool)
    ensures
        res == exists|k: int| 0 <= k < windows.len() && (#[trigger] windows@[k]).hwnd == hwnd,
{
    let mut i: usize = 0;
    while i < windows.len()
        invariant
            i <= windows.len(),
            forall|k: int| 0 <= k < i ==> (#[trigger] windows@[k]).hwnd != hwnd,
        decreases windows.len() - i,
    {
        if windows[i].hwnd == hwnd {
            return true;
        }
        i = i + 1;
    }
    false
}

/// The enumerated windows as the process list shows them: each window handle
/// once (the first occurrence kept), sorted by lower-case title, windows
/// with equal titles in the order they were found.
pub fn dedup_and_sort_windows(windows: Vec<ProcessWindow>) -> (res: Vec<ProcessWindow>)
    ensures
        ({
            let d = dedup_by_hwnd(windows@);
            let keys = Seq::new(d.len(), |k: int| title_key(d[k]));
            &&& res.len() == d.len()
            &&& exists|order: Seq<usize>|
                stable_order(order, keys) && forall|a: int| 0 <= a < res.len() ==> #[trigger] res@[a] == d[order[a] as int]
        }),
        hwnds_unique(res@),
        forall|k: int| 0 <= k < windows.len() ==> lists_hwnd(res@, (#[trigger] windows@[k]).hwnd),
{
    let mut unique: Vec<ProcessWindow> = Vec::new();
    let mut i: usize = 0;
    assert(windows@.take(0) =~= Seq::<ProcessWindow>::empty());
    while i < windows.len()
        invariant
            i <= windows.len(),
            unique@ == dedup_by_hwnd(windows@.take(i as int)),
        decreases windows.len() - i,
    {
        assert(windows@.take(i + 1).drop_last() =~= windows@.take(i as int));
        assert(windows@.take(i + 1).last() == windows@[i as int]);
        if !has_hwnd(&unique, windows[i].hwnd) {
            unique.push(windows[i].clone());
        }
        i = i + 1;
    }
    assert(windows@.take(windows.len() as int) =~= windows@);
    let ghost d = unique@;
    let mut keys: Vec<Vec<char>> = Vec::new();
    let mut k: usize = 0;
    while k < unique.len()
        invariant
            d == unique@,
            k <= unique.len(),
            keys.len() == k,
            forall|q: int| 0 <= q < k ==> (#[trigger] keys@[q])@ == title_key(d[q]),
        decreases unique.len() - k,
    {
        let lower = to_lowercase(unique[k].title.as_str());
        keys.push(chars_of(lower.as_str()));
        k = k + 1;
    }
    let ghost keyseq = Seq::new(d.len(), |q: int| title_key(d[q]));
    assert(crate::text::char_vecs_view(keys@) =~= keyseq);
    let order = stable_sort_order(&keys);
    let mut res: Vec<ProcessWindow> = Vec::new();
    let mut a: usize = 0;
    while a < order.len()
        invariant
            d == unique@,
            stable_order(order@, keyseq),
            keyseq.len() == d.len(),
            a <= order.len(),
            res.len() == a,
            forall|q: int| 0 <= q < a ==> #[trigger] res@[q] == d[order@[q] as int],
        decreases order.len() - a,
    {
        let w = unique[order[a]].clone();
        res.push(w);
        a = a + 1;
    }
    proof {
        lemma_dedup_by_hwnd(windows@);
        assert(d == dedup_by_hwnd(windows@));
        assert forall|x: int, y: int| 0 <= x < y < res.len() implies res@[x].hwnd != res@[y].hwnd by {
            assert(res@[x] == d[order@[x] as int] && res@[y] == d[order@[y] as int]);
            assert(order@[x] != order@[y]);
        }
        assert forall|k: int| 0 <= k < windows.len() implies lists_hwnd(res@, (#[trigger] windows@[k]).hwnd) by {
            let j = choose|j: int| 0 <= j < d.len() && (#[trigger] d[j]).hwnd == windows@[k].hwnd;
            assert(order@.contains(j as usize));
            let x = choose|x: int| 0 <= x < order@.len() && order@[x] == j as usize;
            assert(res@[x] == d[order@[x] as int]);
        }
    }
    res
}

} // verus!
