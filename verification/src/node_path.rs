//! Node ids of the element tree.
//!
//! The root element of a window is `root`; its `i`-th child is `root/i`, that
//! child's `j`-th child is `root/i/j`, and so on. An id is resolved again by
//! walking from the root through the child indices it names.

use vstd::prelude::*;
use crate::text::{
    char_vecs_view, chars_eq, chars_of, decimal, i64_to_decimal, is_digit, lemma_decimal_digits,
    lemma_parse_decimal, lemma_split_nonempty, parse_usize, parse_usize_spec, push_char, push_str,
    signed_decimal, split_chars, split_seq, string_of_range, usize_to_decimal,
};

verus! {

// ---------------------------------------------------------------------------
// Specifications
// ---------------------------------------------------------------------------

/// The id of the root element.
pub open spec fn root_seq() -> Seq<char> {
    seq!['r', 'o', 'o', 't']
}

/// The prefix that resolution strips, as often as it occurs.
pub open spec fn root_prefix() -> Seq<char> {
    seq!['r', 'o', 'o', 't', '/']
}

/// The id of the element reached from the root through the child indices `p`.
pub open spec fn id_of_path(p: Seq<usize>) -> Seq<char>
    decreases p.len(),
{
    if p.len() == 0 {
        root_seq()
    } else {
        id_of_path(p.drop_last()) + seq!['/'] + decimal(p.last() as nat)
    }
}

/// The id of the `index`-th child of the node `parent`.
pub open spec fn child_id_spec(parent: Seq<char>, index: usize) -> Seq<char> {
    parent + seq!['/'] + decimal(index as nat)
}

/// How often `c` occurs in `s`.
pub open spec fn count_char(s: Seq<char>, c: char) -> nat
    decreases s.len(),
{
    if s.len() == 0 {
        0
    } else {
        count_char(s.drop_last(), c) + if s.last() == c {
            1nat
        } else {
            0nat
        }
    }
}

/// The position of the last `c` in `s`, or -1 where there is none.
pub open spec fn last_index_of(s: Seq<char>, c: char) -> int
    decreases s.len(),
{
    if s.len() == 0 {
        -1
    } else if s.last() == c {
        s.len() - 1
    } else {
        last_index_of(s.drop_last(), c)
    }
}

/// The id of the parent of the node `id`: everything before its last `/`.
pub open spec fn parent_id_spec(id: Seq<char>) -> Option<Seq<char>> {
    if last_index_of(id, '/') < 0 {
        None
    } else {
        Some(id.subrange(0, last_index_of(id, '/')))
    }
}

/// `s` with every leading `root/` removed, as `str::trim_start_matches` does.
pub open spec fn strip_root_prefixes(s: Seq<char>) -> Seq<char>
    decreases s.len(),
{
    if s.len() >= 5 && s.subrange(0, 5) == root_prefix() {
        strip_root_prefixes(s.subrange(5, s.len() as int))
    } else {
        s
    }
}

/// The child indices that the non-empty pieces `parts` name, in order; a piece
/// that is not a number gives `None`.
pub open spec fn path_steps(parts: Seq<Seq<char>>) -> Seq<Option<usize>>
    decreases parts.len(),
{
    if parts.len() == 0 {
        Seq::empty()
    } else {
        let rest = path_steps(parts.drop_last());
        if parts.last().len() == 0 {
            rest
        } else {
            rest.push(parse_usize_spec(parts.last()))
        }
    }
}

/// The steps that resolving the node `id` takes from the root.
pub open spec fn node_steps(id: Seq<char>) -> Seq<Option<usize>> {
    if id == root_seq() {
        Seq::empty()
    } else {
        path_steps(split_seq(strip_root_prefixes(id), '/'))
    }
}

/// The steps of a path of child indices that all parse.
pub open spec fn steps_of_path(p: Seq<usize>) -> Seq<Option<usize>> {
    Seq::new(p.len(), |k: int| Some(p[k]))
}

/// The id with which a shortcut to the node `node_id` of the window `hwnd` is
/// stored: the window handle in decimal, a colon, then the node id.
pub open spec fn shortcut_id_spec(hwnd: isize, node_id: Seq<char>) -> Seq<char> {
    signed_decimal(hwnd as int) + seq![':'] + node_id
}

// ---------------------------------------------------------------------------
// Executable functions
// ---------------------------------------------------------------------------

/// The id of the root element.
pub fn root_id() -> (res: String)
    ensures
        res@ == root_seq(),
{
    let s = String::from_str("root");
    proof {
        reveal_strlit("root");
        assert(s@ =~= root_seq());
    }
    s
}

/// The depth of a node: the number of `/` in its id.
pub fn id_depth(id: &str) -> (res: usize)
    ensures
        res == count_char(id@, '/'),
{
    let v = chars_of(id);
    let mut count: usize = 0;
    let mut i: usize = 0;
    while i < v.len()
        invariant
            v@ == id@,
            i <= v.len(),
            count <= i,
            count == count_char(v@.subrange(0, i as int), '/'),
        decreases v.len() - i,
    {
        assert(v@.subrange(0, i + 1).drop_last() =~= v@.subrange(0, i as int));
        if v[i] == '/' {
            count = count + 1;
        }
        i = i + 1;
    }
    assert(v@.subrange(0, v.len() as int) =~= v@);
    count
}

/// The id of the parent node: `id` up to its last `/`, or nothing where `id`
/// holds no `/`.
pub fn parent_id(id: &str) -> (res: Option<String>)
    ensures
        match res {
            Some(p) => parent_id_spec(id@) == Some(p@),
            None => parent_id_spec(id@) is None,
        },
{
    let v = chars_of(id);
    let mut j: usize = v.len();
    assert(v@.subrange(0, v.len() as int) =~= v@);
    while j > 0 && v[j - 1] != '/'
        invariant
            v@ == id@,
            j <= v.len(),
            last_index_of(v@, '/') == last_index_of(v@.subrange(0, j as int), '/'),
        decreases j,
    {
        assert(v@.subrange(0, j as int).drop_last() =~= v@.subrange(0, j - 1));
        j = j - 1;
    }
    proof {
        assert(v@.subrange(0, v.len() as int) =~= v@);
    }
    if j == 0 {
        assert(v@.subrange(0, 0) =~= Seq::<char>::empty());
        None
    } else {
        assert(last_index_of(v@.subrange(0, j as int), '/') == j - 1);
        Some(string_of_range(&v, 0, j - 1))
    }
}

/// The id of the `index`-th child of `parent`.
pub fn child_id(parent: &str, index: usize) -> (res: String)
    ensures
        res@ == child_id_spec(parent@, index),
{
    let mut s = String::from_str(parent);
    push_char(&mut s, '/');
    let d = usize_to_decimal(index);
    push_str(&mut s, d.as_str());
    s
}

/// The id of a shortcut to the node `node_id` of the window `hwnd`.
pub fn shortcut_id_of(hwnd: isize, node_id: &str) -> (res: String)
    ensures
        res@ == shortcut_id_spec(hwnd, node_id@),
{
    let mut s = i64_to_decimal(hwnd as i64);
    push_char(&mut s, ':');
    push_str(&mut s, node_id);
    s
}

/// Strips every leading `root/`.
fn strip_root_prefix_chars(v: &Vec<char>) -> (res: Vec<char>)
    ensures
        res@ == strip_root_prefixes(v@),
{
    let prefix = chars_of("root/");
    proof {
        reveal_strlit("root/");
        assert(prefix@ =~= root_prefix());
    }
    let n = v.len();
    let mut k: usize = 0;
    assert(v@.subrange(0, n as int) =~= v@);
    loop
        invariant
            n == v.len(),
            k <= n,
            prefix@ == root_prefix(),
            strip_root_prefixes(v@) == strip_root_prefixes(v@.subrange(k as int, n as int)),
        ensures
            k <= n,
            strip_root_prefixes(v@) == v@.subrange(k as int, n as int),
        decreases n - k,
    {
        let ghost rest = v@.subrange(k as int, n as int);
        if n - k < 5 {
            assert(strip_root_prefixes(rest) == rest);
            break;
        }
        let mut same = true;
        let mut t: usize = 0;
        while t < 5
            invariant
                n == v.len(),
                k + 5 <= n,
                t <= 5,
                prefix@ == root_prefix(),
                prefix.len() == 5,
                same == (forall|q: int| 0 <= q < t ==> v@[k + q] == prefix@[q]),
            decreases 5 - t,
        {
            if v[k + t] != prefix[t] {
                same = false;
            }
            t = t + 1;
        }
        if !same {
            assert(rest.subrange(0, 5) != root_prefix()) by {
                let q = choose|q: int| 0 <= q < 5 && v@[k + q] != prefix@[q];
                assert(rest.subrange(0, 5)[q] == v@[k + q]);
            }
            assert(strip_root_prefixes(rest) == rest);
            break;
        }
        assert(rest.subrange(0, 5) =~= root_prefix()) by {
            assert forall|q: int| 0 <= q < 5 implies rest.subrange(0, 5)[q] == root_prefix()[q] by {
                assert(v@[k + q] == prefix@[q]);
            }
        }
        assert(rest.subrange(5, rest.len() as int) =~= v@.subrange(k + 5, n as int));
        k = k + 5;
    }
    let mut res: Vec<char> = Vec::new();
    let mut i: usize = k;
    while i < n
        invariant
            n == v.len(),
            k <= i <= n,
            res@ == v@.subrange(k as int, i as int),
        decreases n - i,
    {
        res.push(v[i]);
        assert(res@ =~= v@.subrange(k as int, i + 1));
        i = i + 1;
    }
    res
}

/// The steps that resolving `node_id` takes from the root: one per non-empty
/// piece between slashes (after every leading `root/` is stripped), the child
/// index it names, or `None` where the piece is not a number. The id `root`
/// itself takes no step.
pub fn node_path_steps(node_id: &str) -> (res: Vec<Option<usize>>)
    ensures
        res@ == node_steps(node_id@),
{
    let v = chars_of(node_id);
    let root = chars_of("root");
    proof {
        reveal_strlit("root");
        assert(root@ =~= root_seq());
    }
    if chars_eq(&v, &root) {
        return Vec::new();
    }
    let stripped = strip_root_prefix_chars(&v);
    let parts = split_chars(&stripped, '/');
    let ghost pv = char_vecs_view(parts@);
    let mut res: Vec<Option<usize>> = Vec::new();
    let mut i: usize = 0;
    assert(pv.subrange(0, 0) =~= Seq::<Seq<char>>::empty());
    while i < parts.len()
        invariant
            pv == char_vecs_view(parts@),
            pv == split_seq(strip_root_prefixes(v@), '/'),
            i <= parts.len(),
            res@ == path_steps(pv.subrange(0, i as int)),
        decreases parts.len() - i,
    {
        let ghost pre = pv.subrange(0, i as int);
        let ghost next = pv.subrange(0, i + 1);
        assert(next.drop_last() =~= pre);
        assert(next.last() == parts[i as int]@);
        if parts[i].len() > 0 {
            let step = parse_usize(&parts[i]);
            res.push(step);
        }
        i = i + 1;
    }
    assert(pv.subrange(0, parts.len() as int) =~= pv);
    res
}

// ---------------------------------------------------------------------------
// Laws
// ---------------------------------------------------------------------------

/// The text after `root/` in the id of a non-empty path.
pub open spec fn tail_of_path(p: Seq<usize>) -> Seq<char>
    decreases p.len(),
{
    if p.len() <= 1 {
        decimal(p[0] as nat)
    } else {
        tail_of_path(p.drop_last()) + seq!['/'] + decimal(p.last() as nat)
    }
}

proof fn lemma_id_of_path_tail(p: Seq<usize>)
    requires
        p.len() >= 1,
    ensures
        id_of_path(p) == root_prefix() + tail_of_path(p),
        tail_of_path(p).len() >= 1,
        is_digit(tail_of_path(p)[0]),
    decreases p.len(),
{
    lemma_decimal_digits(p[0] as nat);
    if p.len() == 1 {
        assert(p.drop_last() =~= Seq::<usize>::empty());
        assert(p.last() == p[0]);
        assert(id_of_path(p.drop_last()) == root_seq());
        assert(id_of_path(p) == root_seq() + seq!['/'] + decimal(p[0] as nat));
        assert(tail_of_path(p) == decimal(p[0] as nat));
        assert(id_of_path(p) =~= root_prefix() + tail_of_path(p));
    } else {
        let q = p.drop_last();
        lemma_id_of_path_tail(q);
        assert(q[0] == p[0]);
        let d = decimal(p.last() as nat);
        assert(id_of_path(p) == id_of_path(q) + seq!['/'] + d);
        assert(tail_of_path(p) == tail_of_path(q) + seq!['/'] + d);
        assert(id_of_path(p) =~= root_prefix() + tail_of_path(p));
        assert(tail_of_path(p)[0] == tail_of_path(q)[0]);
    }
}

proof fn lemma_strip_before_digit(t: Seq<char>)
    requires
        t.len() >= 1,
        is_digit(t[0]),
    ensures
        strip_root_prefixes(root_prefix() + t) == t,
{
    let s = root_prefix() + t;
    assert(s.subrange(0, 5) =~= root_prefix());
    assert(s.subrange(5, s.len() as int) =~= t);
    assert(!(t.len() >= 5 && t.subrange(0, 5) == root_prefix())) by {
        if t.len() >= 5 && t.subrange(0, 5) == root_prefix() {
            assert(t.subrange(0, 5)[0] == t[0]);
            assert(root_prefix()[0] == 'r');
        }
    }
    assert(strip_root_prefixes(t) == t);
    assert(strip_root_prefixes(s) == strip_root_prefixes(s.subrange(5, s.len() as int)));
}

pub open spec fn has_no(s: Seq<char>, c: char) -> bool {
    forall|k: int| 0 <= k < s.len() ==> s[k] != c
}

proof fn lemma_split_extend(x: Seq<char>, y: Seq<char>)
    requires
        has_no(y, '/'),
    ensures
        split_seq(x + y, '/') == split_seq(x, '/').update(
            split_seq(x, '/').len() - 1,
            split_seq(x, '/').last() + y,
        ),
    decreases y.len(),
{
    lemma_split_nonempty(x, '/');
    let r = split_seq(x, '/');
    if y.len() == 0 {
        assert(x + y =~= x);
        assert(r.last() + y =~= r.last());
        assert(r.update(r.len() - 1, r.last() + y) =~= r);
    } else {
        let y0 = y.drop_last();
        assert(has_no(y0, '/')) by {
            assert forall|k: int| 0 <= k < y0.len() implies y0[k] != '/' by {
                assert(y0[k] == y[k]);
            }
        }
        lemma_split_extend(x, y0);
        assert((x + y).drop_last() =~= x + y0);
        assert((x + y).last() == y.last());
        assert(y.last() != '/');
        lemma_split_nonempty(x + y0, '/');
        let r0 = split_seq(x + y0, '/');
        assert(r0.last() == r.last() + y0);
        assert(r0.len() == r.len());
        assert(split_seq(x + y, '/') == r0.update(r0.len() - 1, r0.last().push(y.last())));
        assert((r.last() + y0).push(y.last()) =~= r.last() + y);
        assert(split_seq(x + y, '/') =~= r.update(r.len() - 1, r.last() + y));
    }
}

proof fn lemma_split_slash(x: Seq<char>, y: Seq<char>)
    requires
        has_no(y, '/'),
    ensures
        split_seq(x + seq!['/'] + y, '/') == split_seq(x, '/').push(y),
{
    let xs = x + seq!['/'];
    assert(xs.drop_last() =~= x);
    assert(xs.last() == '/');
    let r = split_seq(x, '/');
    assert(split_seq(xs, '/') == r.push(Seq::<char>::empty()));
    lemma_split_extend(xs, y);
    assert(Seq::<char>::empty() + y =~= y);
    assert(r.push(Seq::<char>::empty()).update(r.len() as int, y) =~= r.push(y));
}

proof fn lemma_decimal_no_slash(n: nat)
    ensures
        has_no(decimal(n), '/'),
        decimal(n).len() >= 1,
{
    lemma_decimal_digits(n);
    assert forall|k: int| 0 <= k < decimal(n).len() implies decimal(n)[k] != '/' by {
        assert(is_digit(decimal(n)[k]));
    }
}

/// The decimal renderings of the indices `p`.
pub open spec fn decimals_of(p: Seq<usize>) -> Seq<Seq<char>> {
    Seq::new(p.len(), |k: int| decimal(p[k] as nat))
}

proof fn lemma_split_tail(p: Seq<usize>)
    requires
        p.len() >= 1,
    ensures
        split_seq(tail_of_path(p), '/') == decimals_of(p),
    decreases p.len(),
{
    lemma_decimal_no_slash(p.last() as nat);
    if p.len() == 1 {
        let d = decimal(p[0] as nat);
        lemma_decimal_no_slash(p[0] as nat);
        lemma_split_extend(Seq::<char>::empty(), d);
        assert(Seq::<char>::empty() + d =~= d);
        assert(split_seq(Seq::<char>::empty(), '/') =~= seq![Seq::<char>::empty()]);
        assert(decimals_of(p) =~= seq![d]);
    } else {
        let q = p.drop_last();
        lemma_split_tail(q);
        lemma_split_slash(tail_of_path(q), decimal(p.last() as nat));
        assert(decimals_of(p) =~= decimals_of(q).push(decimal(p.last() as nat)));
    }
}

proof fn lemma_path_steps_decimals(p: Seq<usize>)
    ensures
        path_steps(decimals_of(p)) == steps_of_path(p),
    decreases p.len(),
{
    if p.len() > 0 {
        let q = p.drop_last();
        lemma_path_steps_decimals(q);
        assert(decimals_of(p).drop_last() =~= decimals_of(q));
        lemma_decimal_no_slash(p.last() as nat);
        lemma_parse_decimal(p.last());
        assert(steps_of_path(p) =~= steps_of_path(q).push(Some(p.last())));
    } else {
        assert(steps_of_path(p) =~= Seq::<Option<usize>>::empty());
    }
}

/// Resolving the id of a path of child indices takes exactly those indices.
pub proof fn lemma_node_steps_of_path(p: Seq<usize>)
    ensures
        node_steps(id_of_path(p)) == steps_of_path(p),
{
    if p.len() == 0 {
        assert(steps_of_path(p) =~= Seq::<Option<usize>>::empty());
    } else {
        lemma_id_of_path_tail(p);
        assert(id_of_path(p).len() > root_seq().len());
        lemma_strip_before_digit(tail_of_path(p));
        lemma_split_tail(p);
        lemma_path_steps_decimals(p);
    }
}

/// The id of the `index`-th child of a node is the id of the path one index
/// longer.
pub proof fn lemma_child_id_of_path(p: Seq<usize>, index: usize)
    ensures
        child_id_spec(id_of_path(p), index) == id_of_path(p.push(index)),
{
    assert(p.push(index).drop_last() =~= p);
}

proof fn lemma_count_concat(x: Seq<char>, y: Seq<char>, c: char)
    ensures
        count_char(x + y, c) == count_char(x, c) + count_char(y, c),
    decreases y.len(),
{
    if y.len() == 0 {
        assert(x + y =~= x);
    } else {
        lemma_count_concat(x, y.drop_last(), c);
        assert((x + y).drop_last() =~= x + y.drop_last());
    }
}

proof fn lemma_count_absent(s: Seq<char>, c: char)
    requires
        has_no(s, c),
    ensures
        count_char(s, c) == 0,
    decreases s.len(),
{
    if s.len() > 0 {
        let t = s.drop_last();
        assert(has_no(t, c)) by {
            assert forall|k: int| 0 <= k < t.len() implies t[k] != c by {
                assert(t[k] == s[k]);
            }
        }
        lemma_count_absent(t, c);
    }
}

/// The depth of the id of a path is the length of the path.
pub proof fn lemma_depth_of_path(p: Seq<usize>)
    ensures
        count_char(id_of_path(p), '/') == p.len(),
    decreases p.len(),
{
    if p.len() == 0 {
        assert(has_no(root_seq(), '/'));
        lemma_count_absent(root_seq(), '/');
    } else {
        let q = p.drop_last();
        lemma_depth_of_path(q);
        lemma_decimal_no_slash(p.last() as nat);
        lemma_count_absent(decimal(p.last() as nat), '/');
        lemma_count_concat(id_of_path(q), seq!['/'], '/');
        assert(seq!['/'].drop_last() =~= Seq::<char>::empty());
        assert(count_char(Seq::<char>::empty(), '/') == 0);
        assert(count_char(seq!['/'], '/') == 1);
        assert(id_of_path(p) == id_of_path(q) + seq!['/'] + decimal(p.last() as nat));
        lemma_count_concat(id_of_path(q) + seq!['/'], decimal(p.last() as nat), '/');
    }
}

proof fn lemma_last_index_after(x: Seq<char>, y: Seq<char>)
    requires
        has_no(y, '/'),
    ensures
        last_index_of(x + seq!['/'] + y, '/') == x.len(),
    decreases y.len(),
{
    let xs = x + seq!['/'];
    if y.len() == 0 {
        assert(xs + y =~= xs);
    } else {
        let y0 = y.drop_last();
        assert(has_no(y0, '/')) by {
            assert forall|k: int| 0 <= k < y0.len() implies y0[k] != '/' by {
                assert(y0[k] == y[k]);
            }
        }
        lemma_last_index_after(x, y0);
        assert((xs + y).drop_last() =~= xs + y0);
    }
}

/// The parent of the `index`-th child of a node is that node.
pub proof fn lemma_parent_of_child(parent: Seq<char>, index: usize)
    ensures
        parent_id_spec(child_id_spec(parent, index)) == Some(parent),
{
    lemma_decimal_no_slash(index as nat);
    lemma_last_index_after(parent, decimal(index as nat));
    let c = child_id_spec(parent, index);
    assert(c.subrange(0, parent.len() as int) =~= parent);
}

/// A child id resolves through its parent's steps and then its own index.
pub proof fn lemma_child_steps(p: Seq<usize>, index: usize)
    ensures
        node_steps(child_id_spec(id_of_path(p), index)) == node_steps(id_of_path(p)).push(
            Some(index),
        ),
{
    lemma_child_id_of_path(p, index);
    lemma_node_steps_of_path(p);
    lemma_node_steps_of_path(p.push(index));
    assert(steps_of_path(p.push(index)) =~= steps_of_path(p).push(Some(index)));
}

} // verus!
