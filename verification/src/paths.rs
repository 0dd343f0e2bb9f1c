//! Slash-separated paths: their components, the order that the components give them, and
//! lists in that order.
use vstd::prelude::*;

use crate::text::{
    has_prefix, lemma_text_lt_total, lemma_text_lt_trans, starts_with, text_eq, text_less, text_lt, texts,
};

verus! {

/// A path below a directory; an absolute path stands for itself.
pub open spec fn joined_path(dir: Seq<char>, name: Seq<char>) -> Seq<char> {
    if name.len() > 0 && name[0] == '/' {
        name
    } else if dir.len() == 0 || dir.last() == '/' {
        dir + name
    } else {
        dir + "/"@ + name
    }
}

/// A path below a directory; an absolute path stands for itself.
pub fn join_path(dir: &str, name: &str) -> (r: String)
    ensures
        r@ == joined_path(dir@, name@),
{
    let n: usize = dir.unicode_len();
    if name.unicode_len() > 0 && name.get_char(0) == '/' {
        name.to_owned()
    } else if n == 0 || dir.get_char(n - 1) == '/' {
        dir.to_owned().concat(name)
    } else {
        dir.to_owned().concat("/").concat(name)
    }
}

/// What stands between the slashes of a path.
pub open spec fn pieces(path: Seq<char>) -> Seq<Seq<char>>
    decreases path.len(),
{
    if path.len() == 0 {
        seq![Seq::empty()]
    } else {
        let before = pieces(path.drop_last());
        if path.last() == '/' {
            before.push(Seq::empty())
        } else {
            before.update(before.len() - 1, before.last().push(path.last()))
        }
    }
}

/// A piece that counts wherever it stands: not empty, and not the directory itself.
pub open spec fn counts(piece: Seq<char>) -> bool {
    piece.len() > 0 && piece != "."@
}

/// The components of a path: the root or a leading `.`, where it begins with one, and the
/// pieces that count.
#[verifier::opaque]
pub open spec fn components(path: Seq<char>) -> Seq<Seq<char>> {
    let rest = pieces(path).filter(|p: Seq<char>| counts(p));
    if path.len() > 0 && path[0] == '/' {
        seq!["/"@] + rest
    } else if path == "."@ || has_prefix(path, "./"@) {
        seq!["."@] + rest
    } else {
        rest
    }
}

/// Two paths with the same components.
pub open spec fn same_path(a: Seq<char>, b: Seq<char>) -> bool {
    components(a) == components(b)
}

/// The place of a component among the sorts of components: the root, the directory
/// itself, its parent, a name.
pub open spec fn component_rank(c: Seq<char>) -> int {
    if c == "/"@ {
        0
    } else if c == "."@ {
        1
    } else if c == ".."@ {
        2
    } else {
        3
    }
}

/// The order of components.
pub open spec fn component_lt(a: Seq<char>, b: Seq<char>) -> bool {
    component_rank(a) < component_rank(b) || (component_rank(a) == component_rank(b) && text_lt(
        a,
        b,
    ))
}

/// The order of lists of components.
pub open spec fn components_lt(a: Seq<Seq<char>>, b: Seq<Seq<char>>) -> bool
    decreases a.len(),
{
    if b.len() == 0 {
        false
    } else if a.len() == 0 {
        true
    } else if a[0] != b[0] {
        component_lt(a[0], b[0])
    } else {
        components_lt(a.drop_first(), b.drop_first())
    }
}

/// The order of paths, component by component.
#[verifier::opaque]
pub open spec fn path_lt(a: Seq<char>, b: Seq<char>) -> bool {
    components_lt(components(a), components(b))
}

proof fn lemma_components_lt_trans(a: Seq<Seq<char>>, b: Seq<Seq<char>>, c: Seq<Seq<char>>)
    requires
        components_lt(a, b),
        components_lt(b, c),
    ensures
        components_lt(a, c),
    decreases a.len(),
{
    if a.len() > 0 {
        if a[0] == b[0] && b[0] == c[0] {
            lemma_components_lt_trans(a.drop_first(), b.drop_first(), c.drop_first());
        } else if a[0] != b[0] && b[0] != c[0] {
            if component_rank(a[0]) == component_rank(b[0]) && component_rank(b[0])
                == component_rank(c[0]) {
                lemma_text_lt_trans(a[0], b[0], c[0]);
            }
            lemma_text_lt_total(a[0], c[0]);
        }
    }
}

proof fn lemma_components_lt_total(a: Seq<Seq<char>>, b: Seq<Seq<char>>)
    ensures
        a == b || components_lt(a, b) || components_lt(b, a),
        !(components_lt(a, b) && components_lt(b, a)),
        a == b ==> !components_lt(a, b),
    decreases a.len(),
{
    if a.len() > 0 && b.len() > 0 {
        if a[0] == b[0] {
            lemma_components_lt_total(a.drop_first(), b.drop_first());
            if a.drop_first() == b.drop_first() {
                assert(a =~= seq![a[0]] + a.drop_first());
                assert(b =~= seq![b[0]] + b.drop_first());
            }
        } else {
            lemma_text_lt_total(a[0], b[0]);
        }
    } else if a.len() == 0 && b.len() == 0 {
        assert(a =~= b);
    }
}

pub proof fn lemma_path_lt_trans(a: Seq<char>, b: Seq<char>, c: Seq<char>)
    requires
        path_lt(a, b),
        path_lt(b, c),
    ensures
        path_lt(a, c),
{
    reveal(path_lt);
    lemma_components_lt_trans(components(a), components(b), components(c));
}

/// Of two paths one comes first, unless their components are the same.
pub proof fn lemma_path_lt_total(a: Seq<char>, b: Seq<char>)
    ensures
        same_path(a, b) || path_lt(a, b) || path_lt(b, a),
        !(path_lt(a, b) && path_lt(b, a)),
        same_path(a, b) ==> !path_lt(a, b) && !path_lt(b, a),
{
    reveal(path_lt);
    lemma_components_lt_total(components(a), components(b));
}

/// Paths with the same components have the same place.
pub proof fn lemma_path_lt_alike(a: Seq<char>, b: Seq<char>, c: Seq<char>)
    requires
        same_path(a, b),
    ensures
        path_lt(a, c) == path_lt(b, c),
        path_lt(c, a) == path_lt(c, b),
{
    reveal(path_lt);
}

/// Whether a piece counts.
fn piece_counts(piece: &str) -> (r: bool)
    ensures
        r == counts(piece@),
{
    piece.unicode_len() > 0 && !text_eq(piece, ".")
}

proof fn lemma_push_filter(s: Seq<Seq<char>>, x: Seq<char>)
    ensures
        s.push(x).filter(|p: Seq<char>| counts(p)) == if counts(x) {
            s.filter(|p: Seq<char>| counts(p)).push(x)
        } else {
            s.filter(|p: Seq<char>| counts(p))
        },
{
    reveal(Seq::filter);
    assert(s.push(x).drop_last() =~= s);
}

/// The components of a path.
pub fn path_components(path: &str) -> (r: Vec<String>)
    ensures
        texts(r@) == components(path@),
{
    let n: usize = path.unicode_len();
    let mut out: Vec<String> = Vec::new();
    if n > 0 && path.get_char(0) == '/' {
        out.push("/".to_owned());
    } else if text_eq(path, ".") || starts_with(path, "./") {
        out.push(".".to_owned());
    }
    let ghost head = texts(out@);
    let ghost mut done: Seq<Seq<char>> = Seq::empty();
    let mut start: usize = 0;
    let mut i: usize = 0;
    proof {
        reveal(Seq::filter);
        assert(path@.subrange(0, 0) =~= Seq::<char>::empty());
        assert(done.push(Seq::<char>::empty()) =~= seq![Seq::<char>::empty()]);
        assert(head =~= head + done.filter(|p: Seq<char>| counts(p)));
    }
    while i < n
        invariant
            n == path@.len(),
            start <= i <= n,
            pieces(path@.subrange(0, i as int)) == done.push(
                path@.subrange(start as int, i as int),
            ),
            texts(out@) == head + done.filter(|p: Seq<char>| counts(p)),
        decreases n - i,
    {
        let ghost next = path@.subrange(0, i + 1);
        let ghost piece = path@.subrange(start as int, i as int);
        assert(next.drop_last() =~= path@.subrange(0, i as int));
        assert(next.last() == path@[i as int]);
        if path.get_char(i) == '/' {
            push_piece(&mut out, path.substring_char(start, i), Ghost(head), Ghost(done));
            proof {
                done = done.push(piece);
            }
            start = i + 1;
            assert(path@.subrange(start as int, i + 1) =~= Seq::<char>::empty());
        } else {
            let ghost longer = path@.subrange(start as int, i + 1);
            assert(longer =~= piece.push(path@[i as int]));
            assert(done.push(piece).update(done.len() as int, longer) =~= done.push(longer));
        }
        i += 1;
    }
    assert(path@.subrange(0, n as int) =~= path@);
    push_piece(&mut out, path.substring_char(start, n), Ghost(head), Ghost(done));
    assert(texts(out@) =~= components(path@)) by {
        reveal(components);
        reveal_strlit("/");
        reveal_strlit(".");
    }
    out
}

/// Add the piece behind the pieces `done` to the components `head` and what counts of
/// `done`.
fn push_piece(
    out: &mut Vec<String>,
    piece: &str,
    Ghost(head): Ghost<Seq<Seq<char>>>,
    Ghost(done): Ghost<Seq<Seq<char>>>,
)
    requires
        texts(old(out)@) == head + done.filter(|p: Seq<char>| counts(p)),
    ensures
        texts(final(out)@) == head + done.push(piece@).filter(|p: Seq<char>| counts(p)),
{
    let ghost before = texts(out@);
    proof {
        lemma_push_filter(done, piece@);
    }
    if piece_counts(piece) {
        out.push(piece.to_owned());
        assert(texts(out@) =~= before.push(piece@));
        assert(before.push(piece@) =~= head + done.filter(|p: Seq<char>| counts(p)).push(piece@));
    }
}

/// Whether a component comes before another.
fn component_less(a: &str, b: &str) -> (r: bool)
    ensures
        r == component_lt(a@, b@),
{
    let ra: u8 = rank(a);
    let rb: u8 = rank(b);
    ra < rb || (ra == rb && text_less(a, b))
}

fn rank(c: &str) -> (r: u8)
    ensures
        r == component_rank(c@),
{
    if text_eq(c, "/") {
        0
    } else if text_eq(c, ".") {
        1
    } else if text_eq(c, "..") {
        2
    } else {
        3
    }
}

/// Whether a path comes before another.
pub fn path_less(a: &str, b: &str) -> (r: bool)
    ensures
        r == path_lt(a@, b@),
{
    let ca = path_components(a);
    let cb = path_components(b);
    let ghost sa = texts(ca@);
    let ghost sb = texts(cb@);
    let mut i: usize = 0;
    proof {
        reveal(path_lt);
    }
    assert(sa.subrange(0, sa.len() as int) =~= sa);
    assert(sb.subrange(0, sb.len() as int) =~= sb);
    while i < ca.len() && i < cb.len()
        invariant
            i <= ca@.len(),
            i <= cb@.len(),
            sa == texts(ca@),
            sb == texts(cb@),
            sa == components(a@),
            sb == components(b@),
            path_lt(a@, b@) == components_lt(
                sa.subrange(i as int, sa.len() as int),
                sb.subrange(i as int, sb.len() as int),
            ),
        decreases ca@.len() - i,
    {
        let ghost ta = sa.subrange(i as int, sa.len() as int);
        let ghost tb = sb.subrange(i as int, sb.len() as int);
        assert(ta[0] == ca@[i as int]@);
        assert(tb[0] == cb@[i as int]@);
        if !text_eq(ca[i].as_str(), cb[i].as_str()) {
            return component_less(ca[i].as_str(), cb[i].as_str());
        }
        assert(ta.drop_first() =~= sa.subrange(i + 1, sa.len() as int));
        assert(tb.drop_first() =~= sb.subrange(i + 1, sb.len() as int));
        i += 1;
    }
    i < cb.len()
}

/// Whether two paths have the same components.
pub fn path_eq(a: &str, b: &str) -> (r: bool)
    ensures
        r == same_path(a@, b@),
{
    proof {
        lemma_path_lt_total(a@, b@);
    }
    !path_less(a, b) && !path_less(b, a)
}

/// The first of the paths from `from` on that has the components of `path`.
pub open spec fn first_alike(paths: Seq<Seq<char>>, path: Seq<char>, from: int) -> int
    decreases paths.len() - from,
{
    if from < 0 || from >= paths.len() || same_path(paths[from], path) {
        from
    } else {
        first_alike(paths, path, from + 1)
    }
}

/// Each path as the first path with its components spells it.
pub open spec fn grouped(paths: Seq<Seq<char>>) -> Seq<Seq<char>> {
    Seq::new(paths.len(), |i: int| paths[first_alike(paths, paths[i], 0)])
}

proof fn lemma_first_alike(paths: Seq<Seq<char>>, path: Seq<char>, from: int)
    requires
        0 <= from <= paths.len(),
    ensures
        from <= first_alike(paths, path, from) <= paths.len(),
        first_alike(paths, path, from) < paths.len() ==> same_path(
            paths[first_alike(paths, path, from)],
            path,
        ),
        forall|j: int|
            from <= j < first_alike(paths, path, from) ==> !same_path(#[trigger] paths[j], path),
    decreases paths.len() - from,
{
    if from < paths.len() && !same_path(paths[from], path) {
        lemma_first_alike(paths, path, from + 1);
    }
}

/// `head` is one of the paths up to path `i`, and has the components of path `i`.
pub open spec fn is_head(paths: Seq<Seq<char>>, i: int, head: Seq<char>) -> bool {
    let h = first_alike(paths, paths[i], 0);
    0 <= h <= i && head == paths[h] && same_path(head, paths[i])
}

/// A path that is grouped is one of the paths, with the same components; paths with the
/// same components are grouped under one spelling.
pub proof fn lemma_grouped(paths: Seq<Seq<char>>)
    ensures
        forall|i: int|
            0 <= i < paths.len() ==> is_head(paths, i, #[trigger] grouped(paths)[i]),
        forall|i: int, j: int|
            0 <= i < paths.len() && 0 <= j < paths.len() && same_path(paths[i], paths[j])
                ==> #[trigger] grouped(paths)[i] == #[trigger] grouped(paths)[j],
{
    assert forall|i: int| 0 <= i < paths.len() implies is_head(
        paths,
        i,
        #[trigger] grouped(paths)[i],
    ) by {
        lemma_first_alike(paths, paths[i], 0);
    }
    assert forall|i: int, j: int|
        0 <= i < paths.len() && 0 <= j < paths.len() && same_path(
            paths[i],
            paths[j],
        ) implies #[trigger] grouped(paths)[i] == #[trigger] grouped(paths)[j] by {
        lemma_first_alike(paths, paths[i], 0);
        lemma_first_alike(paths, paths[j], 0);
        let a = first_alike(paths, paths[i], 0);
        let b = first_alike(paths, paths[j], 0);
        assert(same_path(paths[a], paths[j]));
        assert(same_path(paths[b], paths[i]));
    }
}

/// Spell each path as the first path with its components.
pub fn group_paths(paths: &Vec<String>) -> (r: Vec<String>)
    ensures
        texts(r@) == grouped(texts(paths@)),
        r@.len() == paths@.len(),
{
    let ghost all = texts(paths@);
    let mut heads: Vec<usize> = Vec::new();
    let mut out: Vec<String> = Vec::new();
    let mut i: usize = 0;
    proof {
        lemma_grouped(all);
    }
    while i < paths.len()
        invariant
            i <= paths@.len(),
            all == texts(paths@),
            out@.len() == i,
            forall|j: int| 0 <= j < i ==> #[trigger] out@[j]@ == grouped(all)[j],
            forall|m: int|
                0 <= m < heads@.len() ==> #[trigger] heads@[m] < i && first_alike(
                    all,
                    all[heads@[m] as int],
                    0,
                ) == heads@[m],
            forall|j: int|
                0 <= j < i ==> exists|m: int|
                    0 <= m < heads@.len() && heads@[m] == first_alike(all, #[trigger] all[j], 0),
        decreases paths@.len() - i,
    {
        let path = paths[i].as_str();
        assert(all[i as int] == path@);
        let mut m: usize = 0;
        while m < heads.len() && !path_eq(paths[heads[m]].as_str(), path)
            invariant
                i < paths@.len(),
                all == texts(paths@),
                m <= heads@.len(),
                forall|k: int| 0 <= k < heads@.len() ==> #[trigger] heads@[k] < i,
                forall|k: int|
                    0 <= k < m ==> !same_path(all[#[trigger] heads@[k] as int], path@),
            decreases heads@.len() - m,
        {
            assert(all[heads@[m as int] as int] == paths@[heads@[m as int] as int]@);
            m += 1;
        }
        proof {
            lemma_first_alike(all, path@, 0);
        }
        let ghost before = heads@;
        if m < heads.len() {
            let head: usize = heads[m];
            proof {
                assert(all[head as int] == paths@[head as int]@);
                lemma_first_alike(all, all[head as int], 0);
                assert(first_alike(all, path@, 0) == head);
            }
            out.push(paths[head].clone());
        } else {
            proof {
                let h = first_alike(all, path@, 0);
                if h < i {
                    let k = choose|k: int|
                        0 <= k < heads@.len() && heads@[k] == first_alike(all, all[h], 0);
                    lemma_first_alike(all, all[h], 0);
                    assert(!same_path(all[heads@[k] as int], path@));
                    assert(false);
                }
                assert(h == i);
            }
            heads.push(i);
            out.push(paths[i].clone());
            assert(heads@[before.len() as int] == first_alike(all, all[i as int], 0));
        }
        proof {
            assert forall|j: int| 0 <= j < i + 1 implies exists|m: int|
                0 <= m < heads@.len() && heads@[m] == first_alike(all, #[trigger] all[j], 0) by {
                if j < i {
                    let k = choose|k: int|
                        0 <= k < before.len() && before[k] == first_alike(all, all[j], 0);
                    assert(heads@[k] == first_alike(all, all[j], 0));
                } else if m < before.len() {
                    assert(heads@[m as int] == first_alike(all, all[j], 0));
                }
            }
        }
        i += 1;
    }
    assert(texts(out@) =~= grouped(all));
    out
}

/// Paths in ascending order, no two with the same components.
pub open spec fn ascending_paths(paths: Seq<Seq<char>>) -> bool {
    forall|i: int, j: int| 0 <= i < j < paths.len() ==> #[trigger] path_lt(paths[i], paths[j])
}

/// Insert a path into an ascending list, unless a path with its components is there.
fn insert_path(paths: &mut Vec<String>, path: String)
    requires
        ascending_paths(texts(old(paths)@)),
        forall|i: int|
            0 <= i < old(paths)@.len() && same_path(texts(old(paths)@)[i], path@)
                ==> #[trigger] texts(old(paths)@)[i] == path@,
    ensures
        ascending_paths(texts(final(paths)@)),
        texts(final(paths)@).to_set() == texts(old(paths)@).to_set().insert(path@),
{
    let ghost before = texts(paths@);
    let mut at: usize = 0;
    while at < paths.len() && path_less(paths[at].as_str(), path.as_str())
        invariant
            at <= paths.len(),
            texts(paths@) == before,
            forall|i: int| 0 <= i < at ==> path_lt(#[trigger] before[i], path@),
        decreases paths.len() - at,
    {
        assert(texts(paths@)[at as int] == paths@[at as int]@);
        at += 1;
    }
    if at < paths.len() && path_eq(paths[at].as_str(), path.as_str()) {
        assert(same_path(before[at as int], path@));
        assert(before[at as int] == path@);
        assert(before.contains(path@));
        assert(before.to_set().insert(path@) =~= before.to_set());
        return;
    }
    let ghost inserted = path@;
    proof {
        if at < paths.len() {
            assert(before[at as int] == paths@[at as int]@);
            lemma_path_lt_total(before[at as int], inserted);
            assert forall|i: int| at <= i < before.len() implies path_lt(
                inserted,
                #[trigger] before[i],
            ) by {
                if i > at {
                    lemma_path_lt_trans(inserted, before[at as int], before[i]);
                }
            }
        }
    }
    paths.insert(at, path);
    proof {
        let after = texts(paths@);
        assert(after =~= before.insert(at as int, inserted));
        assert forall|i: int, j: int| 0 <= i < j < after.len() implies #[trigger] path_lt(
            after[i],
            after[j],
        ) by {
            if i < at && j > at {
                assert(path_lt(before[i], before[j - 1]));
            } else if i > at {
                assert(path_lt(before[i - 1], before[j - 1]));
            } else if j < at {
                assert(path_lt(before[i], before[j]));
            }
        }
        assert forall|x: Seq<char>| after.to_set().contains(x) == before.to_set().insert(
            inserted,
        ).contains(x) by {
            if before.contains(x) {
                let k = choose|k: int| 0 <= k < before.len() && before[k] == x;
                assert(after[if k < at { k } else { k + 1 }] == x);
            }
            assert(after[at as int] == inserted);
            if after.contains(x) && x != inserted {
                let k = choose|k: int| 0 <= k < after.len() && after[k] == x;
                assert(before[if k < at { k } else { k - 1 }] == x);
            }
        }
        assert(after.to_set() =~= before.to_set().insert(inserted));
    }
}

/// Sort paths and keep the first of those with the same components.
pub fn distinct_paths(paths: &Vec<String>) -> (r: Vec<String>)
    ensures
        ascending_paths(texts(r@)),
        texts(r@).to_set() == grouped(texts(paths@)).to_set(),
{
    let ghost all = texts(paths@);
    let spelled = group_paths(paths);
    let ghost heads = grouped(all);
    let mut out: Vec<String> = Vec::new();
    let mut i: usize = 0;
    assert(texts(out@).to_set() =~= heads.subrange(0, 0).to_set());
    while i < spelled.len()
        invariant
            i <= spelled@.len(),
            heads == texts(spelled@),
            heads == grouped(all),
            heads.len() == all.len(),
            ascending_paths(texts(out@)),
            texts(out@).to_set() == heads.subrange(0, i as int).to_set(),
        decreases spelled@.len() - i,
    {
        let path = spelled[i].clone();
        let ghost taken = heads.subrange(0, i as int);
        proof {
            assert(heads[i as int] == path@);
            lemma_grouped(all);
            assert forall|k: int|
                0 <= k < out@.len() && same_path(
                    texts(out@)[k],
                    path@,
                ) implies #[trigger] texts(out@)[k] == path@ by {
                assert(texts(out@).to_set().contains(texts(out@)[k]));
                assert(taken.contains(texts(out@)[k]));
                let j = choose|j: int| 0 <= j < taken.len() && taken[j] == texts(out@)[k];
                assert(is_head(all, j, heads[j]) && is_head(all, i as int, heads[i as int]));
                assert(heads[j] == heads[i as int]);
            }
        }
        insert_path(&mut out, path);
        proof {
            lemma_push_set(taken, heads[i as int]);
            assert(heads.subrange(0, i + 1) =~= taken.push(heads[i as int]));
        }
        i += 1;
    }
    assert(heads.subrange(0, i as int) =~= heads);
    out
}

proof fn lemma_push_set(s: Seq<Seq<char>>, x: Seq<char>)
    ensures
        s.push(x).to_set() == s.to_set().insert(x),
{
    assert forall|n: Seq<char>| s.push(x).to_set().contains(n) == s.to_set().insert(x).contains(
        n,
    ) by {
        if s.contains(n) {
            let k = choose|k: int| 0 <= k < s.len() && s[k] == n;
            assert(s.push(x)[k] == n);
        }
        if s.push(x).contains(n) && n != x {
            let k = choose|k: int| 0 <= k < s.push(x).len() && s.push(x)[k] == n;
            assert(s[k] == n);
        }
        assert(s.push(x)[s.len() as int] == x);
    }
    assert(s.push(x).to_set() =~= s.to_set().insert(x));
}

/// Paths in order; a path may occur more than once.
pub open spec fn sorted_paths(names: Seq<Seq<char>>) -> bool {
    forall|i: int, j: int| 0 <= i < j < names.len() ==> !#[trigger] path_lt(names[j], names[i])
}

proof fn lemma_not_less_trans(a: Seq<char>, b: Seq<char>, c: Seq<char>)
    requires
        !path_lt(b, a),
        !path_lt(c, b),
    ensures
        !path_lt(c, a),
{
    lemma_path_lt_total(a, b);
    lemma_path_lt_total(b, c);
    lemma_path_lt_total(a, c);
    if same_path(a, b) {
        lemma_path_lt_alike(a, b, c);
    } else if same_path(b, c) {
        lemma_path_lt_alike(b, c, a);
    } else {
        lemma_path_lt_trans(a, b, c);
    }
}

/// Insert a path into a sorted list behind the paths that are not above it.
fn insert_sorted_path(names: &mut Vec<String>, name: String)
    requires
        sorted_paths(texts(old(names)@)),
    ensures
        sorted_paths(texts(final(names)@)),
        texts(final(names)@).to_multiset() == texts(old(names)@).to_multiset().insert(name@),
        final(names)@.len() == old(names)@.len() + 1,
{
    let ghost before = texts(names@);
    let mut at: usize = names.len();
    while at > 0 && path_less(name.as_str(), names[at - 1].as_str())
        invariant
            at <= names.len(),
            texts(names@) == before,
            forall|i: int| at <= i < before.len() ==> path_lt(name@, #[trigger] before[i]),
        decreases at,
    {
        assert(before[at - 1] == names@[at - 1]@);
        at -= 1;
    }
    let ghost inserted = name@;
    proof {
        if at > 0 {
            assert(before[at - 1] == names@[at - 1]@);
        }
        assert forall|i: int| 0 <= i < at implies !path_lt(inserted, #[trigger] before[i]) by {
            if i < at - 1 {
                assert(!path_lt(before[at - 1], before[i]));
                lemma_not_less_trans(before[i], before[at - 1], inserted);
            }
        }
    }
    names.insert(at, name);
    proof {
        let after = texts(names@);
        assert(after =~= before.insert(at as int, inserted));
        lemma_insert_multiset(before, at as int, inserted);
        assert forall|i: int, j: int| 0 <= i < j < after.len() implies !#[trigger] path_lt(
            after[j],
            after[i],
        ) by {
            if i < at && j > at {
                assert(!path_lt(before[j - 1], before[i]));
            } else if i > at {
                assert(!path_lt(before[j - 1], before[i - 1]));
            } else if j < at {
                assert(!path_lt(before[j], before[i]));
            } else if i == at {
                assert(path_lt(inserted, before[j - 1]));
                lemma_path_lt_total(inserted, before[j - 1]);
            } else {
                assert(!path_lt(inserted, before[i]));
            }
        }
    }
}

proof fn lemma_insert_multiset(s: Seq<Seq<char>>, at: int, x: Seq<char>)
    requires
        0 <= at <= s.len(),
    ensures
        s.insert(at, x).to_multiset() == s.to_multiset().insert(x),
{
    s.to_multiset_ensures();
    let a = s.subrange(0, at);
    let b = s.subrange(at, s.len() as int);
    assert(s =~= a + b);
    assert(s.insert(at, x) =~= a.push(x) + b);
    vstd::seq_lib::lemma_multiset_commutative(a, b);
    vstd::seq_lib::lemma_multiset_commutative(a.push(x), b);
    a.to_multiset_ensures();
    assert(s.insert(at, x).to_multiset() =~= s.to_multiset().insert(x));
}

/// Sort paths.
pub fn sort_paths(names: Vec<String>) -> (r: Vec<String>)
    ensures
        sorted_paths(texts(r@)),
        texts(r@).to_multiset() == texts(names@).to_multiset(),
        r@.len() == names@.len(),
{
    let ghost all = texts(names@);
    let mut out: Vec<String> = Vec::new();
    assert(texts(out@) =~= Seq::<Seq<char>>::empty());
    assert(all.subrange(0, 0) =~= Seq::<Seq<char>>::empty());
    for name in it: names
        invariant
            all == texts(it.seq()),
            out@.len() == it.index(),
            sorted_paths(texts(out@)),
            texts(out@).to_multiset() == all.subrange(0, it.index() as int).to_multiset(),
    {
        proof {
            let k = it.index() as int;
            let prefix = all.subrange(0, k);
            prefix.to_multiset_ensures();
            assert(all.subrange(0, k + 1) =~= prefix.push(name@));
        }
        insert_sorted_path(&mut out, name);
    }
    assert(all.subrange(0, all.len() as int) =~= all);
    out
}

} // verus!
