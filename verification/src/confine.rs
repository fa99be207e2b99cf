//! Why a resolved path cannot leave its destination.
//!
//! A stored path is given a place only where all its components are
//! ordinary names. The path of the file is then the destination followed by
//! those names, one separator between each two. Read again, that relative
//! path falls into the same names and nothing else: no root, no `.`, no
//! `..`. So there is nothing in it that could lead out of the destination.

use crate::extract::{
    chain, join, lemma_names_come_from_parts, lemma_path_parts_are_plain,
    lemma_segment_end_bounds, names, parts_from, path_parts, placement, plain_name, segment_end,
    segment_part, PathPart, SEP,
};
use vstd::prelude::*;

verus! {

/// Whether every name of a sequence is plain.
pub open spec fn all_plain(ns: Seq<Seq<u8>>) -> bool {
    forall|i: int| 0 <= i < ns.len() ==> plain_name(#[trigger] ns[i])
}

/// The names with one separator between each two.
pub open spec fn join_all(ns: Seq<Seq<u8>>) -> Seq<u8>
    decreases ns.len(),
{
    if ns.len() == 0 {
        Seq::empty()
    } else if ns.len() == 1 {
        ns[0]
    } else {
        ns[0].push(SEP) + join_all(ns.skip(1))
    }
}

/// The components that stand for a sequence of names.
pub open spec fn as_parts(ns: Seq<Seq<u8>>) -> Seq<PathPart> {
    Seq::new(ns.len(), |i: int| PathPart::Normal(ns[i]))
}

/// Plain names joined are not empty, start with no separator and end with
/// none.
pub proof fn lemma_join_all_ends(ns: Seq<Seq<u8>>)
    requires
        ns.len() > 0,
        all_plain(ns),
    ensures
        join_all(ns).len() > 0,
        join_all(ns)[0] != SEP,
        join_all(ns).last() != SEP,
    decreases ns.len(),
{
    assert(plain_name(ns[0]));
    if ns.len() > 1 {
        let rest = ns.skip(1);
        assert forall|i: int| 0 <= i < rest.len() implies plain_name(#[trigger] rest[i]) by {
            assert(rest[i] == ns[i + 1]);
        }
        lemma_join_all_ends(rest);
        let j = join_all(ns);
        assert(j == ns[0].push(SEP) + join_all(rest));
        assert(j[0] == ns[0][0]);
        assert(j.last() == join_all(rest).last());
    }
}

/// Joining one more name appends a separator and the name.
pub proof fn lemma_join_all_push(ns: Seq<Seq<u8>>, x: Seq<u8>)
    requires
        ns.len() > 0,
    ensures
        join_all(ns.push(x)) == join_all(ns).push(SEP) + x,
    decreases ns.len(),
{
    let all = ns.push(x);
    if ns.len() == 1 {
        assert(all.skip(1) =~= seq![x]);
        assert(join_all(all.skip(1)) == x);
        assert(all[0] == ns[0]);
    } else {
        lemma_join_all_push(ns.skip(1), x);
        assert(all.skip(1) =~= ns.skip(1).push(x));
        assert(all[0] == ns[0]);
        assert(ns[0].push(SEP) + (join_all(ns.skip(1)).push(SEP) + x) =~= (ns[0].push(SEP)
            + join_all(ns.skip(1))).push(SEP) + x);
    }
}

/// The chain of the first `k` names from a root is the root with those
/// names, joined, appended as one.
pub proof fn lemma_chain_is_root_and_names(root: Seq<u8>, ns: Seq<Seq<u8>>, k: int)
    requires
        1 <= k <= ns.len(),
        all_plain(ns),
    ensures
        chain(root, ns, k) == join(root, join_all(ns.take(k))),
    decreases k,
{
    assert forall|i: int| 0 <= i < ns.take(k).len() implies plain_name(
        #[trigger] ns.take(k)[i],
    ) by {
        assert(ns.take(k)[i] == ns[i]);
    }
    if k == 1 {
        assert(ns.take(1)[0] == ns[0]);
        assert(chain(root, ns, 0) == root);
        assert(chain(root, ns, 1) == join(root, ns[0]));
        assert(join_all(ns.take(1)) == ns[0]);
    } else {
        lemma_chain_is_root_and_names(root, ns, k - 1);
        let front = ns.take(k - 1);
        let x = ns[k - 1];
        assert(ns.take(k) =~= front.push(x));
        assert forall|i: int| 0 <= i < front.len() implies plain_name(#[trigger] front[i]) by {
            assert(front[i] == ns[i]);
        }
        lemma_join_all_push(front, x);
        lemma_join_all_ends(front);
        let rel = join_all(front);
        let before = join(root, rel);
        assert(before.len() > 0 && before.last() == rel.last());
        assert(join(before, x) == before.push(SEP) + x);
        assert(chain(root, ns, k) == join(before, x));
        assert(join_all(ns.take(k)) == rel.push(SEP) + x);
        assert(join(root, rel.push(SEP) + x) =~= before.push(SEP) + x);
    }
}

/// The first separator at or after `i` is at `j` where no separator stands
/// from `i` up to `j` and `j` is a separator or the end.
pub proof fn lemma_segment_end_is(path: Seq<u8>, i: int, j: int)
    requires
        0 <= i <= j <= path.len(),
        forall|k: int| i <= k < j ==> path[k] != SEP,
        j < path.len() ==> path[j] == SEP,
    ensures
        segment_end(path, i) == j,
    decreases j - i,
{
    if i < j {
        lemma_segment_end_is(path, i + 1, j);
    }
}

/// Segments are found in what follows a prefix as they are found without
/// the prefix.
pub proof fn lemma_segment_end_shifts(pre: Seq<u8>, s: Seq<u8>, i: int)
    requires
        0 <= i <= s.len(),
    ensures
        segment_end(pre + s, pre.len() + i) == pre.len() + segment_end(s, i),
    decreases s.len() - i,
{
    let all = pre + s;
    if i < s.len() {
        assert(all[pre.len() + i] == s[i]);
        if s[i] != SEP {
            lemma_segment_end_shifts(pre, s, i + 1);
        }
    }
}

/// The components of what follows a prefix are those of the rest alone,
/// once reading has passed the prefix.
pub proof fn lemma_parts_shift(pre: Seq<u8>, s: Seq<u8>, i: int)
    requires
        0 <= i,
    ensures
        parts_from(pre + s, pre.len() + i, false) == parts_from(s, i, false),
    decreases s.len() + 1 - i,
{
    let all = pre + s;
    if i < s.len() {
        lemma_segment_end_shifts(pre, s, i);
        lemma_segment_end_bounds(s, i);
        let end = segment_end(s, i);
        assert(all.subrange(pre.len() + i, pre.len() + end) =~= s.subrange(i, end));
        lemma_parts_shift(pre, s, end + 1);
        assert(pre.len() + (end + 1) == (pre.len() + end) + 1);
    }
}

/// Plain names, joined and read again, are the same names and nothing
/// else.
pub proof fn lemma_joined_names_read_back(ns: Seq<Seq<u8>>, leading: bool)
    requires
        all_plain(ns),
    ensures
        parts_from(join_all(ns), 0, leading) == as_parts(ns),
    decreases ns.len(),
{
    let s = join_all(ns);
    if ns.len() == 0 {
        assert(as_parts(ns) =~= Seq::<PathPart>::empty());
    } else {
        let a = ns[0];
        assert(plain_name(a));
        if ns.len() == 1 {
            lemma_segment_end_is(s, 0, s.len() as int);
            assert(s.subrange(0, s.len() as int) =~= a);
            assert(segment_part(a, leading) == Some(PathPart::Normal(a)));
            assert(parts_from(s, s.len() as int + 1, false) =~= Seq::<PathPart>::empty());
            assert(as_parts(ns) =~= seq![PathPart::Normal(a)]);
            assert(seq![PathPart::Normal(a)] + Seq::<PathPart>::empty() =~= seq![
                PathPart::Normal(a),
            ]);
        } else {
            let rest = ns.skip(1);
            assert forall|i: int| 0 <= i < rest.len() implies plain_name(#[trigger] rest[i]) by {
                assert(rest[i] == ns[i + 1]);
            }
            let pre = a.push(SEP);
            let tail = join_all(rest);
            assert(s == pre + tail);
            assert forall|k: int| 0 <= k < a.len() implies s[k] != SEP by {
                assert(s[k] == a[k]);
            }
            assert(s[a.len() as int] == SEP);
            lemma_segment_end_is(s, 0, a.len() as int);
            assert(s.subrange(0, a.len() as int) =~= a);
            assert(segment_part(a, leading) == Some(PathPart::Normal(a)));
            lemma_parts_shift(pre, tail, 0);
            lemma_joined_names_read_back(rest, false);
            assert(pre.len() == a.len() + 1);
            assert(parts_from(s, a.len() as int + 1, false) == as_parts(rest));
            assert(seq![PathPart::Normal(a)] + as_parts(rest) =~= as_parts(ns)) by {
                assert forall|i: int| 0 <= i < ns.len() implies (seq![PathPart::Normal(a)]
                    + as_parts(rest))[i] == as_parts(ns)[i] by {
                    if i > 0 {
                        assert(rest[i - 1] == ns[i]);
                    }
                }
            }
        }
    }
}

/// The names of the components of a path are all plain.
pub proof fn lemma_names_of_path_are_plain(path: Seq<u8>)
    ensures
        all_plain(names(path_parts(path))),
{
    let parts = path_parts(path);
    lemma_path_parts_are_plain(path);
    lemma_names_come_from_parts(parts);
    assert forall|j: int| 0 <= j < names(parts).len() implies plain_name(
        #[trigger] names(parts)[j],
    ) by {
        let i = choose|i: int|
            0 <= i < parts.len() && #[trigger] parts[i] == PathPart::Normal(names(parts)[j]);
        assert(parts[i] is Normal);
    }
}

/// Whether `target` is the destination `root` with the plain names `ns`
/// appended as one relative path, which, read again, has those names as its
/// components and nothing else: no root, no `.`, no `..`.
pub open spec fn made_of(root: Seq<u8>, ns: Seq<Seq<u8>>, target: Seq<u8>) -> bool {
    &&& ns.len() >= 1
    &&& all_plain(ns)
    &&& target == join(root, join_all(ns))
    &&& path_parts(join_all(ns)) == as_parts(ns)
    &&& root.is_prefix_of(target)
    &&& target.len() > root.len()
}

/// A destination with plain names appended is made of them.
pub proof fn lemma_made_of_plain_names(root: Seq<u8>, ns: Seq<Seq<u8>>)
    requires
        ns.len() >= 1,
        all_plain(ns),
    ensures
        made_of(root, ns, join(root, join_all(ns))),
{
    lemma_join_all_ends(ns);
    lemma_joined_names_read_back(ns, true);
    let target = join(root, join_all(ns));
    if root.len() > 0 {
        assert(target.subrange(0, root.len() as int) =~= root);
    }
}

/// Where a path is given a place, the file is the destination with a
/// relative path appended as one, and that relative path is made of plain
/// names alone: read again, it has no root, no `.` and no `..` among its
/// components, only the names of the path in their order. The same holds of
/// every directory to create, with the names up to its own.
pub proof fn lemma_resolved_path_is_confined(root: Seq<u8>, path: Seq<u8>)
    requires
        placement(root, path_parts(path)) is Ok,
    ensures
        made_of(root, names(path_parts(path)), placement(root, path_parts(path))->Ok_0.file),
        forall|j: int|
            0 <= j < placement(root, path_parts(path))->Ok_0.dirs.len() ==> made_of(
                root,
                names(path_parts(path)).take(j + 1),
                #[trigger] placement(root, path_parts(path))->Ok_0.dirs[j],
            ),
{
    let parts = path_parts(path);
    let p = placement(root, parts)->Ok_0;
    let ns = names(parts);
    lemma_names_of_path_are_plain(path);
    lemma_chain_is_root_and_names(root, ns, ns.len() as int);
    assert(ns.take(ns.len() as int) =~= ns);
    lemma_made_of_plain_names(root, ns);
    assert forall|j: int| 0 <= j < p.dirs.len() implies made_of(
        root,
        ns.take(j + 1),
        #[trigger] p.dirs[j],
    ) by {
        lemma_chain_is_root_and_names(root, ns, j + 1);
        let front = ns.take(j + 1);
        assert forall|i: int| 0 <= i < front.len() implies plain_name(#[trigger] front[i]) by {
            assert(front[i] == ns[i]);
        }
        lemma_made_of_plain_names(root, front);
    }
}

} // verus!
