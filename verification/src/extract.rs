//! Where an archive entry may be written.
//!
//! The path stored in an entry is not trusted. It is cut into components,
//! and only a sequence of ordinary names, possibly behind a leading `.`, is
//! accepted. The names are then appended to the destination one by one, so
//! the file lands below the destination and nowhere else. Nothing here
//! touches the file system: the outcome is a list of directories to create
//! and the path of the file to write.
//!
//! Paths are cut by the convention of a host that separates components with
//! `/` and knows no drive or volume specifiers: `entry_path` rewrites toward
//! `/`, and `components` never yields a `Prefix`. On such a host a name like
//! `C:` is an ordinary name. A caller on a host that has specifiers cuts the
//! rewritten path by the host's own rules and hands the components to
//! `place`, which refuses a prefix or a root wherever it stands.

use crate::bytes::{append, copy_of, copy_range};
use vstd::prelude::*;

verus! {

/// The separator of path components, `/`.
pub const SEP: u8 = 0x2F;

/// The separator that archives written elsewhere may hold, `\`.
pub const BACKSLASH: u8 = 0x5C;

/// The byte `.`.
pub const DOT: u8 = 0x2E;

/// One component of a path, as a mathematical value.
pub enum PathPart {
    /// A drive or volume specifier.
    Prefix,
    /// The anchor of an absolute path.
    RootDir,
    /// A leading `.`.
    CurDir,
    /// The name `..`.
    ParentDir,
    /// An ordinary name.
    Normal(Seq<u8>),
}

/// One component of a path.
#[derive(Clone, Debug, PartialEq, Eq)]
pub enum Component {
    /// A drive or volume specifier.
    Prefix,
    /// The anchor of an absolute path.
    RootDir,
    /// A leading `.`.
    CurDir,
    /// The name `..`.
    ParentDir,
    /// An ordinary name.
    Normal(Vec<u8>),
}

impl View for Component {
    type V = PathPart;

    open spec fn view(&self) -> PathPart {
        match self {
            Component::Prefix => PathPart::Prefix,
            Component::RootDir => PathPart::RootDir,
            Component::CurDir => PathPart::CurDir,
            Component::ParentDir => PathPart::ParentDir,
            Component::Normal(name) => PathPart::Normal(name@),
        }
    }
}

/// The components of a sequence, each as a mathematical value.
pub open spec fn parts_of(cs: Seq<Component>) -> Seq<PathPart> {
    Seq::new(cs.len(), |i: int| cs[i]@)
}

/// Why a stored path is refused.
#[derive(Clone, Copy, Debug, PartialEq, Eq, Structural)]
pub enum PathError {
    /// The path holds a drive specifier or starts at the root.
    NotRelative,
    /// The path holds `..`.
    Traversal,
    /// The path names nothing.
    Empty,
}

impl PathError {
    pub open spec fn spec_message(self) -> Seq<char> {
        match self {
            PathError::NotRelative => "Must be relative path"@,
            PathError::Traversal => "URHAXSUX"@,
            PathError::Empty => "Path has no length"@,
        }
    }

    /// The text that goes with the error.
    pub fn message(&self) -> (r: &'static str)
        ensures
            r@ == self.spec_message(),
    {
        match self {
            PathError::NotRelative => "Must be relative path",
            PathError::Traversal => "URHAXSUX",
            PathError::Empty => "Path has no length",
        }
    }
}

/// The stored path with every backslash turned into a slash.
pub open spec fn slashed(stored: Seq<u8>) -> Seq<u8> {
    Seq::new(stored.len(), |i: int| if stored[i] == BACKSLASH { SEP } else { stored[i] })
}

/// Rewrites the separators of a stored path to those of the host, which is
/// taken to separate with `/`: every backslash becomes a slash, every other
/// byte stays.
pub fn entry_path(stored: &[u8]) -> (r: Vec<u8>)
    ensures
        r@ == slashed(stored@),
{
    let mut out: Vec<u8> = Vec::new();
    let mut i: usize = 0;
    while i < stored.len()
        invariant
            i <= stored.len(),
            out@.len() == i,
            forall|j: int| 0 <= j < i ==> out@[j] == slashed(stored@)[j],
        decreases stored.len() - i,
    {
        let b = stored[i];
        if b == BACKSLASH {
            out.push(SEP);
        } else {
            out.push(b);
        }
        i += 1;
    }
    assert(out@ =~= slashed(stored@));
    out
}

/// The index of the first separator at or after `i`, or the length of the
/// path where none follows.
pub open spec fn segment_end(path: Seq<u8>, i: int) -> int
    decreases path.len() - i,
{
    if i < 0 || i >= path.len() {
        path.len() as int
    } else if path[i] == SEP {
        i
    } else {
        segment_end(path, i + 1)
    }
}

/// The component that one segment between separators stands for, if any.
/// An empty segment stands for nothing, and `.` only at the very start of a
/// path that does not begin at the root.
pub open spec fn segment_part(seg: Seq<u8>, leading: bool) -> Option<PathPart> {
    if seg.len() == 0 {
        None
    } else if seg == seq![DOT] {
        if leading {
            Some(PathPart::CurDir)
        } else {
            None
        }
    } else if seg == seq![DOT, DOT] {
        Some(PathPart::ParentDir)
    } else {
        Some(PathPart::Normal(seg))
    }
}

/// The components of the segments that start at or after `start`.
pub open spec fn parts_from(path: Seq<u8>, start: int, leading: bool) -> Seq<PathPart>
    decreases path.len() + 1 - start,
    via parts_from_terminates
{
    if start < 0 || start >= path.len() {
        Seq::empty()
    } else {
        let end = segment_end(path, start);
        let rest = parts_from(path, end + 1, false);
        match segment_part(path.subrange(start, end), leading) {
            Some(p) => seq![p] + rest,
            None => rest,
        }
    }
}

#[via_fn]
proof fn parts_from_terminates(path: Seq<u8>, start: int, leading: bool) {
    if 0 <= start < path.len() {
        lemma_segment_end_bounds(path, start);
    }
}

/// The components of a path whose separator is `/`.
///
/// A leading separator gives `RootDir`. Repeated and trailing separators give
/// nothing. A segment `.` gives `CurDir` only where it is the first segment
/// of a path without a root, and nothing elsewhere. A segment `..` gives
/// `ParentDir`; any other segment is a name.
pub open spec fn path_parts(path: Seq<u8>) -> Seq<PathPart> {
    if path.len() > 0 && path[0] == SEP {
        seq![PathPart::RootDir] + parts_from(path, 1, false)
    } else {
        parts_from(path, 0, true)
    }
}

pub proof fn lemma_segment_end_bounds(path: Seq<u8>, i: int)
    requires
        0 <= i <= path.len(),
    ensures
        i <= segment_end(path, i) <= path.len(),
        segment_end(path, i) < path.len() ==> path[segment_end(path, i)] == SEP,
        forall|j: int| i <= j < segment_end(path, i) ==> path[j] != SEP,
    decreases path.len() - i,
{
    if i < path.len() && path[i] != SEP {
        lemma_segment_end_bounds(path, i + 1);
    }
}

/// Cuts a path into its components, by the rules of a host that separates
/// with `/` and has no drive or volume specifiers: a leading `/` is the
/// root, and no component is a prefix.
pub fn components(path: &[u8]) -> (r: Vec<Component>)
    ensures
        parts_of(r@) == path_parts(path@),
{
    let mut out: Vec<Component> = Vec::new();
    let mut start: usize = 0;
    let mut leading = true;
    if path.len() > 0 && path[0] == SEP {
        out.push(Component::RootDir);
        start = 1;
        leading = false;
    }
    assert(parts_of(out@) + parts_from(path@, start as int, leading) =~= path_parts(path@));
    while start < path.len()
        invariant
            start <= path.len(),
            parts_of(out@) + parts_from(path@, start as int, leading) == path_parts(path@),
        decreases path.len() - start,
    {
        let mut end: usize = start;
        while end < path.len() && path[end] != SEP
            invariant
                start <= end <= path.len(),
                segment_end(path@, start as int) == segment_end(path@, end as int),
            decreases path.len() - end,
        {
            end += 1;
        }
        let ghost before = parts_of(out@);
        let ghost rest = parts_from(path@, end + 1, false);
        let ghost seg = path@.subrange(start as int, end as int);
        assert(segment_end(path@, start as int) == end);
        let n = end - start;
        if n == 0 {
            assert(segment_part(seg, leading) is None);
        } else if n == 1 && path[start] == DOT {
            assert(seg =~= seq![DOT]);
            if leading {
                out.push(Component::CurDir);
                assert(parts_of(out@) =~= before + seq![PathPart::CurDir]);
            }
        } else if n == 2 && path[start] == DOT && path[start + 1] == DOT {
            assert(seg =~= seq![DOT, DOT]);
            assert(seg != seq![DOT]);
            out.push(Component::ParentDir);
            assert(parts_of(out@) =~= before + seq![PathPart::ParentDir]);
        } else {
            assert(seg != seq![DOT]) by {
                if seg == seq![DOT] {
                    assert(seg.len() == 1);
                    assert(seg[0] == DOT);
                }
            }
            assert(seg != seq![DOT, DOT]) by {
                if seg == seq![DOT, DOT] {
                    assert(seg.len() == 2);
                    assert(seg[0] == DOT);
                    assert(seg[1] == DOT);
                }
            }
            let name = copy_range(path, start, end);
            out.push(Component::Normal(name));
            assert(parts_of(out@) =~= before + seq![PathPart::Normal(seg)]);
        }
        assert(parts_of(out@) + rest =~= before + parts_from(path@, start as int, leading));
        assert(end == path.len() ==> rest =~= parts_from(path@, end as int, false));
        start = if end < path.len() {
            end + 1
        } else {
            end
        };
        leading = false;
    }
    assert(parts_from(path@, start as int, leading) =~= Seq::empty());
    assert(parts_of(out@) + Seq::<PathPart>::empty() =~= parts_of(out@));
    out
}

/// The error that one component calls for, if it is not allowed.
pub open spec fn part_error(p: PathPart) -> Option<PathError> {
    match p {
        PathPart::Prefix => Some(PathError::NotRelative),
        PathPart::RootDir => Some(PathError::NotRelative),
        PathPart::ParentDir => Some(PathError::Traversal),
        _ => None,
    }
}

/// The error of the first component, from the left, that is not allowed.
pub open spec fn first_error(parts: Seq<PathPart>) -> Option<PathError>
    decreases parts.len(),
{
    if parts.len() == 0 {
        None
    } else {
        match first_error(parts.drop_last()) {
            Some(e) => Some(e),
            None => part_error(parts.last()),
        }
    }
}

/// The ordinary names among the components, in order.
pub open spec fn names(parts: Seq<PathPart>) -> Seq<Seq<u8>>
    decreases parts.len(),
{
    if parts.len() == 0 {
        Seq::empty()
    } else {
        match parts.last() {
            PathPart::Normal(name) => names(parts.drop_last()).push(name),
            _ => names(parts.drop_last()),
        }
    }
}

/// The path `acc` with `name` appended as one more component.
pub open spec fn join(acc: Seq<u8>, name: Seq<u8>) -> Seq<u8> {
    if acc.len() == 0 {
        name
    } else if acc.last() == SEP {
        acc + name
    } else {
        acc.push(SEP) + name
    }
}

/// The path `root` with the first `k` of `names` appended.
pub open spec fn chain(root: Seq<u8>, names: Seq<Seq<u8>>, k: int) -> Seq<u8>
    decreases k,
{
    if k <= 0 {
        root
    } else {
        join(chain(root, names, k - 1), names[k - 1])
    }
}

/// What is to be done for one entry, as a mathematical value: the
/// directories to create, outermost first, and the file to write.
pub struct Placement {
    pub dirs: Seq<Seq<u8>>,
    pub file: Seq<u8>,
}

/// Where the components `parts` lead from `root`.
///
/// A component that is not allowed refuses the whole path. Leading `.` is
/// passed over. Each name is appended in turn; all but the last name a
/// directory, the last names the file. A path without a name is refused.
pub open spec fn placement(root: Seq<u8>, parts: Seq<PathPart>) -> Result<Placement, PathError> {
    match first_error(parts) {
        Some(e) => Err(e),
        None => {
            let n = names(parts);
            if n.len() == 0 {
                Err(PathError::Empty)
            } else {
                Ok(
                    Placement {
                        dirs: Seq::new((n.len() - 1) as nat, |j: int| chain(root, n, j + 1)),
                        file: chain(root, n, n.len() as int),
                    },
                )
            }
        },
    }
}

/// What is to be done for one entry: the directories to create, outermost
/// first, and the file to write.
#[derive(Clone, Debug, PartialEq, Eq)]
pub struct Resolved {
    pub dirs: Vec<Vec<u8>>,
    pub file: Vec<u8>,
}

impl View for Resolved {
    type V = Placement;

    open spec fn view(&self) -> Placement {
        Placement { dirs: Seq::new(self.dirs@.len(), |j: int| self.dirs@[j]@), file: self.file@ }
    }
}

/// The bytes of an optional destination; none means the working directory.
pub open spec fn root_bytes(to: Option<&[u8]>) -> Seq<u8> {
    match to {
        Some(root) => root@,
        None => Seq::empty(),
    }
}

/// Appends `name` to the path `acc` as one more component.
fn push_name(acc: &mut Vec<u8>, name: &[u8])
    ensures
        final(acc)@ == join(old(acc)@, name@),
{
    let n = acc.len();
    if n > 0 && acc[n - 1] != SEP {
        acc.push(SEP);
    }
    append(acc, name);
    assert(acc@ =~= join(old(acc)@, name@));
}

/// The first component that is not allowed, as an error.
fn scan(parts: &[Component]) -> (r: Option<PathError>)
    ensures
        r == first_error(parts_of(parts@)),
{
    let ghost all = parts_of(parts@);
    let mut i: usize = 0;
    while i < parts.len()
        invariant
            i <= parts.len(),
            all == parts_of(parts@),
            first_error(all.take(i as int)) is None,
        decreases parts.len() - i,
    {
        let found = match &parts[i] {
            Component::Prefix => Some(PathError::NotRelative),
            Component::RootDir => Some(PathError::NotRelative),
            Component::ParentDir => Some(PathError::Traversal),
            _ => None,
        };
        proof {
            assert(all.take(i + 1).drop_last() =~= all.take(i as int));
            assert(all.take(i + 1).last() == parts@[i as int]@);
            assert(first_error(all.take(i + 1)) == found);
            if found is Some {
                lemma_first_error_stays(all, i + 1);
            }
        }
        if found.is_some() {
            return found;
        }
        i += 1;
    }
    assert(all.take(parts.len() as int) =~= all);
    None
}

/// An error among the first `k` components is the error of the whole path.
pub proof fn lemma_first_error_stays(parts: Seq<PathPart>, k: int)
    requires
        0 <= k <= parts.len(),
        first_error(parts.take(k)) is Some,
    ensures
        first_error(parts) == first_error(parts.take(k)),
    decreases parts.len() - k,
{
    if k < parts.len() {
        assert(parts.take(k + 1).drop_last() =~= parts.take(k));
        lemma_first_error_stays(parts, k + 1);
    } else {
        assert(parts.take(k) =~= parts);
    }
}

/// Runs the components of a stored path against a destination.
///
/// The result is `Err(NotRelative)` where the first component that is not
/// allowed is a prefix or the root, `Err(Traversal)` where it is `..`,
/// `Err(Empty)` where all are allowed and none is a name, and otherwise the
/// directories and the file that `placement` gives.
pub fn place(parts: &[Component], to: Option<&[u8]>) -> (r: Result<Resolved, PathError>)
    ensures
        match r {
            Ok(res) => placement(root_bytes(to), parts_of(parts@)) == Ok::<Placement, PathError>(
                res@,
            ),
            Err(e) => placement(root_bytes(to), parts_of(parts@)) == Err::<Placement, PathError>(
                e,
            ),
        },
{
    let ghost all = parts_of(parts@);
    let ghost root = root_bytes(to);
    if let Some(e) = scan(parts) {
        return Err(e);
    }
    let mut acc: Vec<u8> = match to {
        Some(root) => copy_of(root),
        None => Vec::new(),
    };
    let mut made: Vec<Vec<u8>> = Vec::new();
    let mut i: usize = 0;
    while i < parts.len()
        invariant
            i <= parts.len(),
            all == parts_of(parts@),
            made@.len() == names(all.take(i as int)).len(),
            forall|j: int|
                0 <= j < made@.len() ==> (#[trigger] made@[j])@ == chain(
                    root,
                    names(all.take(i as int)),
                    j + 1,
                ),
            acc@ == chain(root, names(all.take(i as int)), made@.len() as int),
        decreases parts.len() - i,
    {
        let ghost seen = names(all.take(i as int));
        proof {
            assert(all.take(i + 1).drop_last() =~= all.take(i as int));
            assert(all.take(i + 1).last() == parts@[i as int]@);
        }
        match &parts[i] {
            Component::Normal(name) => {
                push_name(&mut acc, name.as_slice());
                made.push(acc.clone());
                proof {
                    let now = names(all.take(i + 1));
                    assert(now == seen.push(name@));
                    lemma_chain_ignores_later(root, seen, now, seen.len() as int);
                    assert forall|j: int| 0 <= j < made@.len() implies (#[trigger] made@[j])@
                        == chain(root, now, j + 1) by {
                        if j < seen.len() {
                            lemma_chain_ignores_later(root, seen, now, j + 1);
                        }
                    }
                }
            },
            _ => {},
        }
        i += 1;
    }
    proof {
        assert(all.take(parts.len() as int) =~= all);
    }
    match made.pop() {
        None => Err(PathError::Empty),
        Some(file) => {
            let res = Resolved { dirs: made, file };
            proof {
                let n = names(all);
                let want = placement(root, all)->Ok_0;
                assert(res@.dirs =~= want.dirs);
            }
            Ok(res)
        },
    }
}

/// The first `k` links of a chain depend on the first `k` names only.
pub proof fn lemma_chain_ignores_later(root: Seq<u8>, a: Seq<Seq<u8>>, b: Seq<Seq<u8>>, k: int)
    requires
        0 <= k <= a.len() <= b.len(),
        forall|j: int| 0 <= j < a.len() ==> a[j] == b[j],
    ensures
        chain(root, a, k) == chain(root, b, k),
    decreases k,
{
    if k > 0 {
        lemma_chain_ignores_later(root, a, b, k - 1);
    }
}

/// Resolves the components of a path against the working directory.
pub fn build_path(path: &[u8]) -> (r: Result<Resolved, PathError>)
    ensures
        match r {
            Ok(res) => placement(Seq::empty(), path_parts(path@)) == Ok::<Placement, PathError>(
                res@,
            ),
            Err(e) => placement(Seq::empty(), path_parts(path@)) == Err::<Placement, PathError>(e),
        },
{
    let parts = components(path);
    place(parts.as_slice(), None)
}

/// Where the entry with the stored path `stored` goes below the destination
/// `to`, or below the working directory where no destination is given.
///
/// The separators of the stored path are rewritten first; its components
/// are then run against the destination.
pub fn unpack(to: Option<&[u8]>, stored: &[u8]) -> (r: Result<Resolved, PathError>)
    ensures
        match r {
            Ok(res) => placement(root_bytes(to), path_parts(slashed(stored@))) == Ok::<
                Placement,
                PathError,
            >(res@),
            Err(e) => placement(root_bytes(to), path_parts(slashed(stored@))) == Err::<
                Placement,
                PathError,
            >(e),
        },
{
    let path = entry_path(stored);
    let parts = components(path.as_slice());
    place(parts.as_slice(), to)
}

/// Whether a component is one that a stored path may hold.
pub open spec fn allowed(p: PathPart) -> bool {
    p is CurDir || p is Normal
}

/// No component is refused exactly where every component is allowed.
pub proof fn lemma_first_error_none_iff_all_allowed(parts: Seq<PathPart>)
    ensures
        first_error(parts) is None <==> forall|i: int|
            0 <= i < parts.len() ==> allowed(#[trigger] parts[i]),
    decreases parts.len(),
{
    if parts.len() > 0 {
        let front = parts.drop_last();
        lemma_first_error_none_iff_all_allowed(front);
        if first_error(parts) is None {
            assert forall|i: int| 0 <= i < parts.len() implies allowed(#[trigger] parts[i]) by {
                if i < front.len() {
                    assert(parts[i] == front[i]);
                }
            }
        }
        if forall|i: int| 0 <= i < parts.len() ==> allowed(#[trigger] parts[i]) {
            assert forall|i: int| 0 <= i < front.len() implies allowed(#[trigger] front[i]) by {
                assert(front[i] == parts[i]);
            }
            assert(allowed(parts[parts.len() - 1]));
        }
    }
}

/// There is a name among the components exactly where one of them is an
/// ordinary name, and every name comes from such a component.
pub proof fn lemma_names_come_from_parts(parts: Seq<PathPart>)
    ensures
        names(parts).len() > 0 <==> exists|i: int|
            0 <= i < parts.len() && (#[trigger] parts[i]) is Normal,
        forall|j: int|
            0 <= j < names(parts).len() ==> exists|i: int|
                0 <= i < parts.len() && #[trigger] parts[i] == PathPart::Normal(
                    #[trigger] names(parts)[j],
                ),
    decreases parts.len(),
{
    if parts.len() > 0 {
        let front = parts.drop_last();
        lemma_names_come_from_parts(front);
        if names(front).len() > 0 {
            let i = choose|i: int| 0 <= i < front.len() && (#[trigger] front[i]) is Normal;
            assert(parts[i] is Normal);
        }
        if parts.last() is Normal {
            assert(parts[parts.len() - 1] is Normal);
        }
        if exists|i: int| 0 <= i < parts.len() && (#[trigger] parts[i]) is Normal {
            let i = choose|i: int| 0 <= i < parts.len() && (#[trigger] parts[i]) is Normal;
            if i < front.len() {
                assert(front[i] is Normal);
            }
        }
        assert forall|j: int| 0 <= j < names(parts).len() implies exists|i: int|
            0 <= i < parts.len() && #[trigger] parts[i] == PathPart::Normal(
                #[trigger] names(parts)[j],
            ) by {
            if j < names(front).len() {
                assert(names(parts)[j] == names(front)[j]);
                let i = choose|i: int|
                    0 <= i < front.len() && #[trigger] front[i] == PathPart::Normal(
                        names(front)[j],
                    );
                assert(parts[i] == PathPart::Normal(names(parts)[j]));
            } else {
                assert(parts[parts.len() - 1] == PathPart::Normal(names(parts)[j]));
            }
        }
    }
}

/// A path is given a place exactly where each of its components is a
/// leading `.` or an ordinary name, and at least one is a name. Whatever
/// holds a prefix, the root or `..`, wherever it stands, is refused.
pub proof fn lemma_placed_iff_plain(root: Seq<u8>, parts: Seq<PathPart>)
    ensures
        placement(root, parts) is Ok <==> (forall|i: int|
            0 <= i < parts.len() ==> allowed(#[trigger] parts[i])) && (exists|i: int|
            0 <= i < parts.len() && (#[trigger] parts[i]) is Normal),
        placement(root, parts) == Err::<Placement, PathError>(PathError::Empty) <==> (forall|
            i: int,
        |
            0 <= i < parts.len() ==> (#[trigger] parts[i]) is CurDir),
{
    lemma_first_error_none_iff_all_allowed(parts);
    lemma_names_come_from_parts(parts);
    if forall|i: int| 0 <= i < parts.len() ==> (#[trigger] parts[i]) is CurDir {
        assert forall|i: int| 0 <= i < parts.len() implies allowed(#[trigger] parts[i]) by {
            assert(parts[i] is CurDir);
        }
    }
    if placement(root, parts) == Err::<Placement, PathError>(PathError::Empty) {
        lemma_first_error_is_never_empty(parts);
        assert forall|i: int| 0 <= i < parts.len() implies (#[trigger] parts[i]) is CurDir by {
            assert(allowed(parts[i]));
        }
    }
}

/// A refused component gives `NotRelative` or `Traversal`, never `Empty`.
pub proof fn lemma_first_error_is_never_empty(parts: Seq<PathPart>)
    ensures
        first_error(parts) != Some(PathError::Empty),
    decreases parts.len(),
{
    if parts.len() > 0 {
        lemma_first_error_is_never_empty(parts.drop_last());
    }
}

/// A path with `..` among its components is never given a place.
pub proof fn lemma_traversal_is_refused(root: Seq<u8>, parts: Seq<PathPart>, i: int)
    requires
        0 <= i < parts.len(),
        parts[i] is ParentDir || parts[i] is RootDir || parts[i] is Prefix,
    ensures
        placement(root, parts) is Err,
        placement(root, parts) != Err::<Placement, PathError>(PathError::Empty),
{
    lemma_placed_iff_plain(root, parts);
    assert(!allowed(parts[i]));
    assert(!(parts[i] is CurDir));
}

/// Each link of a chain starts with the link before it, and so with the
/// root.
pub proof fn lemma_chain_grows(root: Seq<u8>, names: Seq<Seq<u8>>, j: int, k: int)
    requires
        0 <= j <= k <= names.len(),
    ensures
        chain(root, names, j).is_prefix_of(chain(root, names, k)),
        chain(root, names, 0) == root,
    decreases k - j,
{
    if j < k {
        lemma_chain_grows(root, names, j, k - 1);
        let before = chain(root, names, k - 1);
        let after = chain(root, names, k);
        assert(before.is_prefix_of(after)) by {
            if before.len() > 0 {
                if before.last() == SEP {
                    assert(after == before + names[k - 1]);
                } else {
                    assert(after == before.push(SEP) + names[k - 1]);
                }
                assert(after.subrange(0, before.len() as int) =~= before);
            }
        }
        assert(chain(root, names, j).is_prefix_of(after)) by {
            let first = chain(root, names, j);
            assert(first =~= before.subrange(0, first.len() as int));
            assert(first =~= after.subrange(0, first.len() as int));
        }
    }
}

/// Where a path is given a place below a destination, every directory to
/// create and the file itself start with the destination, each directory with
/// the one before it, and the file with the last directory. The file is
/// the destination with the names of the path appended and nothing else.
pub proof fn lemma_placement_stays_below(root: Seq<u8>, parts: Seq<PathPart>)
    requires
        placement(root, parts) is Ok,
    ensures
        ({
            let p = placement(root, parts)->Ok_0;
            &&& root.is_prefix_of(p.file)
            &&& p.file == chain(root, names(parts), names(parts).len() as int)
            &&& p.dirs.len() + 1 == names(parts).len()
            &&& forall|j: int| 0 <= j < p.dirs.len() ==> root.is_prefix_of(#[trigger] p.dirs[j])
            &&& forall|j: int|
                0 <= j < p.dirs.len() ==> (#[trigger] p.dirs[j]).is_prefix_of(p.file)
            &&& forall|j: int, k: int|
                0 <= j <= k < p.dirs.len() ==> (#[trigger] p.dirs[j]).is_prefix_of(
                    #[trigger] p.dirs[k],
                )
        }),
{
    let n = names(parts);
    let p = placement(root, parts)->Ok_0;
    lemma_chain_grows(root, n, 0, n.len() as int);
    assert forall|j: int| 0 <= j < p.dirs.len() implies root.is_prefix_of(
        #[trigger] p.dirs[j],
    ) && p.dirs[j].is_prefix_of(p.file) by {
        lemma_chain_grows(root, n, 0, j + 1);
        lemma_chain_grows(root, n, j + 1, n.len() as int);
    }
    assert forall|j: int, k: int| 0 <= j <= k < p.dirs.len() implies (#[trigger] p.dirs[j])
        .is_prefix_of(#[trigger] p.dirs[k]) by {
        lemma_chain_grows(root, n, j + 1, k + 1);
    }
}

/// Whether a name can stand for one directory entry: it is not empty, holds
/// no separator, and is neither `.` nor `..`.
pub open spec fn plain_name(name: Seq<u8>) -> bool {
    &&& name.len() > 0
    &&& forall|i: int| 0 <= i < name.len() ==> name[i] != SEP
    &&& name != seq![DOT]
    &&& name != seq![DOT, DOT]
}

/// Every name among the components of a path after `start` is plain.
pub proof fn lemma_parts_from_are_plain(path: Seq<u8>, start: int, leading: bool)
    requires
        0 <= start,
    ensures
        forall|i: int|
            0 <= i < parts_from(path, start, leading).len() ==> (match #[trigger] parts_from(
                path,
                start,
                leading,
            )[i] {
                PathPart::Normal(name) => plain_name(name),
                PathPart::CurDir => leading && i == 0,
                PathPart::ParentDir => true,
                _ => false,
            }),
    decreases path.len() + 1 - start,
{
    if start < path.len() {
        lemma_segment_end_bounds(path, start);
        let end = segment_end(path, start);
        let seg = path.subrange(start, end);
        let rest = parts_from(path, end + 1, false);
        lemma_parts_from_are_plain(path, end + 1, false);
        let all = parts_from(path, start, leading);
        assert forall|i: int| 0 <= i < all.len() implies (match #[trigger] all[i] {
            PathPart::Normal(name) => plain_name(name),
            PathPart::CurDir => leading && i == 0,
            PathPart::ParentDir => true,
            _ => false,
        }) by {
            match segment_part(seg, leading) {
                Some(p) => {
                    if i == 0 {
                        assert(all[0] == p);
                    } else {
                        assert(all[i] == rest[i - 1]);
                    }
                },
                None => {
                    assert(all[i] == rest[i]);
                },
            }
        }
    }
}

/// The components of a path: the root can only come first, a `.` only
/// first, and every name is plain.
pub proof fn lemma_path_parts_are_plain(path: Seq<u8>)
    ensures
        forall|i: int|
            0 <= i < path_parts(path).len() ==> (match #[trigger] path_parts(path)[i] {
                PathPart::Normal(name) => plain_name(name),
                PathPart::CurDir => i == 0,
                PathPart::RootDir => i == 0,
                PathPart::ParentDir => true,
                PathPart::Prefix => false,
            }),
{
    let all = path_parts(path);
    if path.len() > 0 && path[0] == SEP {
        let rest = parts_from(path, 1, false);
        lemma_parts_from_are_plain(path, 1, false);
        assert forall|i: int| 0 <= i < all.len() implies (match #[trigger] all[i] {
            PathPart::Normal(name) => plain_name(name),
            PathPart::CurDir => i == 0,
            PathPart::RootDir => i == 0,
            PathPart::ParentDir => true,
            PathPart::Prefix => false,
        }) by {
            if i > 0 {
                assert(all[i] == rest[i - 1]);
            }
        }
    } else {
        lemma_parts_from_are_plain(path, 0, true);
    }
}

} // verus!
