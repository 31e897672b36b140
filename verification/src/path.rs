//! Paths as text.
//!
//! A path is a string whose components are separated by [`SEPARATOR`].
//! The functions here compare and cut paths textually: they never touch the
//! file system and never resolve `.` or `..`.

use vstd::prelude::*;
use vstd::utf8::encode_utf8;

verus! {

/// The character that separates the components of a path.
pub const SEPARATOR: char = '/';

/// The length of a path as text: the number of bytes of its UTF-8 encoding.
pub open spec fn text_length(path: Seq<char>) -> nat {
    encode_utf8(path).len()
}

/// Whether `candidate` is strictly shorter, as text, than `canonical`.
pub open spec fn shorter(candidate: Seq<char>, canonical: Seq<char>) -> bool {
    text_length(candidate) < text_length(canonical)
}

/// Whether a path is absolute, that is, begins with a separator.
pub open spec fn is_absolute(path: Seq<char>) -> bool {
    path.len() > 0 && path[0] == SEPARATOR
}

/// `path` without the separators it begins with.
pub open spec fn trim_leading(path: Seq<char>) -> Seq<char>
    decreases path.len(),
{
    if is_absolute(path) {
        trim_leading(path.skip(1))
    } else {
        path
    }
}

/// Whether `path` lies under the non-empty directory `root`: `root` is a
/// prefix of `path` and ends where a component of `path` ends.
pub open spec fn is_under(root: Seq<char>, path: Seq<char>) -> bool {
    &&& root.len() > 0
    &&& root.is_prefix_of(path)
    &&& (root.last() == SEPARATOR || path.len() == root.len() || path[root.len() as int]
        == SEPARATOR)
}

/// The path that leads from `root` to `path`. A path that does not lie under
/// `root` is returned as it is.
pub open spec fn relative_to(root: Seq<char>, path: Seq<char>) -> Seq<char> {
    if is_under(root, path) {
        trim_leading(path.skip(root.len() as int))
    } else {
        path
    }
}

/// `relative` appended to the directory `base`. An absolute `relative`
/// replaces `base`; otherwise one separator stands between the two, unless
/// `base` is empty or already ends with one.
pub open spec fn join(base: Seq<char>, relative: Seq<char>) -> Seq<char> {
    if is_absolute(relative) {
        relative
    } else if base.len() == 0 || base.last() == SEPARATOR {
        base + relative
    } else {
        base.push(SEPARATOR) + relative
    }
}

/// The place of `path` when the tree under `source` is rebuilt under
/// `target`: the path from `source` to `path`, taken from `target`.
pub open spec fn reroot(source: Seq<char>, target: Seq<char>, path: Seq<char>) -> Seq<char> {
    join(target, relative_to(source, path))
}

/// The index of the last separator in `path`, if it has one.
pub open spec fn last_separator(path: Seq<char>) -> Option<int>
    decreases path.len(),
{
    if path.len() == 0 {
        None
    } else if path.last() == SEPARATOR {
        Some(path.len() - 1)
    } else {
        last_separator(path.drop_last())
    }
}

/// The directory part of `path`: what stands before its last separator.
/// A path without a separator has none.
pub open spec fn parent(path: Seq<char>) -> Option<Seq<char>> {
    match last_separator(path) {
        Some(i) => Some(path.take(i)),
        None => None,
    }
}

/// Joining a relative path onto a directory and then asking for the way
/// from that directory gives the relative path back.
pub proof fn lemma_relative_of_join(root: Seq<char>, relative: Seq<char>)
    requires
        !is_absolute(relative),
    ensures
        relative_to(root, join(root, relative)) == relative,
{
    let joined = join(root, relative);
    if root.len() == 0 {
        assert(joined =~= relative);
    } else if root.last() == SEPARATOR {
        assert(root.is_prefix_of(joined));
        assert(joined.skip(root.len() as int) =~= relative);
    } else {
        assert(root.is_prefix_of(joined));
        assert(joined[root.len() as int] == SEPARATOR);
        let rest = joined.skip(root.len() as int);
        assert(is_absolute(rest));
        assert(rest.skip(1) =~= relative);
        assert(trim_leading(relative) == relative);
    }
}

/// The last separator of a path is a separator, and none follows it. A path
/// has no last separator only if it has no separator at all.
pub proof fn lemma_last_separator(path: Seq<char>)
    ensures
        match last_separator(path) {
            Some(i) => {
                &&& 0 <= i < path.len()
                &&& path[i] == SEPARATOR
                &&& forall|j: int| i < j < path.len() ==> path[j] != SEPARATOR
            },
            None => forall|j: int| 0 <= j < path.len() ==> path[j] != SEPARATOR,
        },
    decreases path.len(),
{
    if path.len() > 0 && path.last() != SEPARATOR {
        let front = path.drop_last();
        lemma_last_separator(front);
        assert forall|j: int| 0 <= j < front.len() implies front[j] == path[j] by {}
        match last_separator(front) {
            Some(i) => {
                assert forall|j: int| i < j < path.len() implies path[j] != SEPARATOR by {
                    if j < front.len() {
                        assert(front[j] != SEPARATOR);
                    }
                }
            },
            None => {
                assert forall|j: int| 0 <= j < path.len() implies path[j] != SEPARATOR by {
                    if j < front.len() {
                        assert(front[j] != SEPARATOR);
                    }
                }
            },
        }
    }
}

/// A file at the relative path `relative` under the source directory is
/// re-rooted to the same relative path under the target directory, and so
/// lies under the target directory.
pub proof fn lemma_reroot_preserves_relative_path(
    source: Seq<char>,
    target: Seq<char>,
    relative: Seq<char>,
)
    requires
        !is_absolute(relative),
    ensures
        reroot(source, target, join(source, relative)) == join(target, relative),
        relative_to(target, reroot(source, target, join(source, relative))) == relative,
        target.len() > 0 ==> is_under(target, reroot(source, target, join(source, relative))),
{
    lemma_relative_of_join(source, relative);
    lemma_relative_of_join(target, relative);
}

/// A path joined onto a non-empty directory has a directory part. For a
/// bare name joined onto a directory that does not end with a separator,
/// the directory part is that directory.
pub proof fn lemma_parent_of_join(base: Seq<char>, relative: Seq<char>)
    requires
        base.len() > 0,
        !is_absolute(relative),
    ensures
        parent(join(base, relative)) is Some,
        base.last() != SEPARATOR && last_separator(relative) is None ==> parent(
            join(base, relative),
        ) == Some(base),
{
    let joined = join(base, relative);
    lemma_last_separator(joined);
    lemma_last_separator(relative);
    if base.last() == SEPARATOR {
        assert(joined[base.len() - 1] == SEPARATOR);
    } else {
        assert(joined[base.len() as int] == SEPARATOR);
        if last_separator(relative) is None {
            let i = last_separator(joined)->0;
            if i > base.len() {
                assert(joined[i] == relative[i - base.len() - 1]);
            }
            assert(i == base.len());
            assert(joined.take(i) =~= base);
        }
    }
}

/// The characters of `text`, one by one.
fn chars_of(text: &str) -> (chars: Vec<char>)
    ensures
        chars@ == text@,
{
    let mut chars: Vec<char> = Vec::new();
    for c in it: text.chars()
        invariant
            it.seq() == text@,
            chars@ == text@.take(it.index() as int),
    {
        chars.push(c);
    }
    chars
}

/// The comparator of the keep-shortest policy: whether `candidate` is
/// strictly shorter, as text, than `canonical`.
pub fn is_shorter(candidate: &str, canonical: &str) -> (result: bool)
    ensures
        result == shorter(candidate@, canonical@),
{
    candidate.as_bytes().len() < canonical.as_bytes().len()
}

/// Whether `path` lies under the non-empty directory `root`.
pub fn lies_under(root: &str, path: &str) -> (result: bool)
    ensures
        result == is_under(root@, path@),
{
    let r = chars_of(root);
    let p = chars_of(path);
    chars_lie_under(&r, &p)
}

fn chars_lie_under(r: &Vec<char>, p: &Vec<char>) -> (result: bool)
    ensures
        result == is_under(r@, p@),
{
    if r.len() == 0 || r.len() > p.len() {
        return false;
    }
    let mut i: usize = 0;
    while i < r.len()
        invariant
            i <= r.len() <= p.len(),
            r@.take(i as int) == p@.take(i as int),
        decreases r.len() - i,
    {
        if r[i] != p[i] {
            return false;
        }
        i += 1;
    }
    r[r.len() - 1] == SEPARATOR || p.len() == r.len() || p[r.len()] == SEPARATOR
}

/// The path that leads from `root` to `path`; `path` itself where it does not
/// lie under `root`.
pub fn relative_path(root: &str, path: &str) -> (relative: String)
    ensures
        relative@ == relative_to(root@, path@),
{
    let r = chars_of(root);
    let p = chars_of(path);
    if !chars_lie_under(&r, &p) {
        return path.to_owned();
    }
    let mut k: usize = r.len();
    while k < p.len() && p[k] == SEPARATOR
        invariant
            r.len() <= k <= p.len(),
            trim_leading(p@.skip(r@.len() as int)) == trim_leading(p@.skip(k as int)),
        decreases p.len() - k,
    {
        assert(p@.skip(k as int).skip(1) =~= p@.skip(k + 1));
        k += 1;
    }
    path.substring_char(k, p.len()).to_owned()
}

/// `relative` appended to the directory `base`.
pub fn join_path(base: &str, relative: &str) -> (joined: String)
    ensures
        joined@ == join(base@, relative@),
{
    let b = chars_of(base);
    let r = chars_of(relative);
    if r.len() > 0 && r[0] == SEPARATOR {
        return relative.to_owned();
    }
    let mut joined = base.to_owned();
    if b.len() > 0 && b[b.len() - 1] != SEPARATOR {
        proof {
            reveal_strlit("/");
        }
        joined.append("/");
    }
    joined.append(relative);
    joined
}

/// The place of `path` when the tree under `source` is rebuilt under `target`.
pub fn reroot_path(source: &str, target: &str, path: &str) -> (destination: String)
    ensures
        destination@ == reroot(source@, target@, path@),
{
    let relative = relative_path(source, path);
    join_path(target, relative.as_str())
}

/// The directory part of `path`: what stands before its last separator.
pub fn parent_path(path: &str) -> (directory: Option<String>)
    ensures
        match directory {
            Some(d) => parent(path@) == Some(d@),
            None => parent(path@) is None,
        },
{
    let p = chars_of(path);
    let mut i: usize = p.len();
    assert(p@.take(i as int) =~= p@);
    while i > 0 && p[i - 1] != SEPARATOR
        invariant
            i <= p.len(),
            last_separator(p@) == last_separator(p@.take(i as int)),
        decreases i,
    {
        assert(p@.take(i as int).drop_last() =~= p@.take(i - 1));
        i -= 1;
    }
    if i == 0 {
        None
    } else {
        Some(path.substring_char(0, i - 1).to_owned())
    }
}

} // verus!
