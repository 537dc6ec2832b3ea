//! Entry names as paths: the parts between separators, and the two ways of making a
//! name safe to extract.

use vstd::prelude::*;
use crate::text::{chars_of, string_of};

verus! {

/// One part of a path. A part that is empty or a single dot does not count as one.
pub enum PathPart {
    /// Two dots: the directory above.
    ParentDir,
    /// A name.
    Normal(Seq<char>),
}

/// The end of the part that starts at `i`: the offset of the next slash, or the end
/// of the name.
pub open spec fn segment_end(s: Seq<char>, i: int) -> int
    decreases s.len() - i,
{
    if i < 0 || i >= s.len() {
        s.len() as int
    } else if s[i] == '/' {
        i
    } else {
        segment_end(s, i + 1)
    }
}

/// True for the text between two slashes that is no part: nothing, or a single dot.
pub open spec fn is_skipped(seg: Seq<char>) -> bool {
    seg.len() == 0 || (seg.len() == 1 && seg[0] == '.')
}

/// True for two dots.
pub open spec fn is_parent(seg: Seq<char>) -> bool {
    seg.len() == 2 && seg[0] == '.' && seg[1] == '.'
}

/// The parts of a name from the offset `i` on, where a part starts.
pub open spec fn path_parts_from(s: Seq<char>, i: int) -> Seq<PathPart>
    decreases s.len() - i + 1,
{
    let k = segment_end(s, i);
    if i < 0 || i >= s.len() || k < i || k > s.len() {
        Seq::empty()
    } else {
        let seg = s.subrange(i, k);
        let rest = path_parts_from(s, k + 1);
        if is_skipped(seg) {
            rest
        } else if is_parent(seg) {
            seq![PathPart::ParentDir] + rest
        } else {
            seq![PathPart::Normal(seg)] + rest
        }
    }
}

/// The parts of a name.
pub open spec fn path_parts(s: Seq<char>) -> Seq<PathPart> {
    path_parts_from(s, 0)
}

/// True when a name starts at the root.
pub open spec fn is_rooted(s: Seq<char>) -> bool {
    s.len() > 0 && s[0] == '/'
}

/// The offset of the first NUL from `i` on, or the length of the name.
pub open spec fn first_nul(s: Seq<char>, i: int) -> int
    decreases s.len() - i,
{
    if i < 0 || i >= s.len() {
        s.len() as int
    } else if s[i] == '\0' {
        i
    } else {
        first_nul(s, i + 1)
    }
}

/// A name with each backslash replaced by a slash.
pub open spec fn with_slashes(s: Seq<char>) -> Seq<char> {
    Seq::new(
        s.len(),
        |i: int|
            if s[i] == '\\' {
                '/'
            } else {
                s[i]
            },
    )
}

/// The names among the parts, joined by slashes.
pub open spec fn join_normal(parts: Seq<PathPart>) -> Seq<char>
    decreases parts.len(),
{
    if parts.len() == 0 {
        Seq::empty()
    } else {
        let head = join_normal(parts.drop_last());
        match parts.last() {
            PathPart::ParentDir => head,
            PathPart::Normal(name) => if head.len() == 0 {
                name
            } else {
                head + seq!['/'] + name
            },
        }
    }
}

/// The mangled form of a name: what stands before the first NUL, with either slash
/// as separator, without root, dots and empty parts.
pub open spec fn mangled(name: Seq<char>) -> Seq<char> {
    join_normal(path_parts(with_slashes(name.subrange(0, first_nul(name, 0)))))
}

/// How deep below the start a walk along the parts ends: a name goes one down, two
/// dots go one up.
pub open spec fn net_depth(parts: Seq<PathPart>) -> int
    decreases parts.len(),
{
    if parts.len() == 0 {
        0
    } else {
        net_depth(parts.drop_last()) + (match parts.last() {
            PathPart::ParentDir => -1int,
            PathPart::Normal(_) => 1int,
        })
    }
}

/// True when a walk along the parts is never above its start.
pub open spec fn stays_inside(parts: Seq<PathPart>) -> bool {
    forall|j: int| 0 <= j <= parts.len() ==> net_depth(#[trigger] parts.take(j)) >= 0
}

/// True for a name that is safe to put below an extraction root: it holds no NUL,
/// does not start at the root, and never leads above where it starts.
pub open spec fn is_enclosed(name: Seq<char>) -> bool {
    &&& first_nul(name, 0) == name.len()
    &&& !is_rooted(name)
    &&& stays_inside(path_parts(name))
}

/// Finds the end of the part that starts at `i`.
fn find_segment_end(s: &[char], i: usize) -> (k: usize)
    requires
        i <= s@.len(),
    ensures
        k == segment_end(s@, i as int),
        i <= k <= s@.len(),
{
    let mut k: usize = i;
    while k < s.len() && s[k] != '/'
        invariant
            i <= k <= s@.len(),
            segment_end(s@, i as int) == segment_end(s@, k as int),
        decreases s@.len() - k,
    {
        k = k + 1;
    }
    k
}

/// Finds the first NUL.
fn find_first_nul(s: &[char]) -> (k: usize)
    ensures
        k == first_nul(s@, 0),
        k <= s@.len(),
{
    let mut k: usize = 0;
    while k < s.len() && s[k] != '\0'
        invariant
            k <= s@.len(),
            first_nul(s@, 0) == first_nul(s@, k as int),
        decreases s@.len() - k,
    {
        k = k + 1;
    }
    k
}

/// The mangled form of a name.
pub fn mangle(name: &str) -> (r: String)
    ensures
        r@ == mangled(name@),
{
    let chars = chars_of(name);
    let cut: usize = find_first_nul(chars.as_slice());
    let mut flat: Vec<char> = Vec::new();
    let mut j: usize = 0;
    while j < cut
        invariant
            j <= cut <= chars@.len(),
            flat@ == with_slashes(chars@.subrange(0, j as int)),
        decreases cut - j,
    {
        let c = chars[j];
        flat.push(if c == '\\' {
            '/'
        } else {
            c
        });
        j = j + 1;
        assert(flat@ =~= with_slashes(chars@.subrange(0, j as int)));
    }
    let ghost s = flat@;
    let ghost mut done: Seq<PathPart> = Seq::empty();
    let mut out: Vec<char> = Vec::new();
    let mut i: usize = 0;
    let total: usize = flat.len();
    while i < total
        invariant
            s == flat@,
            total == s.len(),
            i <= total,
            out@ == join_normal(done),
            done + path_parts_from(s, i as int) == path_parts(s),
        decreases total - i,
    {
        let k: usize = find_segment_end(flat.as_slice(), i);
        let ghost seg = s.subrange(i as int, k as int);
        let ghost rest = path_parts_from(s, k + 1);
        let skipped = k == i || (k - i == 1 && flat[i] == '.');
        let parent = k - i == 2 && flat[i] == '.' && flat[i + 1] == '.';
        assert(skipped == is_skipped(seg));
        assert(parent == is_parent(seg));
        if !skipped && !parent {
            if out.len() > 0 {
                out.push('/');
            }
            let mut m: usize = i;
            let ghost head = out@;
            while m < k
                invariant
                    s == flat@,
                    i <= m <= k <= s.len(),
                    out@ == head + s.subrange(i as int, m as int),
                decreases k - m,
            {
                out.push(flat[m]);
                m = m + 1;
                assert(out@ =~= head + s.subrange(i as int, m as int));
            }
            proof {
                let before = done;
                done = done.push(PathPart::Normal(seg));
                assert(done.drop_last() =~= before);
                assert(done + rest =~= before + (seq![PathPart::Normal(seg)] + rest));
                assert(out@ =~= join_normal(done));
            }
        } else if parent {
            proof {
                let before = done;
                done = done.push(PathPart::ParentDir);
                assert(done.drop_last() =~= before);
                assert(done + rest =~= before + (seq![PathPart::ParentDir] + rest));
            }
        }
        proof {
            assert(k >= total ==> rest =~= path_parts_from(s, total as int));
        }
        i = if k < total {
            k + 1
        } else {
            total
        };
    }
    proof {
        assert(done + Seq::<PathPart>::empty() =~= done);
        assert(chars@.subrange(0, cut as int) =~= name@.subrange(0, first_nul(name@, 0)));
    }
    string_of(out.as_slice())
}

/// Tests whether a name is safe to put below an extraction root.
pub fn check_enclosed(name: &str) -> (r: bool)
    ensures
        r == is_enclosed(name@),
{
    let chars = chars_of(name);
    let cut: usize = find_first_nul(chars.as_slice());
    if cut < chars.len() {
        return false;
    }
    if chars.len() > 0 && chars[0] == '/' {
        return false;
    }
    let ghost s = chars@;
    let ghost mut done: Seq<PathPart> = Seq::empty();
    let mut depth: usize = 0;
    let mut i: usize = 0;
    let total: usize = chars.len();
    proof {
        assert(done.take(0) =~= done);
    }
    while i < total
        invariant
            s == chars@,
            s == name@,
            total == s.len(),
            i <= total,
            depth == net_depth(done),
            depth <= i,
            stays_inside(done),
            done + path_parts_from(s, i as int) == path_parts(s),
        decreases total - i,
    {
        let k: usize = find_segment_end(chars.as_slice(), i);
        let ghost seg = s.subrange(i as int, k as int);
        let ghost rest = path_parts_from(s, k + 1);
        let skipped = k == i || (k - i == 1 && chars[i] == '.');
        let parent = k - i == 2 && chars[i] == '.' && chars[i + 1] == '.';
        assert(skipped == is_skipped(seg));
        assert(parent == is_parent(seg));
        if parent {
            let ghost before = done;
            proof {
                done = done.push(PathPart::ParentDir);
                assert(done.drop_last() =~= before);
                assert(done + rest =~= before + (seq![PathPart::ParentDir] + rest));
            }
            if depth == 0 {
                proof {
                    let parts = path_parts(s);
                    assert(parts.take(done.len() as int) =~= done);
                    assert(net_depth(parts.take(done.len() as int)) < 0);
                }
                return false;
            }
            depth = depth - 1;
            proof {
                lemma_stays_inside_push(before, PathPart::ParentDir);
            }
        } else if !skipped {
            let ghost before = done;
            proof {
                done = done.push(PathPart::Normal(seg));
                assert(done.drop_last() =~= before);
                assert(done + rest =~= before + (seq![PathPart::Normal(seg)] + rest));
                lemma_stays_inside_push(before, PathPart::Normal(seg));
            }
            depth = depth + 1;
        }
        proof {
            assert(k >= total ==> rest =~= path_parts_from(s, total as int));
        }
        i = if k < total {
            k + 1
        } else {
            total
        };
    }
    proof {
        assert(done + Seq::<PathPart>::empty() =~= done);
    }
    true
}

/// A walk that was never above its start stays so when one more part does not bring
/// it there.
proof fn lemma_stays_inside_push(parts: Seq<PathPart>, part: PathPart)
    requires
        stays_inside(parts),
        net_depth(parts.push(part)) >= 0,
    ensures
        stays_inside(parts.push(part)),
{
    let longer = parts.push(part);
    assert forall|j: int| 0 <= j <= longer.len() implies net_depth(#[trigger] longer.take(j))
        >= 0 by {
        if j <= parts.len() {
            assert(longer.take(j) =~= parts.take(j));
        } else {
            assert(longer.take(j) =~= longer);
        }
    }
}

/// A name that passes the test for an enclosed name leads to a place at or below
/// where it starts, and so does each of its leading parts: no prefix of its parts goes
/// up more often than down.
pub proof fn lemma_enclosed_never_escapes(name: Seq<char>, j: int)
    requires
        is_enclosed(name),
        0 <= j <= path_parts(name).len(),
    ensures
        net_depth(path_parts(name).take(j)) >= 0,
        !is_rooted(name),
{
}

/// The text of a part.
pub open spec fn part_text(part: PathPart) -> Seq<char> {
    match part {
        PathPart::ParentDir => seq!['.', '.'],
        PathPart::Normal(name) => name,
    }
}

/// The parts joined by slashes.
pub open spec fn join_parts(parts: Seq<PathPart>) -> Seq<char>
    decreases parts.len(),
{
    if parts.len() == 0 {
        Seq::empty()
    } else if parts.len() == 1 {
        part_text(parts[0])
    } else {
        join_parts(parts.drop_last()) + seq!['/'] + part_text(parts.last())
    }
}

/// The path that the first `count` parts of a path make.
pub open spec fn ancestor(path: Seq<char>, count: int) -> Seq<char> {
    join_parts(path_parts(path).take(count))
}

/// A path without what does not count: empty parts, single dots, a slash at its
/// start or end. Two paths with the same normal form name the same place.
pub open spec fn normal_form(path: Seq<char>) -> Seq<char> {
    join_parts(path_parts(path))
}

/// The paths that the leading parts of a path make, shortest first: the path of its
/// first part, of its first two parts, and so on up to the normal form of the path
/// itself.
pub fn ancestors(path: &str) -> (r: Vec<String>)
    ensures
        r@.len() == path_parts(path@).len(),
        forall|j: int| 0 <= j < r@.len() ==> (#[trigger] r@[j])@ == ancestor(path@, j + 1),
{
    let chars = chars_of(path);
    let ghost s = chars@;
    let ghost mut done: Seq<PathPart> = Seq::empty();
    let mut list: Vec<String> = Vec::new();
    let mut cur: Vec<char> = Vec::new();
    let mut i: usize = 0;
    let total: usize = chars.len();
    while i < total
        invariant
            s == chars@,
            s == path@,
            total == s.len(),
            i <= total,
            cur@ == join_parts(done),
            list@.len() == done.len(),
            forall|j: int| 0 <= j < list@.len() ==> (#[trigger] list@[j])@ == join_parts(
                done.take(j + 1),
            ),
            done + path_parts_from(s, i as int) == path_parts(s),
        decreases total - i,
    {
        let k: usize = find_segment_end(chars.as_slice(), i);
        let ghost seg = s.subrange(i as int, k as int);
        let ghost rest = path_parts_from(s, k + 1);
        let skipped = k == i || (k - i == 1 && chars[i] == '.');
        assert(skipped == is_skipped(seg));
        if !skipped {
            let ghost part = if is_parent(seg) {
                PathPart::ParentDir
            } else {
                PathPart::Normal(seg)
            };
            assert(part_text(part) =~= seg);
            if list.len() > 0 {
                cur.push('/');
            }
            let mut m: usize = i;
            let ghost head = cur@;
            while m < k
                invariant
                    s == chars@,
                    i <= m <= k <= s.len(),
                    cur@ == head + s.subrange(i as int, m as int),
                decreases k - m,
            {
                cur.push(chars[m]);
                m = m + 1;
                assert(cur@ =~= head + s.subrange(i as int, m as int));
            }
            let ghost before = done;
            proof {
                done = done.push(part);
                assert(done.drop_last() =~= before);
                assert(done + rest =~= before + (seq![part] + rest));
                assert(cur@ =~= join_parts(done));
                assert(done.take(done.len() as int) =~= done);
                assert forall|j: int| 0 <= j < list@.len() implies (#[trigger] list@[j])@
                    == join_parts(done.take(j + 1)) by {
                    assert(done.take(j + 1) =~= before.take(j + 1));
                }
            }
            list.push(string_of(cur.as_slice()));
        }
        proof {
            assert(k >= total ==> rest =~= path_parts_from(s, total as int));
        }
        i = if k < total {
            k + 1
        } else {
            total
        };
    }
    proof {
        assert(done + Seq::<PathPart>::empty() =~= done);
    }
    list
}

/// True when a path ends with a slash, as the name of a directory does.
pub open spec fn ends_with_slash(path: Seq<char>) -> bool {
    path.len() > 0 && path.last() == '/'
}

/// Tests whether a path ends with a slash.
pub fn has_trailing_slash(path: &str) -> (r: bool)
    ensures
        r == ends_with_slash(path@),
{
    let n = path.unicode_len();
    n > 0 && path.get_char(n - 1) == '/'
}

} // verus!
