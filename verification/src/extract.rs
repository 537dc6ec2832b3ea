//! What extraction decides before anything is written: where each entry goes, which
//! directories have to be made first, how the work is divided and where intermediate
//! bytes are kept.

use vstd::prelude::*;
use crate::names::names_listed;
use crate::path::{
    ancestor, ancestors, ends_with_slash, has_trailing_slash, is_enclosed, normal_form,
    path_parts,
};
use crate::read::ZipArchive;
use crate::result::{Fault, ZipError, ZipResult};
use crate::types::{unix_mode_of, ZipFileData, ZipFileDataView};

verus! {

/// Intermediate byte counts below this stay in memory when stored payloads are read.
pub const SPOOL_THRESHOLD: usize = 2048;

/// Intermediate byte counts below this stay in memory when payloads are decoded.
pub const UNCOMPRESSED_SPOOL_THRESHOLD: usize = 102400;

/// What an entry is extracted as.
#[derive(Clone, Copy, Debug, PartialEq, Eq, Structural)]
pub enum EntryKind {
    Directory,
    File,
}

/// What extraction does with one entry: make a directory or write a file at a path
/// below the extraction root, and set a Unix mode there if the entry gives one.
#[derive(Debug)]
pub struct ExtractAction<'a> {
    pub path: &'a str,
    pub kind: EntryKind,
    pub mode: Option<u32>,
}

/// The kind that an entry of the given name is extracted as.
pub open spec fn kind_of_name(name: Seq<char>) -> EntryKind {
    if ends_with_slash(name) {
        EntryKind::Directory
    } else {
        EntryKind::File
    }
}

/// Decides what extraction does with an entry. An entry whose name is not safe to put
/// below the extraction root is refused.
pub fn extract_action(data: &ZipFileData) -> (r: ZipResult<ExtractAction<'_>>)
    ensures
        r is Ok <==> is_enclosed(data@.file_name),
        r is Ok ==> r->Ok_0.path@ == data@.file_name && r->Ok_0.kind == kind_of_name(
            data@.file_name,
        ) && r->Ok_0.mode == unix_mode_of(data@.system, data@.external_attributes),
        r is Err ==> r->Err_0@ == Fault::InvalidArchive("Invalid file path"@),
{
    let path = match data.enclosed_name() {
        None => {
            return Err(ZipError::InvalidArchive("Invalid file path"));
        },
        Some(path) => path,
    };
    let kind = if has_trailing_slash(path) {
        EntryKind::Directory
    } else {
        EntryKind::File
    };
    Ok(ExtractAction { path, kind, mode: data.unix_mode() })
}

/// True when every entry has a name that is safe to put below the extraction root.
pub open spec fn all_enclosed(files: Seq<ZipFileDataView>) -> bool {
    forall|i: int| 0 <= i < files.len() ==> is_enclosed((#[trigger] files[i]).file_name)
}

/// True when `stops` lists, in rising order, the entries that are files.
pub open spec fn lists_files(files: Seq<ZipFileDataView>, stops: Seq<usize>) -> bool {
    &&& forall|a: int, b: int| 0 <= a < b < stops.len() ==> stops[a] < stops[b]
    &&& forall|a: int|
        0 <= a < stops.len() ==> (#[trigger] stops[a]) < files.len() && !ends_with_slash(
            files[stops[a] as int].file_name,
        )
    &&& forall|i: int|
        0 <= i < files.len() && !ends_with_slash((#[trigger] files[i]).file_name)
            ==> stops.contains(i as usize)
}

impl ZipArchive {
    /// Plans the extraction of all entries: checks every name, and lists the entries
    /// whose payload has to be read, which are those that are no directories.
    ///
    /// One name that is not safe to put below the extraction root refuses the whole
    /// archive, before anything is read.
    pub fn extraction_plan(&self) -> (r: ZipResult<Vec<usize>>)
        ensures
            r is Ok <==> all_enclosed(self@.files),
            r is Ok ==> lists_files(self@.files, r->Ok_0@),
            r is Err ==> r->Err_0@ == Fault::InvalidArchive("Invalid file path"@),
    {
        let mut stops: Vec<usize> = Vec::new();
        let total: usize = self.len();
        let ghost files = self@.files;
        let mut i: usize = 0;
        while i < total
            invariant
                files == self@.files,
                total == files.len(),
                i <= total,
                all_enclosed(files.take(i as int)),
                lists_files(files.take(i as int), stops@),
            decreases total - i,
        {
            let data = match self.entry(i) {
                None => {
                    return Err(ZipError::InvalidArchive("Invalid file path"));
                },
                Some(data) => data,
            };
            let ghost stops_before = stops@;
            match extract_action(data) {
                Err(e) => {
                    return Err(e);
                },
                Ok(action) => {
                    if action.kind == EntryKind::File {
                        stops.push(i);
                    }
                },
            }
            proof {
                let before = files.take(i as int);
                let after = files.take(i + 1);
                assert forall|k: int| 0 <= k < after.len() implies is_enclosed(
                    (#[trigger] after[k]).file_name,
                ) by {
                    if k < i {
                        assert(after[k] == before[k]);
                    }
                }
                assert forall|k: int|
                    0 <= k < after.len() && !ends_with_slash(
                        (#[trigger] after[k]).file_name,
                    ) implies stops@.contains(k as usize) by {
                    if k < i {
                        assert(after[k] == before[k]);
                        assert(stops_before.contains(k as usize));
                        let a = choose|a: int|
                            0 <= a < stops_before.len() && stops_before[a] == k as usize;
                        assert(stops@[a] == k as usize);
                    } else {
                        assert(stops@[stops@.len() - 1] == i);
                    }
                }
                assert forall|a: int| 0 <= a < stops@.len() implies (#[trigger] stops@[a])
                    < after.len() && !ends_with_slash(after[stops@[a] as int].file_name) by {
                    if a < stops_before.len() {
                        assert(stops@[a] == stops_before[a]);
                        assert(after[stops@[a] as int] == before[stops@[a] as int]);
                    }
                }
                assert forall|a: int, b: int| 0 <= a < b < stops@.len() implies stops@[a]
                    < stops@[b] by {
                    if b < stops_before.len() {
                        assert(stops@[a] == stops_before[a]);
                        assert(stops@[b] == stops_before[b]);
                    } else {
                        assert(stops@[a] == stops_before[a]);
                    }
                }
            }
            i = i + 1;
        }
        proof {
            assert(files.take(i as int) =~= files);
        }
        Ok(stops)
    }
}

/// The plan is made exactly when each entry by itself is accepted, and it lists
/// exactly the entries that extraction one by one writes as files. So extraction in
/// parallel and extraction one by one write the same files at the same paths.
pub proof fn lemma_plan_agrees_with_actions(files: Seq<ZipFileDataView>, stops: Seq<usize>, i: int)
    requires
        all_enclosed(files),
        lists_files(files, stops),
        0 <= i < files.len(),
        files.len() <= usize::MAX,
    ensures
        is_enclosed(files[i].file_name),
        stops.contains(i as usize) <==> kind_of_name(files[i].file_name) == EntryKind::File,
{
    if stops.contains(i as usize) {
        let a = choose|a: int| 0 <= a < stops.len() && stops[a] == i as usize;
        assert(!ends_with_slash(files[stops[a] as int].file_name));
    }
}

/// The size of the pieces that `len` items are divided into for `workers` workers:
/// the quotient, rounded up. No workers count as one.
pub open spec fn chunk_len(len: int, workers: int) -> int {
    let w = if workers <= 0 {
        1
    } else {
        workers
    };
    (len + w - 1) / w
}

/// True when `ranges` divides the items from 0 up to `len` into consecutive pieces
/// of `size` items, but for the last one, which has what is left.
pub open spec fn divides(ranges: Seq<(usize, usize)>, len: int, size: int) -> bool {
    &&& len == 0 ==> ranges.len() == 0
    &&& len > 0 ==> ranges.len() > 0 && ranges[0].0 == 0 && ranges.last().1 == len
    &&& forall|k: int|
        0 <= k < ranges.len() ==> (#[trigger] ranges[k]).0 < ranges[k].1 && ranges[k].1
            - ranges[k].0 <= size
    &&& forall|k: int|
        0 <= k < ranges.len() - 1 ==> (#[trigger] ranges[k]).1 == ranges[k + 1].0
            && ranges[k].1 - ranges[k].0 == size
}

/// Divides `len` items into consecutive pieces for `workers` workers, so that each
/// worker reads one stretch of the archive.
pub fn chunk_ranges(len: usize, workers: usize) -> (r: Vec<(usize, usize)>)
    ensures
        divides(r@, len as int, chunk_len(len as int, workers as int)),
        r@.len() <= workers || r@.len() <= 1,
{
    let w: usize = if workers == 0 {
        1
    } else {
        workers
    };
    let mut out: Vec<(usize, usize)> = Vec::new();
    if len == 0 {
        return out;
    }
    let size: usize = (len - 1) / w + 1;
    assert(size == chunk_len(len as int, workers as int) && size >= 1 && w * size >= len) by (nonlinear_arith)
        requires
            w >= 1,
            len >= 1,
            size == (len - 1) / (w as int) + 1,
            w == (if workers <= 0 { 1 } else { workers as int }),
    ;
    let mut start: usize = 0;
    assert(0 * size == 0) by (nonlinear_arith);
    while start < len
        invariant
            size >= 1,
            w >= 1,
            w * size >= len,
            start <= len,
            out@.len() == 0 ==> start == 0,
            out@.len() > 0 ==> out@[0].0 == 0 && out@.last().1 == start,
            forall|k: int|
                0 <= k < out@.len() ==> (#[trigger] out@[k]).0 < out@[k].1 && out@[k].1
                    - out@[k].0 <= size,
            forall|k: int|
                0 <= k < out@.len() - 1 ==> (#[trigger] out@[k]).1 == out@[k + 1].0 && out@[k].1
                    - out@[k].0 == size,
            start < len && out@.len() > 0 ==> out@.last().1 - out@.last().0 == size,
            start < len ==> start == out@.len() * size,
            start < len ==> out@.len() < w,
            out@.len() <= w,
        decreases len - start,
    {
        let end: usize = if len - start <= size {
            len
        } else {
            start + size
        };
        let ghost before = out@;
        proof {
            assert(before.len() < w);
        }
        out.push((start, end));
        proof {
            assert forall|k: int| 0 <= k < out@.len() - 1 implies (#[trigger] out@[k]).1
                == out@[k + 1].0 && out@[k].1 - out@[k].0 == size by {
                assert(out@[k] == before[k]);
                if k < before.len() - 1 {
                    assert(out@[k + 1] == before[k + 1]);
                }
            }
            assert forall|k: int| 0 <= k < out@.len() implies (#[trigger] out@[k]).0 < out@[k].1
                && out@[k].1 - out@[k].0 <= size by {
                if k < before.len() {
                    assert(out@[k] == before[k]);
                }
            }
            if before.len() > 0 {
                assert(out@[0] == before[0]);
            }
            if end < len {
                assert(end == out@.len() * size) by (nonlinear_arith)
                    requires
                        start == before.len() * size,
                        end == start + size,
                        out@.len() == before.len() + 1,
                ;
                assert(out@.len() < w) by (nonlinear_arith)
                    requires
                        out@.len() * size < len,
                        w * size >= len,
                        size >= 1,
                        end == out@.len() * size,
                        end < len,
                ;
            }
        }
        start = end;
    }
    out
}

/// Tests whether intermediate bytes of the given count stay in memory.
pub fn spools_in_memory(len: usize, threshold: usize) -> (r: bool)
    ensures
        r == (len < threshold),
{
    len < threshold
}

/// The directories that a path needs, nearest first: the path itself where it names
/// a directory, then the path of all its parts but the last, and so on up to its
/// first part.
pub open spec fn containing_dirs_of(path: Seq<char>) -> Seq<Seq<char>> {
    let n = path_parts(path).len() as int;
    let top = if ends_with_slash(path) {
        n
    } else {
        n - 1
    };
    if top <= 0 {
        Seq::empty()
    } else {
        Seq::new(top as nat, |i: int| ancestor(path, top - i))
    }
}

/// The index of the first of `dirs` from `from` on that is among `seen`, or the number
/// of `dirs`.
pub open spec fn first_seen(dirs: Seq<Seq<char>>, seen: Set<Seq<char>>, from: int) -> int
    decreases dirs.len() - from,
{
    if from < 0 || from >= dirs.len() {
        dirs.len() as int
    } else if seen.contains(normal_form(dirs[from])) {
        from
    } else {
        first_seen(dirs, seen, from + 1)
    }
}

/// The directories that have to be made for a path, topmost first: those that the
/// path needs, from the nearest up to the first one that is known to exist, in
/// reverse.
pub open spec fn dirs_needed(path: Seq<char>, seen: Set<Seq<char>>) -> Seq<Seq<char>> {
    let dirs = containing_dirs_of(path);
    dirs.take(first_seen(dirs, seen, 0)).reverse()
}

/// The texts of a sequence of strings.
pub open spec fn texts(paths: Seq<String>) -> Seq<Seq<char>> {
    Seq::new(paths.len(), |i: int| paths[i]@)
}

/// The directories that are known to exist below the extraction root.
#[derive(Debug)]
pub struct CompletedPaths {
    seen: Vec<String>,
}

impl CompletedPaths {
    #[verifier::type_invariant]
    spec fn each_once(self) -> bool {
        forall|i: int, j: int| 0 <= i < j < self.seen@.len() ==> self.seen@[i]@ != self.seen@[j]@
    }

    /// The normal forms of the directories that are known to exist.
    pub closed spec fn view(&self) -> Set<Seq<char>> {
        Set::new(|p: Seq<char>| names_listed(self.seen@, p))
    }

    pub fn new() -> (r: Self)
        ensures
            r@ == Set::<Seq<char>>::empty(),
    {
        let r = CompletedPaths { seen: Vec::new() };
        assert(r@ =~= Set::<Seq<char>>::empty());
        r
    }

    /// Tests whether exactly this text is among the known directories.
    fn holds(&self, path: &String) -> (r: bool)
        ensures
            r == self@.contains(path@),
    {
        let mut i: usize = 0;
        while i < self.seen.len()
            invariant
                i <= self.seen@.len(),
                forall|k: int| 0 <= k < i ==> self.seen@[k]@ != path@,
            decreases self.seen@.len() - i,
        {
            if self.seen[i] == *path {
                return true;
            }
            i = i + 1;
        }
        false
    }

    /// Tests whether a directory is known to exist. Paths with the same normal form
    /// name the same directory.
    pub fn contains(&self, path: &str) -> (r: bool)
        ensures
            r == self@.contains(normal_form(path@)),
    {
        let normal = normalize(path);
        self.holds(&normal)
    }

    /// The directories that a path needs, nearest first.
    pub fn containing_dirs(path: &str) -> (r: Vec<String>)
        ensures
            texts(r@) == containing_dirs_of(path@),
    {
        let all = ancestors(path);
        let top: usize = if has_trailing_slash(path) {
            all.len()
        } else if all.len() == 0 {
            0
        } else {
            all.len() - 1
        };
        let mut out: Vec<String> = Vec::new();
        let mut i: usize = 0;
        while i < top
            invariant
                i <= top <= all@.len(),
                all@.len() == path_parts(path@).len(),
                forall|j: int| 0 <= j < all@.len() ==> (#[trigger] all@[j])@ == ancestor(
                    path@,
                    j + 1,
                ),
                out@.len() == i,
                forall|j: int| 0 <= j < i ==> (#[trigger] out@[j])@ == ancestor(path@, top - j),
            decreases top - i,
        {
            out.push(all[top - 1 - i].clone());
            i = i + 1;
        }
        assert(texts(out@) =~= containing_dirs_of(path@));
        out
    }

    /// The directories that have to be made for a path, topmost first.
    pub fn new_containing_dirs_needed(&self, path: &str) -> (r: Vec<String>)
        ensures
            texts(r@) == dirs_needed(path@, self@),
    {
        let dirs = CompletedPaths::containing_dirs(path);
        let ghost d = texts(dirs@);
        let mut k: usize = 0;
        // Ancestors come in order from child to parent.
        while k < dirs.len() && !self.contains(dirs[k].as_str())
            invariant
                d == texts(dirs@),
                k <= dirs@.len(),
                first_seen(d, self@, 0) == first_seen(d, self@, k as int),
            decreases dirs@.len() - k,
        {
            assert(d[k as int] == dirs@[k as int]@);
            k = k + 1;
        }
        assert(k == first_seen(d, self@, 0)) by {
            if k < dirs@.len() {
                assert(d[k as int] == dirs@[k as int]@);
            }
        }
        // Get dirs in order from parent to child.
        let mut ret: Vec<String> = Vec::new();
        let mut i: usize = 0;
        while i < k
            invariant
                d == texts(dirs@),
                i <= k <= dirs@.len(),
                ret@.len() == i,
                forall|j: int| 0 <= j < i ==> (#[trigger] ret@[j])@ == d[k - 1 - j],
            decreases k - i,
        {
            assert(d[k - 1 - i] == dirs@[k - 1 - i]@);
            ret.push(dirs[k - 1 - i].clone());
            i = i + 1;
        }
        assert(texts(ret@) =~= d.take(k as int).reverse());
        ret
    }

    /// Notes that directories exist.
    pub fn write_dirs(&mut self, paths: &[String])
        ensures
            forall|p: Seq<char>|
                final(self)@.contains(p) <==> old(self)@.contains(p) || exists|i: int|
                    0 <= i < paths@.len() && normal_form(#[trigger] paths@[i]@) == p,
    {
        let mut i: usize = 0;
        while i < paths.len()
            invariant
                i <= paths@.len(),
                forall|p: Seq<char>|
                    self@.contains(p) <==> old(self)@.contains(p) || exists|k: int|
                        0 <= k < i && normal_form(#[trigger] paths@[k]@) == p,
            decreases paths@.len() - i,
        {
            let normal = normalize(paths[i].as_str());
            let ghost before = self@;
            let ghost text = normal@;
            if !self.holds(&normal) {
                proof {
                    use_type_invariant(&*self);
                }
                let mut seen: Vec<String> = Vec::new();
                core::mem::swap(&mut seen, &mut self.seen);
                let ghost old_seen = seen@;
                assert(!names_listed(old_seen, text));
                seen.push(normal);
                proof {
                    assert forall|p: Seq<char>| names_listed(seen@, p) == (names_listed(
                        old_seen,
                        p,
                    ) || p == text) by {
                        if names_listed(old_seen, p) {
                            let k = choose|k: int|
                                0 <= k < old_seen.len() && (#[trigger] old_seen[k])@ == p;
                            assert(seen@[k]@ == p);
                        }
                        if p == text {
                            assert(seen@[seen@.len() - 1]@ == p);
                        }
                        if names_listed(seen@, p) {
                            let k = choose|k: int|
                                0 <= k < seen@.len() && (#[trigger] seen@[k])@ == p;
                            if k < old_seen.len() {
                                assert(old_seen[k]@ == p);
                            }
                        }
                    }
                    assert forall|a: int, b: int| 0 <= a < b < seen@.len() implies seen@[a]@
                        != seen@[b]@ by {
                        if b == seen@.len() - 1 {
                            assert(old_seen[a]@ == seen@[a]@);
                        }
                    }
                }
                *self = CompletedPaths { seen };
                assert(self@ =~= before.insert(text));
            }
            assert(self@ =~= before.insert(text));
            i = i + 1;
        }
    }
}

/// The normal form of a path.
pub fn normalize(path: &str) -> (r: String)
    ensures
        r@ == normal_form(path@),
{
    let all = ancestors(path);
    if all.len() == 0 {
        String::new()
    } else {
        proof {
            let parts = path_parts(path@);
            assert(parts.take(parts.len() as int) =~= parts);
        }
        all[all.len() - 1].clone()
    }
}

} // verus!
