//! File collection: turning a path specification and the set of regular
//! files discovered under its roots into an upload batch.
//!
//! The filesystem walk itself happens outside this crate; callers hand over
//! the discovered files as plain path/size pairs, in traversal order. Here
//! the path specification is split into root paths, each discovered file
//! gets its base name (the final path component), and the batch aggregates
//! the total size.

use vstd::prelude::*;
use vstd::string::*;
use crate::error::DarkError;
use crate::scan::find_char;

verus! {

/// A regular file found under one of the root paths, as the filesystem walk
/// reports it: its path and its size from a metadata stat at collection time.
pub struct DiscoveredFile {
    pub path: String,
    pub size_bytes: u64,
}

/// One uploadable file: its path, its base name (the form field name the
/// upload will use), and its size at collection time.
pub struct FileEntry {
    pub absolute_path: String,
    pub base_name: String,
    pub size_bytes: u64,
}

/// An ordered, non-empty set of files to upload, with their aggregate size.
pub struct UploadBatch {
    pub entries: Vec<FileEntry>,
    pub total_size_bytes: u64,
}

/// The final path component: the characters after the last `/`. Empty when
/// the path is empty or ends in `/`.
pub open spec fn spec_base_name(path: Seq<char>) -> Seq<char>
    decreases path.len(),
{
    if path.len() == 0 {
        Seq::empty()
    } else if path.last() == '/' {
        Seq::empty()
    } else {
        spec_base_name(path.drop_last()).push(path.last())
    }
}

/// The sum of the discovered files' sizes.
pub open spec fn sum_discovered_sizes(files: Seq<DiscoveredFile>) -> int
    decreases files.len(),
{
    if files.len() == 0 {
        0
    } else {
        sum_discovered_sizes(files.drop_last()) + files.last().size_bytes
    }
}

/// The sum of the batch entries' sizes.
pub open spec fn sum_entry_sizes(entries: Seq<FileEntry>) -> int
    decreases entries.len(),
{
    if entries.len() == 0 {
        0
    } else {
        sum_entry_sizes(entries.drop_last()) + entries.last().size_bytes
    }
}

impl FileEntry {
    /// The entry names a file: its base name is its path's non-empty final
    /// component.
    pub open spec fn wf(&self) -> bool {
        &&& self.base_name@ == spec_base_name(self.absolute_path@)
        &&& self.base_name@.len() > 0
    }
}

impl UploadBatch {
    /// The batch is non-empty, every entry names a file, and the total is the
    /// sum of the entries' sizes.
    pub open spec fn wf(&self) -> bool {
        &&& self.entries@.len() > 0
        &&& self.total_size_bytes == sum_entry_sizes(self.entries@)
        &&& forall|k: int| 0 <= k < self.entries@.len() ==> (#[trigger] self.entries@[k]).wf()
    }
}

/// Splitting the path specification on spaces: the non-empty runs of
/// non-space characters, in order.
pub open spec fn spec_roots(s: Seq<char>) -> Seq<Seq<char>>
    decreases s.len(),
{
    if s.len() == 0 {
        Seq::empty()
    } else if s.last() == ' ' {
        spec_roots(s.drop_last())
    } else if s.len() >= 2 && s[s.len() - 2] != ' ' {
        let r = spec_roots(s.drop_last());
        r.update(r.len() - 1, r.last().push(s.last()))
    } else {
        spec_roots(s.drop_last()).push(seq![s.last()])
    }
}

/// A space at position `i` closes no root: the roots of the text up to and
/// including it are those of the text before it.
proof fn lemma_roots_skip_space(s: Seq<char>, i: int)
    requires
        0 <= i < s.len(),
        s[i] == ' ',
    ensures
        spec_roots(s.take(i + 1)) == spec_roots(s.take(i)),
{
    assert(s.take(i + 1).drop_last() =~= s.take(i));
}

/// A maximal space-free run `[a, b)` preceded by a space (or the start)
/// contributes exactly one root: itself.
proof fn lemma_roots_extend_token(s: Seq<char>, a: int, b: int)
    requires
        0 <= a < b <= s.len(),
        a == 0 || s[a - 1] == ' ',
        forall|k: int| a <= k < b ==> s[k] != ' ',
    ensures
        spec_roots(s.take(b)) == spec_roots(s.take(a)).push(s.subrange(a, b)),
    decreases b - a,
{
    let t = s.take(b);
    assert(t.drop_last() =~= s.take(b - 1));
    if b - a == 1 {
        assert(spec_roots(t) == spec_roots(s.take(a)).push(seq![s[a]]));
        assert(seq![s[a]] =~= s.subrange(a, b));
    } else {
        lemma_roots_extend_token(s, a, b - 1);
        assert(t[t.len() - 2] == s[b - 2]);
        assert(s[b - 2] != ' ');
        let r = spec_roots(s.take(b - 1));
        assert(r == spec_roots(s.take(a)).push(s.subrange(a, b - 1)));
        assert(r.last().push(s[b - 1]) =~= s.subrange(a, b));
        assert(r.update(r.len() - 1, r.last().push(t.last())) =~= spec_roots(s.take(a)).push(
            s.subrange(a, b),
        ));
    }
}

/// Split a path specification into its root paths: the space-separated,
/// non-empty components, in order.
pub fn split_path_specs(path_specs: &str) -> (roots: Vec<String>)
    ensures
        roots.deep_view() == spec_roots(path_specs@),
{
    let n = path_specs.unicode_len();
    let mut roots: Vec<String> = Vec::new();
    let mut i: usize = 0;
    while i < n
        invariant
            n == path_specs@.len(),
            n <= usize::MAX,
            i <= n,
            i == 0 || i == n || path_specs@[i - 1] == ' ',
            roots.deep_view() == spec_roots(path_specs@.take(i as int)),
        decreases n - i,
    {
        if path_specs.get_char(i) == ' ' {
            proof {
                lemma_roots_skip_space(path_specs@, i as int);
            }
            i += 1;
        } else {
            let ghost old_roots = roots.deep_view();
            match find_char(path_specs, i, ' ') {
                Some(j) => {
                    let tok = path_specs.substring_char(i, j).to_owned();
                    roots.push(tok);
                    proof {
                        lemma_roots_extend_token(path_specs@, i as int, j as int);
                        lemma_roots_skip_space(path_specs@, j as int);
                        assert(roots.deep_view() =~= old_roots.push(tok@));
                    }
                    i = j + 1;
                },
                None => {
                    let tok = path_specs.substring_char(i, n).to_owned();
                    roots.push(tok);
                    proof {
                        lemma_roots_extend_token(path_specs@, i as int, n as int);
                        assert(roots.deep_view() =~= old_roots.push(tok@));
                    }
                    i = n;
                },
            }
        }
    }
    proof {
        assert(path_specs@.take(n as int) =~= path_specs@);
    }
    roots
}

/// Find the last `/` of a path, if any.
fn find_last_slash(path: &str) -> (r: Option<usize>)
    ensures
        r matches Some(q) ==> q < path@.len() && path@[q as int] == '/' && (forall|k: int|
            q < k < path@.len() ==> path@[k] != '/'),
        r is None ==> forall|k: int| 0 <= k < path@.len() ==> path@[k] != '/',
{
    let n = path.unicode_len();
    let mut j = n;
    while j > 0
        invariant
            j <= n,
            n == path@.len(),
            forall|k: int| j <= k < n ==> path@[k] != '/',
        decreases j,
    {
        if path.get_char(j - 1) == '/' {
            return Some(j - 1);
        }
        j -= 1;
    }
    None
}

/// After the last slash (or from the start, with no slash), the rest of the
/// path is its base name.
proof fn lemma_base_name_subrange(path: Seq<char>, cut: int)
    requires
        0 <= cut <= path.len(),
        forall|k: int| cut <= k < path.len() ==> path[k] != '/',
        cut == 0 || path[cut - 1] == '/',
    ensures
        spec_base_name(path) == path.subrange(cut, path.len() as int),
    decreases path.len(),
{
    if path.len() == 0 {
        assert(path.subrange(0, 0) =~= Seq::<char>::empty());
    } else if cut == path.len() {
        assert(path.last() == '/');
        assert(path.subrange(cut, path.len() as int) =~= Seq::<char>::empty());
    } else {
        assert(path.last() != '/');
        lemma_base_name_subrange(path.drop_last(), cut);
        assert(path.subrange(cut, path.len() as int) =~= path.drop_last().subrange(
            cut,
            path.len() - 1,
        ).push(path.last()));
    }
}

/// The base name of a path: its final component, the characters after the
/// last `/`. `None` when there is no final component (an empty path, or one
/// that ends in `/`).
pub fn base_name_of(path: &str) -> (r: Option<String>)
    ensures
        r matches Some(b) ==> b@ == spec_base_name(path@) && b@.len() > 0,
        r is None <==> spec_base_name(path@).len() == 0,
{
    let n = path.unicode_len();
    let cut = match find_last_slash(path) {
        Some(q) => q + 1,
        None => 0,
    };
    proof {
        lemma_base_name_subrange(path@, cut as int);
    }
    if cut == n {
        None
    } else {
        Some(path.substring_char(cut, n).to_owned())
    }
}

/// Step facts for the running sum over a prefix of the discovered files.
proof fn lemma_sum_take_step(files: Seq<DiscoveredFile>, i: int)
    requires
        0 <= i < files.len(),
    ensures
        sum_discovered_sizes(files.take(i + 1)) == sum_discovered_sizes(files.take(i))
            + files[i].size_bytes,
{
    assert(files.take(i + 1).drop_last() =~= files.take(i));
}

/// A prefix of the discovered files never sums to more than the whole.
proof fn lemma_sum_take_bound(files: Seq<DiscoveredFile>, i: int)
    requires
        0 <= i <= files.len(),
    ensures
        sum_discovered_sizes(files.take(i)) <= sum_discovered_sizes(files),
    decreases files.len() - i,
{
    if i == files.len() {
        assert(files.take(i) =~= files);
    } else {
        lemma_sum_take_step(files, i);
        lemma_sum_take_bound(files, i + 1);
    }
}

/// Entries that carry the same sizes sum to the same total.
proof fn lemma_sums_agree(entries: Seq<FileEntry>, files: Seq<DiscoveredFile>)
    requires
        entries.len() == files.len(),
        forall|k: int| 0 <= k < entries.len() ==> entries[k].size_bytes == files[k].size_bytes,
    ensures
        sum_entry_sizes(entries) == sum_discovered_sizes(files),
    decreases entries.len(),
{
    if entries.len() > 0 {
        lemma_sums_agree(entries.drop_last(), files.drop_last());
    }
}

/// Build the upload batch from the path specification (as given, for error
/// context) and the regular files discovered under its roots, in traversal
/// order. Fails with `NoFilesFound` when nothing was discovered and with
/// `MissingFilename` when a discovered path has no final component;
/// otherwise the batch keeps the files' order, gives each entry its base
/// name, and totals their sizes.
pub fn collect(path_specs: &str, discovered: &Vec<DiscoveredFile>) -> (r: Result<
    UploadBatch,
    DarkError,
>)
    requires
        sum_discovered_sizes(discovered@) <= u64::MAX,
    ensures
        r is Ok <==> (discovered@.len() > 0 && forall|k: int|
            0 <= k < discovered@.len() ==> #[trigger] spec_base_name(discovered@[k].path@).len()
                != 0),
        discovered@.len() == 0 ==> (r matches Err(e) && e matches DarkError::NoFilesFound(given)
            && given@ == path_specs@),
        discovered@.len() > 0 && (exists|k: int|
            0 <= k < discovered@.len() && #[trigger] spec_base_name(discovered@[k].path@).len()
                == 0) ==> (r matches Err(e) && e == DarkError::MissingFilename),
        r matches Ok(batch) ==> {
            &&& batch.wf()
            &&& batch.entries@.len() == discovered@.len()
            &&& forall|k: int|
                0 <= k < discovered@.len() ==> {
                    &&& (#[trigger] batch.entries@[k]).absolute_path@ == discovered@[k].path@
                    &&& batch.entries@[k].base_name@ == spec_base_name(discovered@[k].path@)
                    &&& batch.entries@[k].size_bytes == discovered@[k].size_bytes
                }
            &&& batch.total_size_bytes == sum_discovered_sizes(discovered@)
        },
{
    if discovered.len() == 0 {
        return Err(DarkError::NoFilesFound(String::from_str(path_specs)));
    }
    let mut entries: Vec<FileEntry> = Vec::new();
    let mut total: u64 = 0;
    let mut idx: usize = 0;
    while idx < discovered.len()
        invariant
            sum_discovered_sizes(discovered@) <= u64::MAX,
            idx <= discovered@.len(),
            entries@.len() == idx,
            total == sum_discovered_sizes(discovered@.take(idx as int)),
            forall|k: int|
                0 <= k < idx ==> {
                    &&& (#[trigger] entries@[k]).absolute_path@ == discovered@[k].path@
                    &&& entries@[k].base_name@ == spec_base_name(discovered@[k].path@)
                    &&& entries@[k].base_name@.len() > 0
                    &&& entries@[k].size_bytes == discovered@[k].size_bytes
                },
        decreases discovered@.len() - idx,
    {
        let name = match base_name_of(discovered[idx].path.as_str()) {
            Some(nm) => nm,
            None => {
                return Err(DarkError::MissingFilename);
            },
        };
        proof {
            lemma_sum_take_step(discovered@, idx as int);
            lemma_sum_take_bound(discovered@, idx as int + 1);
        }
        total = total + discovered[idx].size_bytes;
        entries.push(
            FileEntry {
                absolute_path: discovered[idx].path.clone(),
                base_name: name,
                size_bytes: discovered[idx].size_bytes,
            },
        );
        idx += 1;
    }
    proof {
        assert(discovered@.take(idx as int) =~= discovered@);
        lemma_sums_agree(entries@, discovered@);
        assert forall|k: int|
            0 <= k < discovered@.len() implies #[trigger] spec_base_name(
            discovered@[k].path@,
        ).len() != 0 by {
            assert(entries@[k].base_name@.len() > 0);
        }
    }
    Ok(UploadBatch { entries, total_size_bytes: total })
}

} // verus!
