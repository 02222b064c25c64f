//! Path resolution: classifies a user-supplied path and produces the ordered
//! list of regular files to upload. The caller probes the filesystem and
//! hands the observation in as a [`PathProbe`]; the selection itself is
//! verified here.
//!
//! A directory contributes its immediate regular-file children only, in the
//! iteration order the filesystem reported (no sorting is imposed, so the
//! output is filesystem-order-dependent); subdirectories and special entries
//! are skipped silently. A path that exists as neither a regular file nor a
//! directory yields no uploads, which is not an error at this layer.

use vstd::prelude::*;

verus! {

/// One immediate child of a probed directory: its path as the iteration
/// reported it, and whether it is itself a regular file.
pub struct DirEntry {
    pub path: String,
    pub is_regular_file: bool,
}

/// What probing the user-supplied path found.
pub enum PathProbe {
    /// The path denotes a regular file.
    RegularFile,
    /// The path denotes a directory with these immediate entries, in
    /// iteration order.
    Directory(Vec<DirEntry>),
    /// The path does not exist, or denotes something that is neither a
    /// regular file nor a directory.
    Absent,
}

/// The paths of the regular-file entries, in order.
pub open spec fn regular_entry_paths(entries: Seq<DirEntry>) -> Seq<Seq<char>>
    decreases entries.len(),
{
    if entries.len() == 0 {
        Seq::empty()
    } else if entries.last().is_regular_file {
        regular_entry_paths(entries.drop_last()).push(entries.last().path@)
    } else {
        regular_entry_paths(entries.drop_last())
    }
}

/// What resolution returns for a path with the given probe: the path itself
/// for a regular file, the regular-file children for a directory, nothing
/// otherwise.
pub open spec fn resolved_paths(path: Seq<char>, probe: PathProbe) -> Seq<Seq<char>> {
    match probe {
        PathProbe::RegularFile => seq![path],
        PathProbe::Directory(entries) => regular_entry_paths(entries@),
        PathProbe::Absent => Seq::empty(),
    }
}

/// The views of a sequence of owned strings.
pub open spec fn path_views(paths: Seq<String>) -> Seq<Seq<char>> {
    paths.map_values(|p: String| p@)
}

/// Produces the files to upload for `path`, exactly as [`resolved_paths`]
/// states.
pub fn resolve_files(path: String, probe: PathProbe) -> (r: Vec<String>)
    ensures
        path_views(r@) == resolved_paths(path@, probe),
{
    match probe {
        PathProbe::RegularFile => {
            let mut r: Vec<String> = Vec::new();
            r.push(path);
            proof {
                assert(path_views(r@) =~= seq![path@]);
            }
            r
        },
        PathProbe::Directory(entries) => {
            let mut entries = entries;
            let mut r: Vec<String> = Vec::new();
            let ghost all = entries@;
            let ghost done: int = 0;
            proof {
                assert(all.subrange(0, 0) =~= Seq::<DirEntry>::empty());
                assert(path_views(r@) =~= regular_entry_paths(all.subrange(0, 0)));
            }
            while entries.len() > 0
                invariant
                    0 <= done <= all.len(),
                    entries@ =~= all.subrange(done, all.len() as int),
                    path_views(r@) == regular_entry_paths(all.subrange(0, done)),
                decreases entries@.len(),
            {
                let entry = entries.remove(0);
                proof {
                    assert(all.subrange(0, done + 1).drop_last() =~= all.subrange(0, done));
                    assert(all.subrange(0, done + 1).last() == all[done]);
                }
                if entry.is_regular_file {
                    r.push(entry.path);
                    proof {
                        r@.drop_last().lemma_push_map_commute(|p: String| p@, r@.last());
                        assert(r@.drop_last().push(r@.last()) =~= r@);
                    }
                }
                proof {
                    done = done + 1;
                    assert(entries@ =~= all.subrange(done, all.len() as int));
                }
            }
            proof {
                assert(all.subrange(0, done) =~= all);
            }
            r
        },
        PathProbe::Absent => {
            let r: Vec<String> = Vec::new();
            proof {
                assert(path_views(r@) =~= Seq::<Seq<char>>::empty());
            }
            r
        },
    }
}

/// How many of the entries are regular files.
pub open spec fn count_regular(entries: Seq<DirEntry>) -> nat
    decreases entries.len(),
{
    if entries.len() == 0 {
        0
    } else {
        count_regular(entries.drop_last()) + if entries.last().is_regular_file {
            1nat
        } else {
            0nat
        }
    }
}

/// Resolving a regular-file path yields exactly that path, once.
pub proof fn lemma_resolve_regular_file(path: Seq<char>)
    ensures
        resolved_paths(path, PathProbe::RegularFile).len() == 1,
        resolved_paths(path, PathProbe::RegularFile)[0] == path,
{
}

/// Resolving a nonexistent or special path yields the empty sequence.
pub proof fn lemma_resolve_absent(path: Seq<char>)
    ensures
        resolved_paths(path, PathProbe::Absent).len() == 0,
{
}

/// Resolving a directory of N regular files and M other entries yields
/// exactly N paths: every regular file's path is among them, and — provided
/// the entries' paths are distinct, as one directory's children always are —
/// none of the other entries' paths is.
pub proof fn lemma_resolve_directory(entries: Seq<DirEntry>)
    requires
        forall|i: int, j: int|
            0 <= i < j < entries.len() ==> entries[i].path@ != entries[j].path@,
    ensures
        regular_entry_paths(entries).len() == count_regular(entries),
        forall|i: int|
            0 <= i < entries.len() && entries[i].is_regular_file
                ==> regular_entry_paths(entries).contains(entries[i].path@),
        forall|i: int|
            0 <= i < entries.len() && !entries[i].is_regular_file
                ==> !regular_entry_paths(entries).contains(entries[i].path@),
    decreases entries.len(),
{
    if entries.len() > 0 {
        let pre = entries.drop_last();
        lemma_resolve_directory(pre);
        let paths = regular_entry_paths(entries);
        let pre_paths = regular_entry_paths(pre);
        assert forall|i: int|
            0 <= i < entries.len() && entries[i].is_regular_file implies regular_entry_paths(
            entries,
        ).contains(entries[i].path@) by {
            if i < pre.len() {
                assert(pre[i] == entries[i]);
                assert(pre_paths.contains(entries[i].path@));
                let k = choose|k: int|
                    0 <= k < pre_paths.len() && pre_paths[k] == entries[i].path@;
                assert(paths[k] == entries[i].path@);
            } else {
                assert(entries.last() == entries[i]);
                assert(paths == pre_paths.push(entries[i].path@));
                assert(paths[paths.len() - 1] == entries[i].path@);
            }
        }
        assert forall|i: int|
            0 <= i < entries.len() && !entries[i].is_regular_file
                implies !regular_entry_paths(entries).contains(entries[i].path@) by {
            if paths.contains(entries[i].path@) {
                let k = choose|k: int|
                    0 <= k < paths.len() && paths[k] == entries[i].path@;
                if entries.last().is_regular_file && k == paths.len() - 1 {
                    assert(entries[i].path@ == entries.last().path@);
                    assert(entries[i].path@ != entries[entries.len() - 1].path@);
                } else {
                    assert(pre_paths[k] == entries[i].path@);
                    assert(pre_paths.contains(entries[i].path@));
                    lemma_regular_path_has_entry(pre, entries[i].path@);
                    let j = choose|j: int|
                        0 <= j < pre.len() && pre[j].is_regular_file && pre[j].path@
                            == entries[i].path@;
                    assert(pre[j] == entries[j]);
                    assert(j != i);
                    assert(entries[if i < j {
                        i
                    } else {
                        j
                    }].path@ != entries[if i < j {
                        j
                    } else {
                        i
                    }].path@);
                }
            }
        }
    }
}

/// A path resolved from a directory belongs to a regular-file entry.
proof fn lemma_regular_path_has_entry(entries: Seq<DirEntry>, path: Seq<char>)
    requires
        regular_entry_paths(entries).contains(path),
    ensures
        exists|i: int| 0 <= i < entries.len() && entries[i].is_regular_file && entries[i].path@ == path,
    decreases entries.len(),
{
    assert(entries.len() > 0);
    let pre = entries.drop_last();
    if entries.last().is_regular_file && entries.last().path@ == path {
        assert(0 <= entries.len() - 1 < entries.len() && entries[entries.len()
            - 1].is_regular_file && entries[entries.len() - 1].path@ == path);
    } else {
        let paths = regular_entry_paths(entries);
        let k = choose|k: int| 0 <= k < paths.len() && paths[k] == path;
        if entries.last().is_regular_file {
            assert(paths == regular_entry_paths(pre).push(entries.last().path@));
            assert(k < paths.len() - 1);
        }
        assert(regular_entry_paths(pre)[k] == path);
        assert(regular_entry_paths(pre).contains(path));
        lemma_regular_path_has_entry(pre, path);
        let i = choose|i: int|
            0 <= i < pre.len() && pre[i].is_regular_file && pre[i].path@ == path;
        assert(pre[i] == entries[i]);
        assert(0 <= i < entries.len() && entries[i].is_regular_file && entries[i].path@ == path);
    }
}

} // verus!
