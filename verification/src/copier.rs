use vstd::prelude::*;
use vstd::string::*;

use crate::strutil::{contains_string, sep_free, views_of};

verus! {

/// The index of the last `.` in a name, or `-1` when there is none.
pub open spec fn last_dot(name: Seq<char>) -> int
    decreases name.len(),
{
    if name.len() == 0 {
        -1
    } else if name.last() == '.' {
        name.len() - 1
    } else {
        last_dot(name.drop_last())
    }
}

/// The extension of a file name: the text after the last `.`, provided that
/// dot is neither absent nor the leading character (a name that starts with
/// its only dot, like a hidden file, has no extension).
pub open spec fn ext_of(name: Seq<char>) -> Option<Seq<char>> {
    if last_dot(name) >= 1 {
        Some(name.skip(last_dot(name) + 1))
    } else {
        None
    }
}

/// Whether the skip-file rules exclude a file of this name: its extension
/// exists and the exact pattern `*.<extension>` is one of the rules. A file
/// with no extension is never excluded.
pub open spec fn file_skip_spec(name: Seq<char>, pats: Seq<Seq<char>>) -> bool {
    match ext_of(name) {
        Some(e) => pats.contains("*."@ + e),
        None => false,
    }
}

/// Whether the skip-folder rules exclude a folder of this name: exact,
/// whole-name matching only.
pub open spec fn folder_skip_spec(name: Seq<char>, names: Seq<Seq<char>>) -> bool {
    names.contains(name)
}

/// What the copier does with one directory entry.
#[derive(Debug, Clone, Copy, PartialEq, Eq, Structural)]
pub enum EntryAction {
    /// Leave the entry (and, for a folder, its whole subtree) out.
    SkipEntry,
    /// Mirror the folder: create it under the destination and descend.
    RecurseInto,
    /// Copy the file, overwriting a same-named destination file.
    CopyFile,
}

proof fn lemma_last_dot_found(name: Seq<char>, j: int)
    requires
        0 <= j < name.len(),
        name[j] == '.',
        forall|k: int| j < k < name.len() ==> name[k] != '.',
    ensures
        last_dot(name) == j,
    decreases name.len(),
{
    if name.last() == '.' {
        assert(j == name.len() - 1);
    } else {
        assert(j < name.len() - 1);
        lemma_last_dot_found(name.drop_last(), j);
    }
}

proof fn lemma_last_dot_none(name: Seq<char>)
    requires
        sep_free(name, '.'),
    ensures
        last_dot(name) == -1,
    decreases name.len(),
{
    if name.len() > 0 {
        assert(sep_free(name.drop_last(), '.'));
        lemma_last_dot_none(name.drop_last());
    }
}

/// The extension of a file name, as the copier reads it.
pub fn extension_of(name: &str) -> (r: Option<String>)
    ensures
        match r {
            Some(e) => ext_of(name@) == Some(e@),
            None => ext_of(name@) is None,
        },
{
    let len: usize = name.unicode_len();
    let mut i: usize = len;
    while i > 0
        invariant
            0 <= i <= len,
            len == name@.len(),
            forall|k: int| i <= k < len ==> name@[k] != '.',
        decreases i,
    {
        i = i - 1;
        let c = name.get_char(i);
        if c == '.' {
            proof {
                lemma_last_dot_found(name@, i as int);
            }
            if i == 0 {
                return None;
            }
            let e = name.substring_char(i + 1, len).to_owned();
            return Some(e);
        }
    }
    proof {
        lemma_last_dot_none(name@);
    }
    None
}

/// Whether `skip_files` excludes the file `name`.
pub fn file_skipped(name: &str, skip_files: &Vec<String>) -> (r: bool)
    ensures
        r == file_skip_spec(name@, views_of(skip_files@)),
{
    match extension_of(name) {
        None => false,
        Some(e) => {
            let mut pat = String::from_str("*.");
            pat.append(e.as_str());
            contains_string(skip_files, pat.as_str())
        },
    }
}

/// Whether `skip_folders` excludes the folder `name`.
pub fn folder_skipped(name: &str, skip_folders: &Vec<String>) -> (r: bool)
    ensures
        r == folder_skip_spec(name@, views_of(skip_folders@)),
{
    contains_string(skip_folders, name)
}

/// The copier's decision for one directory entry: a folder on the skip list
/// is left out with its whole subtree, any other folder is entered; a file
/// whose `*.<extension>` pattern is on the skip list is left out, any other
/// file is copied.
pub fn copy_decision(name: &str, is_dir: bool, skip_files: &Vec<String>, skip_folders: &Vec<
    String,
>) -> (r: EntryAction)
    ensures
        is_dir && folder_skip_spec(name@, views_of(skip_folders@)) ==> r == EntryAction::SkipEntry,
        is_dir && !folder_skip_spec(name@, views_of(skip_folders@)) ==> r
            == EntryAction::RecurseInto,
        !is_dir && file_skip_spec(name@, views_of(skip_files@)) ==> r == EntryAction::SkipEntry,
        !is_dir && !file_skip_spec(name@, views_of(skip_files@)) ==> r == EntryAction::CopyFile,
{
    if is_dir {
        if folder_skipped(name, skip_folders) {
            EntryAction::SkipEntry
        } else {
            EntryAction::RecurseInto
        }
    } else {
        if file_skipped(name, skip_files) {
            EntryAction::SkipEntry
        } else {
            EntryAction::CopyFile
        }
    }
}

/// Whether the filtered copy takes the file at `path`, given as the name
/// components from the source root down to the file name (which comes
/// last): no folder component may be on the skip-folder list, and the file
/// name itself must pass the skip-file rules.
pub open spec fn copy_includes(
    path: Seq<Seq<char>>,
    skip_files: Seq<Seq<char>>,
    skip_folders: Seq<Seq<char>>,
) -> bool {
    &&& path.len() >= 1
    &&& forall|k: int|
        0 <= k < path.len() - 1 ==> !folder_skip_spec(#[trigger] path[k], skip_folders)
    &&& !file_skip_spec(path.last(), skip_files)
}

/// The set of component paths the filtered copy takes.
pub open spec fn included_paths(skip_files: Seq<Seq<char>>, skip_folders: Seq<Seq<char>>) -> Set<
    Seq<Seq<char>>,
> {
    Set::new(|p: Seq<Seq<char>>| copy_includes(p, skip_files, skip_folders))
}

/// The effect of one filtered copy on a destination tree. A tree is
/// modelled flat: every file under the root, keyed by its component path,
/// mapped to its bytes. A missing source (`None`) leaves the destination
/// untouched; otherwise every included source file lands at its own path,
/// overwriting what was there, and every other destination file stays.
pub open spec fn copy_result(
    source: Option<Map<Seq<Seq<char>>, Seq<u8>>>,
    dest: Map<Seq<Seq<char>>, Seq<u8>>,
    skip_files: Seq<Seq<char>>,
    skip_folders: Seq<Seq<char>>,
) -> Map<Seq<Seq<char>>, Seq<u8>> {
    match source {
        None => dest,
        Some(s) => dest.union_prefer_right(s.restrict(included_paths(skip_files, skip_folders))),
    }
}

/// A copy from a source that does not exist succeeds as a no-op: the
/// destination tree is exactly what it was.
pub proof fn lemma_copy_missing_source(
    dest: Map<Seq<Seq<char>>, Seq<u8>>,
    skip_files: Seq<Seq<char>>,
    skip_folders: Seq<Seq<char>>,
)
    ensures
        copy_result(None, dest, skip_files, skip_folders) == dest,
{
}

/// Copying is idempotent: a second run over an unchanged source and
/// destination leaves the destination tree byte-identical to the first
/// run's result.
pub proof fn lemma_copy_idempotent(
    source: Map<Seq<Seq<char>>, Seq<u8>>,
    dest: Map<Seq<Seq<char>>, Seq<u8>>,
    skip_files: Seq<Seq<char>>,
    skip_folders: Seq<Seq<char>>,
)
    ensures
        copy_result(
            Some(source),
            copy_result(Some(source), dest, skip_files, skip_folders),
            skip_files,
            skip_folders,
        ) == copy_result(Some(source), dest, skip_files, skip_folders),
{
    let f = source.restrict(included_paths(skip_files, skip_folders));
    let once = dest.union_prefer_right(f);
    let twice = once.union_prefer_right(f);
    assert(twice =~~= once);
}

/// A folder on the skip-folder list keeps its whole subtree out: a path
/// with such a folder component is never copied, so it shows up in the
/// result only if the destination already had it.
pub proof fn lemma_skip_folder_excludes(
    source: Map<Seq<Seq<char>>, Seq<u8>>,
    dest: Map<Seq<Seq<char>>, Seq<u8>>,
    skip_files: Seq<Seq<char>>,
    skip_folders: Seq<Seq<char>>,
    path: Seq<Seq<char>>,
    k: int,
)
    requires
        0 <= k < path.len() - 1,
        folder_skip_spec(path[k], skip_folders),
        !dest.dom().contains(path),
    ensures
        !copy_result(Some(source), dest, skip_files, skip_folders).dom().contains(path),
{
    assert(!copy_includes(path, skip_files, skip_folders));
}

/// A file whose `*.<extension>` pattern is on the skip-file list is never
/// copied: it shows up in the result only if the destination already had it.
pub proof fn lemma_skip_file_excludes(
    source: Map<Seq<Seq<char>>, Seq<u8>>,
    dest: Map<Seq<Seq<char>>, Seq<u8>>,
    skip_files: Seq<Seq<char>>,
    skip_folders: Seq<Seq<char>>,
    path: Seq<Seq<char>>,
)
    requires
        path.len() >= 1,
        file_skip_spec(path.last(), skip_files),
        !dest.dom().contains(path),
    ensures
        !copy_result(Some(source), dest, skip_files, skip_folders).dom().contains(path),
{
    assert(!copy_includes(path, skip_files, skip_folders));
}

/// Every source file the rules include arrives with its bytes.
pub proof fn lemma_copy_takes_included(
    source: Map<Seq<Seq<char>>, Seq<u8>>,
    dest: Map<Seq<Seq<char>>, Seq<u8>>,
    skip_files: Seq<Seq<char>>,
    skip_folders: Seq<Seq<char>>,
    path: Seq<Seq<char>>,
)
    requires
        source.dom().contains(path),
        copy_includes(path, skip_files, skip_folders),
    ensures
        copy_result(Some(source), dest, skip_files, skip_folders).dom().contains(path),
        copy_result(Some(source), dest, skip_files, skip_folders)[path] == source[path],
{
}

/// Every destination file the copy does not overwrite stays as it was.
pub proof fn lemma_copy_preserves_rest(
    source: Map<Seq<Seq<char>>, Seq<u8>>,
    dest: Map<Seq<Seq<char>>, Seq<u8>>,
    skip_files: Seq<Seq<char>>,
    skip_folders: Seq<Seq<char>>,
    path: Seq<Seq<char>>,
)
    requires
        dest.dom().contains(path),
        !(source.dom().contains(path) && copy_includes(path, skip_files, skip_folders)),
    ensures
        copy_result(Some(source), dest, skip_files, skip_folders).dom().contains(path),
        copy_result(Some(source), dest, skip_files, skip_folders)[path] == dest[path],
{
}

} // verus!
