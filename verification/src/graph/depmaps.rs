//! Looking up trees of files.

use vstd::prelude::*;

use crate::base::name_set;
use crate::base::paths::{self, strip_prefix};
use crate::base::text::chars_of;
use crate::graph::output_query::DepmapReference;
use crate::graph::target_query::FileEntry;

verus! {

/// Where a tree of files is looked for.
#[derive(Clone, Copy, PartialEq, Eq, Structural, Debug)]
pub enum FiletreeLookup {
    /// It is in the registry.
    Registered,
    /// It is in the cache on disk, and goes into the registry.
    Register,
    Missing,
}

/// Where a tree of files is found: in the registry before the cache on disk.
pub fn lookup_filetree_cache(in_registry: bool, on_disk: bool) -> (r: FiletreeLookup)
    ensures
        r == if in_registry {
            FiletreeLookup::Registered
        } else if on_disk {
            FiletreeLookup::Register
        } else {
            FiletreeLookup::Missing
        },
{
    if in_registry {
        FiletreeLookup::Registered
    } else if on_disk {
        FiletreeLookup::Register
    } else {
        FiletreeLookup::Missing
    }
}

#[derive(Clone, Copy, PartialEq, Eq, Structural, Debug)]
pub enum DepmapError {
    /// The tree of files is not known.
    MissingDepmap,
    /// A single file was expected.
    NotASingleFile,
    /// The file is not in the tree.
    MissingFile,
}

/// What a reference stands for: a whole tree, or what is at a path inside it.
pub enum DepmapResolution {
    Depmap,
    Subpath(String),
}

/// What a reference to a tree of files stands for.
pub fn lookup_concrete_depmap(found: bool, subpath: &Option<String>) -> (r: Result<
    DepmapResolution,
    DepmapError,
>)
    ensures
        match r {
            Err(e) => !found && e == DepmapError::MissingDepmap,
            Ok(DepmapResolution::Depmap) => found && *subpath is None,
            Ok(DepmapResolution::Subpath(path)) => found && (*subpath matches Some(s) && s@ == path@),
        },
{
    if !found {
        return Err(DepmapError::MissingDepmap);
    }
    match subpath {
        Some(path) => Ok(DepmapResolution::Subpath(path.clone())),
        None => Ok(DepmapResolution::Depmap),
    }
}

/// The entries of a tree that are below a directory, each as the place in the tree and the path below
/// the directory.
pub open spec fn entries_below(paths: Seq<Seq<char>>, dir: Seq<char>) -> Seq<(int, Seq<char>)>
    decreases paths.len(),
{
    if paths.len() == 0 {
        Seq::empty()
    } else {
        let before = entries_below(paths.drop_last(), dir);
        match paths::below(paths.last(), dir) {
            Some(path) => before.push((paths.len() - 1, path)),
            None => before,
        }
    }
}

/// The entries of a list, as places and texts.
pub open spec fn entries_model(items: Seq<(usize, String)>) -> Seq<(int, Seq<char>)> {
    items.map_values(|item: (usize, String)| (item.0 as int, item.1@))
}

/// The tree of what is below a directory in another tree.
pub fn force_directory(paths: &Vec<String>, dir: &str) -> (r: Vec<(usize, String)>)
    ensures
        entries_model(r@) == entries_below(name_set::texts(paths@), dir@),
{
    let ghost all = name_set::texts(paths@);
    let mut items: Vec<(usize, String)> = Vec::new();
    let mut i: usize = 0;
    assert(entries_model(items@) =~= entries_below(all.take(0), dir@));
    while i < paths.len()
        invariant
            all == name_set::texts(paths@),
            i <= paths@.len(),
            entries_model(items@) == entries_below(all.take(i as int), dir@),
        decreases paths@.len() - i,
    {
        assert(all.take(i + 1).drop_last() =~= all.take(i as int));
        assert(all.take(i + 1).last() == paths@[i as int]@);
        let ghost before = entries_model(items@);
        match strip_prefix(paths[i].as_str(), dir) {
            Some(path) => {
                let ghost model = (i as int, path@);
                items.push((i, path));
                assert(entries_model(items@) =~= before.push(model));
            },
            None => {},
        }
        i += 1;
    }
    assert(all.take(all.len() as int) =~= all);
    items
}

/// The names of the entries of a directory in a tree: what is below it by one segment.
pub open spec fn names_in(paths: Seq<Seq<char>>, dir: Seq<char>) -> Seq<Seq<char>>
    decreases paths.len(),
{
    if paths.len() == 0 {
        Seq::empty()
    } else {
        let before = names_in(paths.drop_last(), dir);
        match paths::below(paths.last(), dir) {
            Some(path) => if path.len() > 0 && !path.contains('/') {
                before.push(path)
            } else {
                before
            },
            None => before,
        }
    }
}

/// Lists a directory of a tree.
pub fn directory_list(paths: &Vec<String>, dir: &str) -> (r: Vec<String>)
    ensures
        name_set::texts(r@) == names_in(name_set::texts(paths@), dir@),
{
    let ghost all = name_set::texts(paths@);
    let mut names: Vec<String> = Vec::new();
    let mut i: usize = 0;
    assert(name_set::texts(names@) =~= names_in(all.take(0), dir@));
    while i < paths.len()
        invariant
            all == name_set::texts(paths@),
            i <= paths@.len(),
            name_set::texts(names@) == names_in(all.take(i as int), dir@),
        decreases paths@.len() - i,
    {
        assert(all.take(i + 1).drop_last() =~= all.take(i as int));
        assert(all.take(i + 1).last() == paths@[i as int]@);
        let ghost before = name_set::texts(names@);
        match strip_prefix(paths[i].as_str(), dir) {
            Some(path) => {
                if is_single_segment(path.as_str()) {
                    let ghost model = path@;
                    names.push(path);
                    assert(name_set::texts(names@) =~= before.push(model));
                }
            },
            None => {},
        }
        i += 1;
    }
    assert(all.take(all.len() as int) =~= all);
    names
}

/// Whether a path is one name.
fn is_single_segment(path: &str) -> (r: bool)
    ensures
        r == (path@.len() > 0 && !path@.contains('/')),
{
    let chars = chars_of(path);
    let mut i: usize = 0;
    while i < chars.len()
        invariant
            chars@ == path@,
            i <= chars@.len(),
            forall|j: int| 0 <= j < i ==> path@[j] != '/',
        decreases chars@.len() - i,
    {
        if chars[i] == '/' {
            assert(path@.contains('/'));
            return false;
        }
        i += 1;
    }
    assert(!path@.contains('/'));
    chars.len() > 0
}

/// Which contents to open for a file in a tree. Other types of files are not supported there.
pub fn open_depmap_file(
    found: bool,
    reference: &DepmapReference,
    entry: Option<FileEntry>,
) -> (r: Result<(Vec<u8>, bool), DepmapError>)
    requires
        entry matches Some(e) ==> e is Regular,
    ensures
        r == if !found {
            Err(DepmapError::MissingDepmap)
        } else if reference.subpath is None {
            Err(DepmapError::NotASingleFile)
        } else {
            match entry {
                Some(FileEntry::Regular { content_hash, executable }) => Ok(
                    (content_hash, executable),
                ),
                _ => Err(DepmapError::MissingFile),
            }
        },
{
    if !found {
        return Err(DepmapError::MissingDepmap);
    }
    match &reference.subpath {
        None => {
            return Err(DepmapError::NotASingleFile);
        },
        Some(_) => {},
    }
    match entry {
        Some(FileEntry::Regular { content_hash, executable }) => Ok((content_hash, executable)),
        _ => Err(DepmapError::MissingFile),
    }
}

/// What is below a directory of a tree is told in the order of the tree, each with its place and its path below
/// the directory. One more path adds itself, where it is below, and changes nothing else.
pub proof fn all_that_is_below_is_told(all: Seq<Seq<char>>, path: Seq<char>, dir: Seq<char>)
    ensures
        entries_below(Seq::empty(), dir) == Seq::<(int, Seq<char>)>::empty(),
        entries_below(all.push(path), dir) == match paths::below(path, dir) {
            Some(rest) => entries_below(all, dir).push((all.len() as int, rest)),
            None => entries_below(all, dir),
        },
        names_in(Seq::empty(), dir) == Seq::<Seq<char>>::empty(),
        names_in(all.push(path), dir) == match paths::below(path, dir) {
            Some(rest) => if rest.len() > 0 && !rest.contains('/') {
                names_in(all, dir).push(rest)
            } else {
                names_in(all, dir)
            },
            None => names_in(all, dir),
        },
{
    assert(all.push(path).drop_last() =~= all);
}

/// A name that stands directly in a directory of a tree is listed there, and what stands below that name is not.
pub proof fn names_in_a_directory_are_listed(all: Seq<Seq<char>>, dir: Seq<char>, name: Seq<char>)
    requires
        name.len() > 0,
        !name.contains('/'),
        name != seq!['.'],
    ensures
        names_in(all.push(paths::joined(dir, name)), dir) == names_in(all, dir).push(name),
        entries_below(all.push(paths::joined(dir, name)), dir) == entries_below(all, dir).push(
            (all.len() as int, name),
        ),
{
    paths::joined_is_below(dir, name);
    all_that_is_below_is_told(all, paths::joined(dir, name), dir);
}

/// Entries are told one by one.
pub proof fn entries_are_told_one_by_one(items: Seq<(usize, String)>)
    ensures
        entries_model(items).len() == items.len(),
        forall|i: int|
            0 <= i < items.len() ==> #[trigger] entries_model(items)[i] == (items[i].0 as int, items[i].1@),
{
}

} // verus!
