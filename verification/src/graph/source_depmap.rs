//! Making trees of files of source files and directories.
//!
//! Reading directories and files is done outside. A walk says which entry it needs read next, and
//! is told what was found.

use vstd::prelude::*;

use crate::base::bytes::bytes_equal;
use crate::base::paths::{self, strip_prefix};
use crate::graph::output_query::DepmapReference;
use crate::graph::target_query::FileEntry;
use crate::source::source_entry::Status;
use crate::source::source_reference::SourceReference;

verus! {

/// Whether a path below a directory can stand in a label.
#[derive(Clone, Copy, PartialEq, Eq, Structural, Debug)]
pub enum LabelCheck {
    Valid,
    /// It is no label at all.
    Invalid,
    /// It leads out of the directory.
    Escapes,
}

/// An entry of a directory on the way.
pub struct WalkEntry {
    pub reference: SourceReference,
    pub full_file_path: String,
    /// Whether the path below the root of the walk can stand in a label.
    pub label: LabelCheck,
}

/// A file of a tree, under its path.
pub struct TreeFile {
    pub subpath: String,
    pub entry: FileEntry,
}

#[derive(Clone, Copy, PartialEq, Eq, Structural, Debug)]
pub enum WalkError {
    PathEscapesRoot,
}

/// What a walk needs next.
pub enum WalkAction {
    /// Read a directory, and give its entries.
    ReadDirectory,
    /// Copy a file to the cache, and give its hash.
    CacheFile,
    /// The walk is over.
    Done,
    Fail(WalkError),
}

/// An entry that is being read, with its path below the root.
pub struct CurrentEntry {
    pub entry: WalkEntry,
    pub subpath: String,
}

/// A walk through a directory, depth first, with the last entry of a directory first.
pub struct DepmapWalk {
    pub root: String,
    pub stack: Vec<WalkEntry>,
    /// The entry that was asked for last.
    pub current: Option<CurrentEntry>,
    /// The files of the tree, in the order in which they were found.
    pub files: Vec<TreeFile>,
    /// The sources that the tree depends on.
    pub references: Vec<SourceReference>,
}

/// How a walk takes one entry: `None` for one that is left out.
pub open spec fn entry_subpath(root: Seq<char>, entry: WalkEntry) -> Option<Seq<char>> {
    if entry.label == LabelCheck::Invalid {
        None
    } else {
        paths::below(entry.full_file_path@, root)
    }
}

/// What stands at a path of a tree of files.
pub enum EntryModel {
    Regular { content_hash: Seq<u8>, executable: bool },
    Symlink { target: Seq<char> },
    Directory,
}

/// A file of a tree: where it stands, and what it is.
pub open spec fn file_model(file: TreeFile) -> (Seq<char>, EntryModel) {
    (
        file.subpath@,
        match file.entry {
            FileEntry::Regular { content_hash, executable } => EntryModel::Regular {
                content_hash: content_hash@,
                executable,
            },
            FileEntry::Symlink(target) => EntryModel::Symlink { target: target@ },
            FileEntry::Directory => EntryModel::Directory,
        },
    )
}

/// What a walk keeps of an entry at once: links are kept as they are, and what is not there leaves
/// nothing. `None` for an entry that must be read first.
pub open spec fn kept_at_once(entry: WalkEntry, subpath: Seq<char>) -> Option<Option<(Seq<char>, EntryModel)>> {
    match entry.reference.pre_observation_status {
        Status::Symlink(l) => Some(Some((subpath, EntryModel::Symlink { target: l.target@ }))),
        Status::NotFound => Some(None),
        _ => None,
    }
}

impl DepmapWalk {
    pub fn new(root: String, entries: Vec<WalkEntry>) -> (r: DepmapWalk)
        ensures
            r.root == root,
            r.stack == entries,
            r.current is None,
            r.files@.len() == 0,
            r.references@.len() == 0,
    {
        DepmapWalk {
            root,
            stack: entries,
            current: None,
            files: Vec::new(),
            references: Vec::new(),
        }
    }

    /// Whether a walk is where it stands after it went on to the next entry that must be read, and what
    /// it needs then.
    pub open spec fn went_on(self, before: DepmapWalk, r: WalkAction) -> bool {
        &&& self.root == before.root
        &&& before.files@.is_prefix_of(self.files@)
        &&& self.stack@.is_prefix_of(before.stack@)
        &&& match r {
            WalkAction::Done => {
                &&& self.stack@.len() == 0
                &&& self.current is None
                &&& forall|i: int|
                    0 <= i < before.stack@.len() ==> skipped_or_kept(
                        before.root@,
                        #[trigger] before.stack@[i],
                    )
            },
            WalkAction::Fail(_) => {
                &&& self.current is None
                &&& self.stack@.len() < before.stack@.len()
                &&& ({
                    let entry = before.stack@[self.stack@.len() as int];
                    &&& entry_subpath(before.root@, entry) is Some
                    &&& entry.label == LabelCheck::Escapes
                })
                &&& forall|i: int|
                    self.stack@.len() < i < before.stack@.len() ==> skipped_or_kept(
                        before.root@,
                        #[trigger] before.stack@[i],
                    )
            },
            _ => {
                &&& self.stack@.len() < before.stack@.len()
                &&& self.current matches Some(CurrentEntry { entry, subpath })
                &&& entry == before.stack@[self.stack@.len() as int]
                &&& entry_subpath(before.root@, entry) == Some(subpath@)
                &&& entry.label == LabelCheck::Valid
                &&& entry.reference.pre_observation_status is Directory == r is ReadDirectory
                &&& entry.reference.pre_observation_status is File == r is CacheFile
                &&& forall|i: int|
                    self.stack@.len() < i < before.stack@.len() ==> skipped_or_kept(
                        before.root@,
                        #[trigger] before.stack@[i],
                    )
            },
        }
        &&& ({
            let taken = before.stack@.skip(self.stack@.len() as int + if r is Done {
                0int
            } else {
                1
            });
            &&& new_files(before.files@, self.files@) == links_in(
                before.root@,
                taken,
            )
            &&& self.references@ == before.references@ + recorded_in(
                before.root@,
                taken,
            )
        })
    }

    /// Whether a walk is where it stands after it took the entries of a directory.
    pub open spec fn took_directory(self, before: DepmapWalk, entries: Seq<WalkEntry>) -> bool {
        &&& self.current is None
        &&& self.root == before.root
        &&& self.stack@ == before.stack@ + entries
        &&& self.references@ == before.references@.push(before.current->0.entry.reference)
        &&& self.files@.len() == before.files@.len() + 1
        &&& self.files@.drop_last() == before.files@
        &&& self.files@.last().entry is Directory
        &&& self.files@.last().subpath == before.current->0.subpath
    }

    /// Whether a walk is where it stands after it took the hash of a file.
    pub open spec fn took_file(self, before: DepmapWalk, content_hash: Vec<u8>, executable: bool) -> bool {
        &&& self.current is None
        &&& self.root == before.root
        &&& self.stack == before.stack
        &&& self.references@ == before.references@.push(before.current->0.entry.reference)
        &&& self.files@.len() == before.files@.len() + 1
        &&& self.files@.drop_last() == before.files@
        &&& self.files@.last().entry == (FileEntry::Regular { content_hash, executable })
        &&& self.files@.last().subpath == before.current->0.subpath
    }

    /// Goes on to the next entry that must be read. Entries that are not below the root or cannot
    /// stand in a label are left out. Links and what is not there are taken on the way.
    pub fn next(&mut self) -> (r: WalkAction)
        requires
            old(self).current is None,
        ensures
            final(self).went_on(*old(self), r),
            final(self).root == old(self).root,
            old(self).files@.is_prefix_of(final(self).files@),
            final(self).stack@.is_prefix_of(old(self).stack@),
            match r {
                WalkAction::Done => {
                    &&& final(self).stack@.len() == 0
                    &&& final(self).current is None
                    &&& forall|i: int|
                        0 <= i < old(self).stack@.len() ==> skipped_or_kept(
                            old(self).root@,
                            #[trigger] old(self).stack@[i],
                        )
                },
                WalkAction::Fail(_) => {
                    &&& final(self).current is None
                    &&& final(self).stack@.len() < old(self).stack@.len()
                    &&& ({
                        let entry = old(self).stack@[final(self).stack@.len() as int];
                        &&& entry_subpath(old(self).root@, entry) is Some
                        &&& entry.label == LabelCheck::Escapes
                    })
                    &&& forall|i: int|
                        final(self).stack@.len() < i < old(self).stack@.len() ==> skipped_or_kept(
                            old(self).root@,
                            #[trigger] old(self).stack@[i],
                        )
                },
                _ => {
                    &&& final(self).stack@.len() < old(self).stack@.len()
                    &&& final(self).current matches Some(CurrentEntry { entry, subpath })
                    &&& entry == old(self).stack@[final(self).stack@.len() as int]
                    &&& entry_subpath(old(self).root@, entry) == Some(subpath@)
                    &&& entry.label == LabelCheck::Valid
                    &&& entry.reference.pre_observation_status is Directory == r is ReadDirectory
                    &&& entry.reference.pre_observation_status is File == r is CacheFile
                    &&& forall|i: int|
                        final(self).stack@.len() < i < old(self).stack@.len() ==> skipped_or_kept(
                            old(self).root@,
                            #[trigger] old(self).stack@[i],
                        )
                },
            },
            ({
                let taken = old(self).stack@.skip(final(self).stack@.len() as int + if r is Done {
                    0int
                } else {
                    1
                });
                &&& new_files(old(self).files@, final(self).files@) == links_in(
                    old(self).root@,
                    taken,
                )
                &&& final(self).references@ == old(self).references@ + recorded_in(
                    old(self).root@,
                    taken,
                )
            }),
    {
        let ghost start = *self;
        let ghost root = self.root@;
        proof {
            assert(start.stack@.skip(start.stack@.len() as int) =~= Seq::<WalkEntry>::empty());
            assert(start.files@.skip(start.files@.len() as int) =~= Seq::<TreeFile>::empty());
            assert(new_files(start.files@, self.files@) =~= Seq::<(Seq<char>, EntryModel)>::empty());
            assert(start.references@ + Seq::<SourceReference>::empty() =~= start.references@);
        }
        loop
            invariant
                start == *old(self),
                root == start.root@,
                self.root == start.root,
                self.current is None,
                start.files@.is_prefix_of(self.files@),
                self.stack@.is_prefix_of(start.stack@),
                self.stack@.len() <= start.stack@.len(),
                forall|i: int|
                    self.stack@.len() <= i < start.stack@.len() ==> skipped_or_kept(
                        root,
                        #[trigger] start.stack@[i],
                    ),
                new_files(start.files@, self.files@) == links_in(
                    root,
                    start.stack@.skip(self.stack@.len() as int),
                ),
                self.references@ == start.references@ + recorded_in(
                    root,
                    start.stack@.skip(self.stack@.len() as int),
                ),
            decreases self.stack@.len(),
        {
            let ghost before = *self;
            let ghost n = self.stack@.len() as int;
            let entry = match self.stack.pop() {
                None => {
                    return WalkAction::Done;
                },
                Some(entry) => entry,
            };
            proof {
                assert(entry == start.stack@[n - 1]);
                assert(self.stack@ =~= start.stack@.subrange(0, n - 1));
                assert(start.stack@.skip(n - 1).drop_first() =~= start.stack@.skip(n));
                assert(start.stack@.skip(n - 1)[0] == entry);
            }
            match entry.label {
                LabelCheck::Invalid => {
                    continue ;
                },
                _ => {},
            }
            let subpath = match strip_prefix(entry.full_file_path.as_str(), self.root.as_str()) {
                None => {
                    continue ;
                },
                Some(subpath) => subpath,
            };
            match entry.label {
                LabelCheck::Escapes => {
                    return WalkAction::Fail(WalkError::PathEscapesRoot);
                },
                _ => {},
            }
            match &entry.reference.pre_observation_status {
                Status::Directory(_) => {
                    self.current = Some(CurrentEntry { entry, subpath });
                    return WalkAction::ReadDirectory;
                },
                Status::File(_) => {
                    self.current = Some(CurrentEntry { entry, subpath });
                    return WalkAction::CacheFile;
                },
                Status::Symlink(l) => {
                    let target = l.target.clone();
                    self.files.push(TreeFile { subpath, entry: FileEntry::Symlink(target) });
                    proof {
                        assert(self.files@.drop_last() =~= before.files@);
                        lemma_new_file(start.files@, before.files@, self.files@);
                    }
                    self.references.push(entry.reference);
                    proof {
                        assert(start.files@ =~= self.files@.subrange(0, start.files@.len() as int));
                        let done = recorded_in(root, start.stack@.skip(n));
                        assert(self.references@ =~= start.references@ + done.push(
                            start.stack@[n - 1].reference,
                        ));
                    }
                },
                Status::NotFound => {
                    self.references.push(entry.reference);
                    proof {
                        let done = recorded_in(root, start.stack@.skip(n));
                        assert(self.references@ =~= start.references@ + done.push(
                            start.stack@[n - 1].reference,
                        ));
                    }
                },
            }
        }
    }
}

/// Whether an entry is left out, or taken without reading it.
pub open spec fn skipped_or_kept(root: Seq<char>, entry: WalkEntry) -> bool {
    match entry_subpath(root, entry) {
        None => true,
        Some(subpath) => entry.label == LabelCheck::Valid && kept_at_once(entry, subpath) is Some,
    }
}

/// The files that were added to a tree.
pub open spec fn new_files(before: Seq<TreeFile>, after: Seq<TreeFile>) -> Seq<(Seq<char>, EntryModel)> {
    after.skip(before.len() as int).map_values(|f: TreeFile| file_model(f))
}

proof fn lemma_new_file(start: Seq<TreeFile>, before: Seq<TreeFile>, after: Seq<TreeFile>)
    requires
        start.len() <= before.len(),
        after.len() == before.len() + 1,
        after.drop_last() == before,
    ensures
        new_files(start, after) == new_files(start, before).push(file_model(after.last())),
{
    let n = start.len() as int;
    assert forall|i: int| 0 <= i < before.len() implies after[i] == #[trigger] before[i] by {
        assert(after.drop_last()[i] == after[i]);
    }
    assert(after.skip(n) =~= before.skip(n).push(after.last()));
    assert(new_files(start, after) =~= new_files(start, before).push(file_model(after.last())));
}

/// The links among entries that are taken from the last to the first.
pub open spec fn links_in(root: Seq<char>, entries: Seq<WalkEntry>) -> Seq<(Seq<char>, EntryModel)>
    decreases entries.len(),
{
    if entries.len() == 0 {
        Seq::empty()
    } else {
        let rest = links_in(root, entries.drop_first());
        match entry_subpath(root, entries[0]) {
            Some(subpath) => match kept_at_once(entries[0], subpath) {
                Some(Some(link)) => rest.push(link),
                _ => rest,
            },
            None => rest,
        }
    }
}

/// The sources that are recorded for entries that are taken from the last to the first: all that are
/// not left out.
pub open spec fn recorded_in(root: Seq<char>, entries: Seq<WalkEntry>) -> Seq<SourceReference>
    decreases entries.len(),
{
    if entries.len() == 0 {
        Seq::empty()
    } else {
        let rest = recorded_in(root, entries.drop_first());
        if entry_subpath(root, entries[0]) is Some {
            rest.push(entries[0].reference)
        } else {
            rest
        }
    }
}

/// Every link that is kept in a tree is among the sources that the tree depends on, as it was seen.
pub proof fn kept_links_are_recorded(root: Seq<char>, entries: Seq<WalkEntry>, i: int)
    requires
        0 <= i < links_in(root, entries).len(),
    ensures
        exists|j: int|
            0 <= j < recorded_in(root, entries).len() && ((#[trigger] recorded_in(
                root,
                entries,
            )[j]).pre_observation_status matches Status::Symlink(l) && links_in(root, entries)[i].1 == (
            EntryModel::Symlink { target: l.target@ })),
    decreases entries.len(),
{
    let rest = entries.drop_first();
    let links = links_in(root, rest);
    let recorded = recorded_in(root, rest);
    if i < links.len() {
        kept_links_are_recorded(root, rest, i);
        let j = choose|j: int|
            0 <= j < recorded.len() && ((#[trigger] recorded[j]).pre_observation_status matches Status::Symlink(
                l,
            ) && links[i].1 == (EntryModel::Symlink { target: l.target@ }));
        assert(recorded_in(root, entries)[j] == recorded[j]);
    } else {
        assert(recorded_in(root, entries)[recorded.len() as int] == entries[0].reference);
    }
}

impl DepmapWalk {
    /// Takes the entries of the directory that was asked for. They come before all others.
    pub fn directory_read(&mut self, entries: Vec<WalkEntry>)
        requires
            old(self).current is Some,
        ensures
            final(self).took_directory(*old(self), entries@),
            final(self).current is None,
            final(self).root == old(self).root,
            final(self).stack@ == old(self).stack@ + entries@,
            final(self).references@ == old(self).references@.push(old(self).current->0.entry.reference),
            final(self).files@.len() == old(self).files@.len() + 1,
            final(self).files@.drop_last() == old(self).files@,
            final(self).files@.last().entry is Directory,
            final(self).files@.last().subpath == old(self).current->0.subpath,
    {
        let mut current = None;
        core::mem::swap(&mut current, &mut self.current);
        match current {
            Some(CurrentEntry { entry, subpath }) => {
                self.files.push(TreeFile { subpath, entry: FileEntry::Directory });
                let mut entries = entries;
                self.stack.append(&mut entries);
                self.references.push(entry.reference);
            },
            None => {},
        }
        assert(self.files@.drop_last() =~= old(self).files@);
    }

    /// Takes the hash of the file that was asked for.
    pub fn file_cached(&mut self, content_hash: Vec<u8>, executable: bool)
        requires
            old(self).current is Some,
        ensures
            final(self).took_file(*old(self), content_hash, executable),
            final(self).current is None,
            final(self).root == old(self).root,
            final(self).stack == old(self).stack,
            final(self).references@ == old(self).references@.push(old(self).current->0.entry.reference),
            final(self).files@.len() == old(self).files@.len() + 1,
            final(self).files@.drop_last() == old(self).files@,
            final(self).files@.last().entry == (FileEntry::Regular { content_hash, executable }),
            final(self).files@.last().subpath == old(self).current->0.subpath,
    {
        let mut current = None;
        core::mem::swap(&mut current, &mut self.current);
        match current {
            Some(CurrentEntry { entry, subpath }) => {
                self.files.push(
                    TreeFile { subpath, entry: FileEntry::Regular { content_hash, executable } },
                );
                self.references.push(entry.reference);
            },
            None => {},
        }
        assert(self.files@.drop_last() =~= old(self).files@);
    }
}

/// The name of the file that a label names.
pub enum SourceName {
    Name(String),
    /// The label names no source file.
    NotASource,
    /// The name leads out of the root.
    Escapes,
}

#[derive(Clone, Copy, PartialEq, Eq, Structural, Debug)]
pub enum SourceTreeError {
    NotASourcePath,
    PathEscapesRoot,
}

/// How a tree of files is made of a source.
pub enum SourceTree {
    /// There is no such source, and no tree.
    Missing,
    /// A walk through the directory gives the tree.
    Directory,
    /// The tree holds one file.
    File(SingleFile),
    Fail(SourceTreeError),
}

/// A source file that becomes a tree of its own. Its contents are looked up in the cache first.
pub struct SingleFile {
    pub name: String,
    pub hash: Vec<u8>,
    pub executable: bool,
}

/// How a tree is made of a source, by what it was when it was referenced. The name of the source
/// matters only where it is a file.
pub fn source_tree(reference: &SourceReference, name: SourceName) -> (r: SourceTree)
    requires
        !(reference.pre_observation_status is Symlink),
    ensures
        match reference.pre_observation_status {
            Status::NotFound => r is Missing,
            Status::Directory(_) => r is Directory,
            Status::File(f) => match name {
                SourceName::NotASource => r == SourceTree::Fail(SourceTreeError::NotASourcePath),
                SourceName::Escapes => r == SourceTree::Fail(SourceTreeError::PathEscapesRoot),
                SourceName::Name(n) => {
                    &&& r matches SourceTree::File(file)
                    &&& file.name == n
                    &&& file.hash@ == f.hash@
                    &&& file.executable == f.executable
                },
            },
            Status::Symlink(_) => true,
        },
{
    match &reference.pre_observation_status {
        Status::NotFound | Status::Symlink(_) => SourceTree::Missing,
        Status::Directory(_) => SourceTree::Directory,
        Status::File(f) => match name {
            SourceName::NotASource => SourceTree::Fail(SourceTreeError::NotASourcePath),
            SourceName::Escapes => SourceTree::Fail(SourceTreeError::PathEscapesRoot),
            SourceName::Name(name) => SourceTree::File(
                SingleFile {
                    name,
                    hash: vstd::slice::slice_to_vec(f.hash.as_slice()),
                    executable: f.executable,
                },
            ),
        },
    }
}

impl SingleFile {
    /// The one file of the tree.
    pub open spec fn tree_model(self) -> (Seq<char>, EntryModel) {
        (
            self.name@,
            EntryModel::Regular { content_hash: self.hash@, executable: self.executable },
        )
    }

    /// The tree, once it is known whether the cache holds the contents of the file. `None` where the
    /// file must be copied to the cache first.
    pub fn looked_up(&self, in_cache: bool) -> (r: Option<TreeFile>)
        ensures
            in_cache <==> r is Some,
            r matches Some(tree) ==> file_model(tree) == self.tree_model(),
    {
        if in_cache {
            Some(self.tree())
        } else {
            None
        }
    }

    /// Whether a copy holds the contents that were seen.
    pub fn is_faithful(&self, copied_digest: &Vec<u8>) -> (r: bool)
        ensures
            r == (copied_digest@ == self.hash@),
    {
        bytes_equal(copied_digest.as_slice(), self.hash.as_slice())
    }

    /// The tree, once a faithful copy of the file was put into the cache.
    pub fn copied(&self, copied_digest: Vec<u8>) -> (r: TreeFile)
        requires
            copied_digest@ == self.hash@,
        ensures
            file_model(r) == self.tree_model(),
            r.entry == (FileEntry::Regular {
                content_hash: copied_digest,
                executable: self.executable,
            }),
    {
        TreeFile {
            subpath: self.name.clone(),
            entry: FileEntry::Regular { content_hash: copied_digest, executable: self.executable },
        }
    }

    fn tree(&self) -> (r: TreeFile)
        ensures
            file_model(r) == self.tree_model(),
    {
        TreeFile {
            subpath: self.name.clone(),
            entry: FileEntry::Regular {
                content_hash: vstd::slice::slice_to_vec(self.hash.as_slice()),
                executable: self.executable,
            },
        }
    }

    /// The output for a single source file: its tree, and its name inside it.
    pub fn reference(self, tree_hash: Vec<u8>) -> (r: DepmapReference)
        ensures
            r == (DepmapReference { hash: tree_hash, subpath: Some(self.name) }),
    {
        DepmapReference { hash: tree_hash, subpath: Some(self.name) }
    }
}

/// The output for a directory: its whole tree.
pub fn directory_reference(hash: Vec<u8>) -> (r: DepmapReference)
    ensures
        r == (DepmapReference { hash, subpath: None }),
{
    DepmapReference { hash, subpath: None }
}

/// An entry is taken where it can stand in a label, or would lead out, and is below the root. It is taken under
/// its path below the root. All others are left out.
pub proof fn entries_are_taken_below_the_root(root: Seq<char>, entry: WalkEntry)
    ensures
        entry.label == LabelCheck::Invalid ==> entry_subpath(root, entry) is None,
        entry.label != LabelCheck::Invalid ==> entry_subpath(root, entry) == paths::below(
            entry.full_file_path@,
            root,
        ),
{
}

/// Links are kept with the target that was seen, and nothing of what is not there. Directories and files must be
/// read first.
pub proof fn links_are_kept_unread(entry: WalkEntry, subpath: Seq<char>)
    ensures
        match entry.reference.pre_observation_status {
            Status::Symlink(l) => kept_at_once(entry, subpath) == Some(
                Some((subpath, EntryModel::Symlink { target: l.target@ })),
            ),
            Status::NotFound => kept_at_once(entry, subpath) == Some(None::<(Seq<char>, EntryModel)>),
            _ => kept_at_once(entry, subpath) is None,
        },
{
}

/// A walk stops for an entry that is below the root exactly where it would lead out, or is a directory or a file.
pub proof fn walks_stop_at_what_must_be_read(root: Seq<char>, entry: WalkEntry)
    ensures
        !skipped_or_kept(root, entry) <==> entry_subpath(root, entry) is Some && (entry.label == LabelCheck::Escapes
            || entry.reference.pre_observation_status is Directory || entry.reference.pre_observation_status is File),
{
}

/// The files of a tree are told as they are: the path, and the hash and the permission to run, the target, or
/// that it is a directory.
pub proof fn files_are_told_as_they_are(file: TreeFile)
    ensures
        file_model(file).0 == file.subpath@,
        match file.entry {
            FileEntry::Regular { content_hash, executable } => file_model(file).1 == (EntryModel::Regular {
                content_hash: content_hash@,
                executable,
            }),
            FileEntry::Symlink(target) => file_model(file).1 == (EntryModel::Symlink { target: target@ }),
            FileEntry::Directory => file_model(file).1 == EntryModel::Directory,
        },
{
}

/// The files that were added to a tree are those behind the ones it had, each as it is.
pub proof fn added_files_are_those_behind(before: Seq<TreeFile>, after: Seq<TreeFile>, i: int)
    requires
        before.len() <= after.len(),
        0 <= i < after.len() - before.len(),
    ensures
        new_files(before, after).len() == after.len() - before.len(),
        new_files(before, after)[i] == file_model(after[before.len() + i]),
{
}

/// Entries are taken from the last to the first. Each link that is taken is kept, and each entry that is taken
/// is recorded, behind all that come after it.
pub proof fn entries_are_taken_from_the_last(root: Seq<char>, entry: WalkEntry, rest: Seq<WalkEntry>)
    ensures
        links_in(root, Seq::empty()) == Seq::<(Seq<char>, EntryModel)>::empty(),
        recorded_in(root, Seq::empty()) == Seq::<SourceReference>::empty(),
        recorded_in(root, seq![entry] + rest) == if entry_subpath(root, entry) is Some {
            recorded_in(root, rest).push(entry.reference)
        } else {
            recorded_in(root, rest)
        },
        links_in(root, seq![entry] + rest) == match (
            entry_subpath(root, entry),
            entry.reference.pre_observation_status,
        ) {
            (Some(subpath), Status::Symlink(l)) => links_in(root, rest).push(
                (subpath, EntryModel::Symlink { target: l.target@ }),
            ),
            _ => links_in(root, rest),
        },
{
    let all = seq![entry] + rest;
    assert(all[0] == entry);
    assert(all.drop_first() =~= rest);
}

/// The tree of a single file holds the file under its name, with its hash and its permission to run.
pub proof fn single_files_stand_under_their_names(file: SingleFile)
    ensures
        file.tree_model().0 == file.name@,
        file.tree_model().1 == (EntryModel::Regular { content_hash: file.hash@, executable: file.executable }),
{
}

} // verus!
