//! Queries for targets, the types of files, and the providers of a workspace.

use vstd::prelude::*;

use crate::base::name_set::{self, find_name};
use crate::base::paths::{self, split_at_last};
use crate::base::text;
use crate::graph::output_query::DepmapReference;
use crate::source::source_entry::Status;
use crate::source::source_reference::{self, FileType};

verus! {

/// Where a target is found.
pub enum TargetLookup {
    /// Among the targets of its package, under a name.
    Package { name: String },
    /// Among those that the analysis of another target makes, under a name.
    Parent { parent: String, name: String },
}

#[derive(Clone, Copy, PartialEq, Eq, Structural, Debug)]
pub enum TargetError {
    /// The label names no target.
    NotATarget,
    /// There is no such target.
    NoSuchTarget,
}

/// Where a target is found: one whose name has several segments is made by the analysis of the
/// target that the others name.
pub fn target_lookup(target: &Option<String>) -> (r: Result<TargetLookup, TargetError>)
    ensures
        match *target {
            None => r matches Err(e) && e == TargetError::NotATarget,
            Some(target_name) => match paths::split_last(target_name@) {
                Some((parent, name)) => r matches Ok(TargetLookup::Parent { parent: p, name: n }) && p@
                    == parent && n@ == name,
                None => r matches Ok(TargetLookup::Package { name: n }) && n@ == target_name@,
            },
        },
{
    match target {
        None => Err(TargetError::NotATarget),
        Some(target_name) => match split_at_last(target_name.as_str()) {
            Some((parent, name)) => Ok(TargetLookup::Parent { parent, name }),
            None => Ok(TargetLookup::Package { name: target_name.clone() }),
        },
    }
}

/// The place of a target among those that were found: the first one with its name.
pub fn find_target(names: &Vec<String>, name: &str) -> (r: Result<usize, TargetError>)
    ensures
        r == match name_set::place_of(name_set::texts(names@), name@) {
            Some(i) => Ok(i as usize),
            None => Err(TargetError::NoSuchTarget),
        },
{
    match find_name(names, name) {
        Some(i) => Ok(i),
        None => Err(TargetError::NoSuchTarget),
    }
}

/// Whether a target exists: its package could be loaded and holds it. `targets` is `None` where the
/// package could not be loaded. Targets inside targets are not supported.
pub fn target_exists(targets: &Option<Vec<String>>, name: &str) -> (r: bool)
    requires
        *targets is Some ==> !name@.contains('/'),
    ensures
        r == (*targets matches Some(names) && name_set::texts(names@).contains(name@)),
{
    match targets {
        None => false,
        Some(names) => match find_name(names, name) {
            Some(i) => {
                assert(name_set::texts(names@)[i as int] == name@);
                true
            },
            None => false,
        },
    }
}

/// A file in a tree of files.
pub enum FileEntry {
    Regular { content_hash: Vec<u8>, executable: bool },
    Symlink(String),
    Directory,
}

pub open spec fn entry_type(entry: FileEntry) -> FileType {
    match entry {
        FileEntry::Regular { .. } => FileType::Regular,
        FileEntry::Symlink(_) => FileType::Symlink,
        FileEntry::Directory => FileType::Directory,
    }
}

/// What a query for the type of a file needs next.
pub enum FileTypeStep {
    /// Query the type of the file at the canonical label.
    Redirect(String),
    /// Query the output of the label.
    QueryOutput,
    /// Reference the source file of the label.
    ReferenceSource,
    /// Look up the tree of files that the output is in.
    LookupDepmap,
    /// Look up the entry of the tree at a path.
    LookupEntry(String),
    /// The type of the file, where it exists.
    Finish(Option<FileType>),
    Fail(FileTypeError),
}

#[derive(Clone, Copy, PartialEq, Eq, Structural, Debug)]
pub enum FileTypeError {
    /// The tree of files of an output is not known.
    MissingDepmap,
}

pub enum FileTypeState {
    Canonicalizing,
    Redirecting,
    QueryingOutput,
    LookingUp { subpath: Option<String> },
    LookingAt,
    Referencing,
    Ended,
}

/// The run of a query for the type of a file.
pub struct FileTypeRun {
    /// Whether the label names an action.
    pub names_action: bool,
    pub state: FileTypeState,
}

impl FileTypeRun {
    pub fn new(names_action: bool) -> (r: FileTypeRun)
        ensures
            r.names_action == names_action,
            r.state is Canonicalizing,
    {
        FileTypeRun { names_action, state: FileTypeState::Canonicalizing }
    }

    /// Goes on after the label was made canonical: `canonical` is the new label where it changed.
    pub fn canonicalized(&mut self, canonical: Option<String>) -> (r: FileTypeStep)
        requires
            old(self).state is Canonicalizing,
        ensures
            final(self).names_action == old(self).names_action,
            match canonical {
                Some(label) => r == FileTypeStep::Redirect(label) && final(self).state is Redirecting,
                None => if old(self).names_action {
                    r is QueryOutput && final(self).state is QueryingOutput
                } else {
                    r is ReferenceSource && final(self).state is Referencing
                },
            },
    {
        match canonical {
            Some(label) => {
                self.state = FileTypeState::Redirecting;
                FileTypeStep::Redirect(label)
            },
            None => {
                if self.names_action {
                    self.state = FileTypeState::QueryingOutput;
                    FileTypeStep::QueryOutput
                } else {
                    self.state = FileTypeState::Referencing;
                    FileTypeStep::ReferenceSource
                }
            },
        }
    }

    /// The type of the file at the canonical label is that of this one.
    pub fn redirected(&mut self, file_type: Option<FileType>) -> (r: FileTypeStep)
        requires
            old(self).state is Redirecting,
        ensures
            final(self).state is Ended,
            r == FileTypeStep::Finish(file_type),
    {
        self.state = FileTypeState::Ended;
        FileTypeStep::Finish(file_type)
    }

    /// Goes on after the output was queried. `reference` is `None` where there is no output, or the query
    /// for it failed: there is no such file.
    pub fn output_queried(&mut self, reference: Option<DepmapReference>) -> (r: FileTypeStep)
        requires
            old(self).state is QueryingOutput,
        ensures
            match reference {
                None => r == FileTypeStep::Finish(None) && final(self).state is Ended,
                Some(d) => r is LookupDepmap && final(self).state == (FileTypeState::LookingUp {
                    subpath: d.subpath,
                }),
            },
    {
        match reference {
            None => {
                self.state = FileTypeState::Ended;
                FileTypeStep::Finish(None)
            },
            Some(d) => {
                self.state = FileTypeState::LookingUp { subpath: d.subpath };
                FileTypeStep::LookupDepmap
            },
        }
    }

    /// Goes on after the tree of files was looked up. A whole tree is a directory.
    pub fn depmap_looked_up(&mut self, found: bool) -> (r: FileTypeStep)
        requires
            old(self).state is LookingUp,
        ensures
            if !found {
                r == FileTypeStep::Fail(FileTypeError::MissingDepmap) && final(self).state is Ended
            } else {
                match old(self).state {
                    FileTypeState::LookingUp { subpath: Some(path) } => {
                        &&& r matches FileTypeStep::LookupEntry(p)
                        &&& p@ == path@
                        &&& final(self).state is LookingAt
                    },
                    _ => r == FileTypeStep::Finish(Some(FileType::Directory)) && final(self).state is Ended,
                }
            },
    {
        if !found {
            self.state = FileTypeState::Ended;
            return FileTypeStep::Fail(FileTypeError::MissingDepmap);
        }
        let path: Option<String> = match &self.state {
            FileTypeState::LookingUp { subpath: Some(path) } => Some(path.clone()),
            _ => None,
        };
        match path {
            Some(path) => {
                self.state = FileTypeState::LookingAt;
                FileTypeStep::LookupEntry(path)
            },
            None => {
                self.state = FileTypeState::Ended;
                FileTypeStep::Finish(Some(FileType::Directory))
            },
        }
    }

    /// Ends with the type of the entry of a tree of files, where there is one.
    pub fn entry_looked_up(&mut self, entry: &Option<FileEntry>) -> (r: FileTypeStep)
        requires
            old(self).state is LookingAt,
        ensures
            final(self).state is Ended,
            r == FileTypeStep::Finish(
                match *entry {
                    Some(e) => Some(entry_type(e)),
                    None => None,
                },
            ),
    {
        self.state = FileTypeState::Ended;
        match entry {
            Some(FileEntry::Regular { .. }) => FileTypeStep::Finish(Some(FileType::Regular)),
            Some(FileEntry::Symlink(_)) => FileTypeStep::Finish(Some(FileType::Symlink)),
            Some(FileEntry::Directory) => FileTypeStep::Finish(Some(FileType::Directory)),
            None => FileTypeStep::Finish(None),
        }
    }

    /// Ends with the type of a source file. `status` is `None` where the label leads to no source.
    pub fn referenced(&mut self, status: &Option<Status>) -> (r: FileTypeStep)
        requires
            old(self).state is Referencing,
        ensures
            final(self).state is Ended,
            r == FileTypeStep::Finish(
                match *status {
                    Some(s) => source_reference::status_file_type(s@),
                    None => None,
                },
            ),
    {
        self.state = FileTypeState::Ended;
        match status {
            Some(Status::Directory(_)) => FileTypeStep::Finish(Some(FileType::Directory)),
            Some(Status::File(_)) => FileTypeStep::Finish(Some(FileType::Regular)),
            Some(Status::Symlink(_)) => FileTypeStep::Finish(Some(FileType::Symlink)),
            Some(Status::NotFound) => FileTypeStep::Finish(None),
            None => FileTypeStep::Finish(None),
        }
    }
}

/// A name for something that a file of rules defines.
pub struct Reference {
    pub source_label: String,
    pub qualname: String,
}

pub open spec fn same_reference(a: Reference, b: Reference) -> bool {
    a.source_label@ == b.source_label@ && a.qualname@ == b.qualname@
}

/// Whether two names are the same.
pub fn references_equal(a: &Reference, b: &Reference) -> (r: bool)
    ensures
        r == same_reference(*a, *b),
{
    text::equal(a.source_label.as_str(), b.source_label.as_str()) && text::equal(
        a.qualname.as_str(),
        b.qualname.as_str(),
    )
}

/// Whether `i` is the place of the first reference that is `wanted`.
pub open spec fn first_reference(items: Seq<Reference>, wanted: Reference, i: int) -> bool {
    &&& 0 <= i < items.len()
    &&& same_reference(items[i], wanted)
    &&& forall|j: int| 0 <= j < i ==> !same_reference(#[trigger] items[j], wanted)
}

/// The place of the first reference that is `wanted`: among the default providers of a workspace, or
/// among the providers of a target.
pub fn find_provider(items: &Vec<Reference>, wanted: &Reference) -> (r: Option<usize>)
    ensures
        match r {
            Some(i) => first_reference(items@, *wanted, i as int),
            None => forall|j: int|
                0 <= j < items@.len() ==> !same_reference(#[trigger] items@[j], *wanted),
        },
{
    let mut i: usize = 0;
    while i < items.len()
        invariant
            i <= items@.len(),
            forall|j: int| 0 <= j < i ==> !same_reference(#[trigger] items@[j], *wanted),
        decreases items@.len() - i,
    {
        if references_equal(&items[i], wanted) {
            return Some(i);
        }
        i += 1;
    }
    None
}

/// The entries of a tree have the types that they are of.
pub proof fn entries_have_their_types(entry: FileEntry)
    ensures
        entry is Regular ==> entry_type(entry) == FileType::Regular,
        entry is Symlink ==> entry_type(entry) == FileType::Symlink,
        entry is Directory ==> entry_type(entry) == FileType::Directory,
{
}

/// References are the same where both the file of rules and the name in it are.
pub proof fn references_are_compared_whole(a: Reference, b: Reference)
    ensures
        same_reference(a, b) <==> a.source_label@ == b.source_label@ && a.qualname@ == b.qualname@,
{
}

/// The first reference that is wanted is one that is, with none before it.
pub proof fn first_references_come_first(items: Seq<Reference>, wanted: Reference, i: int, j: int)
    requires
        first_reference(items, wanted, i),
    ensures
        0 <= i < items.len(),
        items[i].source_label@ == wanted.source_label@ && items[i].qualname@ == wanted.qualname@,
        0 <= j < i ==> !(items[j].source_label@ == wanted.source_label@ && items[j].qualname@ == wanted.qualname@),
{
    if 0 <= j < i {
        assert(!same_reference(items[j], wanted));
    }
}

} // verus!
