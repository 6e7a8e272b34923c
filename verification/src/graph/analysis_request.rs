//! A request of an analysis: what it needs of the build, and how it is answered.
//!
//! Queries, trees of files and contents are looked up outside. Each method takes the answer to what
//! was asked for last, and says what to ask for next.

use vstd::prelude::*;

use crate::base::name_set;
use crate::graph::depmaps::{self, directory_list};
use crate::graph::output_query::DepmapReference;
use crate::graph::target_query::{self, find_provider, FileEntry, Reference};
use crate::source::source_reference::FileType;

verus! {

/// What an analysis asks for.
pub enum AnalyzeRequest {
    /// The providers of a target.
    LoadProviders { target: String },
    /// The provider that the root workspace names by default.
    LoadGlobalProvider { provider: Reference },
    /// The output of an action.
    ActionOutput {
        /// Whether the action runs a process.
        is_run: bool,
    },
    /// The contents of the file at a label.
    LabelOpen {
        /// Whether the label names an action.
        names_action: bool,
    },
    /// The contents of a file in a tree. The name is `None` where it leads out of the tree.
    DepmapFileOpen { hash: Vec<u8>, filename: Option<String> },
    /// The names in a directory of a tree. Its name is `None` where it leads out of the tree.
    DepmapDirectoryList { hash: Vec<u8>, filename: Option<String> },
    /// Contents of the cache.
    ContentRefOpen { hash: Vec<u8> },
    FileExists,
    IsFile,
    TargetExists,
}

/// What an analysis is told.
pub enum AnalyzeEvent {
    /// There is no such thing.
    Nothing,
    Boolean(bool),
    /// All providers of the target.
    Providers,
    /// The provider of the target at a place.
    Provider(usize),
    /// The output of the action.
    ActionOutput,
    FilenameList(Vec<String>),
    /// The number of the descriptor under which contents are open.
    FileHandle(u32),
}

#[derive(Clone, Copy, PartialEq, Eq, Structural, Debug)]
pub enum RequestError {
    /// A whole tree was to be opened as a file.
    DepmapRoot,
    /// A directory was to be opened as a file.
    IsDirectory,
    /// The target that is named for a provider does not supply it.
    NotSupplied,
    /// A name leads out of its tree.
    PathEscapesRoot,
    /// The tree of files is not known.
    InvalidFiletree,
}

/// What a request needs next.
pub enum RequestStep {
    /// Query the analysis of a target.
    QueryAnalysis(String),
    /// Query the root workspace.
    QueryRootWorkspace,
    /// Query the output of the action, under the options of the host or those of the analysis.
    RunAction { on_host: bool },
    /// Query the output of the label.
    QueryOutput,
    /// Make a tree of files of the source at the label.
    ReferenceSource,
    /// Look up a tree of files.
    LookupFiletree(Vec<u8>),
    /// Look up the entry of the tree at a path.
    LookupEntry(String),
    /// List all paths of the tree.
    ListPaths,
    /// Open contents of the cache under a descriptor.
    OpenContents { content_hash: Vec<u8>, executable: bool },
    /// Query the type of the file at the label.
    QueryFileType,
    /// Query whether the target at the label exists.
    QueryTargetExists,
    Answer(AnalyzeEvent),
    Fail(RequestError),
}

/// What a request waits for.
pub enum RequestRun {
    Providers,
    GlobalProviders { wanted: Reference },
    Provider { wanted: Reference },
    Action,
    Files,
    Filetree { subpath: String },
    ListedFiletree { dir: String },
    Paths { dir: String },
    Entry,
    Contents,
    FileType { only_regular: bool },
    TargetExists,
    Ended,
}

/// How a request starts: what it waits for, and what it needs first.
pub open spec fn started(request: AnalyzeRequest) -> (RequestRun, RequestStep) {
    match request {
        AnalyzeRequest::LoadProviders { target } => (
            RequestRun::Providers,
            RequestStep::QueryAnalysis(target),
        ),
        AnalyzeRequest::LoadGlobalProvider { provider } => (
            RequestRun::GlobalProviders { wanted: provider },
            RequestStep::QueryRootWorkspace,
        ),
        AnalyzeRequest::ActionOutput { is_run } => (
            RequestRun::Action,
            RequestStep::RunAction { on_host: is_run },
        ),
        AnalyzeRequest::LabelOpen { names_action } => (
            RequestRun::Files,
            if names_action {
                RequestStep::QueryOutput
            } else {
                RequestStep::ReferenceSource
            },
        ),
        AnalyzeRequest::DepmapFileOpen { hash, filename } => match filename {
            Some(subpath) => (
                RequestRun::Filetree { subpath },
                RequestStep::LookupFiletree(hash),
            ),
            None => (RequestRun::Ended, RequestStep::Fail(RequestError::PathEscapesRoot)),
        },
        AnalyzeRequest::DepmapDirectoryList { hash, filename } => match filename {
            Some(dir) => (
                RequestRun::ListedFiletree { dir },
                RequestStep::LookupFiletree(hash),
            ),
            None => (RequestRun::Ended, RequestStep::Fail(RequestError::PathEscapesRoot)),
        },
        AnalyzeRequest::ContentRefOpen { hash } => (
            RequestRun::Contents,
            RequestStep::OpenContents { content_hash: hash, executable: false },
        ),
        AnalyzeRequest::FileExists => (
            RequestRun::FileType { only_regular: false },
            RequestStep::QueryFileType,
        ),
        AnalyzeRequest::IsFile => (
            RequestRun::FileType { only_regular: true },
            RequestStep::QueryFileType,
        ),
        AnalyzeRequest::TargetExists => (RequestRun::TargetExists, RequestStep::QueryTargetExists),
    }
}

impl RequestRun {
    /// Starts a request. A process runs under the options of the host.
    pub fn new(request: AnalyzeRequest) -> (r: (RequestRun, RequestStep))
        ensures
            r == started(request),
    {
        match request {
            AnalyzeRequest::LoadProviders { target } => (
                RequestRun::Providers,
                RequestStep::QueryAnalysis(target),
            ),
            AnalyzeRequest::LoadGlobalProvider { provider } => (
                RequestRun::GlobalProviders { wanted: provider },
                RequestStep::QueryRootWorkspace,
            ),
            AnalyzeRequest::ActionOutput { is_run } => (
                RequestRun::Action,
                RequestStep::RunAction { on_host: is_run },
            ),
            AnalyzeRequest::LabelOpen { names_action } => {
                if names_action {
                    (RequestRun::Files, RequestStep::QueryOutput)
                } else {
                    (RequestRun::Files, RequestStep::ReferenceSource)
                }
            },
            AnalyzeRequest::DepmapFileOpen { hash, filename } => match filename {
                Some(subpath) => (
                    RequestRun::Filetree { subpath },
                    RequestStep::LookupFiletree(hash),
                ),
                None => (RequestRun::Ended, RequestStep::Fail(RequestError::PathEscapesRoot)),
            },
            AnalyzeRequest::DepmapDirectoryList { hash, filename } => match filename {
                Some(dir) => (
                    RequestRun::ListedFiletree { dir },
                    RequestStep::LookupFiletree(hash),
                ),
                None => (RequestRun::Ended, RequestStep::Fail(RequestError::PathEscapesRoot)),
            },
            AnalyzeRequest::ContentRefOpen { hash } => (
                RequestRun::Contents,
                RequestStep::OpenContents { content_hash: hash, executable: false },
            ),
            AnalyzeRequest::FileExists => (
                RequestRun::FileType { only_regular: false },
                RequestStep::QueryFileType,
            ),
            AnalyzeRequest::IsFile => (
                RequestRun::FileType { only_regular: true },
                RequestStep::QueryFileType,
            ),
            AnalyzeRequest::TargetExists => (
                RequestRun::TargetExists,
                RequestStep::QueryTargetExists,
            ),
        }
    }

    /// What the request waits for, which it does no more.
    fn take(&mut self) -> (r: RequestRun)
        ensures
            r == *old(self),
            *final(self) is Ended,
    {
        let mut taken = RequestRun::Ended;
        core::mem::swap(self, &mut taken);
        taken
    }

    /// Goes on after the root workspace was queried: with the target that it names first for the wanted
    /// provider. `targets` are the targets that it names for `provided`.
    pub fn workspace_queried(&mut self, provided: &Vec<Reference>, targets: &Vec<String>) -> (r: RequestStep)
        requires
            *old(self) is GlobalProviders,
            provided@.len() == targets@.len(),
        ensures
            *old(self) matches RequestRun::GlobalProviders { wanted } && match r {
                RequestStep::QueryAnalysis(target) => {
                    &&& *final(self) == (RequestRun::Provider { wanted })
                    &&& exists|i: int| #[trigger]
                        target_query::first_reference(provided@, wanted, i) && target@ == targets@[i]@
                },
                RequestStep::Answer(answer) => {
                    &&& *final(self) is Ended
                    &&& answer is Nothing
                    &&& forall|j: int|
                        0 <= j < provided@.len() ==> !target_query::same_reference(
                            #[trigger] provided@[j],
                            wanted,
                        )
                },
                _ => false,
            },
    {
        match self.take() {
            RequestRun::GlobalProviders { wanted } => match find_provider(provided, &wanted) {
                Some(i) => {
                    let target = targets[i].clone();
                    *self = RequestRun::Provider { wanted };
                    RequestStep::QueryAnalysis(target)
                },
                None => RequestStep::Answer(AnalyzeEvent::Nothing),
            },
            _ => RequestStep::Answer(AnalyzeEvent::Nothing),
        }
    }

    /// Ends with the providers of a target: with all, or with the wanted one, which must be there.
    pub fn analyzed(&mut self, providers: &Vec<Reference>) -> (r: RequestStep)
        requires
            *old(self) is Providers || *old(self) is Provider,
        ensures
            *final(self) is Ended,
            match *old(self) {
                RequestRun::Provider { wanted } => match r {
                    RequestStep::Answer(AnalyzeEvent::Provider(i)) => target_query::first_reference(
                        providers@,
                        wanted,
                        i as int,
                    ),
                    RequestStep::Fail(e) => e == RequestError::NotSupplied && forall|j: int|
                        0 <= j < providers@.len() ==> !target_query::same_reference(
                            #[trigger] providers@[j],
                            wanted,
                        ),
                    _ => false,
                },
                _ => r == RequestStep::Answer(AnalyzeEvent::Providers),
            },
    {
        match self.take() {
            RequestRun::Provider { wanted } => match find_provider(providers, &wanted) {
                Some(i) => RequestStep::Answer(AnalyzeEvent::Provider(i)),
                None => RequestStep::Fail(RequestError::NotSupplied),
            },
            _ => RequestStep::Answer(AnalyzeEvent::Providers),
        }
    }

    /// Ends with the output of the action.
    pub fn action_ran(&mut self) -> (r: RequestStep)
        requires
            *old(self) is Action,
        ensures
            *final(self) is Ended,
            r == RequestStep::Answer(AnalyzeEvent::ActionOutput),
    {
        *self = RequestRun::Ended;
        RequestStep::Answer(AnalyzeEvent::ActionOutput)
    }

    /// Goes on with the files of the label, where there are any. They must be a single file.
    pub fn files_found(&mut self, reference: Option<DepmapReference>) -> (r: RequestStep)
        requires
            *old(self) is Files,
        ensures
            match reference {
                None => *final(self) is Ended && r == RequestStep::Answer(AnalyzeEvent::Nothing),
                Some(files) => match files.subpath {
                    None => *final(self) is Ended && r == RequestStep::Fail(RequestError::DepmapRoot),
                    Some(subpath) => {
                        &&& *final(self) == (RequestRun::Filetree { subpath })
                        &&& r == RequestStep::LookupFiletree(files.hash)
                    },
                },
            },
    {
        *self = RequestRun::Ended;
        match reference {
            None => RequestStep::Answer(AnalyzeEvent::Nothing),
            Some(files) => match files.subpath {
                None => RequestStep::Fail(RequestError::DepmapRoot),
                Some(subpath) => {
                    *self = RequestRun::Filetree { subpath };
                    RequestStep::LookupFiletree(files.hash)
                },
            },
        }
    }

    /// Goes on after the tree of files was looked up.
    pub fn filetree_looked_up(&mut self, found: bool) -> (r: RequestStep)
        requires
            *old(self) is Filetree || *old(self) is ListedFiletree,
        ensures
            if !found {
                *final(self) is Ended && r == RequestStep::Fail(RequestError::InvalidFiletree)
            } else {
                match *old(self) {
                    RequestRun::Filetree { subpath } => *final(self) is Entry && r
                        == RequestStep::LookupEntry(subpath),
                    RequestRun::ListedFiletree { dir } => *final(self) == (RequestRun::Paths { dir }) && r
                        is ListPaths,
                    _ => true,
                }
            },
    {
        let run = self.take();
        if !found {
            return RequestStep::Fail(RequestError::InvalidFiletree);
        }
        match run {
            RequestRun::Filetree { subpath } => {
                *self = RequestRun::Entry;
                RequestStep::LookupEntry(subpath)
            },
            RequestRun::ListedFiletree { dir } => {
                *self = RequestRun::Paths { dir };
                RequestStep::ListPaths
            },
            _ => RequestStep::Fail(RequestError::InvalidFiletree),
        }
    }

    /// Ends with the names of the directory in the tree.
    pub fn paths_listed(&mut self, paths: &Vec<String>) -> (r: RequestStep)
        requires
            *old(self) is Paths,
        ensures
            *final(self) is Ended,
            *old(self) matches RequestRun::Paths { dir } && (r matches RequestStep::Answer(
                AnalyzeEvent::FilenameList(names),
            ) && name_set::texts(names@) == depmaps::names_in(name_set::texts(paths@), dir@)),
    {
        match self.take() {
            RequestRun::Paths { dir } => RequestStep::Answer(
                AnalyzeEvent::FilenameList(directory_list(paths, dir.as_str())),
            ),
            _ => RequestStep::Answer(AnalyzeEvent::Nothing),
        }
    }

    /// Goes on with the entry of the tree, where there is one. Links are not supported there.
    pub fn entry_looked_up(&mut self, entry: Option<FileEntry>) -> (r: RequestStep)
        requires
            *old(self) is Entry,
            !(entry matches Some(FileEntry::Symlink(_))),
        ensures
            match entry {
                None => *final(self) is Ended && r == RequestStep::Answer(AnalyzeEvent::Nothing),
                Some(FileEntry::Regular { content_hash, executable }) => {
                    &&& *final(self) is Contents
                    &&& r == (RequestStep::OpenContents { content_hash, executable })
                },
                Some(_) => *final(self) is Ended && r == RequestStep::Fail(RequestError::IsDirectory),
            },
    {
        *self = RequestRun::Ended;
        match entry {
            None => RequestStep::Answer(AnalyzeEvent::Nothing),
            Some(FileEntry::Regular { content_hash, executable }) => {
                *self = RequestRun::Contents;
                RequestStep::OpenContents { content_hash, executable }
            },
            Some(_) => RequestStep::Fail(RequestError::IsDirectory),
        }
    }

    /// Ends with the descriptor under which contents were opened.
    pub fn contents_opened(&mut self, fileno: u32) -> (r: RequestStep)
        requires
            *old(self) is Contents,
        ensures
            *final(self) is Ended,
            r == RequestStep::Answer(AnalyzeEvent::FileHandle(fileno)),
    {
        *self = RequestRun::Ended;
        RequestStep::Answer(AnalyzeEvent::FileHandle(fileno))
    }

    /// Ends with whether the file exists, or is a regular one.
    pub fn file_type_queried(&mut self, file_type: Option<FileType>) -> (r: RequestStep)
        requires
            *old(self) is FileType,
        ensures
            *final(self) is Ended,
            *old(self) matches RequestRun::FileType { only_regular } && r == RequestStep::Answer(
                AnalyzeEvent::Boolean(
                    if only_regular {
                        file_type == Some(FileType::Regular)
                    } else {
                        file_type is Some
                    },
                ),
            ),
    {
        let answer = match (self.take(), file_type) {
            (_, None) => false,
            (RequestRun::FileType { only_regular: true }, Some(file_type)) => file_type
                == FileType::Regular,
            (_, Some(_)) => true,
        };
        RequestStep::Answer(AnalyzeEvent::Boolean(answer))
    }

    /// Ends with whether the target exists.
    pub fn target_queried(&mut self, exists: bool) -> (r: RequestStep)
        requires
            *old(self) is TargetExists,
        ensures
            *final(self) is Ended,
            r == RequestStep::Answer(AnalyzeEvent::Boolean(exists)),
    {
        *self = RequestRun::Ended;
        RequestStep::Answer(AnalyzeEvent::Boolean(exists))
    }
}

/// A request for providers asks for the analysis of just that target, and one for a default provider for the
/// root workspace first.
pub proof fn provider_requests_ask_for_their_target(target: String, provider: Reference)
    ensures
        started(AnalyzeRequest::LoadProviders { target }) == (
            RequestRun::Providers,
            RequestStep::QueryAnalysis(target),
        ),
        started(AnalyzeRequest::LoadGlobalProvider { provider }) == (
            RequestRun::GlobalProviders { wanted: provider },
            RequestStep::QueryRootWorkspace,
        ),
{
}

/// An action runs for the host exactly where it runs a process. A label is built where it names an action, and
/// looked for among the sources where it does not.
pub proof fn outputs_are_asked_for_where_they_are_made(is_run: bool, names_action: bool)
    ensures
        started(AnalyzeRequest::ActionOutput { is_run }) == (
            RequestRun::Action,
            RequestStep::RunAction { on_host: is_run },
        ),
        started(AnalyzeRequest::LabelOpen { names_action }).0 is Files,
        started(AnalyzeRequest::LabelOpen { names_action }).1 is QueryOutput <==> names_action,
        started(AnalyzeRequest::LabelOpen { names_action }).1 is ReferenceSource <==> !names_action,
{
}

/// What is asked of a tree of files is looked for in the tree with the hash, under the name. A name that leads
/// out of the tree is refused at once. Contents are opened by their hash, and not to be run.
pub proof fn trees_are_asked_for_by_hash(hash: Vec<u8>, name: String)
    ensures
        started(AnalyzeRequest::DepmapFileOpen { hash, filename: Some(name) }) == (
            RequestRun::Filetree { subpath: name },
            RequestStep::LookupFiletree(hash),
        ),
        started(AnalyzeRequest::DepmapDirectoryList { hash, filename: Some(name) }) == (
            RequestRun::ListedFiletree { dir: name },
            RequestStep::LookupFiletree(hash),
        ),
        started(AnalyzeRequest::DepmapFileOpen { hash, filename: None }) == (
            RequestRun::Ended,
            RequestStep::Fail(RequestError::PathEscapesRoot),
        ),
        started(AnalyzeRequest::DepmapDirectoryList { hash, filename: None }) == (
            RequestRun::Ended,
            RequestStep::Fail(RequestError::PathEscapesRoot),
        ),
        started(AnalyzeRequest::ContentRefOpen { hash }) == (
            RequestRun::Contents,
            RequestStep::OpenContents { content_hash: hash, executable: false },
        ),
{
}

/// Whether a file exists, is a regular one, or a target exists is asked for as such.
pub proof fn questions_are_asked_as_such()
    ensures
        started(AnalyzeRequest::FileExists) == (
            RequestRun::FileType { only_regular: false },
            RequestStep::QueryFileType,
        ),
        started(AnalyzeRequest::IsFile) == (
            RequestRun::FileType { only_regular: true },
            RequestStep::QueryFileType,
        ),
        started(AnalyzeRequest::TargetExists) == (RequestRun::TargetExists, RequestStep::QueryTargetExists),
{
}

} // verus!
