//! What is known of one file of a workspace, and how that is kept up to date.
//!
//! Looking at the disk is done outside: an update says what to look at next, and is told what was
//! seen.

use dashmap::DashMap;
use ignore::gitignore::Gitignore;
use vstd::prelude::*;

use crate::base::bytes::bytes_equal;
use crate::base::digest::{self, Hasher};
use crate::base::name_set::{self, same_names};
use crate::base::name_table::{self, table_get, table_insert, table_new, table_values};
use crate::base::paths::{self, join_path};
use crate::base::text;
use crate::source::ignore_rules::{self, is_ignored};
use crate::source::watch::{ObserveGuard, WatchNode};

verus! {

/// Which file on which device something is.
#[derive(Clone, Copy, PartialEq, Eq, Structural, Debug)]
pub struct FileNodeIdentifier {
    pub device: u64,
    pub inode: u64,
}

/// The type of a file on disk.
#[derive(Clone, Copy, PartialEq, Eq, Structural, Debug)]
pub enum DiskKind {
    Directory,
    File,
    Symlink,
    Other,
}

/// What a look at the disk tells of a file. Times are in nanoseconds.
#[derive(Clone, Copy, PartialEq, Eq, Structural, Debug)]
pub struct Metadata {
    pub kind: DiskKind,
    pub mtime: i128,
    pub file_node_identifier: FileNodeIdentifier,
    pub mode: u32,
}

pub struct DirectoryStatus {
    pub mtime: i128,
    pub file_node_identifier: FileNodeIdentifier,
    /// The names of the children, sorted.
    pub children: Vec<String>,
}

pub struct FileStatus {
    pub mtime: i128,
    pub file_node_identifier: FileNodeIdentifier,
    pub hash: Vec<u8>,
    pub executable: bool,
}

pub struct SymlinkStatus {
    pub mtime: i128,
    pub file_node_identifier: FileNodeIdentifier,
    pub target: String,
}

/// What was seen of a file.
pub enum Status {
    Directory(DirectoryStatus),
    File(FileStatus),
    Symlink(SymlinkStatus),
    NotFound,
}

/// What was seen of a file, over texts and byte strings.
pub enum StatusModel {
    Directory { mtime: i128, file_node_identifier: FileNodeIdentifier, children: Seq<Seq<char>> },
    File {
        mtime: i128,
        file_node_identifier: FileNodeIdentifier,
        hash: Seq<u8>,
        executable: bool,
    },
    Symlink { mtime: i128, file_node_identifier: FileNodeIdentifier, target: Seq<char> },
    NotFound,
}

impl View for Status {
    type V = StatusModel;

    open spec fn view(&self) -> StatusModel {
        match self {
            Status::Directory(d) => StatusModel::Directory {
                mtime: d.mtime,
                file_node_identifier: d.file_node_identifier,
                children: name_set::texts(d.children@),
            },
            Status::File(f) => StatusModel::File {
                mtime: f.mtime,
                file_node_identifier: f.file_node_identifier,
                hash: f.hash@,
                executable: f.executable,
            },
            Status::Symlink(l) => StatusModel::Symlink {
                mtime: l.mtime,
                file_node_identifier: l.file_node_identifier,
                target: l.target@,
            },
            Status::NotFound => StatusModel::NotFound,
        }
    }
}

/// Whether two looks saw the same contents: the times and the place on disk do not count.
pub open spec fn same_contents(a: StatusModel, b: StatusModel) -> bool {
    match (a, b) {
        (
            StatusModel::Directory { children: x, .. },
            StatusModel::Directory { children: y, .. },
        ) => x == y,
        (
            StatusModel::File { hash: x, executable: p, .. },
            StatusModel::File { hash: y, executable: q, .. },
        ) => x == y && p == q,
        (StatusModel::Symlink { target: x, .. }, StatusModel::Symlink { target: y, .. }) => x == y,
        (StatusModel::NotFound, StatusModel::NotFound) => true,
        _ => false,
    }
}

/// Having the same contents is an equivalence.
pub proof fn same_contents_is_equivalence(a: StatusModel, b: StatusModel, c: StatusModel)
    ensures
        same_contents(a, a),
        same_contents(a, b) ==> same_contents(b, a),
        same_contents(a, b) && same_contents(b, c) ==> same_contents(a, c),
{
}

/// Two looks saw the same contents exactly where they saw the same names in a directory, the same bytes
/// and the same permission to run in a file, or the same target of a link, or nothing. When it was
/// changed and where on disk it stands makes no difference.
pub proof fn contents_are_the_same_exactly_where_equal(a: Status, b: Status)
    ensures
        same_contents(a@, b@) <==> match (a, b) {
            (Status::Directory(x), Status::Directory(y)) => {
                &&& x.children@.len() == y.children@.len()
                &&& forall|i: int| 0 <= i < x.children@.len() ==> (#[trigger] x.children@[i])@ == y.children@[i]@
            },
            (Status::File(x), Status::File(y)) => x.hash@ == y.hash@ && x.executable == y.executable,
            (Status::Symlink(x), Status::Symlink(y)) => x.target@ == y.target@,
            (x, y) => x is NotFound && y is NotFound,
        },
{
    if let (Status::Directory(x), Status::Directory(y)) = (a, b) {
        let s = name_set::texts(x.children@);
        let t = name_set::texts(y.children@);
        assert(s.len() == x.children@.len() && t.len() == y.children@.len());
        if s == t {
            assert forall|i: int| 0 <= i < x.children@.len() implies (#[trigger] x.children@[i])@
                == y.children@[i]@ by {
                assert(s[i] == x.children@[i]@ && t[i] == y.children@[i]@);
            }
        } else if x.children@.len() == y.children@.len() && forall|i: int|
            0 <= i < x.children@.len() ==> (#[trigger] x.children@[i])@ == y.children@[i]@ {
            assert(s =~= t);
        }
    }
}

/// Two looks that saw the same contents tell all that there is to tell of each other, but for the time
/// and the place on disk: put those of one into the other, and it is the same.
pub proof fn same_contents_differ_in_time_and_place_only(a: StatusModel, b: StatusModel)
    requires
        same_contents(a, b),
    ensures
        match a {
            StatusModel::Directory { children, .. } => b matches StatusModel::Directory {
                mtime,
                file_node_identifier,
                ..
            } && b == (StatusModel::Directory { mtime, file_node_identifier, children }),
            StatusModel::File { hash, executable, .. } => b matches StatusModel::File {
                mtime,
                file_node_identifier,
                ..
            } && b == (StatusModel::File { mtime, file_node_identifier, hash, executable }),
            StatusModel::Symlink { target, .. } => b matches StatusModel::Symlink {
                mtime,
                file_node_identifier,
                ..
            } && b == (StatusModel::Symlink { mtime, file_node_identifier, target }),
            StatusModel::NotFound => b is NotFound,
        },
{
}

fn copy_names(v: &Vec<String>) -> (r: Vec<String>)
    ensures
        name_set::texts(r@) == name_set::texts(v@),
{
    let mut r: Vec<String> = Vec::new();
    let mut i: usize = 0;
    while i < v.len()
        invariant
            i <= v@.len(),
            r@.len() == i,
            forall|k: int| 0 <= k < i ==> (#[trigger] r@[k])@ == v@[k]@,
        decreases v@.len() - i,
    {
        r.push(v[i].clone());
        i += 1;
    }
    assert(name_set::texts(r@) =~= name_set::texts(v@));
    r
}

impl Status {
    /// Whether two looks saw the same contents.
    pub fn equivalent(&self, other: &Status) -> (r: bool)
        ensures
            r == same_contents(self@, other@),
            r == match (*self, *other) {
                (Status::Directory(a), Status::Directory(b)) => {
                    &&& a.children@.len() == b.children@.len()
                    &&& forall|i: int|
                        0 <= i < a.children@.len() ==> (#[trigger] a.children@[i])@ == b.children@[i]@
                },
                (Status::File(a), Status::File(b)) => a.hash@ == b.hash@ && a.executable == b.executable,
                (Status::Symlink(a), Status::Symlink(b)) => a.target@ == b.target@,
                (a, b) => a is NotFound && b is NotFound,
            },
    {
        proof {
            contents_are_the_same_exactly_where_equal(*self, *other);
        }
        match (self, other) {
            (Status::Directory(a), Status::Directory(b)) => same_names(&a.children, &b.children),
            (Status::File(a), Status::File(b)) => bytes_equal(a.hash.as_slice(), b.hash.as_slice())
                && a.executable == b.executable,
            (Status::Symlink(a), Status::Symlink(b)) => text::equal(
                a.target.as_str(),
                b.target.as_str(),
            ),
            (Status::NotFound, Status::NotFound) => true,
            _ => false,
        }
    }

    /// The same status again.
    pub fn duplicate(&self) -> (r: Status)
        ensures
            r@ == self@,
    {
        match self {
            Status::Directory(d) => Status::Directory(
                DirectoryStatus {
                    mtime: d.mtime,
                    file_node_identifier: d.file_node_identifier,
                    children: copy_names(&d.children),
                },
            ),
            Status::File(f) => {
                let mut hash: Vec<u8> = Vec::new();
                hash.extend_from_slice(f.hash.as_slice());
                assert(hash@ =~= f.hash@);
                Status::File(
                    FileStatus {
                        mtime: f.mtime,
                        file_node_identifier: f.file_node_identifier,
                        hash,
                        executable: f.executable,
                    },
                )
            },
            Status::Symlink(l) => Status::Symlink(
                SymlinkStatus {
                    mtime: l.mtime,
                    file_node_identifier: l.file_node_identifier,
                    target: l.target.clone(),
                },
            ),
            Status::NotFound => Status::NotFound,
        }
    }
}

/// What was seen of an entry at some time.
pub struct State {
    pub observed_at: u64,
    pub kind: Status,
    pub watch_node: Option<WatchNode>,
    /// The monitors of the children that were asked for.
    pub monitored_children: DashMap<String, u64>,
}

/// The monitor of one file or directory of a workspace.
pub struct SourceEntryMonitor {
    pub full_file_path: String,
    /// The path from the root of the workspace.
    pub root_relative_path: String,
    pub state: Option<State>,
    /// The watched directory that holds this entry.
    pub parent_watch_node: Option<WatchNode>,
    /// Who waits for a change.
    pub watch_wakers: Vec<u64>,
}

/// The first step of an update.
#[derive(Clone, Copy, PartialEq, Eq, Structural, Debug)]
pub enum BeginUpdate {
    /// Nothing changed since the last look.
    UpToDate,
    /// Look at the disk.
    Observe(Option<ObserveGuard>),
}

/// What an update needs to look at, after it has seen the metadata.
#[derive(Clone, Copy, PartialEq, Eq, Structural, Debug)]
pub enum UpdatePlan {
    /// Nothing: the metadata are the same as before.
    Touch,
    ListDirectory,
    HashFile,
    ReadLink,
    /// Nothing: other types of files count as not there.
    Forget,
}

/// Whether the metadata of a status are those that were seen now.
pub open spec fn same_node(status: StatusModel, metadata: Metadata) -> bool {
    match (status, metadata.kind) {
        (
            StatusModel::Directory { mtime, file_node_identifier, .. },
            DiskKind::Directory,
        ) => mtime == metadata.mtime && file_node_identifier == metadata.file_node_identifier,
        (StatusModel::File { mtime, file_node_identifier, .. }, DiskKind::File) => mtime
            == metadata.mtime && file_node_identifier == metadata.file_node_identifier,
        (StatusModel::Symlink { mtime, file_node_identifier, .. }, DiskKind::Symlink) => mtime
            == metadata.mtime && file_node_identifier == metadata.file_node_identifier,
        _ => false,
    }
}

/// What an update needs to look at.
pub open spec fn update_plan(state: Option<State>, metadata: Metadata) -> UpdatePlan {
    if metadata.kind == DiskKind::Other {
        UpdatePlan::Forget
    } else if state matches Some(s) && same_node(s.kind@, metadata) {
        UpdatePlan::Touch
    } else {
        match metadata.kind {
            DiskKind::Directory => UpdatePlan::ListDirectory,
            DiskKind::File => UpdatePlan::HashFile,
            _ => UpdatePlan::ReadLink,
        }
    }
}

/// An update leaves an entry unread only where the disk tells the type, the time and the place on disk
/// that were seen before. Everything else is read anew, by its type, and other types are never read.
pub proof fn unchanged_entries_are_not_read_again(state: Option<State>, metadata: Metadata)
    ensures
        ({
            let plan = update_plan(state, metadata);
            &&& plan == UpdatePlan::Forget <==> metadata.kind == DiskKind::Other
            &&& plan == UpdatePlan::ListDirectory ==> metadata.kind == DiskKind::Directory
            &&& plan == UpdatePlan::HashFile ==> metadata.kind == DiskKind::File
            &&& plan == UpdatePlan::ReadLink ==> metadata.kind == DiskKind::Symlink
            &&& plan == UpdatePlan::Touch ==> state is Some && match state->0.kind {
                Status::Directory(d) => d.mtime == metadata.mtime && d.file_node_identifier
                    == metadata.file_node_identifier && metadata.kind == DiskKind::Directory,
                Status::File(f) => f.mtime == metadata.mtime && f.file_node_identifier
                    == metadata.file_node_identifier && metadata.kind == DiskKind::File,
                Status::Symlink(l) => l.mtime == metadata.mtime && l.file_node_identifier
                    == metadata.file_node_identifier && metadata.kind == DiskKind::Symlink,
                Status::NotFound => false,
            }
        }),
{
}

/// Where an entry is left unread under what the disk tells at two times, the disk told the same type,
/// time and place at both. So a change of any of them is seen.
pub proof fn changes_on_disk_are_read(state: Option<State>, first: Metadata, second: Metadata)
    requires
        first.kind != second.kind || first.mtime != second.mtime || first.file_node_identifier
            != second.file_node_identifier,
    ensures
        !(update_plan(state, first) == UpdatePlan::Touch && update_plan(state, second) == UpdatePlan::Touch),
{
}

/// An entry that was read is left unread while the disk tells what it told then.
pub proof fn entries_are_read_once(state: State, metadata: Metadata)
    requires
        match state.kind {
            Status::Directory(d) => metadata.kind == DiskKind::Directory && d.mtime == metadata.mtime
                && d.file_node_identifier == metadata.file_node_identifier,
            Status::File(f) => metadata.kind == DiskKind::File && f.mtime == metadata.mtime
                && f.file_node_identifier == metadata.file_node_identifier,
            Status::Symlink(l) => metadata.kind == DiskKind::Symlink && l.mtime == metadata.mtime
                && l.file_node_identifier == metadata.file_node_identifier,
            Status::NotFound => false,
        },
    ensures
        update_plan(Some(state), metadata) == UpdatePlan::Touch,
{
}

/// Whether two statuses are of the same type of file.
pub open spec fn same_type(a: StatusModel, b: StatusModel) -> bool {
    match (a, b) {
        (StatusModel::Directory { .. }, StatusModel::Directory { .. }) => true,
        (StatusModel::File { .. }, StatusModel::File { .. }) => true,
        (StatusModel::Symlink { .. }, StatusModel::Symlink { .. }) => true,
        _ => false,
    }
}

/// The watched directory of an entry that holds no watch of its own.
pub open spec fn inherited_watch(parent: Option<WatchNode>) -> Option<WatchNode> {
    match parent {
        Some(node) => Some(node.fresh()),
        None => None,
    }
}

/// The watch of an entry after a look ended.
pub open spec fn committed_watch(watch: Option<WatchNode>, guard: Option<ObserveGuard>) -> Option<
    WatchNode,
> {
    match (watch, guard) {
        (Some(node), Some(g)) => Some(g.committed(node)),
        _ => watch,
    }
}

/// Why a root cannot be monitored.
#[derive(Clone, Copy, PartialEq, Eq, Structural, Debug)]
pub enum RootError {
    NotADirectory,
}

impl SourceEntryMonitor {
    /// What the monitor knows besides its state stays as it is.
    pub open spec fn same_entry(self, other: SourceEntryMonitor) -> bool {
        &&& self.full_file_path == other.full_file_path
        &&& self.root_relative_path == other.root_relative_path
        &&& self.parent_watch_node == other.parent_watch_node
        &&& self.watch_wakers == other.watch_wakers
    }

    /// The monitor of a workspace.
    pub fn new_root(
        canonical_workspace_root: String,
        observed_at: u64,
        metadata: Metadata,
        children: Vec<String>,
        watch_node: Option<WatchNode>,
    ) -> (r: Result<SourceEntryMonitor, RootError>)
        ensures
            match r {
                Err(e) => metadata.kind != DiskKind::Directory,
                Ok(m) => {
                    &&& metadata.kind == DiskKind::Directory
                    &&& m.full_file_path == canonical_workspace_root
                    &&& m.root_relative_path@ == Seq::<char>::empty()
                    &&& m.parent_watch_node is None
                    &&& m.watch_wakers@.len() == 0
                    &&& m.state matches Some(s)
                    &&& s.observed_at == observed_at
                    &&& s.watch_node == watch_node
                    &&& name_table::numbers_in(s.monitored_children) == Map::<Seq<char>, u64>::empty()
                    &&& s.kind@ == (StatusModel::Directory {
                        mtime: metadata.mtime,
                        file_node_identifier: metadata.file_node_identifier,
                        children: name_set::texts(children@),
                    })
                },
            },
    {
        match metadata.kind {
            DiskKind::Directory => {},
            _ => {
                return Err(RootError::NotADirectory);
            },
        }
        let root_relative_path = String::new();
        assert(root_relative_path@ =~= Seq::<char>::empty());
        let monitored_children = table_new();
        assert(name_table::numbers_in(monitored_children) =~= Map::<Seq<char>, u64>::empty());
        Ok(
            SourceEntryMonitor {
                full_file_path: canonical_workspace_root,
                root_relative_path,
                state: Some(
                    State {
                        observed_at,
                        kind: Status::Directory(
                            DirectoryStatus {
                                mtime: metadata.mtime,
                                file_node_identifier: metadata.file_node_identifier,
                                children,
                            },
                        ),
                        watch_node,
                        monitored_children,
                    },
                ),
                parent_watch_node: None,
                watch_wakers: Vec::new(),
            },
        )
    }

    /// A monitor that has seen nothing yet.
    pub fn new(
        full_file_path: String,
        root_relative_path: String,
        parent_watch_node: Option<WatchNode>,
    ) -> (r: SourceEntryMonitor)
        ensures
            r.full_file_path == full_file_path,
            r.root_relative_path == root_relative_path,
            r.parent_watch_node == parent_watch_node,
            r.state is None,
            r.watch_wakers@.len() == 0,
    {
        SourceEntryMonitor {
            full_file_path,
            root_relative_path,
            state: None,
            parent_watch_node,
            watch_wakers: Vec::new(),
        }
    }

    /// Starts an update. `sequence_number` is that of the watched directory, where there is one.
    pub fn begin_update(&self, sequence_number: u64) -> (r: BeginUpdate)
        ensures
            r == match self.state {
                Some(State { watch_node: Some(node), .. }) => if node.changed(sequence_number) {
                    BeginUpdate::Observe(Some(node.guard(sequence_number)))
                } else {
                    BeginUpdate::UpToDate
                },
                _ => BeginUpdate::Observe(None),
            },
    {
        match &self.state {
            Some(state) => match &state.watch_node {
                Some(node) => {
                    if !node.has_changed(sequence_number) {
                        return BeginUpdate::UpToDate;
                    }
                    BeginUpdate::Observe(Some(node.will_observe(sequence_number)))
                },
                None => BeginUpdate::Observe(None),
            },
            None => BeginUpdate::Observe(None),
        }
    }

    /// What to look at, after the metadata were read.
    pub fn plan_update(&self, metadata: &Metadata) -> (r: UpdatePlan)
        ensures
            r == update_plan(self.state, *metadata),
            r == UpdatePlan::Touch ==> self.state is Some && match self.state->0.kind {
                Status::Directory(d) => d.mtime == metadata.mtime && d.file_node_identifier
                    == metadata.file_node_identifier && metadata.kind == DiskKind::Directory,
                Status::File(f) => f.mtime == metadata.mtime && f.file_node_identifier
                    == metadata.file_node_identifier && metadata.kind == DiskKind::File,
                Status::Symlink(l) => l.mtime == metadata.mtime && l.file_node_identifier
                    == metadata.file_node_identifier && metadata.kind == DiskKind::Symlink,
                Status::NotFound => false,
            },
    {
        proof {
            unchanged_entries_are_not_read_again(self.state, *metadata);
        }
        let same = match &self.state {
            Some(state) => match (&state.kind, metadata.kind) {
                (Status::Directory(d), DiskKind::Directory) => d.mtime == metadata.mtime
                    && d.file_node_identifier == metadata.file_node_identifier,
                (Status::File(f), DiskKind::File) => f.mtime == metadata.mtime
                    && f.file_node_identifier == metadata.file_node_identifier,
                (Status::Symlink(l), DiskKind::Symlink) => l.mtime == metadata.mtime
                    && l.file_node_identifier == metadata.file_node_identifier,
                _ => false,
            },
            None => false,
        };
        match metadata.kind {
            DiskKind::Other => UpdatePlan::Forget,
            _ if same => UpdatePlan::Touch,
            DiskKind::Directory => UpdatePlan::ListDirectory,
            DiskKind::File => UpdatePlan::HashFile,
            DiskKind::Symlink => UpdatePlan::ReadLink,
        }
    }

    /// Whether a directory that was seen now must be watched: it was not one before, there are
    /// watches at all, and it is not ignored.
    pub fn needs_watch(&self, has_watch_port: bool, ignore: &Gitignore) -> (r: bool)
        ensures
            r == (!(self.state matches Some(s) && s.kind is Directory) && has_watch_port
                && !ignore_rules::patterns_ignore(
                ignore_rules::ignore_patterns(*ignore),
                self.root_relative_path@,
                true,
            )),
    {
        match &self.state {
            Some(state) => match &state.kind {
                Status::Directory(_) => {
                    return false;
                },
                _ => {},
            },
            None => {},
        }
        has_watch_port && !is_ignored(ignore, self.root_relative_path.as_str(), true)
    }

    fn commit(&mut self, guard: Option<ObserveGuard>)
        requires
            old(self).state is Some,
        ensures
            final(self).same_entry(*old(self)),
            final(self).state matches Some(s) && s == (State {
                watch_node: committed_watch(old(self).state->0.watch_node, guard),
                ..old(self).state->0
            }),
    {
        match &mut self.state {
            Some(state) => match (state.watch_node, guard) {
                (Some(node), Some(g)) => {
                    state.watch_node = Some(g.commit(node));
                },
                _ => {},
            },
            None => {},
        }
    }

    /// Ends an update that found no file at all. The look is not ended: the next update looks again.
    pub fn not_found(&mut self, observed_at: u64)
        ensures
            final(self).same_entry(*old(self)),
            final(self).state matches Some(s) && {
                &&& s.observed_at == observed_at
                &&& s.kind is NotFound
                &&& s.watch_node == inherited_watch(old(self).parent_watch_node)
                &&& name_table::numbers_in(s.monitored_children) == Map::<Seq<char>, u64>::empty()
            },
    {
        let watch_node = match &self.parent_watch_node {
            Some(node) => Some(node.duplicate()),
            None => None,
        };
        let monitored_children = table_new();
        assert(name_table::numbers_in(monitored_children) =~= Map::<Seq<char>, u64>::empty());
        self.state = Some(
            State { observed_at, kind: Status::NotFound, watch_node, monitored_children },
        );
    }

    /// Ends an update that found the metadata of before.
    pub fn touch(&mut self, observed_at: u64, guard: Option<ObserveGuard>)
        requires
            old(self).state is Some,
        ensures
            final(self).same_entry(*old(self)),
            final(self).state matches Some(s) && s == (State {
                observed_at,
                watch_node: committed_watch(old(self).state->0.watch_node, guard),
                ..old(self).state->0
            }),
    {
        match &mut self.state {
            Some(state) => {
                state.observed_at = observed_at;
            },
            None => {},
        }
        self.commit(guard);
    }

    /// Ends an update that saw something new. An entry that stays of one type keeps its watch and
    /// the monitors of its children. Another type starts afresh: a directory with the watch that
    /// was set up for it, and all else with that of the directory that holds it.
    pub fn observed(
        &mut self,
        observed_at: u64,
        status: Status,
        new_watch: Option<WatchNode>,
        guard: Option<ObserveGuard>,
    )
        ensures
            final(self).same_entry(*old(self)),
            final(self).state matches Some(s) && {
                &&& s.observed_at == observed_at
                &&& s.kind == status
                &&& if old(self).state matches Some(o) && same_type(o.kind@, status@) {
                    &&& s.monitored_children == old(self).state->0.monitored_children
                    &&& s.watch_node == committed_watch(old(self).state->0.watch_node, guard)
                } else {
                    &&& name_table::numbers_in(s.monitored_children) == Map::<Seq<char>, u64>::empty()
                    &&& s.watch_node == committed_watch(
                        if status is Directory {
                            new_watch
                        } else {
                            inherited_watch(old(self).parent_watch_node)
                        },
                        guard,
                    )
                }
            },
    {
        let same = match &self.state {
            Some(state) => match (&state.kind, &status) {
                (Status::Directory(_), Status::Directory(_)) => true,
                (Status::File(_), Status::File(_)) => true,
                (Status::Symlink(_), Status::Symlink(_)) => true,
                _ => false,
            },
            None => false,
        };
        if same {
            match &mut self.state {
                Some(state) => {
                    state.observed_at = observed_at;
                    state.kind = status;
                },
                None => {},
            }
        } else {
            let watch_node = match &status {
                Status::Directory(_) => new_watch,
                _ => match &self.parent_watch_node {
                    Some(node) => Some(node.duplicate()),
                    None => None,
                },
            };
            let monitored_children = table_new();
            assert(name_table::numbers_in(monitored_children) =~= Map::<Seq<char>, u64>::empty());
            self.state = Some(State { observed_at, kind: status, watch_node, monitored_children });
        }
        self.commit(guard);
    }

    /// Whether what was seen is no older than an instant.
    pub fn seen_since(&self, instant: u64) -> (r: bool)
        ensures
            r == (self.state matches Some(s) && s.observed_at >= instant),
    {
        match &self.state {
            Some(state) => state.observed_at >= instant,
            None => false,
        }
    }

    /// What was seen last, with what is ignored taken for not there.
    pub fn state_to_status(&self, ignore: &Gitignore) -> (r: Status)
        requires
            self.state is Some,
        ensures
            r@ == if ignore_rules::patterns_ignore(
                ignore_rules::ignore_patterns(*ignore),
                self.root_relative_path@,
                self.state->0.kind is Directory,
            ) {
                StatusModel::NotFound
            } else {
                self.state->0.kind@
            },
    {
        match &self.state {
            Some(state) => {
                let is_dir = match &state.kind {
                    Status::Directory(_) => true,
                    _ => false,
                };
                if is_ignored(ignore, self.root_relative_path.as_str(), is_dir) {
                    return Status::NotFound;
                }
                state.kind.duplicate()
            },
            None => Status::NotFound,
        }
    }

    /// The monitor of a child. Where there is none yet, `new_id` becomes its number, and the monitor
    /// is given to keep under that number.
    pub fn monitor_child(&mut self, name: &str, new_id: u64) -> (r: (u64, Option<SourceEntryMonitor>))
        requires
            old(self).state is Some,
        ensures
            final(self).same_entry(*old(self)),
            final(self).state matches Some(s) && {
                let o = old(self).state->0;
                let known = name_table::numbers_in(o.monitored_children);
                &&& s.observed_at == o.observed_at
                &&& s.kind == o.kind
                &&& s.watch_node == o.watch_node
                &&& if known.contains_key(name@) {
                    &&& s.monitored_children == o.monitored_children
                    &&& r.0 == known[name@]
                    &&& r.1 is None
                } else {
                    &&& name_table::numbers_in(s.monitored_children) == known.insert(name@, new_id)
                    &&& r.0 == new_id
                    &&& r.1 matches Some(m)
                    &&& m.full_file_path@ == paths::joined(old(self).full_file_path@, name@)
                    &&& m.root_relative_path@ == paths::joined(
                        old(self).root_relative_path@,
                        name@,
                    )
                    &&& m.parent_watch_node == inherited_watch(o.watch_node)
                    &&& m.state is None
                    &&& m.watch_wakers@.len() == 0
                }
            },
    {
        let full_file_path = join_path(self.full_file_path.as_str(), name);
        let root_relative_path = join_path(self.root_relative_path.as_str(), name);
        match &mut self.state {
            Some(state) => {
                match table_get(&state.monitored_children, name) {
                    Some(id) => {
                        return (id, None);
                    },
                    None => {},
                }
                let parent_watch_node = match &state.watch_node {
                    Some(node) => Some(node.duplicate()),
                    None => None,
                };
                table_insert(&mut state.monitored_children, name.to_owned(), new_id);
                (
                    new_id,
                    Some(
                        SourceEntryMonitor::new(
                            full_file_path,
                            root_relative_path,
                            parent_watch_node,
                        ),
                    ),
                )
            },
            None => (new_id, None),
        }
    }

    /// Waits for a change. Whether the entry can be waited for.
    pub fn wake_on_changed(&mut self, waker: u64) -> (r: bool)
        ensures
            r,
            final(self).watch_wakers@ == old(self).watch_wakers@.push(waker),
            final(self).state == old(self).state,
            final(self).full_file_path == old(self).full_file_path,
            final(self).root_relative_path == old(self).root_relative_path,
            final(self).parent_watch_node == old(self).parent_watch_node,
    {
        self.watch_wakers.push(waker);
        true
    }

    /// Takes out who waits for a change.
    pub fn watch_did_change(&mut self) -> (r: Vec<u64>)
        ensures
            r@ == old(self).watch_wakers@,
            final(self).watch_wakers@.len() == 0,
            final(self).state == old(self).state,
            final(self).full_file_path == old(self).full_file_path,
            final(self).root_relative_path == old(self).root_relative_path,
            final(self).parent_watch_node == old(self).parent_watch_node,
    {
        let mut wakers: Vec<u64> = Vec::new();
        core::mem::swap(&mut wakers, &mut self.watch_wakers);
        wakers
    }

    /// Takes out who waits for a change of a directory, and says which children changed with it.
    pub fn watch_dir_did_change(&mut self) -> (r: (Vec<u64>, Vec<u64>))
        ensures
            r.0@ == old(self).watch_wakers@,
            match old(self).state {
                None => r.1@.len() == 0,
                Some(s) => forall|id: u64| #[trigger]
                    r.1@.contains(id) <==> name_table::numbers_in(s.monitored_children).contains_value(id),
            },
            final(self).watch_wakers@.len() == 0,
            final(self).state == old(self).state,
            final(self).full_file_path == old(self).full_file_path,
            final(self).root_relative_path == old(self).root_relative_path,
            final(self).parent_watch_node == old(self).parent_watch_node,
    {
        let wakers = self.watch_did_change();
        match &self.state {
            None => (wakers, Vec::new()),
            Some(state) => {
                let children = table_values(&state.monitored_children);
                (wakers, children)
            },
        }
    }
}

/// How often a file is hashed anew because it changed in the meantime.
pub const HASH_MUTATION_ATTEMPTS: usize = 16;

/// What came of hashing a file.
pub enum HashOutcome {
    Done(FileStatus),
    /// The file changed in the meantime.
    Retry,
    /// The file changed too often.
    Mutating,
}

/// What came of the attempt with number `attempt`, counted from zero.
pub fn finish_hash(hasher: Hasher, before: &Metadata, after: &Metadata, attempt: usize) -> (r: HashOutcome)
    requires
        hasher.wf(),
    ensures
        if before.mtime == after.mtime && before.file_node_identifier == after.file_node_identifier {
            r matches HashOutcome::Done(status) && Status::File(status)@ == (StatusModel::File {
                mtime: after.mtime,
                file_node_identifier: after.file_node_identifier,
                hash: digest::sha256(hasher.fed()),
                executable: before.mode & 0x40 != 0,
            })
        } else if attempt + 1 < HASH_MUTATION_ATTEMPTS {
            r is Retry
        } else {
            r is Mutating
        },
{
    if before.mtime != after.mtime || before.file_node_identifier != after.file_node_identifier {
        if attempt < HASH_MUTATION_ATTEMPTS - 1 {
            return HashOutcome::Retry;
        }
        return HashOutcome::Mutating;
    }
    HashOutcome::Done(
        FileStatus {
            mtime: after.mtime,
            file_node_identifier: after.file_node_identifier,
            hash: hasher.finish(),
            executable: before.mode & 0x40 != 0,
        },
    )
}

/// Statuses are of the same type where both are of directories, of files, or of links. What is not there has
/// none.
pub proof fn types_are_compared_as_they_are(a: Status, b: Status)
    ensures
        same_type(a@, b@) <==> (a is Directory && b is Directory) || (a is File && b is File) || (a is Symlink
            && b is Symlink),
{
}

/// An entry without a watch of its own has a fresh look at the directory that holds it.
pub proof fn watches_are_inherited_afresh(parent: Option<WatchNode>)
    ensures
        match (parent, inherited_watch(parent)) {
            (Some(node), Some(inherited)) => inherited.desc == node.desc && inherited.last_observed_sequence_number
                == 0,
            (None, None) => true,
            _ => false,
        },
{
}

/// A look that ends counts for the watch of the entry, where there is one and the look was through it. It counts
/// only where no other look ended meanwhile.
pub proof fn looks_end_for_their_watch(node: WatchNode, guard: ObserveGuard)
    ensures
        committed_watch(None, Some(guard)) is None,
        committed_watch(None, None) is None,
        committed_watch(Some(node), None) == Some(node),
        committed_watch(Some(node), Some(guard)) == Some(
            WatchNode {
                desc: node.desc,
                last_observed_sequence_number: if node.last_observed_sequence_number == guard.prior_sequence_number {
                    guard.observation_sequence_number
                } else {
                    node.last_observed_sequence_number
                },
            },
        ),
{
}

/// A monitor of the same entry has the same paths, the same watch above it and the same who wait.
pub proof fn entries_stay_the_same(a: SourceEntryMonitor, b: SourceEntryMonitor)
    requires
        a.same_entry(b),
    ensures
        a.full_file_path == b.full_file_path,
        a.root_relative_path == b.root_relative_path,
        a.parent_watch_node == b.parent_watch_node,
        a.watch_wakers == b.watch_wakers,
{
}

/// What was seen is told as it is.
pub proof fn statuses_are_told_as_they_are(status: Status)
    ensures
        match status {
            Status::Directory(d) => status@ == (StatusModel::Directory {
                mtime: d.mtime,
                file_node_identifier: d.file_node_identifier,
                children: name_set::texts(d.children@),
            }),
            Status::File(f) => status@ == (StatusModel::File {
                mtime: f.mtime,
                file_node_identifier: f.file_node_identifier,
                hash: f.hash@,
                executable: f.executable,
            }),
            Status::Symlink(l) => status@ == (StatusModel::Symlink {
                mtime: l.mtime,
                file_node_identifier: l.file_node_identifier,
                target: l.target@,
            }),
            Status::NotFound => status@ == StatusModel::NotFound,
        },
        HASH_MUTATION_ATTEMPTS == 16,
{
}

} // verus!
