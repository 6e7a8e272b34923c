//! Queries for the output of a target: which other queries they need, and what they answer.
//!
//! The other queries are run outside. Each method takes the answer to what was asked for last, and
//! says what to ask for next.

use vstd::prelude::*;

use crate::base::name_set::{self, find_name};
use crate::base::paths::{self, push_path, split_at_first};
use crate::base::text;
use crate::graph::labels::LabelRoot;

verus! {

/// Files that were built: the hash of a tree of files, and a path inside it.
pub struct DepmapReference {
    pub hash: Vec<u8>,
    pub subpath: Option<String>,
}

/// A part of the output that is copied into the workspace: where to, and the action that makes it,
/// with a path behind it.
pub struct Mount {
    pub dest_subpath: String,
    pub src_subpath: String,
}

/// The parts of the label that a query is for.
pub struct OutputParts {
    pub root: LabelRoot,
    /// The path of the package in its workspace.
    pub package: Option<String>,
    pub has_target: bool,
    pub action_id: Option<String>,
}

#[derive(Clone, Copy, PartialEq, Eq, Structural, Debug)]
pub enum OutputError {
    /// There is no source file at the label.
    NoSuchFile,
    /// The target has no action with the wanted id.
    NoSuchAction,
    /// The target has no action with the id that a mount names.
    MissingAction,
    /// The path behind the action leads out of its output.
    PathEscapesRoot,
}

/// How to copy a part of the output.
pub struct MountPlan {
    /// The place of the action among those of the target.
    pub action: usize,
    pub action_path: Option<String>,
    pub dest: String,
}

pub enum OutputAction {
    /// Ask for the output of the canonical label instead.
    Redirect(String),
    /// Make a tree of files of a source file.
    ReferenceSource,
    /// Ask for the analysis of the target.
    Analyze,
    /// Ask for the output of an action, by its place.
    RunAction(usize),
    /// Ask for the output of an action and copy it.
    Mount(MountPlan),
    Finish(Option<DepmapReference>),
    Fail(OutputError),
}

pub enum OutputState {
    Canonicalizing,
    Redirecting,
    Referencing,
    Analyzing,
    RunningAction,
    Mounting { mounts: Vec<Mount>, action_ids: Vec<String>, next: usize },
    Ended,
}

/// A run of a query for an output.
pub struct OutputRun {
    pub parts: OutputParts,
    pub workspace_root: String,
    pub state: OutputState,
}

/// The name of the workspace whose outputs can be copied into it.
pub open spec fn mountable_workspace() -> Seq<char> {
    "io.hardscience"@
}

/// The action that a mount names, and the path behind it.
pub open spec fn mount_source(src: Seq<char>) -> (Seq<char>, Option<Seq<char>>) {
    match paths::split_first(src) {
        Some((id, path)) => (id, Some(path)),
        None => (src, None),
    }
}

/// Where a mount is copied to.
pub open spec fn mount_dest(
    workspace_root: Seq<char>,
    package: Option<Seq<char>>,
    dest: Seq<char>,
) -> Seq<char> {
    let base = match package {
        Some(package) => paths::pushed(workspace_root, package),
        None => workspace_root,
    };
    paths::pushed(base, dest)
}

pub open spec fn optional_text(s: Option<String>) -> Option<Seq<char>> {
    match s {
        Some(s) => Some(s@),
        None => None,
    }
}

impl OutputRun {
    pub open spec fn same_query(self, other: OutputRun) -> bool {
        self.parts == other.parts && self.workspace_root == other.workspace_root
    }

    /// Outputs are copied only into one workspace.
    pub open spec fn mountable(self) -> bool {
        self.parts.root matches LabelRoot::Workspace(name) && name@ == mountable_workspace()
    }

    /// Whether an action is the one that a mount asks for.
    pub open spec fn plan_fits(self, plan: MountPlan, mount: Mount, action_ids: Seq<Seq<char>>) -> bool {
        let (id, path) = mount_source(mount.src_subpath@);
        &&& name_set::place_of(action_ids, id) == Some(plan.action as int)
        &&& optional_text(plan.action_path) == path
        &&& plan.dest@ == mount_dest(
            self.workspace_root@,
            optional_text(self.parts.package),
            mount.dest_subpath@,
        )
    }

    pub fn new(parts: OutputParts, workspace_root: String) -> (r: OutputRun)
        ensures
            r.parts == parts,
            r.workspace_root == workspace_root,
            r.state is Canonicalizing,
    {
        OutputRun { parts, workspace_root, state: OutputState::Canonicalizing }
    }

    /// Goes on after the label was made canonical: `canonical` is the new label where it changed.
    pub fn canonicalized(&mut self, canonical: Option<String>) -> (r: OutputAction)
        requires
            old(self).state is Canonicalizing,
        ensures
            final(self).same_query(*old(self)),
            match canonical {
                Some(label) => r == OutputAction::Redirect(label) && final(self).state is Redirecting,
                None => if old(self).parts.has_target {
                    r is Analyze && final(self).state is Analyzing
                } else {
                    r is ReferenceSource && final(self).state is Referencing
                },
            },
    {
        match canonical {
            Some(label) => {
                self.state = OutputState::Redirecting;
                OutputAction::Redirect(label)
            },
            None => {
                if !self.parts.has_target {
                    self.state = OutputState::Referencing;
                    OutputAction::ReferenceSource
                } else {
                    self.state = OutputState::Analyzing;
                    OutputAction::Analyze
                }
            },
        }
    }

    /// The output of the canonical label is that of this one.
    pub fn redirected(&mut self, reference: Option<DepmapReference>) -> (r: OutputAction)
        requires
            old(self).state is Redirecting,
        ensures
            final(self).same_query(*old(self)),
            final(self).state is Ended,
            r == OutputAction::Finish(reference),
    {
        self.state = OutputState::Ended;
        OutputAction::Finish(reference)
    }

    /// The tree of a source file is the output, where the file exists.
    pub fn referenced(&mut self, reference: Option<DepmapReference>) -> (r: OutputAction)
        requires
            old(self).state is Referencing,
        ensures
            final(self).same_query(*old(self)),
            final(self).state is Ended,
            r == match reference {
                Some(_) => OutputAction::Finish(reference),
                None => OutputAction::Fail(OutputError::NoSuchFile),
            },
    {
        self.state = OutputState::Ended;
        match reference {
            Some(_) => OutputAction::Finish(reference),
            None => OutputAction::Fail(OutputError::NoSuchFile),
        }
    }

    /// Goes on with an analysis: with the wanted action, or with all mounts in order.
    pub fn analyzed(&mut self, action_ids: Vec<String>, mounts: Vec<Mount>) -> (r: OutputAction)
        requires
            old(self).state is Analyzing,
            old(self).parts.action_id is None && mounts@.len() > 0 ==> old(self).mountable(),
        ensures
            final(self).same_query(*old(self)),
            match old(self).parts.action_id {
                Some(id) => match name_set::place_of(name_set::texts(action_ids@), id@) {
                    Some(i) => r == OutputAction::RunAction(i as usize) && final(self).state is RunningAction,
                    None => r == OutputAction::Fail(OutputError::NoSuchAction) && final(self).state is Ended,
                },
                None => final(self).mount_step(r, action_ids, mounts, 0),
            },
    {
        match &self.parts.action_id {
            Some(id) => {
                match find_name(&action_ids, id.as_str()) {
                    Some(i) => {
                        self.state = OutputState::RunningAction;
                        OutputAction::RunAction(i)
                    },
                    None => {
                        self.state = OutputState::Ended;
                        OutputAction::Fail(OutputError::NoSuchAction)
                    },
                }
            },
            None => self.next_mount(action_ids, mounts, 0),
        }
    }

    /// What the mount with a number leads to, or the end behind the last one.
    pub open spec fn mount_step(
        self,
        r: OutputAction,
        action_ids: Vec<String>,
        mounts: Vec<Mount>,
        i: int,
    ) -> bool {
        if i >= mounts@.len() {
            r == OutputAction::Finish(None) && self.state is Ended
        } else {
            match name_set::place_of(
                name_set::texts(action_ids@),
                mount_source(mounts@[i].src_subpath@).0,
            ) {
                None => r == OutputAction::Fail(OutputError::MissingAction) && self.state is Ended,
                Some(_) => {
                    &&& r matches OutputAction::Mount(plan)
                    &&& self.plan_fits(plan, mounts@[i], name_set::texts(action_ids@))
                    &&& self.state == (OutputState::Mounting {
                        mounts,
                        action_ids,
                        next: (i + 1) as usize,
                    })
                },
            }
        }
    }

    fn next_mount(&mut self, action_ids: Vec<String>, mounts: Vec<Mount>, i: usize) -> (r: OutputAction)
        requires
            i <= mounts@.len(),
            i < mounts@.len() ==> old(self).mountable(),
        ensures
            final(self).same_query(*old(self)),
            final(self).mount_step(r, action_ids, mounts, i as int),
    {
        if i >= mounts.len() {
            self.state = OutputState::Ended;
            return OutputAction::Finish(None);
        }
        let (id, action_path) = match split_at_first(mounts[i].src_subpath.as_str()) {
            Some((id, path)) => (id, Some(path)),
            None => (mounts[i].src_subpath.clone(), None),
        };
        let action: usize = match find_name(&action_ids, id.as_str()) {
            Some(action) => action,
            None => {
                self.state = OutputState::Ended;
                return OutputAction::Fail(OutputError::MissingAction);
            },
        };
        let base = match &self.parts.package {
            Some(package) => push_path(self.workspace_root.as_str(), package.as_str()),
            None => self.workspace_root.clone(),
        };
        let dest = push_path(base.as_str(), mounts[i].dest_subpath.as_str());
        self.state = OutputState::Mounting { mounts, action_ids, next: i + 1 };
        OutputAction::Mount(MountPlan { action, action_path, dest })
    }

    /// The output of the wanted action, with the path that the label has behind it. `None` stands
    /// for a path that leads out of the output.
    pub fn action_done(&mut self, files: Vec<u8>, action_path: Option<Option<String>>) -> (r: OutputAction)
        requires
            old(self).state is RunningAction,
        ensures
            final(self).same_query(*old(self)),
            final(self).state is Ended,
            r == match action_path {
                Some(None) => OutputAction::Fail(OutputError::PathEscapesRoot),
                Some(Some(path)) => OutputAction::Finish(
                    Some(DepmapReference { hash: files, subpath: Some(path) }),
                ),
                None => OutputAction::Finish(Some(DepmapReference { hash: files, subpath: None })),
            },
    {
        self.state = OutputState::Ended;
        match action_path {
            Some(None) => OutputAction::Fail(OutputError::PathEscapesRoot),
            Some(Some(path)) => OutputAction::Finish(
                Some(DepmapReference { hash: files, subpath: Some(path) }),
            ),
            None => OutputAction::Finish(Some(DepmapReference { hash: files, subpath: None })),
        }
    }

    /// Goes on after a mount was copied.
    pub fn mounted(&mut self) -> (r: OutputAction)
        requires
            old(self).state matches OutputState::Mounting { mounts, next, .. } && next
                <= mounts@.len(),
            old(self).mountable(),
        ensures
            final(self).same_query(*old(self)),
            match old(self).state {
                OutputState::Mounting { mounts, action_ids, next } => final(self).mount_step(
                    r,
                    action_ids,
                    mounts,
                    next as int,
                ),
                _ => true,
            },
    {
        let mut state = OutputState::Ended;
        core::mem::swap(&mut state, &mut self.state);
        match state {
            OutputState::Mounting { mounts, action_ids, next } => self.next_mount(
                action_ids,
                mounts,
                next,
            ),
            _ => OutputAction::Finish(None),
        }
    }

    /// Whether outputs of the label can be copied into its workspace.
    pub fn is_mountable(&self) -> (r: bool)
        ensures
            r == self.mountable(),
    {
        match &self.parts.root {
            LabelRoot::Workspace(name) => text::equal(name.as_str(), "io.hardscience"),
            _ => false,
        }
    }
}

/// Mounts are copied in order, each at most once: a mount that is planned is followed by the next.
pub proof fn mounts_come_in_order(
    run: OutputRun,
    r: OutputAction,
    action_ids: Vec<String>,
    mounts: Vec<Mount>,
    i: int,
)
    requires
        0 <= i <= mounts@.len() <= usize::MAX,
        run.mount_step(r, action_ids, mounts, i),
        r is Mount,
    ensures
        i < mounts@.len(),
        run.state == (OutputState::Mounting { mounts, action_ids, next: (i + 1) as usize }),
        i + 1 <= mounts@.len(),
{
}

/// A mount names an action by all before the first slash, and a path behind it by all after it.
pub proof fn mounts_name_an_action_and_a_path(id: Seq<char>, path: Seq<char>)
    requires
        !id.contains('/'),
    ensures
        mount_source(id) == (id, None::<Seq<char>>),
        mount_source(id.push('/') + path) == (id, Some(path)),
{
    let src = id.push('/') + path;
    paths::split_paths_are_whole(src);
    paths::split_paths_are_whole(id);
    let n = id.len() as int;
    assert(src[n] == '/');
    assert(src.contains('/'));
    if let Some((a, b)) = paths::split_first(src) {
        let m = a.len() as int;
        let whole = a.push('/') + b;
        assert(whole[m] == '/');
        if m < n {
            assert(id[m] == src[m]);
            assert(id.contains('/'));
        }
        if n < m {
            assert(a[n] == whole[n]);
            assert(a.contains('/'));
        }
        assert(a =~= id) by {
            assert forall|i: int| 0 <= i < n implies a[i] == id[i] by {
                assert(whole[i] == src[i]);
            }
        }
        assert(b =~= path) by {
            assert forall|i: int| 0 <= i < b.len() implies b[i] == path[i] by {
                assert(whole[n + 1 + i] == src[n + 1 + i]);
            }
        }
    }
    if let Some((a, b)) = paths::split_first(id) {
        assert((a.push('/') + b)[a.len() as int] == '/');
        assert(id.contains('/'));
    }
}

/// Mounts go below the package in the workspace, or below the workspace where there is no package.
pub proof fn mounts_go_into_the_package(root: Seq<char>, package: Seq<char>, dest: Seq<char>)
    ensures
        mount_dest(root, None, dest) == paths::pushed(root, dest),
        mount_dest(root, Some(package), dest) == paths::pushed(paths::pushed(root, package), dest),
{
}

/// Outputs are copied into the one workspace that is named, and into no other.
pub proof fn one_workspace_is_mountable(run: OutputRun)
    ensures
        run.mountable() <==> run.parts.root is Workspace && run.parts.root->Workspace_0@ == "io.hardscience"@,
{
}

/// A mount that is planned is for the first action with the id that it names, with the path behind it, and goes
/// where it says.
pub proof fn plans_do_what_mounts_say(run: OutputRun, plan: MountPlan, mount: Mount, action_ids: Seq<Seq<char>>)
    requires
        run.plan_fits(plan, mount, action_ids),
    ensures
        0 <= plan.action < action_ids.len(),
        action_ids[plan.action as int] == mount_source(mount.src_subpath@).0,
        forall|j: int| 0 <= j < plan.action ==> action_ids[j] != mount_source(mount.src_subpath@).0,
        match (plan.action_path, mount_source(mount.src_subpath@).1) {
            (Some(a), Some(b)) => a@ == b,
            (None, None) => true,
            _ => false,
        },
        plan.dest@ == mount_dest(
            run.workspace_root@,
            match run.parts.package {
                Some(package) => Some(package@),
                None => None,
            },
            mount.dest_subpath@,
        ),
{
    name_set::places_are_the_first(action_ids, mount_source(mount.src_subpath@).0);
}

/// Behind the last mount there is no output to tell. A mount whose action is not there fails the query, and any
/// other is planned.
pub proof fn mounts_are_planned_or_fail(
    run: OutputRun,
    r: OutputAction,
    action_ids: Vec<String>,
    mounts: Vec<Mount>,
    i: int,
)
    requires
        run.mount_step(r, action_ids, mounts, i),
        0 <= i,
    ensures
        i >= mounts@.len() <==> r == OutputAction::Finish(None),
        i < mounts@.len() ==> {
            let id = mount_source(mounts@[i].src_subpath@).0;
            let known = name_set::texts(action_ids@).contains(id);
            &&& known ==> (r matches OutputAction::Mount(plan) && run.plan_fits(
                plan,
                mounts@[i],
                name_set::texts(action_ids@),
            ))
            &&& !known ==> r == OutputAction::Fail(OutputError::MissingAction)
        },
        !(r is Mount) ==> run.state is Ended,
{
}

/// Texts that may be missing are told as they are, and a query stays the same where its label and its workspace
/// do.
pub proof fn queries_stay_the_same(a: OutputRun, b: OutputRun, s: Option<String>)
    ensures
        a.same_query(b) <==> a.parts == b.parts && a.workspace_root == b.workspace_root,
        optional_text(s) is Some <==> s is Some,
        s matches Some(t) ==> optional_text(s) == Some(t@),
{
}

} // verus!
