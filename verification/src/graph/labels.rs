//! Labels: where they lead, and how they are made canonical.

use vstd::prelude::*;

use crate::base::name_set;
use crate::base::text;

verus! {

/// What a label is relative to.
pub enum LabelRoot {
    /// The workspace with a name.
    Workspace(String),
    /// The workspace that the label stands in.
    WorkspaceRelative,
    /// The package that the label stands in.
    PackageRelative,
}

/// A workspace inside the root workspace.
pub struct LocalWorkspace {
    pub name: String,
    pub path: String,
}

/// All workspaces: the name of the root workspace, and those inside it.
pub struct Workspaces {
    pub name: String,
    pub local_workspaces: Vec<LocalWorkspace>,
}

#[derive(Clone, Copy, PartialEq, Eq, Structural, Debug)]
pub enum LabelError {
    /// The label is relative to a package where none is known.
    PackageRelative,
}

/// Where the label of a file starts in the root workspace.
#[derive(Clone, Copy, PartialEq, Eq, Structural, Debug)]
pub enum FileLabelBase {
    /// The label is one of the root workspace as it is.
    Itself,
    /// What follows the workspace is a path from the root.
    Root,
    /// What follows the workspace is a path from that of a local workspace.
    Local(usize),
}

pub open spec fn local_names(workspaces: Workspaces) -> Seq<Seq<char>> {
    workspaces.local_workspaces@.map_values(|w: LocalWorkspace| w.name@)
}

/// Where the label of a file starts in the root workspace. `None` for a label of a workspace that is not
/// local, which refers to no file.
pub open spec fn file_label_base(root: LabelRoot, workspaces: Workspaces) -> Result<
    Option<FileLabelBase>,
    LabelError,
> {
    match root {
        LabelRoot::WorkspaceRelative => Ok(Some(FileLabelBase::Itself)),
        LabelRoot::PackageRelative => Err(LabelError::PackageRelative),
        LabelRoot::Workspace(name) => if name@ == workspaces.name@ {
            Ok(Some(FileLabelBase::Root))
        } else {
            match name_set::place_of(local_names(workspaces), name@) {
                Some(i) => Ok(Some(FileLabelBase::Local(i as usize))),
                None => Ok(None),
            }
        },
    }
}

/// Where the label of a file starts in the root workspace. The root workspace goes before local
/// ones, and the first local one with a name before others. `None` for a label of a workspace that is not
/// local, which refers to no file.
pub fn reference_source_file(root: &LabelRoot, workspaces: &Workspaces) -> (r: Result<
    Option<FileLabelBase>,
    LabelError,
>)
    ensures
        r == file_label_base(*root, *workspaces),
{
    match root {
        LabelRoot::WorkspaceRelative => Ok(Some(FileLabelBase::Itself)),
        LabelRoot::PackageRelative => Err(LabelError::PackageRelative),
        LabelRoot::Workspace(name) => {
            if text::equal(name.as_str(), workspaces.name.as_str()) {
                return Ok(Some(FileLabelBase::Root));
            }
            let ghost names = local_names(*workspaces);
            let mut i: usize = 0;
            while i < workspaces.local_workspaces.len()
                invariant
                    *root == LabelRoot::Workspace(*name),
                    name@ != workspaces.name@,
                    names == local_names(*workspaces),
                    i <= workspaces.local_workspaces@.len(),
                    forall|j: int| 0 <= j < i ==> names[j] != name@,
                decreases workspaces.local_workspaces@.len() - i,
            {
                if text::equal(workspaces.local_workspaces[i].name.as_str(), name.as_str()) {
                    proof {
                        name_set::first_place_is_unique(names, name@, i as int);
                    }
                    return Ok(Some(FileLabelBase::Local(i)));
                }
                i += 1;
            }
            assert(!names.contains(name@));
            Ok(None)
        },
    }
}

/// The canonical start of a label: the name of its workspace between an at sign and two slashes.
pub open spec fn canonical_start(workspace: Seq<char>) -> Seq<char> {
    seq!['@'] + workspace + seq!['/', '/']
}

/// What must be put before a label to make it canonical: nothing where it names its workspace.
pub fn canonical_root(root: &LabelRoot, workspace_name: &str) -> (r: Result<Option<String>, LabelError>)
    ensures
        match r {
            Err(e) => root is PackageRelative && e == LabelError::PackageRelative,
            Ok(None) => root is Workspace,
            Ok(Some(start)) => root is WorkspaceRelative && start@ == canonical_start(
                workspace_name@,
            ),
        },
{
    match root {
        LabelRoot::Workspace(_) => Ok(None),
        LabelRoot::PackageRelative => Err(LabelError::PackageRelative),
        LabelRoot::WorkspaceRelative => {
            let mut start = String::new();
            start.push('@');
            start.append(workspace_name);
            start.push('/');
            start.push('/');
            assert(start@ =~= canonical_start(workspace_name@));
            Ok(Some(start))
        },
    }
}

/// Whether a query is redirected to the canonical label: where the label had to be rooted, or
/// normalizing it changed it.
pub fn canonicalize_label(rooted: bool, normalization_changed: bool) -> (r: bool)
    ensures
        r == (rooted || normalization_changed),
{
    rooted || normalization_changed
}

/// A label leads to its own workspace: the root by its name, and otherwise the first local one with the name.
/// One that names no workspace is of the root, and one of a package leads nowhere.
pub proof fn labels_lead_to_their_workspaces(name: String, workspaces: Workspaces)
    requires
        workspaces.local_workspaces@.len() <= usize::MAX,
    ensures
        file_label_base(LabelRoot::WorkspaceRelative, workspaces) == Ok::<Option<FileLabelBase>, LabelError>(
            Some(FileLabelBase::Itself),
        ),
        file_label_base(LabelRoot::PackageRelative, workspaces) == Err::<Option<FileLabelBase>, LabelError>(
            LabelError::PackageRelative,
        ),
        name@ == workspaces.name@ ==> file_label_base(LabelRoot::Workspace(name), workspaces) == Ok::<
            Option<FileLabelBase>,
            LabelError,
        >(Some(FileLabelBase::Root)),
        name@ != workspaces.name@ ==> match file_label_base(LabelRoot::Workspace(name), workspaces) {
            Ok(Some(FileLabelBase::Local(i))) => {
                &&& i < workspaces.local_workspaces@.len()
                &&& workspaces.local_workspaces@[i as int].name@ == name@
                &&& forall|j: int| 0 <= j < i ==> (#[trigger] workspaces.local_workspaces@[j]).name@ != name@
            },
            Ok(None) => forall|j: int|
                0 <= j < workspaces.local_workspaces@.len() ==> (#[trigger] workspaces.local_workspaces@[j]).name@
                    != name@,
            _ => false,
        },
{
    let names = local_names(workspaces);
    name_set::places_are_the_first(names, name@);
    assert forall|j: int| 0 <= j < names.len() implies names[j] == (
    #[trigger] workspaces.local_workspaces@[j]).name@ by {}
}

/// A canonical label starts with the name of its workspace, between an at sign and two slashes.
pub proof fn canonical_labels_name_their_workspace(workspace: Seq<char>)
    ensures
        ({
            let start = canonical_start(workspace);
            let n = workspace.len() as int;
            &&& start.len() == n + 3
            &&& start[0] == '@'
            &&& start.subrange(1, n + 1) == workspace
            &&& start[n + 1] == '/' && start[n + 2] == '/'
        }),
{
    let n = workspace.len() as int;
    assert(canonical_start(workspace).subrange(1, n + 1) =~= workspace);
}

} // verus!
