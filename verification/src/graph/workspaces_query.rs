//! Finding all workspaces: those inside the root workspace, and those inside them.

use vstd::prelude::*;

use crate::base::name_set::{self, stable_order};
use crate::graph::labels::{LabelRoot, LocalWorkspace};

verus! {

/// A workspace that another one names: what its path is relative to, the path from the root
/// workspace, and whether that path holds a package separator.
pub struct NestedWorkspace {
    pub root: LabelRoot,
    pub root_path: String,
    pub has_package_separator: bool,
}

/// A path of a nested workspace holds a package separator. The number is its place.
#[derive(Clone, Copy, PartialEq, Eq, Structural, Debug)]
pub struct UnexpectedSeparator(pub usize);

/// The workspaces that were found.
pub struct WorkspacesWalk {
    pub resolved: Vec<LocalWorkspace>,
    /// The paths of workspaces that are being loaded, in order.
    pub loading: Vec<String>,
    /// How many of them were loaded.
    pub loaded: usize,
}

/// The paths of nested workspaces.
pub open spec fn nested_paths(nested: Seq<NestedWorkspace>) -> Seq<Seq<char>> {
    nested.map_values(|w: NestedWorkspace| w.root_path@)
}

/// Whether a nested workspace is one that can be loaded: names of other workspaces are not
/// supported.
pub open spec fn supported(nested: Seq<NestedWorkspace>) -> bool {
    forall|i: int| 0 <= i < nested.len() ==> !((#[trigger] nested[i]).root is Workspace)
}

impl WorkspacesWalk {
    /// A workspace was found for each path that was loaded, in order.
    pub open spec fn wf(self) -> bool {
        &&& self.loaded <= self.loading@.len()
        &&& resolved_paths(self.resolved@) == name_set::texts(self.loading@).take(self.loaded as int)
    }

    pub fn new(paths: Vec<String>) -> (r: WorkspacesWalk)
        ensures
            r.wf(),
            r.loading == paths,
            r.loaded == 0,
            r.resolved@.len() == 0,
    {
        let walk = WorkspacesWalk { resolved: Vec::new(), loading: paths, loaded: 0 };
        assert(resolved_paths(walk.resolved@) =~= name_set::texts(walk.loading@).take(0));
        walk
    }

    /// The workspace to load next.
    pub fn next(&self) -> (r: Option<String>)
        requires
            self.wf(),
        ensures
            match r {
                Some(path) => self.loaded < self.loading@.len() && path@
                    == self.loading@[self.loaded as int]@,
                None => self.loaded == self.loading@.len(),
            },
    {
        if self.loaded < self.loading.len() {
            Some(self.loading[self.loaded].clone())
        } else {
            None
        }
    }

    /// Takes what was loaded of the next workspace: its name, and the workspaces inside it, which
    /// are loaded behind all others.
    pub fn loaded(&mut self, name: String, nested: Vec<NestedWorkspace>) -> (r: Result<
        (),
        UnexpectedSeparator,
    >)
        requires
            old(self).wf(),
            old(self).loaded < old(self).loading@.len(),
            supported(nested@),
        ensures
            match r {
                Err(UnexpectedSeparator(i)) => {
                    &&& i < nested@.len()
                    &&& nested@[i as int].has_package_separator
                    &&& forall|j: int|
                        0 <= j < i ==> !(#[trigger] nested@[j]).has_package_separator
                    &&& final(self).wf()
                    &&& final(self).loaded == old(self).loaded
                    &&& final(self).resolved == old(self).resolved
                    &&& name_set::texts(final(self).loading@) == name_set::texts(old(self).loading@)
                        + nested_paths(nested@.take(i as int))
                },
                Ok(()) => {
                    &&& forall|j: int|
                        0 <= j < nested@.len() ==> !(#[trigger] nested@[j]).has_package_separator
                    &&& final(self).wf()
                    &&& final(self).loaded == old(self).loaded + 1
                    &&& name_set::texts(final(self).loading@) == name_set::texts(old(self).loading@)
                        + nested_paths(nested@)
                    &&& final(self).resolved@.len() == old(self).resolved@.len() + 1
                    &&& final(self).resolved@.drop_last() == old(self).resolved@
                    &&& final(self).resolved@.last().name@ == name@
                    &&& final(self).resolved@.last().path@
                        == old(self).loading@[old(self).loaded as int]@
                },
            },
    {
        let ghost start = name_set::texts(self.loading@);
        let mut i: usize = 0;
        assert(start + nested_paths(nested@.take(0)) =~= start);
        while i < nested.len()
            invariant
                i <= nested@.len(),
                self.wf(),
                self.loaded == old(self).loaded,
                self.loaded < self.loading@.len(),
                self.resolved == old(self).resolved,
                start == name_set::texts(old(self).loading@),
                start.len() == old(self).loading@.len(),
                old(self).loaded < start.len(),
                name_set::texts(self.loading@) == start + nested_paths(nested@.take(i as int)),
                resolved_paths(self.resolved@) == start.take(self.loaded as int),
                forall|j: int| 0 <= j < i ==> !(#[trigger] nested@[j]).has_package_separator,
            decreases nested@.len() - i,
        {
            if nested[i].has_package_separator {
                return Err(UnexpectedSeparator(i));
            }
            let ghost before = name_set::texts(self.loading@);
            self.loading.push(nested[i].root_path.clone());
            assert(name_set::texts(self.loading@) =~= before.push(nested@[i as int].root_path@));
            assert(nested_paths(nested@.take(i + 1)) =~= nested_paths(nested@.take(i as int)).push(
                nested@[i as int].root_path@,
            ));
            assert(name_set::texts(self.loading@).take(self.loaded as int) =~= start.take(self.loaded as int));
            i += 1;
        }
        assert(nested@.take(nested@.len() as int) =~= nested@);
        let count: usize = self.loading.len();
        assert(self.loaded < count);
        let path = self.loading[self.loaded].clone();
        assert(name_set::texts(self.loading@)[self.loaded as int] == start[self.loaded as int]);
        self.resolved.push(LocalWorkspace { name, path });
        self.loaded = self.loaded + 1;
        assert(self.resolved@.drop_last() =~= old(self).resolved@);
        proof {
            let found = resolved_paths(self.resolved@);
            let n = self.loaded as int;
            assert(found =~= resolved_paths(old(self).resolved@).push(start[n - 1]));
            assert(found.len() == n);
            assert forall|k: int| 0 <= k < n implies found[k] == name_set::texts(self.loading@)[k] by {
                assert(start[k] == name_set::texts(self.loading@)[k]);
            }
            assert(found =~= name_set::texts(self.loading@).take(n));
        }
        Ok(())
    }

    /// All workspaces that were found, sorted by path.
    pub fn finish(self) -> (r: Vec<LocalWorkspace>)
        ensures
            exists|order: Seq<usize>|
                {
                    &&& #[trigger] name_set::is_stable_order(resolved_paths(self.resolved@), order)
                    &&& r@.len() == order.len()
                    &&& forall|k: int|
                        0 <= k < order.len() ==> {
                            &&& (#[trigger] r@[k]).name@ == self.resolved@[order[k] as int].name@
                            &&& r@[k].path@ == self.resolved@[order[k] as int].path@
                        }
                },
    {
        let mut paths: Vec<String> = Vec::new();
        let mut i: usize = 0;
        while i < self.resolved.len()
            invariant
                i <= self.resolved@.len(),
                paths@.len() == i,
                forall|k: int| 0 <= k < i ==> (#[trigger] paths@[k])@ == self.resolved@[k].path@,
            decreases self.resolved@.len() - i,
        {
            paths.push(self.resolved[i].path.clone());
            i += 1;
        }
        assert(name_set::texts(paths@) =~= resolved_paths(self.resolved@));
        let order = stable_order(&paths);
        let mut sorted: Vec<LocalWorkspace> = Vec::new();
        let mut k: usize = 0;
        while k < order.len()
            invariant
                k <= order@.len(),
                name_set::is_stable_order(resolved_paths(self.resolved@), order@),
                sorted@.len() == k,
                forall|j: int|
                    0 <= j < k ==> {
                        &&& (#[trigger] sorted@[j]).name@ == self.resolved@[order@[j] as int].name@
                        &&& sorted@[j].path@ == self.resolved@[order@[j] as int].path@
                    },
            decreases order@.len() - k,
        {
            let at: usize = order[k];
            sorted.push(
                LocalWorkspace {
                    name: self.resolved[at].name.clone(),
                    path: self.resolved[at].path.clone(),
                },
            );
            k += 1;
        }
        assert(name_set::is_stable_order(resolved_paths(self.resolved@), order@));
        sorted
    }
}

pub open spec fn resolved_paths(resolved: Seq<LocalWorkspace>) -> Seq<Seq<char>> {
    resolved.map_values(|w: LocalWorkspace| w.path@)
}

/// When there is nothing more to load, a workspace was found for every path that the root workspace or
/// another one named, and no other.
pub proof fn all_workspaces_are_found(walk: WorkspacesWalk)
    requires
        walk.wf(),
        walk.loaded == walk.loading@.len(),
    ensures
        resolved_paths(walk.resolved@) == name_set::texts(walk.loading@),
{
    assert(name_set::texts(walk.loading@).take(walk.loaded as int) =~= name_set::texts(walk.loading@));
}

/// The paths of workspaces are told one by one, and a nested one is supported unless it names another workspace.
pub proof fn workspaces_are_told_one_by_one(nested: Seq<NestedWorkspace>, resolved: Seq<LocalWorkspace>)
    ensures
        nested_paths(nested).len() == nested.len(),
        forall|i: int| 0 <= i < nested.len() ==> #[trigger] nested_paths(nested)[i] == nested[i].root_path@,
        resolved_paths(resolved).len() == resolved.len(),
        forall|i: int| 0 <= i < resolved.len() ==> #[trigger] resolved_paths(resolved)[i] == resolved[i].path@,
        supported(nested) <==> forall|i: int| 0 <= i < nested.len() ==> !((#[trigger] nested[i]).root is Workspace),
{
}

/// A walk has found exactly one workspace for each path that it loaded, in the order in which it did.
pub proof fn found_workspaces_are_those_that_were_loaded(walk: WorkspacesWalk, i: int)
    requires
        walk.wf(),
        0 <= i < walk.loaded,
    ensures
        walk.resolved@.len() == walk.loaded,
        walk.loaded <= walk.loading@.len(),
        walk.resolved@[i].path@ == walk.loading@[i]@,
{
    let paths = resolved_paths(walk.resolved@);
    assert(paths.len() == walk.resolved@.len());
    assert(paths[i] == name_set::texts(walk.loading@).take(walk.loaded as int)[i]);
}

} // verus!
