//! The roots that an in-memory archive exposes.

use vstd::prelude::*;

use crate::api::types::Filetype;
use crate::base::paths;
use crate::fs::memory_handle::{self, StaticHandle};
use crate::fs::memory_tar::InMemoryTar;
use crate::fs::memory_tree::{self, InMemoryDirEntry, InMemoryDirectory, TreePath};

verus! {

/// The roots of a tree in the order of names: a directory that is listed in the archive itself is a
/// root, and nothing below it is. Otherwise its files are roots, and the roots of its directories.
pub open spec fn roots_below(d: InMemoryDirectory, prefix: TreePath) -> Seq<(Filetype, TreePath)>
    decreases d, d.children@.len() + 1,
{
    if d.explicit {
        seq![(Filetype::Directory, prefix)]
    } else {
        child_roots(d, d.children@.len(), prefix)
    }
}

/// The roots among the first `n` children.
pub open spec fn child_roots(d: InMemoryDirectory, n: nat, prefix: TreePath) -> Seq<
    (Filetype, TreePath),
>
    decreases d, n,
{
    if n == 0 || n > d.children@.len() {
        Seq::empty()
    } else {
        child_roots(d, (n - 1) as nat, prefix) + match d.children@[n - 1].entry {
            InMemoryDirEntry::Directory(c) => roots_below(c, prefix.push(d.children@[n - 1].name@)),
            InMemoryDirEntry::File(_) => seq![
                (Filetype::RegularFile, prefix.push(d.children@[n - 1].name@)),
            ],
        }
    }
}

/// Whether a path is a root: a file, or a directory that is listed itself, with no such directory
/// on the way to it.
pub open spec fn is_root(d: InMemoryDirectory, path: TreePath) -> bool
    decreases path.len(),
{
    if path.len() == 0 {
        d.explicit
    } else {
        &&& !d.explicit
        &&& memory_tree::has_name(d.children@, path[0])
        &&& match d.children@[memory_tree::index_of_name(d.children@, path[0])].entry {
            InMemoryDirEntry::Directory(c) => is_root(c, path.drop_first()),
            InMemoryDirEntry::File(_) => path.len() == 1,
        }
    }
}

/// Every root that is listed is one, and its type is that of what stands there.
pub proof fn listed_roots_are_roots(d: InMemoryDirectory, prefix: TreePath, i: int)
    requires
        d.wf(),
        0 <= i < roots_below(d, prefix).len(),
    ensures
        ({
            let path = roots_below(d, prefix)[i].1.skip(prefix.len() as int);
            &&& roots_below(d, prefix)[i].1 == prefix + path
            &&& is_root(d, path)
            &&& d.entry_at(path) matches Some(entry) && memory_handle::entry_file_type(entry)
                == roots_below(d, prefix)[i].0
        }),
    decreases d, d.children@.len() + 1,
{
    if d.explicit {
        let path = prefix.skip(prefix.len() as int);
        assert(path =~= Seq::<Seq<char>>::empty());
        assert(prefix =~= prefix + path);
    } else {
        lemma_child_roots_sound(d, d.children@.len(), prefix, i);
    }
}

proof fn lemma_child_roots_sound(d: InMemoryDirectory, n: nat, prefix: TreePath, i: int)
    requires
        d.wf(),
        !d.explicit,
        n <= d.children@.len(),
        0 <= i < child_roots(d, n, prefix).len(),
    ensures
        ({
            let path = child_roots(d, n, prefix)[i].1.skip(prefix.len() as int);
            &&& child_roots(d, n, prefix)[i].1 == prefix + path
            &&& is_root(d, path)
            &&& d.entry_at(path) matches Some(entry) && memory_handle::entry_file_type(entry)
                == child_roots(d, n, prefix)[i].0
        }),
    decreases d, n,
{
    let before = child_roots(d, (n - 1) as nat, prefix);
    if i < before.len() {
        lemma_child_roots_sound(d, (n - 1) as nat, prefix, i);
    } else {
        let child = d.children@[n - 1];
        let longer = prefix.push(child.name@);
        let whole = child_roots(d, n, prefix)[i].1;
        let path = whole.skip(prefix.len() as int);
        memory_tree::child_index(d, child.name@, n - 1);
        match child.entry {
            InMemoryDirEntry::Directory(c) => {
                listed_roots_are_roots(c, longer, i - before.len());
                let below = whole.skip(longer.len() as int);
                assert(whole =~= prefix + path);
                assert(path[0] == child.name@) by {
                    assert(whole[prefix.len() as int] == longer[prefix.len() as int]);
                }
                assert(path.drop_first() =~= below);
            },
            InMemoryDirEntry::File(_) => {
                assert(path =~= seq![child.name@]);
                assert(whole =~= prefix + path);
            },
        }
    }
}

/// Every root is listed.
pub proof fn roots_are_listed(d: InMemoryDirectory, prefix: TreePath, path: TreePath)
    requires
        d.wf(),
        is_root(d, path),
    ensures
        exists|i: int|
            0 <= i < roots_below(d, prefix).len() && (#[trigger] roots_below(d, prefix)[i]).1
                == prefix + path,
    decreases path.len(),
{
    if path.len() == 0 {
        assert(prefix + path =~= prefix);
        assert(roots_below(d, prefix)[0].1 == prefix);
    } else {
        let k = memory_tree::index_of_name(d.children@, path[0]);
        assert(d.children@[k].name@ == path[0]);
        let longer = prefix.push(path[0]);
        let before = child_roots(d, k as nat, prefix);
        let j = match d.children@[k].entry {
            InMemoryDirEntry::Directory(c) => {
                roots_are_listed(c, longer, path.drop_first());
                assert(longer + path.drop_first() =~= prefix + path);
                choose|j: int|
                    0 <= j < roots_below(c, longer).len() && (#[trigger] roots_below(c, longer)[j]).1
                        == longer + path.drop_first()
            },
            InMemoryDirEntry::File(_) => {
                assert(longer =~= prefix + path);
                0
            },
        };
        assert(child_roots(d, (k + 1) as nat, prefix)[before.len() + j].1 == prefix + path);
        lemma_child_roots_grow(d, (k + 1) as nat, d.children@.len(), prefix, before.len() + j);
        assert(roots_below(d, prefix)[before.len() + j].1 == prefix + path);
    }
}

proof fn lemma_child_roots_grow(d: InMemoryDirectory, n: nat, m: nat, prefix: TreePath, i: int)
    requires
        n <= m <= d.children@.len(),
        0 <= i < child_roots(d, n, prefix).len(),
    ensures
        i < child_roots(d, m, prefix).len(),
        child_roots(d, m, prefix)[i] == child_roots(d, n, prefix)[i],
    decreases m - n,
{
    if n < m {
        lemma_child_roots_grow(d, n, (m - 1) as nat, prefix, i);
    }
}

/// Roots that were collected, with the texts of their paths.
pub open spec fn collected(accum: Seq<(Filetype, String)>) -> Seq<(Filetype, Seq<char>)> {
    accum.map_values(|root: (Filetype, String)| (root.0, root.1@))
}

/// The texts of the paths of roots.
pub open spec fn root_texts(roots: Seq<(Filetype, TreePath)>) -> Seq<(Filetype, Seq<char>)> {
    roots.map_values(|root: (Filetype, TreePath)| (root.0, paths::path_text(root.1)))
}

proof fn lemma_path_text_push(path: TreePath, name: Seq<char>)
    ensures
        paths::path_text(path.push(name)) == paths::path_text(path).push('/') + name,
{
    assert(path.push(name).drop_last() =~= path);
}

impl InMemoryDirectory {
    /// Collects the roots of this directory, whose path is `prefix`.
    fn get_roots(
        &self,
        prefix: &str,
        accum: &mut Vec<(Filetype, String)>,
        Ghost(path): Ghost<TreePath>,
    )
        requires
            prefix@ == paths::path_text(path),
        ensures
            collected(final(accum)@) == collected(old(accum)@) + root_texts(roots_below(*self, path)),
        decreases self,
    {
        let ghost before = collected(accum@);
        if self.explicit {
            accum.push((Filetype::Directory, prefix.to_owned()));
            assert(collected(accum@) =~= before + root_texts(roots_below(*self, path)));
        } else {
            let mut i: usize = 0;
            assert(collected(accum@) =~= before + root_texts(child_roots(*self, 0, path)));
            while i < self.children.len()
                invariant
                    i <= self.children@.len(),
                    prefix@ == paths::path_text(path),
                    collected(accum@) == before + root_texts(child_roots(*self, i as nat, path)),
                decreases self.children@.len() - i,
            {
                let mut child_prefix = prefix.to_owned();
                child_prefix.push('/');
                child_prefix.append(self.children[i].name.as_str());
                let ghost name = self.children@[i as int].name@;
                let ghost done = collected(accum@);
                proof {
                    lemma_path_text_push(path, name);
                    assert(child_prefix@ =~= paths::path_text(path.push(name)));
                }
                match &self.children[i].entry {
                    InMemoryDirEntry::Directory(d) => {
                        d.get_roots(child_prefix.as_str(), accum, Ghost(path.push(name)));
                    },
                    InMemoryDirEntry::File(_) => {
                        accum.push((Filetype::RegularFile, child_prefix));
                        assert(collected(accum@) =~= done + root_texts(
                            seq![(Filetype::RegularFile, path.push(name))],
                        ));
                    },
                }
                i += 1;
                assert(collected(accum@) =~= before + root_texts(
                    child_roots(*self, i as nat, path),
                ));
            }
        }
    }
}

impl InMemoryTar {
    /// The roots of the archive, each with its path.
    pub fn roots(&self) -> (r: Vec<(String, StaticHandle)>)
        requires
            self.0.wf(),
        ensures
            r@.len() == roots_below(self.0.root, Seq::empty()).len(),
            forall|i: int|
                0 <= i < r@.len() ==> {
                    let root = #[trigger] r@[i];
                    &&& root.0@ == paths::path_text(roots_below(self.0.root, Seq::empty())[i].1)
                    &&& root.1.wf()
                    &&& root.1.filesystem == self.0
                    &&& root.1.path@ == root.0@
                },
    {
        let mut accum: Vec<(Filetype, String)> = Vec::new();
        let ghost listed = roots_below(self.tree(), Seq::empty());
        proof {
            reveal_strlit("");
            assert(""@ =~= paths::path_text(Seq::empty()));
        }
        self.0.root.get_roots("", &mut accum, Ghost(Seq::empty()));
        assert(collected(accum@) =~= root_texts(listed));
        let mut r: Vec<(String, StaticHandle)> = Vec::new();
        let mut i: usize = 0;
        while i < accum.len()
            invariant
                self.0.wf(),
                listed == roots_below(self.0.root, Seq::empty()),
                collected(accum@) == root_texts(listed),
                accum@.len() == listed.len(),
                i <= accum@.len(),
                r@.len() == i,
                forall|k: int|
                    0 <= k < r@.len() ==> {
                        let root = #[trigger] r@[k];
                        &&& root.0@ == paths::path_text(listed[k].1)
                        &&& root.1.wf()
                        &&& root.1.filesystem == self.0
                        &&& root.1.path@ == root.0@
                    },
            decreases accum@.len() - i,
        {
            let path = accum[i].1.clone();
            proof {
                let tree = self.tree();
                let whole = listed[i as int].1;
                assert(collected(accum@)[i as int].1 == root_texts(listed)[i as int].1);
                listed_roots_are_roots(tree, Seq::empty(), i as int);
                assert(whole.skip(0) =~= whole);
                assert forall|k: int| 0 <= k < whole.len() implies memory_tree::valid_name(
                    #[trigger] whole[k],
                ) by {
                    memory_tree::found_names_are_valid(tree, whole, k);
                }
                paths::segments_of_path_text(whole);
            }
            r.push((path.clone(), StaticHandle { filesystem: self.0.clone(), path }));
            i += 1;
        }
        r
    }

    pub open spec fn tree(self) -> InMemoryDirectory {
        self.0.root
    }
}

/// A directory that is listed itself is the only root of its tree. Of any other the files are roots, and the
/// roots of the directories in it.
pub proof fn roots_are_the_listed_directories_and_loose_files(
    d: InMemoryDirectory,
    i: int,
    prefix: TreePath,
    rest: TreePath,
)
    requires
        d.wf(),
    ensures
        d.explicit ==> roots_below(d, prefix) == seq![(Filetype::Directory, prefix)],
        d.explicit ==> (is_root(d, rest) <==> rest.len() == 0),
        !d.explicit ==> !is_root(d, Seq::empty()),
        !d.explicit && 0 <= i < d.children@.len() ==> match d.children@[i].entry {
            InMemoryDirEntry::File(_) => is_root(d, seq![d.children@[i].name@] + rest) <==> rest.len() == 0,
            InMemoryDirEntry::Directory(c) => is_root(d, seq![d.children@[i].name@] + rest) <==> is_root(c, rest),
        },
{
    if 0 <= i < d.children@.len() {
        memory_tree::child_index(d, d.children@[i].name@, i);
        assert((seq![d.children@[i].name@] + rest).drop_first() =~= rest);
        assert((seq![d.children@[i].name@] + rest)[0] == d.children@[i].name@);
    }
}

/// Roots are told one by one, each with its type and path.
pub proof fn roots_are_told_one_by_one(accum: Seq<(Filetype, String)>, roots: Seq<(Filetype, TreePath)>)
    ensures
        collected(accum).len() == accum.len(),
        forall|i: int|
            0 <= i < accum.len() ==> #[trigger] collected(accum)[i] == (accum[i].0, accum[i].1@),
        root_texts(roots).len() == roots.len(),
        forall|i: int|
            0 <= i < roots.len() ==> #[trigger] root_texts(roots)[i] == (roots[i].0, paths::path_text(roots[i].1)),
{
}

/// The roots among children come in the order of the children: a file for itself, and the roots of a directory.
pub proof fn roots_come_in_the_order_of_names(d: InMemoryDirectory, i: int, prefix: TreePath)
    requires
        0 <= i < d.children@.len(),
    ensures
        child_roots(d, 0, prefix) == Seq::<(Filetype, TreePath)>::empty(),
        ({
            let name = d.children@[i].name@;
            child_roots(d, (i + 1) as nat, prefix) == child_roots(d, i as nat, prefix) + match d.children@[i].entry {
                InMemoryDirEntry::Directory(c) => roots_below(c, prefix.push(name)),
                InMemoryDirEntry::File(_) => seq![(Filetype::RegularFile, prefix.push(name))],
            }
        }),
        !d.explicit ==> roots_below(d, prefix) == child_roots(d, d.children@.len(), prefix),
{
}

} // verus!
