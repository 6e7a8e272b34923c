//! The directory tree of an in-memory archive.
//!
//! A tree is modelled by the nodes it holds, each under its path: the names that lead to it from
//! the root.

use vstd::prelude::*;

use crate::base::text::{self, compare, TextOrder};

verus! {

/// A directory, with its children sorted by name.
pub struct InMemoryDirectory {
    pub inode: u64,
    pub children: Vec<InMemoryChild>,
    /// Whether the directory is listed in the archive itself, and not only implied by a file or
    /// directory inside it.
    pub explicit: bool,
}

/// A regular file: its bytes stand in the archive from `offset` on.
#[derive(Clone, Copy)]
pub struct File {
    pub inode: u64,
    pub offset: u64,
    pub len: u64,
}

/// What stands under a name.
pub enum InMemoryDirEntry {
    Directory(InMemoryDirectory),
    File(File),
}

/// A named entry of a directory.
pub struct InMemoryChild {
    pub name: String,
    pub entry: InMemoryDirEntry,
}

/// What is known of a path, apart from what lies below it.
#[derive(Clone, Copy, PartialEq, Eq, Structural, Debug)]
pub enum Node {
    Directory { inode: u64, explicit: bool },
    File { inode: u64, offset: u64, len: u64 },
}

/// A path from the root of a tree.
pub type TreePath = Seq<Seq<char>>;

/// Whether a name can stand for one entry of a directory.
pub open spec fn valid_name(name: Seq<char>) -> bool {
    &&& name.len() > 0
    &&& !name.contains('/')
    &&& name != seq!['.']
    &&& name != seq!['.', '.']
}

/// Whether the names of a directory are valid and strictly sorted.
pub open spec fn names_sorted(children: Seq<InMemoryChild>) -> bool {
    &&& forall|i: int| 0 <= i < children.len() ==> valid_name(#[trigger] children[i].name@)
    &&& forall|i: int, j: int|
        0 <= i < j < children.len() ==> text::text_before(
            #[trigger] children[i].name@,
            #[trigger] children[j].name@,
        )
}

/// Whether `name` is the name of a child.
pub open spec fn has_name(children: Seq<InMemoryChild>, name: Seq<char>) -> bool {
    exists|i: int| 0 <= i < children.len() && #[trigger] children[i].name@ == name
}

/// The index of the child with the given name.
pub open spec fn index_of_name(children: Seq<InMemoryChild>, name: Seq<char>) -> int {
    choose|i: int| 0 <= i < children.len() && #[trigger] children[i].name@ == name
}

impl InMemoryDirectory {
    /// A tree is well formed when the names of each directory are.
    pub open spec fn wf(self) -> bool
        decreases self,
    {
        &&& names_sorted(self.children@)
        &&& forall|i: int|
            0 <= i < self.children@.len() ==> match #[trigger] self.children@[i].entry {
                InMemoryDirEntry::Directory(d) => d.wf(),
                InMemoryDirEntry::File(_) => true,
            }
    }

    /// What stands at a path.
    pub open spec fn find_spec(self, path: TreePath) -> Option<Node>
        decreases path.len(),
    {
        if path.len() == 0 {
            Some(Node::Directory { inode: self.inode, explicit: self.explicit })
        } else if !has_name(self.children@, path[0]) {
            None
        } else {
            match self.children@[index_of_name(self.children@, path[0])].entry {
                InMemoryDirEntry::Directory(d) => d.find_spec(path.drop_first()),
                InMemoryDirEntry::File(f) => if path.len() == 1 {
                    Some(Node::File { inode: f.inode, offset: f.offset, len: f.len })
                } else {
                    None
                },
            }
        }
    }

    /// All nodes of the tree under their paths.
    pub open spec fn nodes(self) -> Map<TreePath, Node> {
        Map::new(|p: TreePath| self.find_spec(p) is Some, |p: TreePath| self.find_spec(p)->0)
    }
}

/// What stands at a path below an entry.
pub open spec fn find_below(entry: InMemoryDirEntry, rest: TreePath) -> Option<Node> {
    match entry {
        InMemoryDirEntry::Directory(d) => d.find_spec(rest),
        InMemoryDirEntry::File(f) => if rest.len() == 0 {
            Some(Node::File { inode: f.inode, offset: f.offset, len: f.len })
        } else {
            None
        },
    }
}

/// The texts of a list of names.
pub open spec fn names(v: Seq<String>) -> TreePath {
    v.map_values(|s: String| s@)
}

/// The nodes of a tree that holds one new node, or one changed directory, at `path`.
pub open spec fn changed_at(before: InMemoryDirectory, after: InMemoryDirectory, path: TreePath, node: Node) -> bool {
    forall|p: TreePath| #[trigger]
        after.find_spec(p) == if p == path {
            Some(node)
        } else {
            before.find_spec(p)
        }
}

proof fn lemma_find_child(d: InMemoryDirectory, p: TreePath, j: int)
    requires
        names_sorted(d.children@),
        p.len() > 0,
        0 <= j < d.children@.len(),
        d.children@[j].name@ == p[0],
    ensures
        d.find_spec(p) == find_below(d.children@[j].entry, p.drop_first()),
{
    assert(has_name(d.children@, p[0]));
    let k = index_of_name(d.children@, p[0]);
    text::text_before_irreflexive(p[0]);
    assert(k == j);
}

/// Replacing what lies below one entry changes the tree below that entry alone.
proof fn lemma_entry_changed(
    before: InMemoryDirectory,
    after: InMemoryDirectory,
    i: int,
    path: TreePath,
    node: Node,
)
    requires
        before.wf(),
        path.len() > 0,
        0 <= i < before.children@.len(),
        before.children@[i].name@ == path[0],
        after.inode == before.inode,
        after.explicit == before.explicit,
        after.children@.len() == before.children@.len(),
        after.children@[i].name == before.children@[i].name,
        forall|k: int|
            0 <= k < before.children@.len() && k != i ==> #[trigger] after.children@[k]
                == before.children@[k],
        match after.children@[i].entry {
            InMemoryDirEntry::Directory(d) => d.wf(),
            InMemoryDirEntry::File(_) => true,
        },
        forall|q: TreePath| #[trigger]
            find_below(after.children@[i].entry, q) == if q == path.drop_first() {
                Some(node)
            } else {
                find_below(before.children@[i].entry, q)
            },
    ensures
        after.wf(),
        changed_at(before, after, path, node),
{
    assert forall|k: int| 0 <= k < after.children@.len() implies #[trigger] after.children@[k].name@
        == before.children@[k].name@ by {}
    assert(names_sorted(after.children@));
    assert(after.wf());
    assert forall|p: TreePath| #[trigger]
        after.find_spec(p) == if p == path {
            Some(node)
        } else {
            before.find_spec(p)
        } by {
        if p.len() > 0 {
            if p[0] == path[0] {
                lemma_find_child(before, p, i);
                lemma_find_child(after, p, i);
                if p.drop_first() == path.drop_first() {
                    assert(p =~= seq![p[0]] + p.drop_first());
                    assert(path =~= seq![path[0]] + path.drop_first());
                }
            } else if has_name(before.children@, p[0]) {
                let k = index_of_name(before.children@, p[0]);
                assert(after.children@[k] == before.children@[k]);
                lemma_find_child(before, p, k);
                lemma_find_child(after, p, k);
            } else {
                assert(!has_name(after.children@, p[0]));
            }
        }
    }
}

/// Adding an entry under a new name changes the tree at that name alone.
proof fn lemma_entry_added(
    before: InMemoryDirectory,
    after: InMemoryDirectory,
    i: int,
    path: TreePath,
    node: Node,
)
    requires
        before.wf(),
        path.len() == 1,
        valid_name(path[0]),
        0 <= i <= before.children@.len(),
        !has_name(before.children@, path[0]),
        forall|k: int| 0 <= k < i ==> text::text_before(#[trigger] before.children@[k].name@, path[0]),
        forall|k: int|
            i <= k < before.children@.len() ==> text::text_before(
                path[0],
                #[trigger] before.children@[k].name@,
            ),
        after.inode == before.inode,
        after.explicit == before.explicit,
        after.children@ == before.children@.insert(i, after.children@[i]),
        after.children@[i].name@ == path[0],
        match after.children@[i].entry {
            InMemoryDirEntry::Directory(d) => d.wf() && d.children@.len() == 0 && node
                == (Node::Directory { inode: d.inode, explicit: d.explicit }),
            InMemoryDirEntry::File(f) => node == (Node::File {
                inode: f.inode,
                offset: f.offset,
                len: f.len,
            }),
        },
    ensures
        after.wf(),
        changed_at(before, after, path, node),
{
    let old_children = before.children@;
    let children = after.children@;
    assert forall|k: int| 0 <= k < old_children.len() implies #[trigger] old_children[k]
        == children[if k < i {
        k
    } else {
        k + 1
    }] by {}
    assert forall|k: int| 0 <= k < children.len() && k != i implies #[trigger] children[k]
        == old_children[if k < i {
        k
    } else {
        k - 1
    }] by {}
    assert(names_sorted(children));
    assert forall|k: int| 0 <= k < children.len() implies match #[trigger] children[k].entry {
        InMemoryDirEntry::Directory(d) => d.wf(),
        InMemoryDirEntry::File(_) => true,
    } by {
        if k != i {
            assert(children[k] == old_children[if k < i {
                k
            } else {
                k - 1
            }]);
        }
    }
    assert(after.wf());
    assert forall|p: TreePath| #[trigger]
        after.find_spec(p) == if p == path {
            Some(node)
        } else {
            before.find_spec(p)
        } by {
        if p.len() > 0 {
            if p[0] == path[0] {
                lemma_find_child(after, p, i);
                if p.len() == 1 {
                    assert(p =~= path);
                }
            } else if has_name(old_children, p[0]) {
                let k = index_of_name(old_children, p[0]);
                let k2 = if k < i {
                    k
                } else {
                    k + 1
                };
                assert(children[k2] == old_children[k]);
                lemma_find_child(before, p, k);
                lemma_find_child(after, p, k2);
            } else {
                if has_name(children, p[0]) {
                    let k = index_of_name(children, p[0]);
                    assert(k != i);
                    assert(children[k] == old_children[if k < i {
                        k
                    } else {
                        k - 1
                    }]);
                    assert(has_name(old_children, p[0]));
                }
            }
        }
    }
}

/// Where a name stands among sorted children, or where it would stand.
pub(crate) fn position(children: &Vec<InMemoryChild>, name: &String) -> (r: Result<usize, usize>)
    requires
        names_sorted(children@),
    ensures
        match r {
            Ok(i) => i < children@.len() && children@[i as int].name@ == name@,
            Err(i) => {
                &&& i <= children@.len()
                &&& !has_name(children@, name@)
                &&& forall|k: int| 0 <= k < i ==> text::text_before(#[trigger] children@[k].name@, name@)
                &&& forall|k: int|
                    i <= k < children@.len() ==> text::text_before(name@, #[trigger] children@[k].name@)
            },
        },
{
    let mut i: usize = 0;
    while i < children.len()
        invariant
            i <= children@.len(),
            names_sorted(children@),
            forall|k: int| 0 <= k < i ==> text::text_before(#[trigger] children@[k].name@, name@),
        decreases children@.len() - i,
    {
        match compare(children[i].name.as_str(), name.as_str()) {
            TextOrder::Equal => {
                return Ok(i);
            },
            TextOrder::Greater => {
                proof {
                    assert forall|k: int| i <= k < children@.len() implies text::text_before(
                        name@,
                        #[trigger] children@[k].name@,
                    ) by {
                        if k > i {
                            text::text_before_transitive(
                                name@,
                                children@[i as int].name@,
                                children@[k].name@,
                            );
                        }
                    }
                    text::text_before_irreflexive(name@);
                }
                return Err(i);
            },
            TextOrder::Less => {
                i += 1;
            },
        }
    }
    proof {
        text::text_before_irreflexive(name@);
    }
    Err(i)
}

impl InMemoryDirectory {
    /// Looks a path up: the names from `from` up to `to`.
    pub fn find(&self, path: &Vec<String>, from: usize, to: usize) -> (r: Option<Node>)
        requires
            self.wf(),
            from <= to <= path@.len(),
        ensures
            r == self.find_spec(names(path@).subrange(from as int, to as int)),
        decreases to - from,
    {
        let ghost sub = names(path@).subrange(from as int, to as int);
        if from == to {
            return Some(Node::Directory { inode: self.inode, explicit: self.explicit });
        }
        assert(sub[0] == path@[from as int]@);
        match position(&self.children, &path[from]) {
            Ok(i) => {
                proof {
                    lemma_find_child(*self, sub, i as int);
                    assert(sub.drop_first() =~= names(path@).subrange(from + 1, to as int));
                }
                match &self.children[i].entry {
                    InMemoryDirEntry::Directory(d) => d.find(path, from + 1, to),
                    InMemoryDirEntry::File(f) => {
                        if from + 1 == to {
                            Some(Node::File { inode: f.inode, offset: f.offset, len: f.len })
                        } else {
                            None
                        }
                    },
                }
            },
            Err(_) => None,
        }
    }

    /// Puts a node at a path whose parent is a directory: a new one, or in place of the facts about
    /// a directory that stands there.
    pub fn put(&mut self, path: &Vec<String>, from: usize, to: usize, node: Node)
        requires
            old(self).wf(),
            from < to <= path@.len(),
            valid_name(names(path@)[to - 1]),
            old(self).find_spec(names(path@).subrange(from as int, to - 1)) matches Some(
                Node::Directory { .. },
            ),
            match old(self).find_spec(names(path@).subrange(from as int, to as int)) {
                None => true,
                Some(Node::Directory { .. }) => node is Directory,
                Some(Node::File { .. }) => false,
            },
        ensures
            final(self).wf(),
            changed_at(*old(self), *final(self), names(path@).subrange(from as int, to as int), node),
        decreases to - from,
    {
        let ghost before = *self;
        let ghost sub = names(path@).subrange(from as int, to as int);
        assert(sub[0] == path@[from as int]@);
        match position(&self.children, &path[from]) {
            Ok(i) => {
                proof {
                    lemma_find_child(before, sub, i as int);
                    assert(sub.drop_first() =~= names(path@).subrange(from + 1, to as int));
                    if from + 1 < to {
                        let up = names(path@).subrange(from as int, to - 1);
                        assert(up[0] == path@[from as int]@);
                        lemma_find_child(before, up, i as int);
                        assert(up.drop_first() =~= names(path@).subrange(from + 1, to - 1));
                    }
                }
                match &mut self.children[i].entry {
                    InMemoryDirEntry::Directory(d) => {
                        if from + 1 == to {
                            match node {
                                Node::Directory { inode, explicit } => {
                                    d.inode = inode;
                                    d.explicit = explicit;
                                },
                                Node::File { .. } => {},
                            }
                        } else {
                            d.put(path, from + 1, to, node);
                        }
                    },
                    InMemoryDirEntry::File(_) => {},
                }
                proof {
                    let old_entry = before.children@[i as int].entry;
                    let new_entry = self.children@[i as int].entry;
                    assert forall|q: TreePath| #[trigger]
                        find_below(new_entry, q) == if q == sub.drop_first() {
                            Some(node)
                        } else {
                            find_below(old_entry, q)
                        } by {
                        if from + 1 == to {
                            assert(sub.drop_first() =~= Seq::<Seq<char>>::empty());
                            if q.len() == 0 {
                                assert(q =~= sub.drop_first());
                            }
                        }
                    }
                    assert(before.children@[i as int].entry matches InMemoryDirEntry::Directory(d) && d.wf());
                    if from + 1 == to {
                        assert(new_entry->Directory_0.children == old_entry->Directory_0.children);
                        assert(new_entry->Directory_0.wf());
                    }
                    lemma_entry_changed(before, *self, i as int, sub, node);
                }
            },
            Err(i) => {
                let entry = match node {
                    Node::Directory { inode, explicit } => InMemoryDirEntry::Directory(
                        InMemoryDirectory { inode, children: Vec::new(), explicit },
                    ),
                    Node::File { inode, offset, len } => InMemoryDirEntry::File(
                        File { inode, offset, len },
                    ),
                };
                self.children.insert(i, InMemoryChild { name: path[from].clone(), entry });
                proof {
                    if from + 1 < to {
                        let up = names(path@).subrange(from as int, to - 1);
                        assert(up[0] == path@[from as int]@);
                    }
                    lemma_entry_added(before, *self, i as int, sub, node);
                }
            },
        }
    }
}

/// What a lookup finds.
pub enum LookupResult<'a> {
    File(&'a File),
    Directory(&'a InMemoryDirectory),
}

impl InMemoryDirectory {
    /// The entry at a path, with all that lies below it.
    pub open spec fn entry_at(self, path: TreePath) -> Option<InMemoryDirEntry>
        decreases path.len(),
    {
        if path.len() == 0 {
            Some(InMemoryDirEntry::Directory(self))
        } else if !has_name(self.children@, path[0]) {
            None
        } else {
            match self.children@[index_of_name(self.children@, path[0])].entry {
                InMemoryDirEntry::Directory(d) => d.entry_at(path.drop_first()),
                InMemoryDirEntry::File(f) => if path.len() == 1 {
                    Some(InMemoryDirEntry::File(f))
                } else {
                    None
                },
            }
        }
    }

    /// Looks a path up: the names from `from` on.
    pub fn lookup<'a>(&'a self, path: &Vec<String>, from: usize) -> (r: Option<LookupResult<'a>>)
        requires
            self.wf(),
            from <= path@.len(),
        ensures
            match r {
                None => self.entry_at(names(path@).skip(from as int)) is None,
                Some(LookupResult::File(f)) => self.entry_at(names(path@).skip(from as int)) == Some(
                    InMemoryDirEntry::File(*f),
                ),
                Some(LookupResult::Directory(d)) => self.entry_at(names(path@).skip(from as int))
                    == Some(InMemoryDirEntry::Directory(*d)) && d.wf(),
            },
        decreases path@.len() - from,
    {
        let ghost rest = names(path@).skip(from as int);
        if from == path.len() {
            return Some(LookupResult::Directory(self));
        }
        match position(&self.children, &path[from]) {
            Ok(i) => {
                proof {
                    child_index(*self, rest[0], i as int);
                    assert(rest.drop_first() =~= names(path@).skip(from + 1));
                }
                match &self.children[i].entry {
                    InMemoryDirEntry::Directory(d) => d.lookup(path, from + 1),
                    InMemoryDirEntry::File(f) => {
                        if from + 1 == path.len() {
                            Some(LookupResult::File(f))
                        } else {
                            None
                        }
                    },
                }
            },
            Err(_) => None,
        }
    }
}

/// A name stands in a directory at one place.
pub proof fn child_index(d: InMemoryDirectory, name: Seq<char>, i: int)
    requires
        names_sorted(d.children@),
        0 <= i < d.children@.len(),
        d.children@[i].name@ == name,
    ensures
        has_name(d.children@, name),
        index_of_name(d.children@, name) == i,
{
    text::text_before_irreflexive(name);
    let k = index_of_name(d.children@, name);
    assert(d.children@[k].name@ == name);
}

/// The entry at a path and the node at it tell the same, and what is found in a well-formed tree is
/// well formed.
pub proof fn entry_at_agrees(d: InMemoryDirectory, path: TreePath)
    requires
        d.wf(),
    ensures
        d.find_spec(path) == match d.entry_at(path) {
            None => None,
            Some(entry) => find_below(entry, Seq::empty()),
        },
        d.entry_at(path) matches Some(InMemoryDirEntry::Directory(found)) ==> found.wf(),
    decreases path.len(),
{
    if path.len() > 0 && has_name(d.children@, path[0]) {
        let k = index_of_name(d.children@, path[0]);
        assert(d.children@[k].name@ == path[0]);
        match d.children@[k].entry {
            InMemoryDirEntry::Directory(c) => {
                entry_at_agrees(c, path.drop_first());
            },
            InMemoryDirEntry::File(_) => {},
        }
    }
}

/// What stands in a directory under a name stands at the path of the directory and the name.
pub proof fn entry_at_child(d: InMemoryDirectory, path: TreePath, found: InMemoryDirectory, i: int)
    requires
        d.wf(),
        d.entry_at(path) == Some(InMemoryDirEntry::Directory(found)),
        0 <= i < found.children@.len(),
    ensures
        d.entry_at(path.push(found.children@[i].name@)) == Some(found.children@[i].entry),
    decreases path.len(),
{
    let name = found.children@[i].name@;
    let long = path.push(name);
    if path.len() == 0 {
        child_index(d, name, i);
        assert(long.drop_first() =~= Seq::<Seq<char>>::empty());
        reveal_with_fuel(InMemoryDirectory::entry_at, 2);
    } else {
        let k = index_of_name(d.children@, path[0]);
        assert(d.children@[k].name@ == path[0]);
        assert(long.drop_first() =~= path.drop_first().push(name));
        assert(long[0] == path[0]);
        match d.children@[k].entry {
            InMemoryDirEntry::Directory(c) => {
                entry_at_child(c, path.drop_first(), found, i);
            },
            InMemoryDirEntry::File(_) => {},
        }
    }
}

/// The names of a path that leads to something are valid.
pub proof fn found_names_are_valid(d: InMemoryDirectory, path: TreePath, i: int)
    requires
        d.wf(),
        d.entry_at(path) is Some,
        0 <= i < path.len(),
    ensures
        valid_name(path[i]),
    decreases path.len(),
{
    let k = index_of_name(d.children@, path[0]);
    assert(valid_name(d.children@[k].name@));
    if i > 0 {
        match d.children@[k].entry {
            InMemoryDirEntry::Directory(c) => {
                found_names_are_valid(c, path.drop_first(), i - 1);
            },
            InMemoryDirEntry::File(_) => {},
        }
    }
}

/// A name can stand for an entry exactly where it is not empty, holds no slash, and is not one or two dots.
pub proof fn names_of_entries(name: Seq<char>)
    ensures
        valid_name(name) <==> name.len() > 0 && !name.contains('/') && !(name.len() == 1 && name[0] == '.') && !(
        name.len() == 2 && name[0] == '.' && name[1] == '.'),
{
    if name.len() == 1 && name[0] == '.' {
        assert(name =~= seq!['.']);
    }
    if name.len() == 2 && name[0] == '.' && name[1] == '.' {
        assert(name =~= seq!['.', '.']);
    }
}

/// A path leads from a directory through the child with its first name, and on from there. It ends at a
/// file, and leads nowhere where there is no such child.
pub proof fn paths_lead_through_children(d: InMemoryDirectory, i: int, name: Seq<char>, rest: TreePath)
    requires
        d.wf(),
        0 <= i < d.children@.len(),
    ensures
        d.find_spec(Seq::empty()) == Some(Node::Directory { inode: d.inode, explicit: d.explicit }),
        d.entry_at(Seq::empty()) == Some(InMemoryDirEntry::Directory(d)),
        match d.children@[i].entry {
            InMemoryDirEntry::Directory(c) => {
                &&& d.find_spec(seq![d.children@[i].name@] + rest) == c.find_spec(rest)
                &&& d.entry_at(seq![d.children@[i].name@] + rest) == c.entry_at(rest)
            },
            InMemoryDirEntry::File(f) => {
                &&& d.find_spec(seq![d.children@[i].name@] + rest) == if rest.len() == 0 {
                    Some(Node::File { inode: f.inode, offset: f.offset, len: f.len })
                } else {
                    None
                }
                &&& d.entry_at(seq![d.children@[i].name@] + rest) == if rest.len() == 0 {
                    Some(InMemoryDirEntry::File(f))
                } else {
                    None
                }
            },
        },
        (forall|k: int| 0 <= k < d.children@.len() ==> (#[trigger] d.children@[k]).name@ != name) ==> {
            &&& d.find_spec(seq![name] + rest) is None
            &&& d.entry_at(seq![name] + rest) is None
        },
{
    child_index(d, d.children@[i].name@, i);
    assert((seq![d.children@[i].name@] + rest).drop_first() =~= rest);
    assert((seq![d.children@[i].name@] + rest)[0] == d.children@[i].name@);
    assert((seq![name] + rest)[0] == name);
}

/// A change at a path changes nothing else.
pub proof fn changes_stay_at_their_path(
    before: InMemoryDirectory,
    after: InMemoryDirectory,
    path: TreePath,
    node: Node,
    other: TreePath,
)
    requires
        changed_at(before, after, path, node),
        other != path,
    ensures
        after.find_spec(path) == Some(node),
        after.find_spec(other) == before.find_spec(other),
{
}

/// The names of a list are told one by one.
pub proof fn names_are_told_one_by_one(v: Seq<String>)
    ensures
        names(v).len() == v.len(),
        forall|i: int| 0 <= i < v.len() ==> #[trigger] names(v)[i] == v[i]@,
{
}

/// The children of a directory come in the order of their names, each with a name that can stand for an entry,
/// and so do those of every directory in it.
pub proof fn children_come_in_order(d: InMemoryDirectory, i: int, j: int)
    requires
        d.wf(),
        0 <= i < d.children@.len(),
    ensures
        d.children@[i].name@.len() > 0,
        !d.children@[i].name@.contains('/'),
        i < j < d.children@.len() ==> text::text_before(d.children@[i].name@, d.children@[j].name@),
        d.children@[i].entry matches InMemoryDirEntry::Directory(c) ==> c.wf(),
{
}

} // verus!
