//! A read-only file system whose files are the entries of an in-memory tar archive.

use vstd::prelude::*;

use crate::base::bytes::{self, bytes_equal, decode_text, split_bytes};
use crate::base::text;
use crate::fs::memory_tree::{self, InMemoryDirEntry, InMemoryDirectory, Node, TreePath};
use crate::fs::tar_archive::{self, read_archive, TarEntry, TarEntryModel, KIND_DIRECTORY, KIND_REGULAR};

verus! {

/// Why an archive cannot be used as a file system.
#[derive(Debug)]
pub enum BuildError {
    /// The data is not a valid tar archive.
    InvalidTar(std::io::Error),
    /// A path inside the archive has a `..` in it.
    UnexpectedParentEntry,
    /// A file or directory is there twice.
    DuplicateEntry,
    /// The entry is neither a regular file nor a directory. The byte is its entry type.
    UnsupportedEntryType(u8),
    /// A file name is not valid UTF-8.
    InvalidUtf8Filename(core::str::Utf8Error),
}

/// The kind of a build error.
pub enum BuildFailure {
    InvalidTar,
    UnexpectedParentEntry,
    DuplicateEntry,
    UnsupportedEntryType(u8),
    InvalidUtf8Filename,
}

impl View for BuildError {
    type V = BuildFailure;

    open spec fn view(&self) -> BuildFailure {
        match self {
            BuildError::InvalidTar(_) => BuildFailure::InvalidTar,
            BuildError::UnexpectedParentEntry => BuildFailure::UnexpectedParentEntry,
            BuildError::DuplicateEntry => BuildFailure::DuplicateEntry,
            BuildError::UnsupportedEntryType(k) => BuildFailure::UnsupportedEntryType(*k),
            BuildError::InvalidUtf8Filename(_) => BuildFailure::InvalidUtf8Filename,
        }
    }
}

/// The nodes of a file system under their paths, and how many inodes were given out.
pub struct TreeModel {
    pub nodes: Map<TreePath, Node>,
    pub allocated: nat,
}

/// The inode that is given out after `allocated` others.
pub open spec fn inode_number(allocated: nat) -> u64 {
    (allocated % 0x1_0000_0000_0000_0000) as u64
}

/// A file system with the root directory alone.
pub open spec fn empty_tree() -> TreeModel {
    TreeModel {
        nodes: Map::empty().insert(
            Seq::empty(),
            Node::Directory { inode: 0, explicit: false },
        ),
        allocated: 1,
    }
}

/// Whether a piece of a path names something, and is not empty or the directory itself.
pub open spec fn kept_piece(piece: Seq<u8>) -> bool {
    piece.len() > 0 && piece != seq![0x2eu8]
}

/// The pieces of an archive path that name something.
pub open spec fn path_pieces(path: Seq<u8>) -> Seq<Seq<u8>> {
    bytes::split_on(path, 0x2fu8).filter(|piece: Seq<u8>| kept_piece(piece))
}

/// The tree with a directory at `path`: the one that stands there, or a new one that is not listed
/// in the archive itself.
pub open spec fn with_parent(m: TreeModel, path: TreePath) -> Result<TreeModel, BuildFailure> {
    if !m.nodes.contains_key(path) {
        Ok(
            TreeModel {
                nodes: m.nodes.insert(
                    path,
                    Node::Directory { inode: inode_number(m.allocated), explicit: false },
                ),
                allocated: m.allocated + 1,
            },
        )
    } else if m.nodes[path] is Directory {
        Ok(m)
    } else {
        Err(BuildFailure::DuplicateEntry)
    }
}

/// The tree with an entry of the archive at `path`. Something may stand there already only where a
/// directory was implied so far and is listed now.
pub open spec fn with_entry(m: TreeModel, path: TreePath, entry: TarEntryModel) -> Result<
    TreeModel,
    BuildFailure,
> {
    let inode = inode_number(m.allocated);
    if m.nodes.contains_key(path) {
        match m.nodes[path] {
            Node::Directory { inode: old_inode, explicit: false } if entry.kind
                == KIND_DIRECTORY => Ok(
                TreeModel {
                    nodes: m.nodes.insert(
                        path,
                        Node::Directory { inode: old_inode, explicit: true },
                    ),
                    allocated: m.allocated,
                },
            ),
            _ => Err(BuildFailure::DuplicateEntry),
        }
    } else if entry.kind == KIND_REGULAR {
        match entry.size {
            Some(len) => Ok(
                TreeModel {
                    nodes: m.nodes.insert(
                        path,
                        Node::File { inode, offset: entry.position, len },
                    ),
                    allocated: m.allocated + 1,
                },
            ),
            None => Err(BuildFailure::InvalidTar),
        }
    } else if entry.kind == KIND_DIRECTORY {
        Ok(
            TreeModel {
                nodes: m.nodes.insert(path, Node::Directory { inode, explicit: true }),
                allocated: m.allocated + 1,
            },
        )
    } else {
        Err(BuildFailure::UnsupportedEntryType(entry.kind))
    }
}

/// The tree with an entry whose path goes on from the directory `at` by `pieces`.
pub open spec fn with_pieces(
    m: TreeModel,
    at: TreePath,
    pieces: Seq<Seq<u8>>,
    entry: TarEntryModel,
) -> Result<TreeModel, BuildFailure>
    decreases pieces.len(),
{
    if pieces.len() == 0 {
        Ok(m)
    } else if !vstd::utf8::valid_utf8(pieces[0]) {
        Err(BuildFailure::InvalidUtf8Filename)
    } else if vstd::utf8::decode_utf8(pieces[0]) == seq!['.', '.'] {
        Err(BuildFailure::UnexpectedParentEntry)
    } else {
        let path = at.push(vstd::utf8::decode_utf8(pieces[0]));
        if pieces.len() == 1 {
            with_entry(m, path, entry)
        } else {
            match with_parent(m, path) {
                Ok(next) => with_pieces(next, path, pieces.drop_first(), entry),
                Err(e) => Err(e),
            }
        }
    }
}

/// The tree with all entries of a listing, taken in order.
pub open spec fn with_listing(m: TreeModel, listing: Seq<Option<TarEntryModel>>) -> Result<
    TreeModel,
    BuildFailure,
>
    decreases listing.len(),
{
    if listing.len() == 0 {
        Ok(m)
    } else {
        match listing[0] {
            None => Err(BuildFailure::InvalidTar),
            Some(entry) => match with_pieces(m, Seq::empty(), path_pieces(entry.path), entry) {
                Ok(next) => with_listing(next, listing.drop_first()),
                Err(e) => Err(e),
            },
        }
    }
}

/// The pieces of an archive path that name something.
fn path_pieces_of(path: &Vec<u8>) -> (r: Vec<Vec<u8>>)
    ensures
        bytes::byte_strings(r@) == path_pieces(path@),
{
    let all = split_bytes(path.as_slice(), 0x2f);
    let mut kept: Vec<Vec<u8>> = Vec::new();
    let ghost keep = |piece: Seq<u8>| kept_piece(piece);
    let ghost pieces = bytes::byte_strings(all@);
    let dot: [u8; 1] = [0x2e];
    let mut i: usize = 0;
    assert(pieces.take(0).filter(keep) =~= Seq::<Seq<u8>>::empty()) by {
        reveal(Seq::filter);
    }
    while i < all.len()
        invariant
            i <= all@.len(),
            pieces == bytes::byte_strings(all@),
            dot@ =~= seq![0x2eu8],
            keep == (|piece: Seq<u8>| kept_piece(piece)),
            bytes::byte_strings(kept@) == pieces.take(i as int).filter(keep),
        decreases all@.len() - i,
    {
        let ghost before = bytes::byte_strings(kept@);
        proof {
            reveal(Seq::filter);
            assert(pieces.take(i + 1).drop_last() =~= pieces.take(i as int));
            assert(pieces.take(i + 1).last() == all@[i as int]@);
        }
        if all[i].len() > 0 && !bytes_equal(all[i].as_slice(), dot.as_slice()) {
            let piece = all[i].clone();
            assert(piece@ =~= all@[i as int]@);
            kept.push(piece);
            assert(bytes::byte_strings(kept@) =~= before.push(all@[i as int]@));
        }
        i += 1;
    }
    assert(pieces.take(pieces.len() as int) =~= pieces);
    kept
}

/// The bytes of a name, decoded, cannot mean anything but an entry of a directory.
proof fn lemma_piece_is_name(path: Seq<u8>, i: int)
    requires
        0 <= i < path_pieces(path).len(),
        vstd::utf8::valid_utf8(path_pieces(path)[i]),
        vstd::utf8::decode_utf8(path_pieces(path)[i]) != seq!['.', '.'],
        vstd::utf8::encode_utf8(vstd::utf8::decode_utf8(path_pieces(path)[i])) == path_pieces(path)[i],
    ensures
        memory_tree::valid_name(vstd::utf8::decode_utf8(path_pieces(path)[i])),
{
    let pieces = bytes::split_on(path, 0x2fu8);
    let keep = |piece: Seq<u8>| kept_piece(piece);
    let piece = path_pieces(path)[i];
    let name = vstd::utf8::decode_utf8(piece);
    pieces.lemma_filter_contains_rev(keep, piece);
    broadcast use vstd::seq_lib::group_filter_ensures;
    assert(keep(piece));
    bytes::split_on_pieces(path, 0x2fu8);
    let k = choose|k: int| 0 <= k < pieces.len() && pieces[k] == piece;
    assert(!pieces[k].contains(0x2fu8));
    if name.contains('/') {
        bytes::ascii_char_in_bytes(name, '/');
    }
    if name.len() == 0 {
        assert(vstd::utf8::encode_utf8(name) =~= Seq::<u8>::empty());
    }
    if name == seq!['.'] {
        vstd::utf8::is_ascii_chars_encode_utf8(name);
        assert(vstd::utf8::encode_utf8(name) =~= seq![0x2eu8]);
    }
}

proof fn lemma_nodes_changed(before: InMemoryDirectory, after: InMemoryDirectory, path: TreePath, node: Node)
    requires
        memory_tree::changed_at(before, after, path, node),
    ensures
        after.nodes() == before.nodes().insert(path, node),
{
    assert forall|p: TreePath| #[trigger] after.nodes().contains_key(p) == before.nodes().insert(
        path,
        node,
    ).contains_key(p) by {
        assert(after.nodes().contains_key(p) == (after.find_spec(p) is Some));
    }
    assert(after.nodes() =~= before.nodes().insert(path, node));
}

/// Adds one entry of the archive to the tree.
fn add_entry(
    root: &mut InMemoryDirectory,
    next_inode: u64,
    entry: TarEntry,
    Ghost(start): Ghost<TreeModel>,
) -> (r: Result<(u64, Ghost<TreeModel>), BuildError>)
    requires
        old(root).wf(),
        start.nodes == old(root).nodes(),
        next_inode == inode_number(start.allocated),
    ensures
        match r {
            Ok((inode, m)) => {
                &&& with_pieces(start, Seq::empty(), path_pieces(entry.path@), entry@) == Ok::<
                    TreeModel,
                    BuildFailure,
                >(m@)
                &&& final(root).wf()
                &&& m@.nodes == final(root).nodes()
                &&& inode == inode_number(m@.allocated)
            },
            Err(e) => with_pieces(start, Seq::empty(), path_pieces(entry.path@), entry@) == Err::<
                TreeModel,
                BuildFailure,
            >(e@),
        },
{
    let pieces = path_pieces_of(&entry.path);
    let ghost model = path_pieces(entry.path@);
    let mut inode: u64 = next_inode;
    let mut path: Vec<String> = Vec::new();
    let ghost mut m = start;
    let mut i: usize = 0;
    proof {
        assert(model.skip(0) =~= model);
        assert(memory_tree::names(path@) =~= Seq::<Seq<char>>::empty());
        assert(root.find_spec(Seq::empty()) is Some);
    }
    while i < pieces.len()
        invariant
            bytes::byte_strings(pieces@) == model,
            model == path_pieces(entry.path@),
            i <= pieces@.len(),
            path@.len() == i,
            root.wf(),
            m.nodes == root.nodes(),
            inode == inode_number(m.allocated),
            root.find_spec(memory_tree::names(path@)) matches Some(Node::Directory { .. }),
            with_pieces(start, Seq::empty(), model, entry@) == with_pieces(
                m,
                memory_tree::names(path@),
                model.skip(i as int),
                entry@,
            ),
        decreases pieces@.len() - i,
    {
        let ghost at = memory_tree::names(path@);
        let ghost rest = model.skip(i as int);
        proof {
            assert(rest[0] == model[i as int]);
            assert(model[i as int] == pieces@[i as int]@);
            assert(rest.drop_first() =~= model.skip(i + 1));
        }
        let name = match decode_text(pieces[i].as_slice()) {
            Ok(name) => name,
            Err(e) => {
                return Err(BuildError::InvalidUtf8Filename(e));
            },
        };
        proof {
            reveal_strlit("..");
            assert(".."@ =~= seq!['.', '.']);
        }
        if text::equal(name.as_str(), "..") {
            return Err(BuildError::UnexpectedParentEntry);
        }
        proof {
            lemma_piece_is_name(entry.path@, i as int);
        }
        path.push(name);
        i += 1;
        let ghost here = memory_tree::names(path@);
        let ghost before = *root;
        proof {
            assert(here =~= at.push(name@));
            assert(here.subrange(0, i as int) =~= here);
            assert(here.subrange(0, i - 1) =~= at);
            assert(root.nodes().contains_key(here) == (root.find_spec(here) is Some));
        }
        let found = root.find(&path, 0, i);
        if i < pieces.len() {
            match found {
                Some(Node::Directory { .. }) => {},
                Some(Node::File { .. }) => {
                    return Err(BuildError::DuplicateEntry);
                },
                None => {
                    let node = Node::Directory { inode, explicit: false };
                    root.put(&path, 0, i, node);
                    proof {
                        lemma_nodes_changed(before, *root, here, node);
                        m = TreeModel { nodes: m.nodes.insert(here, node), allocated: m.allocated + 1 };
                    }
                    inode = inode.wrapping_add(1);
                },
            }
        } else {
            let node = match found {
                Some(Node::Directory { inode: old_inode, explicit: false }) if entry.kind
                    == KIND_DIRECTORY => {
                    let node = Node::Directory { inode: old_inode, explicit: true };
                    root.put(&path, 0, i, node);
                    proof {
                        lemma_nodes_changed(before, *root, here, node);
                        m = TreeModel { nodes: m.nodes.insert(here, node), allocated: m.allocated };
                    }
                    return Ok((inode, Ghost(m)));
                },
                Some(_) => {
                    return Err(BuildError::DuplicateEntry);
                },
                None => {
                    if entry.kind == KIND_REGULAR {
                        match entry.size {
                            Ok(len) => Node::File { inode, offset: entry.position, len },
                            Err(e) => {
                                return Err(BuildError::InvalidTar(e));
                            },
                        }
                    } else if entry.kind == KIND_DIRECTORY {
                        Node::Directory { inode, explicit: true }
                    } else {
                        return Err(BuildError::UnsupportedEntryType(entry.kind));
                    }
                },
            };
            root.put(&path, 0, i, node);
            proof {
                lemma_nodes_changed(before, *root, here, node);
                m = TreeModel { nodes: m.nodes.insert(here, node), allocated: m.allocated + 1 };
            }
            return Ok((inode.wrapping_add(1), Ghost(m)));
        }
    }
    Ok((inode, Ghost(m)))
}

/// The file system of an archive.
pub struct InMemoryTar(pub std::sync::Arc<InMemoryArchive>);

/// The tree of an archive, and the bytes that its files are ranges of.
pub struct InMemoryArchive {
    pub root: InMemoryDirectory,
    pub bytes: Vec<u8>,
}

impl InMemoryArchive {
    /// The tree is well formed, and its root is not listed in the archive itself.
    pub open spec fn wf(self) -> bool {
        self.root.wf() && !self.root.explicit
    }
}

/// The root stays an implicit directory, whatever is added to the tree.
pub open spec fn root_is_implicit(m: TreeModel) -> bool {
    &&& m.nodes.contains_key(Seq::empty())
    &&& m.nodes[Seq::empty()] matches Node::Directory { inode, explicit: false } && inode == 0
}

proof fn lemma_pieces_keep_root(m: TreeModel, at: TreePath, pieces: Seq<Seq<u8>>, entry: TarEntryModel)
    requires
        root_is_implicit(m),
        with_pieces(m, at, pieces, entry) is Ok,
    ensures
        root_is_implicit(with_pieces(m, at, pieces, entry)->Ok_0),
    decreases pieces.len(),
{
    if pieces.len() > 0 {
        let path = at.push(vstd::utf8::decode_utf8(pieces[0]));
        assert(path.len() > 0);
        if pieces.len() > 1 {
            lemma_pieces_keep_root(
                with_parent(m, path)->Ok_0,
                path,
                pieces.drop_first(),
                entry,
            );
        }
    }
}

/// However an archive is listed, the root of its file system is directory zero and is not itself an
/// exposed root.
pub proof fn listing_keeps_root(m: TreeModel, listing: Seq<Option<TarEntryModel>>)
    requires
        root_is_implicit(m),
        with_listing(m, listing) is Ok,
    ensures
        root_is_implicit(with_listing(m, listing)->Ok_0),
    decreases listing.len(),
{
    if listing.len() > 0 {
        let entry = listing[0]->0;
        lemma_pieces_keep_root(m, Seq::empty(), path_pieces(entry.path), entry);
        listing_keeps_root(
            with_pieces(m, Seq::empty(), path_pieces(entry.path), entry)->Ok_0,
            listing.drop_first(),
        );
    }
}

impl InMemoryTar {
    /// Builds the file system of an archive from its bytes.
    pub fn build(bytes: Vec<u8>) -> (r: Result<InMemoryTar, BuildError>)
        requires
            tar_archive::readable(bytes@),
        ensures
            match (r, tar_archive::tar_listing(bytes@)) {
                (Ok(fs), Some(listing)) => {
                    &&& fs.0.wf()
                    &&& fs.0.bytes@ == bytes@
                    &&& with_listing(empty_tree(), listing) matches Ok(m) && fs.0.root.nodes()
                        == m.nodes
                },
                (Ok(_), None) => false,
                (Err(e), Some(listing)) => with_listing(empty_tree(), listing) == Err::<
                    TreeModel,
                    BuildFailure,
                >(e@),
                (Err(e), None) => e@ is InvalidTar,
            },
    {
        match read_archive(bytes.as_slice()) {
            Ok(items) => InMemoryTar::build_from_listing(bytes, items),
            Err(e) => Err(BuildError::InvalidTar(e)),
        }
    }

    /// Builds the file system of an archive from its bytes and the entries listed in them.
    pub fn build_from_listing(
        bytes: Vec<u8>,
        items: Vec<Result<TarEntry, std::io::Error>>,
    ) -> (r: Result<InMemoryTar, BuildError>)
        ensures
            match r {
                Ok(fs) => {
                    &&& fs.0.wf()
                    &&& fs.0.bytes@ == bytes@
                    &&& with_listing(empty_tree(), tar_archive::listing_model(items@)) matches Ok(m)
                        && fs.0.root.nodes() == m.nodes
                },
                Err(e) => with_listing(empty_tree(), tar_archive::listing_model(items@)) == Err::<
                    TreeModel,
                    BuildFailure,
                >(e@),
            },
    {
        let ghost listing = tar_archive::listing_model(items@);
        let mut root = InMemoryDirectory { inode: 0, children: Vec::new(), explicit: false };
        let mut inode: u64 = 1;
        let ghost mut m = empty_tree();
        proof {
            assert(root.wf());
            assert forall|p: TreePath| #[trigger] root.nodes().contains_key(p) == m.nodes.contains_key(
                p,
            ) by {
                if p.len() == 0 {
                    assert(p =~= Seq::<Seq<char>>::empty());
                }
            }
            assert(root.nodes() =~= m.nodes);
            assert(listing.skip(0) =~= listing);
        }
        let ghost start = items@;
        for item in it: items
            invariant
                it.seq() == start,
                listing == tar_archive::listing_model(start),
                root.wf(),
                m.nodes == root.nodes(),
                inode == inode_number(m.allocated),
                with_listing(empty_tree(), listing) == with_listing(
                    m,
                    listing.skip(it.index() as int),
                ),
        {
            proof {
                let taken = it.index() as int;
                assert(listing.skip(taken)[0] == listing[taken]);
                assert(listing.skip(taken).drop_first() =~= listing.skip(taken + 1));
            }
            match item {
                Ok(entry) => {
                    match add_entry(&mut root, inode, entry, Ghost(m)) {
                        Ok((next, g)) => {
                            inode = next;
                            proof {
                                m = g@;
                            }
                        },
                        Err(e) => {
                            return Err(e);
                        },
                    }
                },
                Err(e) => {
                    return Err(BuildError::InvalidTar(e));
                },
            }
        }
        proof {
            assert(with_listing(empty_tree(), listing) == Ok::<TreeModel, BuildFailure>(m));
            listing_keeps_root(empty_tree(), listing);
            assert(root.nodes().contains_key(Seq::empty()));
        }
        Ok(InMemoryTar(std::sync::Arc::new(InMemoryArchive { root, bytes })))
    }
}

/// The names that the pieces of an archive path stand for.
pub open spec fn piece_names(pieces: Seq<Seq<u8>>) -> TreePath {
    pieces.map_values(|piece: Seq<u8>| vstd::utf8::decode_utf8(piece))
}

/// Whether what one tree holds is held by another too. A directory that was implied may be listed
/// later.
pub open spec fn is_kept(before: Map<TreePath, Node>, after: Map<TreePath, Node>) -> bool {
    forall|p: TreePath| #[trigger]
        before.contains_key(p) ==> after.contains_key(p) && match (before[p], after[p]) {
            (Node::File { .. }, _) => after[p] == before[p],
            (
                Node::Directory { inode, explicit },
                Node::Directory { inode: inode_after, explicit: explicit_after },
            ) => inode_after == inode && (explicit ==> explicit_after),
            _ => false,
        }
}

/// Whether a node is what an entry of an archive stands for.
pub open spec fn stands_for(node: Node, entry: TarEntryModel) -> bool {
    if entry.kind == KIND_REGULAR {
        node matches Node::File { offset, len, .. } && offset == entry.position && Some(len) == entry.size
    } else {
        entry.kind == KIND_DIRECTORY && (node matches Node::Directory { explicit, .. } && explicit)
    }
}

/// What is kept twice is kept.
proof fn lemma_kept_twice(a: Map<TreePath, Node>, b: Map<TreePath, Node>, c: Map<TreePath, Node>)
    requires
        is_kept(a, b),
        is_kept(b, c),
    ensures
        is_kept(a, c),
{
    assert forall|p: TreePath| #[trigger] a.contains_key(p) implies c.contains_key(p) && match (a[p], c[p]) {
        (Node::File { .. }, _) => c[p] == a[p],
        (
            Node::Directory { inode, explicit },
            Node::Directory { inode: inode_after, explicit: explicit_after },
        ) => inode_after == inode && (explicit ==> explicit_after),
        _ => false,
    } by {
        assert(b.contains_key(p));
    }
}

/// Adding an entry keeps what was there, and puts the entry at its path.
proof fn lemma_pieces_are_added(m: TreeModel, at: TreePath, pieces: Seq<Seq<u8>>, entry: TarEntryModel)
    requires
        with_pieces(m, at, pieces, entry) is Ok,
    ensures
        is_kept(m.nodes, with_pieces(m, at, pieces, entry)->Ok_0.nodes),
        pieces.len() > 0 ==> {
            let nodes = with_pieces(m, at, pieces, entry)->Ok_0.nodes;
            let path = at + piece_names(pieces);
            nodes.contains_key(path) && stands_for(nodes[path], entry)
        },
    decreases pieces.len(),
{
    if pieces.len() > 0 {
        let path = at.push(vstd::utf8::decode_utf8(pieces[0]));
        let rest = pieces.drop_first();
        assert(at + piece_names(pieces) =~= path + piece_names(rest));
        if pieces.len() == 1 {
            assert(path + piece_names(rest) =~= path);
        } else {
            let next = with_parent(m, path)->Ok_0;
            assert(is_kept(m.nodes, next.nodes));
            lemma_pieces_are_added(next, path, rest, entry);
            lemma_kept_twice(m.nodes, next.nodes, with_pieces(m, at, pieces, entry)->Ok_0.nodes);
        }
    }
}

/// Adding entries keeps what was there.
proof fn lemma_listing_keeps(m: TreeModel, listing: Seq<Option<TarEntryModel>>)
    requires
        with_listing(m, listing) is Ok,
    ensures
        is_kept(m.nodes, with_listing(m, listing)->Ok_0.nodes),
    decreases listing.len(),
{
    if listing.len() > 0 {
        let entry = listing[0]->0;
        let pieces = path_pieces(entry.path);
        lemma_pieces_are_added(m, Seq::empty(), pieces, entry);
        let next = with_pieces(m, Seq::empty(), pieces, entry)->Ok_0;
        lemma_listing_keeps(next, listing.drop_first());
        lemma_kept_twice(m.nodes, next.nodes, with_listing(m, listing)->Ok_0.nodes);
    }
}

/// Every entry of an archive stands at its path in the tree that is built of the archive.
proof fn lemma_entries_stand(m: TreeModel, listing: Seq<Option<TarEntryModel>>, i: int)
    requires
        with_listing(m, listing) is Ok,
        0 <= i < listing.len(),
        listing[i] matches Some(entry) && path_pieces(entry.path).len() > 0,
    ensures
        ({
            let nodes = with_listing(m, listing)->Ok_0.nodes;
            let entry = listing[i]->0;
            let path = piece_names(path_pieces(entry.path));
            nodes.contains_key(path) && stands_for(nodes[path], entry)
        }),
    decreases listing.len(),
{
    let first = listing[0]->0;
    let next = with_pieces(m, Seq::empty(), path_pieces(first.path), first)->Ok_0;
    if i == 0 {
        let path = piece_names(path_pieces(first.path));
        lemma_pieces_are_added(m, Seq::empty(), path_pieces(first.path), first);
        assert(Seq::<Seq<char>>::empty() + path =~= path);
        lemma_listing_keeps(next, listing.drop_first());
    } else {
        lemma_entries_stand(next, listing.drop_first(), i - 1);
    }
}

/// What an archive lists is found in its file system: under the path of a regular file stands a file
/// with its bytes, and under the path of a directory a directory that counts as listed. Entries whose
/// path names nothing are passed over.
pub proof fn entries_are_found(root: InMemoryDirectory, listing: Seq<Option<TarEntryModel>>, i: int)
    requires
        root.wf(),
        with_listing(empty_tree(), listing) matches Ok(m) && root.nodes() == m.nodes,
        0 <= i < listing.len(),
        listing[i] matches Some(entry) && path_pieces(entry.path).len() > 0,
    ensures
        ({
            let entry = listing[i]->0;
            match root.entry_at(piece_names(path_pieces(entry.path))) {
                Some(InMemoryDirEntry::File(f)) => entry.kind == KIND_REGULAR && f.offset == entry.position && Some(
                    f.len,
                ) == entry.size,
                Some(InMemoryDirEntry::Directory(d)) => entry.kind == KIND_DIRECTORY && d.explicit,
                None => false,
            }
        }),
{
    let entry = listing[i]->0;
    let path = piece_names(path_pieces(entry.path));
    lemma_entries_stand(empty_tree(), listing, i);
    memory_tree::entry_at_agrees(root, path);
    assert(root.nodes().contains_key(path));
    assert(root.nodes()[path] == root.find_spec(path)->0);
}

/// Whether no two nodes share an inode, while the numbers suffice.
pub open spec fn inodes_differ(m: TreeModel) -> bool {
    &&& forall|p: TreePath| #[trigger] m.nodes.contains_key(p) ==> node_inode(m.nodes[p]) < m.allocated
    &&& forall|p: TreePath, q: TreePath|
        #[trigger] m.nodes.contains_key(p) && #[trigger] m.nodes.contains_key(q) && p != q ==> node_inode(m.nodes[p])
            != node_inode(m.nodes[q])
}

pub open spec fn node_inode(node: Node) -> u64 {
    match node {
        Node::Directory { inode, .. } => inode,
        Node::File { inode, .. } => inode,
    }
}

/// Adding an entry gives out new inodes alone.
proof fn lemma_pieces_inodes(m: TreeModel, at: TreePath, pieces: Seq<Seq<u8>>, entry: TarEntryModel)
    requires
        inodes_differ(m),
        with_pieces(m, at, pieces, entry) matches Ok(after) && after.allocated <= 0x1_0000_0000_0000_0000,
    ensures
        inodes_differ(with_pieces(m, at, pieces, entry)->Ok_0),
        m.allocated <= with_pieces(m, at, pieces, entry)->Ok_0.allocated,
    decreases pieces.len(),
{
    if pieces.len() > 0 {
        let path = at.push(vstd::utf8::decode_utf8(pieces[0]));
        if pieces.len() > 1 {
            let next = with_parent(m, path)->Ok_0;
            lemma_pieces_allocate(next, path, pieces.drop_first(), entry);
            assert(inodes_differ(next)) by {
                assert forall|p: TreePath| #[trigger] next.nodes.contains_key(p) && p != path implies m.nodes.contains_key(
                    p,
                ) && next.nodes[p] == m.nodes[p] by {}
            }
            lemma_pieces_inodes(next, path, pieces.drop_first(), entry);
        } else {
            let next = with_entry(m, path, entry)->Ok_0;
            assert forall|p: TreePath| #[trigger] next.nodes.contains_key(p) && p != path implies m.nodes.contains_key(
                p,
            ) && next.nodes[p] == m.nodes[p] by {}
        }
    }
}

/// Adding an entry takes no inode back.
proof fn lemma_pieces_allocate(m: TreeModel, at: TreePath, pieces: Seq<Seq<u8>>, entry: TarEntryModel)
    requires
        with_pieces(m, at, pieces, entry) is Ok,
    ensures
        m.allocated <= with_pieces(m, at, pieces, entry)->Ok_0.allocated,
    decreases pieces.len(),
{
    if pieces.len() > 1 {
        let path = at.push(vstd::utf8::decode_utf8(pieces[0]));
        lemma_pieces_allocate(with_parent(m, path)->Ok_0, path, pieces.drop_first(), entry);
    }
}

/// Adding entries takes no inode back.
proof fn lemma_listing_allocates(m: TreeModel, listing: Seq<Option<TarEntryModel>>)
    requires
        with_listing(m, listing) is Ok,
    ensures
        m.allocated <= with_listing(m, listing)->Ok_0.allocated,
    decreases listing.len(),
{
    if listing.len() > 0 {
        let entry = listing[0]->0;
        let pieces = path_pieces(entry.path);
        lemma_pieces_allocate(m, Seq::empty(), pieces, entry);
        lemma_listing_allocates(with_pieces(m, Seq::empty(), pieces, entry)->Ok_0, listing.drop_first());
    }
}

/// No two files or directories of an archive have the same inode, as long as there are enough inodes.
pub proof fn listing_gives_distinct_inodes(m: TreeModel, listing: Seq<Option<TarEntryModel>>)
    requires
        inodes_differ(m),
        with_listing(m, listing) matches Ok(after) && after.allocated <= 0x1_0000_0000_0000_0000,
    ensures
        inodes_differ(with_listing(m, listing)->Ok_0),
    decreases listing.len(),
{
    if listing.len() > 0 {
        let entry = listing[0]->0;
        let pieces = path_pieces(entry.path);
        let next = with_pieces(m, Seq::empty(), pieces, entry)->Ok_0;
        lemma_listing_allocates(next, listing.drop_first());
        lemma_pieces_inodes(m, Seq::empty(), pieces, entry);
        listing_gives_distinct_inodes(next, listing.drop_first());
    }
}

/// Every piece behind a slash names something unless it is empty or a single dot: names may start with dots.
pub proof fn archive_paths_keep_their_names(path: Seq<u8>, piece: Seq<u8>)
    requires
        !piece.contains(0x2fu8),
    ensures
        path_pieces(path.push(0x2fu8) + piece) == if piece.len() == 0 || piece == seq![0x2eu8] {
            path_pieces(path)
        } else {
            path_pieces(path).push(piece)
        },
        path_pieces(piece) == if piece.len() == 0 || piece == seq![0x2eu8] {
            Seq::empty()
        } else {
            seq![piece]
        },
{
    reveal(Seq::filter);
    bytes::pieces_end_at_separators(path, piece, 0x2fu8);
    let keep = |p: Seq<u8>| kept_piece(p);
    let before = bytes::split_on(path, 0x2fu8);
    assert(before.push(piece).drop_last() =~= before);
    assert(seq![piece].drop_last() =~= Seq::<Seq<u8>>::empty());
    assert(Seq::<Seq<u8>>::empty().filter(keep) =~= Seq::<Seq<u8>>::empty());
    assert(seq![piece].filter(keep) =~= if kept_piece(piece) {
        seq![piece]
    } else {
        Seq::empty()
    });
}

/// Inodes are given out in order, from zero, while the numbers suffice.
pub proof fn inodes_are_given_out_in_order(allocated: nat)
    requires
        allocated <= u64::MAX,
    ensures
        inode_number(allocated) == allocated,
{
}

/// An entry goes where nothing stands yet, as the file or directory that it is, with the next inode. A
/// directory that was only implied becomes listed, and keeps its inode. Nothing else may stand there.
pub proof fn entries_go_where_nothing_stands(m: TreeModel, path: TreePath, entry: TarEntryModel)
    requires
        m.allocated <= u64::MAX,
    ensures
        match with_entry(m, path, entry) {
            Ok(next) => {
                &&& forall|p: TreePath|
                    p != path ==> #[trigger] next.nodes.contains_key(p) == m.nodes.contains_key(p) && (m.nodes.contains_key(
                        p,
                    ) ==> next.nodes[p] == m.nodes[p])
                &&& next.nodes.contains_key(path)
                &&& if m.nodes.contains_key(path) {
                    &&& entry.kind == 0x35
                    &&& m.nodes[path] matches Node::Directory { inode, explicit: false } && next.nodes[path] == (
                    Node::Directory { inode, explicit: true })
                    &&& next.allocated == m.allocated
                } else {
                    &&& next.allocated == m.allocated + 1
                    &&& next.nodes[path] == if entry.kind == 0x30 {
                        Node::File { inode: m.allocated as u64, offset: entry.position, len: entry.size->0 }
                    } else {
                        Node::Directory { inode: m.allocated as u64, explicit: true }
                    }
                    &&& entry.kind == 0x35 || (entry.kind == 0x30 && entry.size is Some)
                }
            },
            Err(BuildFailure::DuplicateEntry) => m.nodes.contains_key(path) && !(entry.kind == 0x35
                && m.nodes[path] matches Node::Directory { explicit: false, .. }),
            Err(BuildFailure::InvalidTar) => !m.nodes.contains_key(path) && entry.kind == 0x30 && entry.size is None,
            Err(BuildFailure::UnsupportedEntryType(kind)) => kind == entry.kind && !m.nodes.contains_key(path)
                && kind != 0x30 && kind != 0x35,
            Err(_) => false,
        },
{
}

/// A directory on the way to an entry is the one that stands there, or a new one that is only implied. A file
/// is none.
pub proof fn directories_on_the_way_are_implied(m: TreeModel, path: TreePath)
    requires
        m.allocated <= u64::MAX,
    ensures
        match with_parent(m, path) {
            Ok(next) => if m.nodes.contains_key(path) {
                next == m && m.nodes[path] is Directory
            } else {
                &&& next.allocated == m.allocated + 1
                &&& next.nodes == m.nodes.insert(
                    path,
                    Node::Directory { inode: m.allocated as u64, explicit: false },
                )
            },
            Err(e) => e == BuildFailure::DuplicateEntry && m.nodes.contains_key(path) && m.nodes[path] is File,
        },
{
}

/// An entry is refused where a name on its path is not text or leads back.
pub proof fn names_that_are_none_are_refused(
    m: TreeModel,
    at: TreePath,
    pieces: Seq<Seq<u8>>,
    entry: TarEntryModel,
)
    requires
        pieces.len() > 0,
    ensures
        !vstd::utf8::valid_utf8(pieces[0]) ==> with_pieces(m, at, pieces, entry) == Err::<TreeModel, BuildFailure>(
            BuildFailure::InvalidUtf8Filename,
        ),
        vstd::utf8::valid_utf8(pieces[0]) && vstd::utf8::decode_utf8(pieces[0]) == seq!['.', '.'] ==> with_pieces(
            m,
            at,
            pieces,
            entry,
        ) == Err::<TreeModel, BuildFailure>(BuildFailure::UnexpectedParentEntry),
        vstd::utf8::valid_utf8(pieces[0]) && vstd::utf8::decode_utf8(pieces[0]) != seq!['.', '.'] && pieces.len() == 1
            ==> with_pieces(m, at, pieces, entry) == with_entry(
            m,
            at.push(vstd::utf8::decode_utf8(pieces[0])),
            entry,
        ),
{
}

/// Entries are taken in the order in which they are listed, and the first that cannot be used ends the
/// listing.
pub proof fn listings_are_taken_in_order(
    m: TreeModel,
    first: Option<TarEntryModel>,
    listing: Seq<Option<TarEntryModel>>,
)
    ensures
        with_listing(m, Seq::empty()) == Ok::<TreeModel, BuildFailure>(m),
        with_listing(m, seq![first] + listing) == match first {
            None => Err::<TreeModel, BuildFailure>(BuildFailure::InvalidTar),
            Some(entry) => match with_pieces(m, Seq::empty(), path_pieces(entry.path), entry) {
                Ok(next) => with_listing(next, listing),
                Err(e) => Err(e),
            },
        },
{
    let all = seq![first] + listing;
    assert(all[0] == first);
    assert(all.drop_first() =~= listing);
}

/// A file stands for an entry where its bytes and its length are those of the entry, and a listed directory
/// for the entry of a directory.
pub proof fn nodes_stand_for_their_entries(node: Node, entry: TarEntryModel)
    requires
        stands_for(node, entry),
    ensures
        match node {
            Node::File { offset, len, .. } => entry.kind == 0x30 && offset == entry.position && entry.size == Some(len),
            Node::Directory { explicit, .. } => entry.kind == 0x35 && explicit,
        },
{
}

/// A file system without entries holds the root alone, which is only implied and has the first inode.
pub proof fn empty_trees_hold_the_root(path: TreePath)
    ensures
        empty_tree().nodes.contains_key(path) <==> path.len() == 0,
        empty_tree().nodes[Seq::empty()] == (Node::Directory { inode: 0, explicit: false }),
        empty_tree().allocated == 1,
{
    if path.len() == 0 {
        assert(path =~= Seq::<Seq<char>>::empty());
    }
}

/// Errors are told apart as what they are.
pub proof fn build_errors_are_told_apart(e: BuildError)
    ensures
        match e {
            BuildError::InvalidTar(_) => e@ == BuildFailure::InvalidTar,
            BuildError::UnexpectedParentEntry => e@ == BuildFailure::UnexpectedParentEntry,
            BuildError::DuplicateEntry => e@ == BuildFailure::DuplicateEntry,
            BuildError::UnsupportedEntryType(kind) => e@ == BuildFailure::UnsupportedEntryType(kind),
            BuildError::InvalidUtf8Filename(_) => e@ == BuildFailure::InvalidUtf8Filename,
        },
{
}

/// An entry without a name changes nothing. One that stands deeper goes through the directory with its first
/// name, which is implied where it is not there, and on from there.
pub proof fn deeper_entries_go_through_their_directories(
    m: TreeModel,
    at: TreePath,
    pieces: Seq<Seq<u8>>,
    entry: TarEntryModel,
)
    ensures
        with_pieces(m, at, Seq::empty(), entry) == Ok::<TreeModel, BuildFailure>(m),
        pieces.len() > 1 && vstd::utf8::valid_utf8(pieces[0]) && vstd::utf8::decode_utf8(pieces[0]) != seq!['.', '.']
            ==> {
            let path = at.push(vstd::utf8::decode_utf8(pieces[0]));
            with_pieces(m, at, pieces, entry) == match with_parent(m, path) {
                Ok(next) => with_pieces(next, path, pieces.drop_first(), entry),
                Err(e) => Err(e),
            }
        },
{
}

/// The names of the pieces of a path are their texts, one by one.
pub proof fn pieces_are_read_as_text(pieces: Seq<Seq<u8>>)
    ensures
        piece_names(pieces).len() == pieces.len(),
        forall|i: int|
            0 <= i < pieces.len() ==> #[trigger] piece_names(pieces)[i] == vstd::utf8::decode_utf8(pieces[i]),
{
}

} // verus!
