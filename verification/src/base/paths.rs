//! Paths as texts with slashes, and as the names between the slashes.

use vstd::prelude::*;

use crate::base::bytes;
use crate::base::text::{chars_of, equal, string_of};
use crate::fs::memory_tree::{self, TreePath};

verus! {

/// The names of a path, without the empty ones.
pub open spec fn segments_of(path: Seq<char>) -> TreePath {
    bytes::split_on(path, '/').filter(|s: Seq<char>| s.len() > 0)
}

/// The text of a path: each name after a slash.
pub open spec fn path_text(path: TreePath) -> Seq<char>
    decreases path.len(),
{
    if path.len() == 0 {
        Seq::empty()
    } else {
        path_text(path.drop_last()).push('/') + path.last()
    }
}

/// The names of a path, without the empty ones.
pub fn segments(path: &str) -> (r: Vec<String>)
    ensures
        memory_tree::names(r@) == segments_of(path@),
{
    let chars = chars_of(path);
    let mut done: Vec<String> = Vec::new();
    let mut current: String = String::new();
    let ghost mut pieces: TreePath = Seq::empty();
    let ghost keep = |s: Seq<char>| s.len() > 0;
    let mut empty: bool = true;
    let mut i: usize = 0;
    proof {
        reveal(Seq::filter);
        assert(path@.take(0) =~= Seq::<char>::empty());
        assert(pieces.push(current@) =~= seq![Seq::<char>::empty()]);
        assert(memory_tree::names(done@) =~= pieces.filter(keep));
    }
    while i < chars.len()
        invariant
            chars@ == path@,
            i <= chars@.len(),
            keep == (|s: Seq<char>| s.len() > 0),
            empty == (current@.len() == 0),
            bytes::split_on(path@.take(i as int), '/') == pieces.push(current@),
            memory_tree::names(done@) == pieces.filter(keep),
        decreases chars@.len() - i,
    {
        let ghost before = pieces.push(current@);
        let ghost taken = memory_tree::names(done@);
        proof {
            assert(path@.take(i + 1).drop_last() =~= path@.take(i as int));
            assert(path@.take(i + 1).last() == path@[i as int]);
        }
        if chars[i] == '/' {
            let ghost piece = current@;
            proof {
                reveal(Seq::filter);
                assert(before.drop_last() =~= pieces);
                pieces = before;
            }
            if !empty {
                done.push(current);
                assert(memory_tree::names(done@) =~= taken.push(piece));
            }
            current = String::new();
            assert(current@ =~= Seq::<char>::empty());
            empty = true;
        } else {
            current.push(chars[i]);
            assert(before.drop_last() =~= pieces);
            empty = false;
        }
        i += 1;
    }
    proof {
        reveal(Seq::filter);
        assert(path@.take(path@.len() as int) =~= path@);
        assert(pieces.push(current@).drop_last() =~= pieces);
    }
    let ghost taken = memory_tree::names(done@);
    let ghost piece = current@;
    if !empty {
        done.push(current);
        assert(memory_tree::names(done@) =~= taken.push(piece));
    }
    done
}

proof fn lemma_split_last(a: Seq<char>, name: Seq<char>)
    requires
        !name.contains('/'),
    ensures
        bytes::split_on(a.push('/') + name, '/') == bytes::split_on(a, '/').push(name),
    decreases name.len(),
{
    let s = a.push('/') + name;
    if name.len() == 0 {
        assert(s.drop_last() =~= a);
        assert(name =~= Seq::<char>::empty());
    } else {
        assert(name.contains(name.last()));
        assert forall|c: char| name.drop_last().contains(c) implies name.contains(c) by {
            let k = choose|k: int| 0 <= k < name.drop_last().len() && name.drop_last()[k] == c;
            assert(name[k] == c);
        }
        lemma_split_last(a, name.drop_last());
        assert(s.drop_last() =~= a.push('/') + name.drop_last());
        assert(s.last() == name.last());
        let before = bytes::split_on(a, '/').push(name.drop_last());
        assert(before.drop_last() =~= bytes::split_on(a, '/'));
        assert(name.drop_last().push(name.last()) =~= name);
    }
}

proof fn lemma_split_none(name: Seq<char>)
    requires
        !name.contains('/'),
    ensures
        bytes::split_on(name, '/') == seq![name],
    decreases name.len(),
{
    if name.len() == 0 {
        assert(name =~= Seq::<char>::empty());
    } else {
        assert(name.contains(name.last()));
        assert forall|c: char| name.drop_last().contains(c) implies name.contains(c) by {
            let k = choose|k: int| 0 <= k < name.drop_last().len() && name.drop_last()[k] == c;
            assert(name[k] == c);
        }
        lemma_split_none(name.drop_last());
        assert(seq![name.drop_last()].drop_last() =~= Seq::<Seq<char>>::empty());
        assert(name.drop_last().push(name.last()) =~= name);
    }
}

/// A path that goes on by a valid name has one segment more.
pub proof fn segments_of_child(parent: Seq<char>, name: Seq<char>)
    requires
        memory_tree::valid_name(name),
    ensures
        segments_of(parent.push('/') + name) == segments_of(parent).push(name),
{
    reveal(Seq::filter);
    lemma_split_last(parent, name);
    let before = bytes::split_on(parent, '/');
    assert(before.push(name).drop_last() =~= before);
}

/// The segments of the text of a path are its names.
pub proof fn segments_of_path_text(path: TreePath)
    requires
        path.len() > 0,
        forall|i: int| 0 <= i < path.len() ==> memory_tree::valid_name(#[trigger] path[i]),
    ensures
        path_text(path).len() > 0,
        path_text(path)[0] == '/',
        segments_of(path_text(path).skip(1)) == path,
    decreases path.len(),
{
    let parent = path.drop_last();
    let name = path.last();
    assert(memory_tree::valid_name(path[path.len() - 1]));
    if parent.len() == 0 {
        assert(path_text(parent) =~= Seq::<char>::empty());
        assert(path_text(path).skip(1) =~= name);
        lemma_split_none(name);
        reveal(Seq::filter);
        assert(seq![name].drop_last() =~= Seq::<Seq<char>>::empty());
        assert(seq![name].filter(|s: Seq<char>| s.len() > 0) =~= seq![name]);
        assert(path =~= seq![name]);
    } else {
        assert forall|i: int| 0 <= i < parent.len() implies memory_tree::valid_name(
            #[trigger] parent[i],
        ) by {
            assert(parent[i] == path[i]);
        }
        segments_of_path_text(parent);
        let text = path_text(parent);
        assert(path_text(path).skip(1) =~= text.skip(1).push('/') + name);
        segments_of_child(text.skip(1), name);
        assert(path =~= parent.push(name));
    }
}

/// The empty path has no segments.
pub proof fn segments_of_nothing()
    ensures
        segments_of(Seq::empty()) == Seq::<Seq<char>>::empty(),
{
    reveal(Seq::filter);
    let keep = |s: Seq<char>| s.len() > 0;
    let none = seq![Seq::<char>::empty()].drop_last();
    assert(none =~= Seq::<Seq<char>>::empty());
    assert(none.filter(keep) =~= none);
}

/// A path inside a directory. The path of a workspace itself is empty.
pub open spec fn joined(dir: Seq<char>, name: Seq<char>) -> Seq<char> {
    if dir.len() == 0 || dir.last() == '/' {
        dir + name
    } else {
        dir.push('/') + name
    }
}

/// The path of a name inside a directory.
pub fn join_path(dir: &str, name: &str) -> (r: String)
    ensures
        r@ == joined(dir@, name@),
{
    let mut path = dir.to_owned();
    let len: usize = dir.unicode_len();
    if len > 0 && dir.get_char(len - 1) != '/' {
        path.push('/');
    }
    path.append(name);
    path
}

/// A path that goes on by another. A path that starts with a slash stands alone.
pub open spec fn pushed(base: Seq<char>, path: Seq<char>) -> Seq<char> {
    if path.len() > 0 && path[0] == '/' {
        path
    } else {
        joined(base, path)
    }
}

/// A path that goes on by another.
pub fn push_path(base: &str, path: &str) -> (r: String)
    ensures
        r@ == pushed(base@, path@),
{
    if path.unicode_len() > 0 && path.get_char(0) == '/' {
        path.to_owned()
    } else {
        join_path(base, path)
    }
}

/// The text before and after the first slash, where there is one.
pub open spec fn split_first(path: Seq<char>) -> Option<(Seq<char>, Seq<char>)> {
    match path.index_of_first('/') {
        Some(i) => Some((path.take(i), path.skip(i + 1))),
        None => None,
    }
}

/// The text before and after the last slash, where there is one.
pub open spec fn split_last(path: Seq<char>) -> Option<(Seq<char>, Seq<char>)> {
    match path.index_of_last('/') {
        Some(i) => Some((path.take(i), path.skip(i + 1))),
        None => None,
    }
}

/// Splits a path at its first slash.
pub fn split_at_first(path: &str) -> (r: Option<(String, String)>)
    ensures
        match r {
            Some((a, b)) => split_first(path@) == Some((a@, b@)),
            None => split_first(path@) is None,
        },
{
    let chars = chars_of(path);
    let mut i: usize = 0;
    proof {
        path@.index_of_first_ensures('/');
    }
    while i < chars.len()
        invariant
            chars@ == path@,
            i <= chars@.len(),
            forall|j: int| 0 <= j < i ==> path@[j] != '/',
            ({
                let result = path@.index_of_first('/');
                if path@.contains('/') {
                    let index = result.unwrap();
                    result.is_some() && 0 <= index < path@.len() && path@[index] == '/' && forall|j: int|
                        0 <= j < index < path@.len() ==> path@[j] != '/'
                } else {
                    result.is_none()
                }
            }),
        decreases chars@.len() - i,
    {
        if chars[i] == '/' {
            assert(path@.contains('/'));
            assert(path@.index_of_first('/') == Some(i as int));
            let a = string_of(&chars, 0, i);
            let b = string_of(&chars, i + 1, chars.len());
            assert(a@ =~= path@.take(i as int));
            assert(b@ =~= path@.skip(i + 1));
            return Some((a, b));
        }
        i += 1;
    }
    assert(!path@.contains('/'));
    None
}

/// Splits a path at its last slash.
pub fn split_at_last(path: &str) -> (r: Option<(String, String)>)
    ensures
        match r {
            Some((a, b)) => split_last(path@) == Some((a@, b@)),
            None => split_last(path@) is None,
        },
{
    let chars = chars_of(path);
    let mut i: usize = chars.len();
    proof {
        path@.index_of_last_ensures('/');
    }
    while i > 0
        invariant
            chars@ == path@,
            i <= chars@.len(),
            forall|j: int| i <= j < path@.len() ==> path@[j] != '/',
            ({
                let result = path@.index_of_last('/');
                if path@.contains('/') {
                    let index = result.unwrap();
                    result.is_some() && 0 <= index < path@.len() && path@[index] == '/' && forall|j: int|
                        index < j < path@.len() ==> path@[j] != '/'
                } else {
                    result.is_none()
                }
            }),
        decreases i,
    {
        if chars[i - 1] == '/' {
            assert(path@[i - 1] == '/');
            assert(path@.contains('/'));
            assert(path@.index_of_last('/') == Some(i - 1));
            let a = string_of(&chars, 0, i - 1);
            let b = string_of(&chars, i, chars.len());
            assert(a@ =~= path@.take(i - 1));
            assert(b@ =~= path@.skip(i as int));
            return Some((a, b));
        }
        i -= 1;
    }
    assert(!path@.contains('/'));
    None
}

/// What a piece between slashes stands for in a path: the root, where the path starts with a slash,
/// or a name. Nothing stands between two slashes or after the last, and a `.` tells something only at
/// the start.
pub open spec fn component_of(pieces: Seq<Seq<char>>, i: int) -> Option<Seq<char>> {
    if i == 0 && pieces.len() > 1 && pieces[0].len() == 0 {
        Some(seq!['/'])
    } else if pieces[i].len() == 0 || (i > 0 && pieces[i] == seq!['.']) {
        None
    } else {
        Some(pieces[i])
    }
}

/// What the first pieces of a path stand for.
pub open spec fn components_up_to(pieces: Seq<Seq<char>>, n: int) -> TreePath
    decreases n,
{
    if n <= 0 {
        Seq::empty()
    } else {
        let before = components_up_to(pieces, n - 1);
        match component_of(pieces, n - 1) {
            Some(component) => before.push(component),
            None => before,
        }
    }
}

/// The components of a path: the root, where it starts with a slash, and its names.
pub open spec fn components_of(path: Seq<char>) -> TreePath {
    let pieces = bytes::split_on(path, '/');
    components_up_to(pieces, pieces.len() as int)
}

/// The path with given components.
pub open spec fn path_of(components: TreePath) -> Seq<char>
    decreases components.len(),
{
    if components.len() == 0 {
        Seq::empty()
    } else {
        joined(path_of(components.drop_last()), components.last())
    }
}

/// What is left of a path below a directory: nothing for the directory itself, and `None` for what
/// is not below it. Paths are compared by their components.
pub open spec fn below(path: Seq<char>, dir: Seq<char>) -> Option<Seq<char>> {
    if components_of(dir).is_prefix_of(components_of(path)) {
        Some(path_of(components_of(path).skip(components_of(dir).len() as int)))
    } else {
        None
    }
}

/// The pieces of a path between slashes.
fn split_path(path: &str) -> (r: Vec<String>)
    ensures
        memory_tree::names(r@) == bytes::split_on(path@, '/'),
{
    let chars = chars_of(path);
    let mut done: Vec<String> = Vec::new();
    let mut from: usize = 0;
    let mut i: usize = 0;
    proof {
        assert(path@.take(0) =~= Seq::<char>::empty());
        assert(memory_tree::names(done@).push(path@.subrange(0, 0)) =~= seq![Seq::<char>::empty()]);
    }
    while i < chars.len()
        invariant
            chars@ == path@,
            from <= i <= chars@.len(),
            bytes::split_on(path@.take(i as int), '/') == memory_tree::names(done@).push(
                path@.subrange(from as int, i as int),
            ),
        decreases chars@.len() - i,
    {
        let ghost pieces = memory_tree::names(done@);
        let ghost piece = path@.subrange(from as int, i as int);
        proof {
            assert(path@.take(i + 1).drop_last() =~= path@.take(i as int));
            assert(path@.take(i + 1).last() == path@[i as int]);
            assert(pieces.push(piece).drop_last() =~= pieces);
        }
        if chars[i] == '/' {
            done.push(string_of(&chars, from, i));
            from = i + 1;
            proof {
                assert(memory_tree::names(done@) =~= pieces.push(piece));
                assert(path@.subrange(from as int, i + 1) =~= Seq::<char>::empty());
            }
        } else {
            assert(path@.subrange(from as int, i + 1) =~= piece.push(path@[i as int]));
        }
        i += 1;
    }
    assert(path@.take(path@.len() as int) =~= path@);
    let ghost pieces = memory_tree::names(done@);
    done.push(string_of(&chars, from, chars.len()));
    assert(memory_tree::names(done@) =~= pieces.push(path@.subrange(from as int, path@.len() as int)));
    done
}

/// The components of a path.
pub fn components(path: &str) -> (r: Vec<String>)
    ensures
        memory_tree::names(r@) == components_of(path@),
{
    let pieces = split_path(path);
    let ghost all = memory_tree::names(pieces@);
    let mut found: Vec<String> = Vec::new();
    let mut i: usize = 0;
    assert(memory_tree::names(found@) =~= components_up_to(all, 0));
    while i < pieces.len()
        invariant
            all == memory_tree::names(pieces@),
            i <= pieces@.len(),
            memory_tree::names(found@) == components_up_to(all, i as int),
        decreases pieces@.len() - i,
    {
        let ghost before = memory_tree::names(found@);
        let piece = pieces[i].as_str();
        assert(all[i as int] == piece@);
        let empty = piece.unicode_len() == 0;
        proof {
            reveal_strlit("/");
            reveal_strlit(".");
            assert("/"@ =~= seq!['/']);
            assert("."@ =~= seq!['.']);
        }
        if i == 0 && pieces.len() > 1 && empty {
            found.push("/".to_owned());
            assert(memory_tree::names(found@) =~= before.push(seq!['/']));
        } else if !empty && (i == 0 || !equal(piece, ".")) {
            found.push(piece.to_owned());
            assert(memory_tree::names(found@) =~= before.push(piece@));
        }
        i += 1;
    }
    found
}

/// What is left of a path below a directory.
pub fn strip_prefix(path: &str, dir: &str) -> (r: Option<String>)
    ensures
        match r {
            Some(s) => below(path@, dir@) == Some(s@),
            None => below(path@, dir@) is None,
        },
{
    let p = components(path);
    let d = components(dir);
    let ghost ps = memory_tree::names(p@);
    let ghost ds = memory_tree::names(d@);
    if d.len() > p.len() {
        return None;
    }
    let mut i: usize = 0;
    while i < d.len()
        invariant
            ps == memory_tree::names(p@),
            ds == memory_tree::names(d@),
            ps == components_of(path@),
            ds == components_of(dir@),
            i <= d@.len() <= p@.len(),
            forall|j: int| 0 <= j < i ==> ps[j] == ds[j],
        decreases d@.len() - i,
    {
        assert(ps[i as int] == p@[i as int]@);
        assert(ds[i as int] == d@[i as int]@);
        if !equal(p[i].as_str(), d[i].as_str()) {
            assert(ps.subrange(0, ds.len() as int)[i as int] != ds[i as int]);
            return None;
        }
        i += 1;
    }
    assert(ps.subrange(0, ds.len() as int) =~= ds);
    let ghost rest = ps.skip(ds.len() as int);
    let mut left = String::new();
    assert(rest.take(0) =~= Seq::<Seq<char>>::empty());
    assert(left@ =~= path_of(rest.take(0)));
    while i < p.len()
        invariant
            ps == memory_tree::names(p@),
            rest == ps.skip(ds.len() as int),
            ds.len() <= i <= p@.len(),
            left@ == path_of(rest.take(i - ds.len())),
        decreases p@.len() - i,
    {
        let ghost n = i - ds.len();
        assert(rest.take(n + 1).drop_last() =~= rest.take(n));
        assert(rest.take(n + 1).last() == p@[i as int]@);
        left = join_path(left.as_str(), p[i].as_str());
        i += 1;
    }
    assert(rest.take(rest.len() as int) =~= rest);
    Some(left)
}

proof fn lemma_same_components(a: Seq<Seq<char>>, b: Seq<Seq<char>>, n: int)
    requires
        n <= a.len(),
        n <= b.len(),
        forall|i: int| 0 <= i < n ==> component_of(a, i) == component_of(b, i),
    ensures
        components_up_to(a, n) == components_up_to(b, n),
    decreases n,
{
    if n > 0 {
        lemma_same_components(a, b, n - 1);
        assert(component_of(a, n - 1) == component_of(b, n - 1));
    }
}

/// A name that is joined to a directory is what is left below it.
pub proof fn joined_is_below(dir: Seq<char>, name: Seq<char>)
    requires
        name.len() > 0,
        !name.contains('/'),
        name != seq!['.'],
    ensures
        components_of(joined(dir, name)) == components_of(dir).push(name),
        below(joined(dir, name), dir) == Some(name),
{
    let path = joined(dir, name);
    let pieces = bytes::split_on(path, '/');
    if dir.len() == 0 {
        assert(path =~= name);
        assert(dir =~= Seq::<char>::empty());
        lemma_split_none(name);
        lemma_split_none(dir);
        reveal_with_fuel(components_up_to, 2);
    } else if dir.last() == '/' {
        let parent = dir.drop_last();
        assert(dir =~= parent.push('/') + Seq::<char>::empty());
        assert(path =~= parent.push('/') + name);
        lemma_split_last(parent, Seq::empty());
        lemma_split_last(parent, name);
        let above = bytes::split_on(dir, '/');
        let n = above.len() as int - 1;
        assert forall|i: int| 0 <= i < n implies component_of(above, i) == component_of(pieces, i) by {
            assert(above[i] == pieces[i]);
        }
        lemma_same_components(above, pieces, n);
    } else {
        assert(path =~= dir.push('/') + name);
        lemma_split_last(dir, name);
        let above = bytes::split_on(dir, '/');
        let n = above.len() as int;
        assert forall|i: int| 0 <= i < n implies component_of(above, i) == component_of(pieces, i) by {
            assert(above[i] == pieces[i]);
        }
        lemma_same_components(above, pieces, n);
    }
    let above = components_of(dir);
    assert(components_of(path) =~= above.push(name));
    assert(above.push(name).subrange(0, above.len() as int) =~= above);
    assert(above.push(name).skip(above.len() as int) =~= seq![name]);
    reveal_with_fuel(path_of, 2);
    assert(seq![name].drop_last() =~= Seq::<Seq<char>>::empty());
    assert(path_of(seq![name]) =~= name);
}

/// A path in a directory is the path of the directory, one slash, and the name. The slash is there once
/// where the directory ends in one, and not at all where the path of the directory is empty.
pub proof fn one_slash_joins(dir: Seq<char>, name: Seq<char>)
    ensures
        joined(Seq::empty(), name) == name,
        joined(dir.push('/'), name) == dir.push('/') + name,
        dir.len() > 0 && dir.last() != '/' ==> joined(dir, name) == dir.push('/') + name,
{
    assert(joined(Seq::empty(), name) =~= name);
}

/// A path that starts with a slash stands alone behind any other, and one that does not is joined to it.
pub proof fn absolute_paths_stand_alone(base: Seq<char>, path: Seq<char>)
    ensures
        path.len() > 0 && path[0] == '/' ==> pushed(base, path) == path,
        path.len() == 0 || path[0] != '/' ==> pushed(base, path) == joined(base, path),
        pushed(base, seq!['/'] + path) == seq!['/'] + path,
{
}

/// What is split off a path at its first or last slash makes the path again, with the slash between.
/// Before the first and behind the last slash there is none.
pub proof fn split_paths_are_whole(path: Seq<char>)
    ensures
        match split_first(path) {
            Some((a, b)) => path == a.push('/') + b && !a.contains('/'),
            None => !path.contains('/'),
        },
        match split_last(path) {
            Some((a, b)) => path == a.push('/') + b && !b.contains('/'),
            None => !path.contains('/'),
        },
{
    path.index_of_first_ensures('/');
    path.index_of_last_ensures('/');
    if path.contains('/') {
        let i = path.index_of_first('/')->0;
        let k = path.index_of_last('/')->0;
        assert(path =~= path.take(i).push('/') + path.skip(i + 1));
        assert(path =~= path.take(k).push('/') + path.skip(k + 1));
    }
}

/// Every name behind a slash is a segment, whatever it is, and nothing behind a slash is none.
pub proof fn names_are_segments(parent: Seq<char>, name: Seq<char>)
    requires
        !name.contains('/'),
    ensures
        name.len() > 0 ==> segments_of(parent.push('/') + name) == segments_of(parent).push(name),
        name.len() > 0 ==> segments_of(name) == seq![name],
        segments_of(parent.push('/')) == segments_of(parent),
{
    reveal(Seq::filter);
    lemma_split_last(parent, name);
    lemma_split_last(parent, Seq::empty());
    lemma_split_none(name);
    assert(parent.push('/') + Seq::<char>::empty() =~= parent.push('/'));
    let before = bytes::split_on(parent, '/');
    assert(before.push(name).drop_last() =~= before);
    assert(before.push(Seq::<char>::empty()).drop_last() =~= before);
    let keep = |s: Seq<char>| s.len() > 0;
    assert(seq![name].drop_last() =~= Seq::<Seq<char>>::empty());
    assert(Seq::<Seq<char>>::empty().filter(keep) =~= Seq::<Seq<char>>::empty());
    if name.len() > 0 {
        assert(seq![name].filter(keep) =~= seq![name]);
    }
}

/// A slash at the end of a path, or a slash and a dot, tells nothing more of where it leads. A slash at
/// the start is a component of its own.
pub proof fn idle_pieces_are_no_components(path: Seq<char>)
    requires
        path.len() > 0,
    ensures
        components_of(path.push('/')) == components_of(path),
        components_of(path + seq!['/', '.']) == components_of(path),
        path[0] == '/' ==> components_of(path).len() > 0 && components_of(path)[0] == seq!['/'],
        path[0] != '/' ==> !components_of(path).contains(seq!['/']),
{
    let pieces = bytes::split_on(path, '/');
    let n = pieces.len() as int;
    bytes::split_on_pieces(path, '/');
    lemma_split_last(path, Seq::empty());
    lemma_split_last(path, seq!['.']);
    assert(path.push('/') + Seq::<char>::empty() =~= path.push('/'));
    assert(path.push('/') + seq!['.'] =~= path + seq!['/', '.']);
    lemma_first_piece(path);
    let a = pieces.push(Seq::empty());
    let b = pieces.push(seq!['.']);
    assert forall|i: int| 0 <= i < n implies component_of(pieces, i) == component_of(a, i) by {
        assert(a[i] == pieces[i]);
    }
    assert forall|i: int| 0 <= i < n implies component_of(pieces, i) == component_of(b, i) by {
        assert(b[i] == pieces[i]);
    }
    lemma_same_components(pieces, a, n);
    lemma_same_components(pieces, b, n);
    assert(component_of(a, n) is None);
    assert(component_of(b, n) is None);
    lemma_root_component(pieces, n);
}

proof fn lemma_first_piece(path: Seq<char>)
    requires
        path.len() > 0,
    ensures
        path[0] == '/' <==> (bytes::split_on(path, '/').len() > 1 && bytes::split_on(path, '/')[0].len() == 0),
        bytes::split_on(path, '/').len() == 1 ==> bytes::split_on(path, '/')[0] == path,
    decreases path.len(),
{
    let before = path.drop_last();
    let earlier = bytes::split_on(before, '/');
    bytes::split_on_pieces(before, '/');
    if before.len() == 0 {
        assert(before =~= Seq::<char>::empty());
        assert(earlier =~= seq![Seq::<char>::empty()]);
        assert(path =~= seq![path.last()]);
        assert(earlier.last().push(path.last()) =~= path);
    } else {
        lemma_first_piece(before);
        assert(before[0] == path[0]);
        assert(before.push(path.last()) =~= path);
    }
}

proof fn lemma_root_component(pieces: Seq<Seq<char>>, n: int)
    requires
        0 < n <= pieces.len(),
        forall|i: int| 0 <= i < pieces.len() ==> !(#[trigger] pieces[i]).contains('/'),
    ensures
        pieces.len() > 1 && pieces[0].len() == 0 ==> components_up_to(pieces, n).len() > 0
            && components_up_to(pieces, n)[0] == seq!['/'],
        !(pieces.len() > 1 && pieces[0].len() == 0) ==> !components_up_to(pieces, n).contains(seq!['/']),
    decreases n,
{
    reveal_with_fuel(components_up_to, 2);
    let all = components_up_to(pieces, n);
    let before = components_up_to(pieces, n - 1);
    if n > 1 {
        lemma_root_component(pieces, n - 1);
    }
    if !(pieces.len() > 1 && pieces[0].len() == 0) && all.contains(seq!['/']) {
        let k = choose|k: int| 0 <= k < all.len() && all[k] == seq!['/'];
        if k < before.len() {
            assert(before[k] == seq!['/']);
            assert(before.contains(seq!['/']));
        } else {
            assert(seq!['/'][0] == '/');
            assert(pieces[n - 1].contains('/'));
        }
    }
}

/// A path is below a directory exactly where its components go on from those of the directory, and what
/// is left is the path of the others: its names with single slashes between them.
pub proof fn below_is_a_prefix(path: Seq<char>, dir: Seq<char>, rest: TreePath)
    requires
        components_of(path) == components_of(dir) + rest,
    ensures
        below(path, dir) == Some(path_of(rest)),
        path_of(Seq::empty()) == Seq::<char>::empty(),
        rest.len() > 0 ==> path_of(rest) == joined(path_of(rest.drop_last()), rest.last()),
{
    let all = components_of(path);
    let above = components_of(dir);
    assert(all.subrange(0, above.len() as int) =~= above);
    assert(all.skip(above.len() as int) =~= rest);
}

/// Only what goes on from the components of a directory is below it.
pub proof fn only_prefixes_are_above(path: Seq<char>, dir: Seq<char>)
    requires
        below(path, dir) is Some,
    ensures
        components_of(dir).len() <= components_of(path).len(),
        forall|i: int| 0 <= i < components_of(dir).len() ==> components_of(dir)[i] == #[trigger] components_of(path)[i],
{
    let n = components_of(dir).len() as int;
    assert forall|i: int| 0 <= i < n implies components_of(dir)[i] == #[trigger] components_of(path)[i] by {
        assert(components_of(path).subrange(0, n)[i] == components_of(path)[i]);
    }
}

/// The text of a path is a slash and the name for each of its names, and nothing more.
pub proof fn texts_of_paths_have_single_slashes(path: TreePath, name: Seq<char>)
    ensures
        path_text(Seq::empty()) == Seq::<char>::empty(),
        path_text(path.push(name)) == path_text(path).push('/') + name,
{
    assert(path.push(name).drop_last() =~= path);
}

} // verus!
