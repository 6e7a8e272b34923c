//! Which files of a workspace are ignored.

use ignore::gitignore::Gitignore;
use vstd::prelude::*;

use crate::base::name_set::{self, insert_name};
use crate::base::paths::{self, join_path};

verus! {

/// The patterns of an ignore file, from the `ignore` crate.
#[verifier::external_type_specification]
#[verifier::external_body]
pub struct ExGitignore(Gitignore);

/// What a matcher holds: the directory that its patterns are relative to, whether case matters, and the
/// patterns in order.
pub uninterp spec fn ignore_patterns(rules: Gitignore) -> Seq<Seq<char>>;

/// Whether a path is ignored by what a matcher holds.
pub uninterp spec fn patterns_ignore(patterns: Seq<Seq<char>>, path: Seq<char>, is_dir: bool) -> bool;

/// `Gitignore::matched` says whether a path is ignored. That depends on the path, on whether it is a
/// directory, and on what the matcher holds alone. Which paths a pattern matches is not said.
#[verifier::external_body]
pub(crate) fn is_ignored(rules: &Gitignore, path: &str, is_dir: bool) -> (r: bool)
    ensures
        r == patterns_ignore(ignore_patterns(*rules), path@, is_dir),
{
    rules.matched(path, is_dir).is_ignore()
}

/// An entry of a directory, as it is read.
pub struct ListedFile {
    /// The name, where it is text.
    pub name: Option<String>,
    /// Whether the name can stand in a label.
    pub is_label: bool,
    pub is_dir: bool,
}

/// Whether an entry is part of the workspace, given what is ignored.
pub open spec fn is_child(
    patterns: Seq<Seq<char>>,
    dir: Seq<char>,
    file: ListedFile,
    name: Seq<char>,
) -> bool {
    &&& file.name matches Some(text) && text@ == name
    &&& file.is_label
    &&& !patterns_ignore(patterns, paths::joined(dir, name), file.is_dir)
}

/// The names of the entries that are part of the workspace.
pub open spec fn children_of(patterns: Seq<Seq<char>>, dir: Seq<char>, files: Seq<ListedFile>) -> Set<
    Seq<char>,
> {
    Set::new(
        |name: Seq<char>|
            exists|i: int|
                0 <= i < files.len() && is_child(patterns, dir, #[trigger] files[i], name),
    )
}

/// The children of a directory: the entries whose names can stand in a label and that are not
/// ignored, sorted.
pub fn enumerate_directory(rules: &Gitignore, dir: &str, files: &Vec<ListedFile>) -> (r: Vec<String>)
    ensures
        name_set::sorted_names(r@),
        name_set::name_set(r@) == children_of(ignore_patterns(*rules), dir@, files@),
{
    let ghost patterns = ignore_patterns(*rules);
    let mut children: Vec<String> = Vec::new();
    let mut i: usize = 0;
    assert(name_set::name_set(children@) =~= children_of(patterns, dir@, files@.take(0)));
    while i < files.len()
        invariant
            i <= files@.len(),
            patterns == ignore_patterns(*rules),
            name_set::sorted_names(children@),
            name_set::name_set(children@) == children_of(patterns, dir@, files@.take(i as int)),
        decreases files@.len() - i,
    {
        let ghost before = children_of(patterns, dir@, files@.take(i as int));
        let ghost after = children_of(patterns, dir@, files@.take(i + 1));
        let ghost file = files@[i as int];
        proof {
            assert forall|name: Seq<char>| #[trigger] after.contains(name) == (before.contains(name)
                || is_child(patterns, dir@, file, name)) by {
                if before.contains(name) {
                    let k = choose|k: int|
                        0 <= k < i && is_child(
                            patterns,
                            dir@,
                            #[trigger] files@.take(i as int)[k],
                            name,
                        );
                    assert(files@.take(i + 1)[k] == files@.take(i as int)[k]);
                }
                if after.contains(name) && !is_child(patterns, dir@, file, name) {
                    let k = choose|k: int|
                        0 <= k < i + 1 && is_child(
                            patterns,
                            dir@,
                            #[trigger] files@.take(i + 1)[k],
                            name,
                        );
                    assert(files@.take(i as int)[k] == files@.take(i + 1)[k]);
                }
                assert(files@.take(i + 1)[i as int] == file);
            }
        }
        match &files[i].name {
            Some(name) => {
                if files[i].is_label && !is_ignored(
                    rules,
                    join_path(dir, name.as_str()).as_str(),
                    files[i].is_dir,
                ) {
                    insert_name(&mut children, name.clone());
                    assert(after =~= before.insert(name@));
                } else {
                    assert(after =~= before);
                }
            },
            None => {
                assert(after =~= before);
            },
        }
        i += 1;
    }
    assert(files@.take(files@.len() as int) =~= files@);
    children
}

/// A name is that of a child exactly where an entry has it that can stand in a label and is not ignored, by
/// its path and by whether it is a directory.
pub proof fn children_are_what_is_not_ignored(
    patterns: Seq<Seq<char>>,
    dir: Seq<char>,
    files: Seq<ListedFile>,
    name: Seq<char>,
)
    ensures
        children_of(patterns, dir, files).contains(name) <==> exists|i: int|
            0 <= i < files.len() && (#[trigger] files[i]).name is Some && files[i].name->0@ == name && files[i].is_label
                && !patterns_ignore(patterns, paths::joined(dir, name), files[i].is_dir),
{
    if children_of(patterns, dir, files).contains(name) {
        let i = choose|i: int| 0 <= i < files.len() && is_child(patterns, dir, #[trigger] files[i], name);
        assert(files[i].name is Some && files[i].name->0@ == name);
    }
    if exists|i: int|
        0 <= i < files.len() && (#[trigger] files[i]).name is Some && files[i].name->0@ == name && files[i].is_label
            && !patterns_ignore(patterns, paths::joined(dir, name), files[i].is_dir) {
        let i = choose|i: int|
            0 <= i < files.len() && (#[trigger] files[i]).name is Some && files[i].name->0@ == name
                && files[i].is_label && !patterns_ignore(patterns, paths::joined(dir, name), files[i].is_dir);
        assert(is_child(patterns, dir, files[i], name));
    }
}

} // verus!
