//! Path resolution: finding the directory that holds a file, one directory at a time.
//!
//! Directories are opened and links are read outside. A navigation says what it needs next, and is
//! told what came of it.

use vstd::prelude::*;

use crate::api::rights::{ensure_rights, HandleRights, OpenFile};
use crate::api::types::{Errno, Filetype, Lookupflags, LOOKUPFLAGS_SYMLINK_FOLLOW};
use crate::base::text::{self, chars_of, string_of};
use crate::fs::memory_tree;

verus! {

/// How many links one navigation follows.
pub const MAX_SYMLINK_EXPANSIONS: usize = 128;

/// Where a navigation ended.
pub enum NavigateResult {
    /// The file is the entry `filename` of a directory.
    Parented { parent_handle: OpenFile, filename: String },
    /// The path leads through its target to reach it, such as "somedir/.".
    Unparented { directory_handle: OpenFile },
}

/// What a navigation needs next, or how it ended.
pub enum NavigateAction {
    /// Open a direct descendant as a directory, without following links.
    Open { handle: OpenFile, filename: String },
    /// Read a direct descendant as a link.
    ReadLink { handle: OpenFile, filename: String },
    Done(NavigateResult),
    Fail(Errno),
}

/// A navigation that is under way.
pub struct Navigation {
    /// The directories on the way, the one where it started first.
    pub dirs: Vec<OpenFile>,
    /// What is left of the path.
    pub rest: Option<String>,
    /// The file name that was asked for last.
    pub filename: String,
    /// The rights that each directory on the way must give.
    pub rights: HandleRights,
    /// Whether a link in the last place is followed.
    pub follow: bool,
    pub symlink_expansions: usize,
}

/// What a navigation needs next, or how it ended, over texts.
pub enum NavigateStep {
    Open { handle: OpenFile, filename: Seq<char> },
    ReadLink { handle: OpenFile, filename: Seq<char> },
    Parented { parent_handle: OpenFile, filename: Seq<char> },
    Unparented { directory_handle: OpenFile },
    Fail(Errno),
}

impl View for NavigateAction {
    type V = NavigateStep;

    open spec fn view(&self) -> NavigateStep {
        match self {
            NavigateAction::Open { handle, filename } => NavigateStep::Open {
                handle: *handle,
                filename: filename@,
            },
            NavigateAction::ReadLink { handle, filename } => NavigateStep::ReadLink {
                handle: *handle,
                filename: filename@,
            },
            NavigateAction::Done(
                NavigateResult::Parented { parent_handle, filename },
            ) => NavigateStep::Parented { parent_handle: *parent_handle, filename: filename@ },
            NavigateAction::Done(
                NavigateResult::Unparented { directory_handle },
            ) => NavigateStep::Unparented { directory_handle: *directory_handle },
            NavigateAction::Fail(e) => NavigateStep::Fail(*e),
        }
    }
}

/// The directories on the way and what is left of the path.
#[verifier::ext_equal]
pub struct Place {
    pub dirs: Seq<OpenFile>,
    pub rest: Option<Seq<char>>,
}

/// The text before the first slash: all of it where there is none.
pub open spec fn head(path: Seq<char>) -> Seq<char> {
    if path.contains('/') {
        path.take(path.index_of_first('/')->0)
    } else {
        path
    }
}

/// The text after the first slash, where it is not empty.
pub open spec fn tail(path: Seq<char>) -> Option<Seq<char>> {
    if path.contains('/') && path.index_of_first('/')->0 + 1 < path.len() {
        Some(path.skip(path.index_of_first('/')->0 + 1))
    } else {
        None
    }
}

pub open spec fn path_size(path: Option<Seq<char>>) -> nat {
    match path {
        None => 0,
        Some(p) => p.len() + 1,
    }
}

pub proof fn tail_is_shorter(path: Seq<char>)
    ensures
        path_size(tail(path)) < path_size(Some(path)),
        path.contains('/') ==> path.index_of_first('/') is Some && 0 <= path.index_of_first('/')->0
            < path.len() && path[path.index_of_first('/')->0] == '/' && forall|j: int|
            0 <= j < path.index_of_first('/')->0 ==> path[j] != '/',
{
    path.index_of_first_ensures('/');
}

/// The next step from a place, passing over the segments that name no file.
///
/// An empty segment and "." stay where they are, and ".." goes back to the directory before, but
/// never above the one where the navigation started.
pub open spec fn next_step(place: Place, rights: HandleRights, follow: bool) -> (Place, NavigateStep)
    decreases path_size(place.rest),
{
    match place.rest {
        None => (place, NavigateStep::Unparented { directory_handle: place.dirs.last() }),
        Some(path) => {
            let name = head(path);
            let next = Place { dirs: place.dirs, rest: tail(path) };
            proof {
                tail_is_shorter(path);
            }
            if path.len() > 0 && path[0] == '/' {
                (next, NavigateStep::Fail(Errno::Notcapable))
            } else if name.len() == 0 || name == seq!['.'] {
                next_step(next, rights, follow)
            } else if name == seq!['.', '.'] {
                if place.dirs.len() <= 1 {
                    (next, NavigateStep::Fail(Errno::Notcapable))
                } else {
                    next_step(
                        Place { dirs: place.dirs.drop_last(), rest: tail(path) },
                        rights,
                        follow,
                    )
                }
            } else if path.contains('/') {
                if place.dirs.last().rights.includes(rights) {
                    (
                        next,
                        NavigateStep::Open { handle: place.dirs.last(), filename: name },
                    )
                } else {
                    (next, NavigateStep::Fail(Errno::Notcapable))
                }
            } else if follow {
                (next, NavigateStep::ReadLink { handle: place.dirs.last(), filename: name })
            } else {
                (
                    next,
                    NavigateStep::Parented {
                        parent_handle: place.dirs.last(),
                        filename: name,
                    },
                )
            }
        },
    }
}

/// The file name that a step hands out.
pub open spec fn step_filename(step: NavigateStep) -> Option<Seq<char>> {
    match step {
        NavigateStep::Open { filename, .. } => Some(filename),
        NavigateStep::ReadLink { filename, .. } => Some(filename),
        NavigateStep::Parented { filename, .. } => Some(filename),
        _ => None,
    }
}

/// The handle that a step hands out.
pub open spec fn step_handle(step: NavigateStep) -> Option<OpenFile> {
    match step {
        NavigateStep::Open { handle, .. } => Some(handle),
        NavigateStep::ReadLink { handle, .. } => Some(handle),
        NavigateStep::Parented { parent_handle, .. } => Some(parent_handle),
        NavigateStep::Unparented { directory_handle } => Some(directory_handle),
        NavigateStep::Fail(_) => None,
    }
}

/// Every file name that a navigation hands out is the name of an entry: it is not empty, holds no
/// slash, and is neither "." nor "..".
pub proof fn filenames_are_valid(place: Place, rights: HandleRights, follow: bool)
    ensures
        match step_filename(next_step(place, rights, follow).1) {
            Some(name) => memory_tree::valid_name(name),
            None => true,
        },
    decreases path_size(place.rest),
{
    if let Some(path) = place.rest {
        tail_is_shorter(path);
        let name = head(path);
        assert(!name.contains('/'));
        if path.len() > 0 && path[0] == '/' {
        } else if name.len() == 0 || name == seq!['.'] {
            filenames_are_valid(Place { dirs: place.dirs, rest: tail(path) }, rights, follow);
        } else if name == seq!['.', '.'] {
            if place.dirs.len() > 1 {
                filenames_are_valid(
                    Place { dirs: place.dirs.drop_last(), rest: tail(path) },
                    rights,
                    follow,
                );
            }
        }
    }
}

/// A navigation never goes above the directory where it started: the directories on the way stay a
/// prefix of what they were, with the first one still there, and the directory that a step names is
/// the last of them.
pub proof fn never_above_start(place: Place, rights: HandleRights, follow: bool)
    requires
        place.dirs.len() > 0,
    ensures
        next_step(place, rights, follow).0.dirs.len() > 0,
        next_step(place, rights, follow).0.dirs.is_prefix_of(place.dirs),
        next_step(place, rights, follow).0.dirs[0] == place.dirs[0],
        match step_handle(next_step(place, rights, follow).1) {
            Some(handle) => handle == next_step(place, rights, follow).0.dirs.last(),
            None => true,
        },
    decreases path_size(place.rest),
{
    if let Some(path) = place.rest {
        tail_is_shorter(path);
        let name = head(path);
        if path.len() > 0 && path[0] == '/' {
        } else if name.len() == 0 || name == seq!['.'] {
            never_above_start(Place { dirs: place.dirs, rest: tail(path) }, rights, follow);
        } else if name == seq!['.', '.'] {
            if place.dirs.len() > 1 {
                never_above_start(
                    Place { dirs: place.dirs.drop_last(), rest: tail(path) },
                    rights,
                    follow,
                );
            }
        }
    }
}

/// A directory is opened on the way only where it gives the rights that are asked for.
pub proof fn opens_only_with_rights(place: Place, rights: HandleRights, follow: bool)
    requires
        next_step(place, rights, follow).1 is Open,
    ensures
        next_step(place, rights, follow).0.dirs.last().rights.includes(rights),
    decreases path_size(place.rest),
{
    if let Some(path) = place.rest {
        tail_is_shorter(path);
        let name = head(path);
        if path.len() > 0 && path[0] == '/' {
        } else if name.len() == 0 || name == seq!['.'] {
            opens_only_with_rights(Place { dirs: place.dirs, rest: tail(path) }, rights, follow);
        } else if name == seq!['.', '.'] {
            if place.dirs.len() > 1 {
                opens_only_with_rights(
                    Place { dirs: place.dirs.drop_last(), rest: tail(path) },
                    rights,
                    follow,
                );
            }
        }
    }
}

proof fn lemma_first_name(name: Seq<char>, rest: Seq<char>)
    requires
        !name.contains('/'),
    ensures
        (name.push('/') + rest).contains('/'),
        head(name.push('/') + rest) == name,
        tail(name.push('/') + rest) == if rest.len() == 0 {
            None
        } else {
            Some(rest)
        },
{
    let path = name.push('/') + rest;
    let n = name.len() as int;
    assert(path[n] == '/');
    tail_is_shorter(path);
    let i = path.index_of_first('/')->0;
    if i < n {
        assert(name[i] == '/');
    }
    assert(i == n);
    assert(path.take(n) =~= name);
    assert(path.skip(n + 1) =~= rest);
}

/// A path that is the name of an entry leads to exactly that entry of the directory where the navigation
/// is: to read it as a link, where links are followed, and otherwise as the end.
pub proof fn single_names_are_handed_out(
    dirs: Seq<OpenFile>,
    name: Seq<char>,
    rights: HandleRights,
    follow: bool,
)
    requires
        name.len() > 0,
        !name.contains('/'),
        name != seq!['.'],
        name != seq!['.', '.'],
    ensures
        ({
            let (place, step) = next_step(Place { dirs, rest: Some(name) }, rights, follow);
            &&& place.dirs == dirs
            &&& place.rest is None
            &&& if follow {
                step == (NavigateStep::ReadLink { handle: dirs.last(), filename: name })
            } else {
                step == (NavigateStep::Parented { parent_handle: dirs.last(), filename: name })
            }
        }),
{
    assert(name[0] != '/') by {
        if name[0] == '/' {
            assert(name.contains('/'));
        }
    }
}

/// A path that goes on behind the name of an entry asks for exactly that entry to be opened, from the
/// directory where the navigation is, and leaves what is behind the slash. The directory must pass on
/// the rights.
pub proof fn names_before_a_slash_are_opened(
    dirs: Seq<OpenFile>,
    name: Seq<char>,
    rest: Seq<char>,
    rights: HandleRights,
    follow: bool,
)
    requires
        name.len() > 0,
        !name.contains('/'),
        name != seq!['.'],
        name != seq!['.', '.'],
    ensures
        ({
            let (place, step) = next_step(Place { dirs, rest: Some(name.push('/') + rest) }, rights, follow);
            &&& place.dirs == dirs
            &&& place.rest == if rest.len() == 0 {
                None
            } else {
                Some(rest)
            }
            &&& if dirs.last().rights.base & rights.base == rights.base && dirs.last().rights.inheriting
                & rights.inheriting == rights.inheriting {
                step == (NavigateStep::Open { handle: dirs.last(), filename: name })
            } else {
                step == NavigateStep::Fail(Errno::Notcapable)
            }
        }),
{
    lemma_first_name(name, rest);
    let path = name.push('/') + rest;
    assert(path[0] == name[0]);
    if name[0] == '/' {
        assert(name.contains('/'));
    }
}

/// A single dot before a slash changes nothing, and alone it leads to the directory where the navigation
/// is, as does nothing at all.
pub proof fn dots_stay(dirs: Seq<OpenFile>, rest: Seq<char>, rights: HandleRights, follow: bool)
    ensures
        rest.len() > 0 ==> next_step(Place { dirs, rest: Some(seq!['.', '/'] + rest) }, rights, follow) == next_step(
            Place { dirs, rest: Some(rest) },
            rights,
            follow,
        ),
        next_step(Place { dirs, rest: Some(seq!['.', '/']) }, rights, follow).1 == (NavigateStep::Unparented {
            directory_handle: dirs.last(),
        }),
        next_step(Place { dirs, rest: Some(seq!['.']) }, rights, follow).1 == (NavigateStep::Unparented {
            directory_handle: dirs.last(),
        }),
        next_step(Place { dirs, rest: Some(Seq::empty()) }, rights, follow).1 == (NavigateStep::Unparented {
            directory_handle: dirs.last(),
        }),
        next_step(Place { dirs, rest: None }, rights, follow).1 == (NavigateStep::Unparented {
            directory_handle: dirs.last(),
        }),
{
    reveal_with_fuel(next_step, 2);
    let dot = seq!['.'];
    lemma_first_name(dot, rest);
    lemma_first_name(dot, Seq::empty());
    assert(dot.push('/') + rest =~= seq!['.', '/'] + rest);
    assert(dot.push('/') + Seq::<char>::empty() =~= seq!['.', '/']);
}

/// Two dots go back to the directory before, and nowhere from the one where the navigation started.
pub proof fn double_dots_go_back(dirs: Seq<OpenFile>, rest: Seq<char>, rights: HandleRights, follow: bool)
    ensures
        dirs.len() > 1 && rest.len() > 0 ==> next_step(
            Place { dirs, rest: Some(seq!['.', '.', '/'] + rest) },
            rights,
            follow,
        ) == next_step(Place { dirs: dirs.drop_last(), rest: Some(rest) }, rights, follow),
        dirs.len() > 1 ==> next_step(Place { dirs, rest: Some(seq!['.', '.']) }, rights, follow) == (
            Place { dirs: dirs.drop_last(), rest: None },
            NavigateStep::Unparented { directory_handle: dirs[dirs.len() - 2] },
        ),
        dirs.len() <= 1 ==> next_step(
            Place { dirs, rest: Some(seq!['.', '.', '/'] + rest) },
            rights,
            follow,
        ).1 == NavigateStep::Fail(Errno::Notcapable),
        dirs.len() <= 1 ==> next_step(Place { dirs, rest: Some(seq!['.', '.']) }, rights, follow).1
            == NavigateStep::Fail(Errno::Notcapable),
{
    reveal_with_fuel(next_step, 2);
    let dots = seq!['.', '.'];
    assert(dots[1] == '.' && dots.len() == 2);
    assert(dots != seq!['.']) by {
        assert(seq!['.'].len() == 1);
    }
    lemma_first_name(dots, rest);
    assert(dots.push('/') + rest =~= seq!['.', '.', '/'] + rest);
}

/// A path that starts with a slash, or goes on with one where a name should be, leads nowhere.
pub proof fn absolute_paths_are_refused(dirs: Seq<OpenFile>, path: Seq<char>, rights: HandleRights, follow: bool)
    requires
        path.len() > 0,
        path[0] == '/',
    ensures
        next_step(Place { dirs, rest: Some(path) }, rights, follow).1 == NavigateStep::Fail(Errno::Notcapable),
{
}

pub open spec fn optional_text(s: Option<String>) -> Option<Seq<char>> {
    match s {
        None => None,
        Some(t) => Some(t@),
    }
}

/// Splits a path at its first slash.
fn split_once(path: &String) -> (r: (String, Option<String>, bool))
    ensures
        r.0@ == head(path@),
        optional_text(r.1) == tail(path@),
        r.2 == path@.contains('/'),
{
    let chars = chars_of(path.as_str());
    let mut i: usize = 0;
    while i < chars.len()
        invariant
            chars@ == path@,
            i <= chars@.len(),
            forall|j: int| 0 <= j < i ==> path@[j] != '/',
        decreases chars@.len() - i,
    {
        if chars[i] == '/' {
            proof {
                assert(path@.contains('/'));
                tail_is_shorter(path@);
                assert(path@.index_of_first('/')->0 == i);
            }
            let name = string_of(&chars, 0, i);
            assert(name@ =~= head(path@));
            if i + 1 < chars.len() {
                let rest = string_of(&chars, i + 1, chars.len());
                assert(rest@ =~= path@.skip(i + 1));
                return (name, Some(rest), true);
            }
            return (name, None, true);
        }
        i += 1;
    }
    (path.clone(), None, false)
}

impl Navigation {
    pub open spec fn place(self) -> Place {
        Place { dirs: self.dirs@, rest: optional_text(self.rest) }
    }

    /// Some directory is always open, and no more links were followed than are allowed.
    pub open spec fn wf(self) -> bool {
        self.dirs@.len() > 0 && self.symlink_expansions <= MAX_SYMLINK_EXPANSIONS
    }

    /// A navigation after a step: at the place where the step leads, and otherwise as it was.
    pub open spec fn stepped(self, before: Navigation, place: Place, action: NavigateAction) -> bool {
        &&& self.wf()
        &&& (self.place(), action@) == next_step(place, before.rights, before.follow)
        &&& self.rights == before.rights
        &&& self.follow == before.follow
        &&& match step_filename(action@) {
            Some(name) => self.filename@ == name,
            None => true,
        }
    }

    /// A navigation after its first step.
    pub open spec fn started(
        self,
        action: NavigateAction,
        start: OpenFile,
        path: Seq<char>,
        required: HandleRights,
        dirflags: Lookupflags,
    ) -> bool {
        &&& self.wf()
        &&& self.rights == navigation_rights(required)
        &&& self.follow == (dirflags & LOOKUPFLAGS_SYMLINK_FOLLOW == LOOKUPFLAGS_SYMLINK_FOLLOW)
        &&& self.symlink_expansions == 0
        &&& (self.place(), action@) == next_step(
            Place { dirs: seq![start], rest: Some(path) },
            self.rights,
            self.follow,
        )
        &&& match step_filename(action@) {
            Some(name) => self.filename@ == name,
            None => true,
        }
    }

    fn advance(&mut self) -> (r: NavigateAction)
        requires
            old(self).wf(),
        ensures
            final(self).stepped(*old(self), old(self).place(), r),
            final(self).symlink_expansions == old(self).symlink_expansions,
    {
        let ghost start = *self;
        loop
            invariant
                start == *old(self),
                self.wf(),
                self.rights == start.rights,
                self.follow == start.follow,
                self.symlink_expansions == start.symlink_expansions,
                next_step(self.place(), self.rights, self.follow) == next_step(
                    start.place(),
                    start.rights,
                    start.follow,
                ),
            decreases path_size(self.place().rest),
        {
            let ghost before = *self;
            let last = self.dirs[self.dirs.len() - 1];
            let path = match self.rest.take() {
                None => {
                    return NavigateAction::Done(
                        NavigateResult::Unparented { directory_handle: last },
                    );
                },
                Some(path) => path,
            };
            let (name, rest, slash) = split_once(&path);
            proof {
                tail_is_shorter(path@);
                reveal_strlit(".");
                reveal_strlit("..");
                assert("."@ =~= seq!['.']);
                assert(".."@ =~= seq!['.', '.']);
            }
            self.rest = rest;
            if slash && text::equal(name.as_str(), "") {
                proof {
                    reveal_strlit("");
                    assert(path@[0] == '/');
                }
                return NavigateAction::Fail(Errno::Notcapable);
            }
            proof {
                reveal_strlit("");
                if name@.len() == 0 {
                    assert(name@ =~= ""@);
                }
                if path@.len() > 0 && path@[0] == '/' {
                    assert(path@.contains('/'));
                }
            }
            if text::equal(name.as_str(), "") || text::equal(name.as_str(), ".") {
                continue ;
            }
            if text::equal(name.as_str(), "..") {
                if self.dirs.len() <= 1 {
                    return NavigateAction::Fail(Errno::Notcapable);
                }
                let _ = self.dirs.pop();
                assert(self.dirs@ =~= before.dirs@.drop_last());
                continue ;
            }
            self.filename = name.clone();
            if slash {
                return match ensure_rights(&last.rights, &self.rights) {
                    Err(e) => NavigateAction::Fail(e),
                    Ok(()) => NavigateAction::Open { handle: last, filename: name },
                };
            }
            if self.follow {
                return NavigateAction::ReadLink { handle: last, filename: name };
            }
            return NavigateAction::Done(
                NavigateResult::Parented { parent_handle: last, filename: name },
            );
        }
    }

    /// Goes on after a directory was asked for.
    ///
    /// A refusal that may mean a link is not handled in the middle of a path.
    pub fn opened(&mut self, result: Result<OpenFile, Errno>) -> (r: NavigateAction)
        requires
            old(self).wf(),
            result is Ok || !(result->Err_0 == Errno::Loop || result->Err_0 == Errno::Mlink
                || result->Err_0 == Errno::Notdir),
        ensures
            match result {
                Err(e) => r@ == NavigateStep::Fail(e) && *final(self) == *old(self),
                Ok(dir) => {
                    &&& final(self).stepped(
                        *old(self),
                        Place { dirs: old(self).dirs@.push(dir), rest: old(self).place().rest },
                        r,
                    )
                    &&& final(self).symlink_expansions == old(self).symlink_expansions
                },
            },
    {
        match result {
            Err(e) => NavigateAction::Fail(e),
            Ok(dir) => {
                self.dirs.push(dir);
                self.advance()
            },
        }
    }

    /// Goes on after a link was asked for: the path goes on with what it holds. Where there is no
    /// link under the name, the name itself is the target.
    pub fn link_read(&mut self, result: Result<String, Errno>) -> (r: NavigateAction)
        requires
            old(self).wf(),
        ensures
            match result {
                Ok(link) => if old(self).symlink_expansions == MAX_SYMLINK_EXPANSIONS {
                    r@ == NavigateStep::Fail(Errno::Loop) && *final(self) == *old(self)
                } else {
                    &&& final(self).stepped(
                        *old(self),
                        Place { dirs: old(self).dirs@, rest: Some(link@) },
                        r,
                    )
                    &&& final(self).symlink_expansions == old(self).symlink_expansions + 1
                },
                Err(e) => {
                    &&& *final(self) == *old(self)
                    &&& r@ == if e == Errno::Inval || e == Errno::Noent || e == Errno::Notdir {
                        NavigateStep::Parented {
                            parent_handle: old(self).dirs@.last(),
                            filename: old(self).filename@,
                        }
                    } else {
                        NavigateStep::Fail(e)
                    }
                },
            },
    {
        match result {
            Ok(link) => {
                if self.symlink_expansions >= MAX_SYMLINK_EXPANSIONS {
                    return NavigateAction::Fail(Errno::Loop);
                }
                self.symlink_expansions = self.symlink_expansions + 1;
                self.rest = Some(link);
                self.advance()
            },
            Err(Errno::Inval) | Err(Errno::Noent) | Err(Errno::Notdir) => {
                let last = self.dirs[self.dirs.len() - 1];
                NavigateAction::Done(
                    NavigateResult::Parented {
                        parent_handle: last,
                        filename: self.filename.clone(),
                    },
                )
            },
            Err(e) => NavigateAction::Fail(e),
        }
    }
}

/// The rights that each directory on the way must give: to pass on all that the last one must have.
pub open spec fn navigation_rights(required: HandleRights) -> HandleRights {
    HandleRights { base: 0, inheriting: required.base | required.inheriting }
}

/// The directories on the way must pass on every right that the last one must have or pass on, and no other.
pub proof fn rights_are_passed_on(required: HandleRights)
    ensures
        navigation_rights(required).base == 0,
        navigation_rights(required).inheriting == required.base | required.inheriting,
{
}

/// Why a navigation does not start.
pub open spec fn refused(
    start: OpenFile,
    rights: HandleRights,
    path: Seq<char>,
    required: HandleRights,
) -> Option<Errno> {
    if path.contains('\0') {
        Some(Errno::Ilseq)
    } else if start.file_type != Filetype::Directory {
        Some(Errno::Notdir)
    } else if !rights.includes(navigation_rights(required)) {
        Some(Errno::Notcapable)
    } else {
        None
    }
}

/// Starts to find the directory that holds the file at `path`, relative to an open directory.
///
/// `rights` are those of the descriptor, which may be fewer than the directory itself has.
pub fn navigate(
    start: OpenFile,
    rights: HandleRights,
    path: &str,
    required_container_rights: HandleRights,
    dirflags: Lookupflags,
) -> (r: Result<(Navigation, NavigateAction), Errno>)
    ensures
        match r {
            Err(e) => refused(start, rights, path@, required_container_rights) == Some(e),
            Ok((navigation, action)) => {
                &&& refused(start, rights, path@, required_container_rights) is None
                &&& navigation.started(action, start, path@, required_container_rights, dirflags)
            },
        },
{
    let chars = chars_of(path);
    let mut i: usize = 0;
    while i < chars.len()
        invariant
            chars@ == path@,
            i <= chars@.len(),
            forall|j: int| 0 <= j < i ==> path@[j] != '\0',
        decreases chars@.len() - i,
    {
        if chars[i] == '\0' {
            assert(path@.contains('\0'));
            return Err(Errno::Ilseq);
        }
        i += 1;
    }
    assert(!path@.contains('\0'));
    if start.file_type != Filetype::Directory {
        return Err(Errno::Notdir);
    }
    let required = HandleRights::new(
        0,
        required_container_rights.base | required_container_rights.inheriting,
    );
    match ensure_rights(&rights, &required) {
        Err(e) => {
            return Err(e);
        },
        Ok(()) => {},
    }
    let mut dirs: Vec<OpenFile> = Vec::new();
    dirs.push(start);
    assert(dirs@ =~= seq![start]);
    let mut navigation = Navigation {
        dirs,
        rest: Some(path.to_owned()),
        filename: String::new(),
        rights: required,
        follow: dirflags & LOOKUPFLAGS_SYMLINK_FOLLOW == LOOKUPFLAGS_SYMLINK_FOLLOW,
        symlink_expansions: 0,
    };
    let action = navigation.advance();
    Ok((navigation, action))
}

/// A link that is asked for is the entry that the navigation stands at: where it turns out to be no link,
/// the navigation ends there.
pub proof fn links_that_are_none_are_the_target(
    before: Navigation,
    place: Place,
    asked: Navigation,
    action: NavigateAction,
)
    requires
        asked.stepped(before, place, action),
        place.dirs.len() > 0,
        action is ReadLink,
    ensures
        action matches NavigateAction::ReadLink { handle, filename } && asked.dirs@.last() == handle
            && asked.filename@ == filename@,
        asked.dirs@.len() > 0,
        asked.rights == before.rights,
        asked.follow == before.follow,
{
    never_above_start(place, before.rights, before.follow);
}

/// A navigation starts in the open directory, with the whole path, no link followed, and all rights to be
/// passed on that the call needs of the last directory.
pub proof fn navigations_start_in_the_directory(
    n: Navigation,
    action: NavigateAction,
    start: OpenFile,
    path: Seq<char>,
    required: HandleRights,
    dirflags: Lookupflags,
)
    requires
        n.started(action, start, path, required, dirflags),
    ensures
        n.symlink_expansions == 0,
        n.rights.base == 0,
        n.rights.inheriting == required.base | required.inheriting,
        n.follow <==> dirflags & 1 == 1,
        n.dirs@ == seq![start],
        (n.place(), action@) == next_step(
            Place { dirs: seq![start], rest: Some(path) },
            HandleRights { base: 0, inheriting: required.base | required.inheriting },
            dirflags & 1 == 1,
        ),
{
    never_above_start(Place { dirs: seq![start], rest: Some(path) }, n.rights, n.follow);
    let d = n.place().dirs;
    assert(seq![start].len() == 1);
    assert(d =~= seq![start]);
}

/// A navigation is refused exactly where the path holds a zero character, the file is no directory, or the
/// descriptor does not pass on all that the call needs, in this order.
pub proof fn navigations_are_refused_in_order(
    start: OpenFile,
    rights: HandleRights,
    path: Seq<char>,
    required: HandleRights,
)
    ensures
        path.contains('\0') ==> refused(start, rights, path, required) == Some(Errno::Ilseq),
        !path.contains('\0') && start.file_type != Filetype::Directory ==> refused(start, rights, path, required)
            == Some(Errno::Notdir),
        !path.contains('\0') && start.file_type == Filetype::Directory ==> refused(start, rights, path, required)
            == if rights.inheriting & (required.base | required.inheriting) == required.base | required.inheriting {
            None
        } else {
            Some(Errno::Notcapable)
        },
{
    let b = rights.base;
    assert(b & 0 == 0) by (bit_vector);
}

/// What a navigation asks for or ends with is told as it is.
pub proof fn actions_are_told_as_they_are(action: NavigateAction)
    ensures
        match action {
            NavigateAction::Open { handle, filename } => action@ == (NavigateStep::Open {
                handle,
                filename: filename@,
            }),
            NavigateAction::ReadLink { handle, filename } => action@ == (NavigateStep::ReadLink {
                handle,
                filename: filename@,
            }),
            NavigateAction::Done(NavigateResult::Parented { parent_handle, filename }) => action@ == (
            NavigateStep::Parented { parent_handle, filename: filename@ }),
            NavigateAction::Done(NavigateResult::Unparented { directory_handle }) => action@ == (
            NavigateStep::Unparented { directory_handle }),
            NavigateAction::Fail(e) => action@ == NavigateStep::Fail(e),
        },
{
}

/// So many links are followed, and not one more.
pub proof fn link_limit()
    ensures
        MAX_SYMLINK_EXPANSIONS == 128,
{
}

/// A navigation is where its directories and the rest of its path are, and some directory is always open.
pub proof fn navigations_are_where_they_are(n: Navigation)
    ensures
        n.place().dirs == n.dirs@,
        match (n.rest, n.place().rest) {
            (Some(path), Some(text)) => text == path@,
            (None, None) => true,
            _ => false,
        },
        n.wf() ==> n.dirs@.len() > 0 && n.symlink_expansions <= 128,
{
}

} // verus!
