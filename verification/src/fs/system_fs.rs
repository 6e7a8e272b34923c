//! A read-only filesystem over a directory of the host: what the host answers becomes what a guest is
//! told.
//!
//! A guest sees names that match exactly and are valid Unicode, directories listed in the order of
//! code points, and `Errno::Io` for everything that the structure and contents of the directory do not
//! cause, so that the layers above know that an answer cannot be cached.

use vstd::prelude::*;

use crate::api::rights::HandleRights;
use crate::api::types::{
    self, Dirent, Errno, Fdflags, Filestat, Filetype, Oflags, FDFLAGS_APPEND, FDFLAGS_DSYNC, FDFLAGS_RSYNC,
    FDFLAGS_SYNC, FD_FILESTAT_GET, FD_READ, FD_READDIR, FD_SEEK, FD_TELL, OFLAGS_CREAT, OFLAGS_DIRECTORY,
    OFLAGS_EXCL, OFLAGS_TRUNC, PATH_FILESTAT_GET, PATH_OPEN,
};
use crate::base::bytes::bytes_equal;
use crate::base::name_set::{self, stable_order};
use crate::base::text;

verus! {

/// Why a directory of the host cannot become a filesystem.
#[derive(Debug)]
pub enum CreateError {
    /// The provided root path must be an absolute path.
    RelativeRootPath,
    Io(std::io::Error),
}

/// What the host says that a name stands for.
#[derive(Clone, Copy, PartialEq, Eq, Structural, Debug)]
pub enum HostKind {
    File,
    Directory,
    Symlink,
    /// A socket, a device and the like.
    Other,
}

/// Why a call to the host failed, as far as it matters.
#[derive(Clone, Copy, PartialEq, Eq, Structural, Debug)]
pub enum HostFailure {
    NotFound,
    NotADirectory,
    /// A symbolic link stood where none is followed.
    Loop,
    /// The call does not apply to this type of file.
    Invalid,
    Other,
}

/// An open file of the host.
#[derive(Clone, Copy, PartialEq, Eq, Structural, Debug)]
pub enum Handle {
    Directory,
    RegularFile,
}

/// How a child is to be opened.
#[derive(Clone, Copy, PartialEq, Eq, Structural, Debug)]
pub enum OpenPlan {
    Directory,
    File,
}

/// A name that the host lists in a directory, where it is valid Unicode.
#[derive(Debug)]
pub struct HostEntry {
    pub kind: HostKind,
    pub name: Option<String>,
}

pub open spec fn file_rights() -> u64 {
    FD_READ | FD_SEEK | FD_TELL | FD_FILESTAT_GET
}

pub open spec fn directory_rights() -> u64 {
    PATH_OPEN | FD_READDIR | PATH_FILESTAT_GET | FD_FILESTAT_GET
}

impl Handle {
    pub open spec fn handle_rights(self) -> HandleRights {
        match self {
            Handle::Directory => HandleRights {
                base: directory_rights(),
                inheriting: file_rights() | directory_rights(),
            },
            Handle::RegularFile => HandleRights { base: file_rights(), inheriting: 0 },
        }
    }

    pub fn file_type(&self) -> (r: Filetype)
        ensures
            r == match *self {
                Handle::Directory => Filetype::Directory,
                Handle::RegularFile => Filetype::RegularFile,
            },
    {
        match self {
            Handle::Directory => Filetype::Directory,
            Handle::RegularFile => Filetype::RegularFile,
        }
    }

    pub fn rights(&self) -> (r: HandleRights)
        ensures
            r == self.handle_rights(),
    {
        let file: u64 = FD_READ | FD_SEEK | FD_TELL | FD_FILESTAT_GET;
        let directory: u64 = PATH_OPEN | FD_READDIR | PATH_FILESTAT_GET | FD_FILESTAT_GET;
        match self {
            Handle::Directory => HandleRights::new(directory, file | directory),
            Handle::RegularFile => HandleRights::new(file, 0),
        }
    }

    /// Refuses to read, to tell the position or to seek, where there is no position.
    pub fn check_stream(&self) -> (r: Result<(), Errno>)
        ensures
            r == match *self {
                Handle::Directory => Err::<(), Errno>(Errno::Isdir),
                Handle::RegularFile => Ok(()),
            },
    {
        match self {
            Handle::Directory => Err(Errno::Isdir),
            Handle::RegularFile => Ok(()),
        }
    }

    /// With what a write is refused. Nothing can be written to.
    pub fn write_refusal(&self) -> (r: Errno)
        ensures
            r == match *self {
                Handle::Directory => Errno::Isdir,
                Handle::RegularFile => Errno::Notcapable,
            },
    {
        match self {
            Handle::Directory => Errno::Isdir,
            Handle::RegularFile => Errno::Notcapable,
        }
    }

    /// Refuses to open, list, look up or follow children, where there are none.
    pub fn check_directory(&self) -> (r: Result<(), Errno>)
        ensures
            r == match *self {
                Handle::Directory => Ok::<(), Errno>(()),
                Handle::RegularFile => Err(Errno::Notdir),
            },
    {
        match self {
            Handle::Directory => Ok(()),
            Handle::RegularFile => Err(Errno::Notdir),
        }
    }

    pub fn fdstat(&self) -> (r: Fdflags)
        ensures
            r == 0,
    {
        0
    }
}

/// Whether a request to open would change the file.
pub open spec fn is_mutating(write: bool, oflags: Oflags, fd_flags: Fdflags) -> bool {
    ||| write
    ||| oflags & OFLAGS_CREAT == OFLAGS_CREAT
    ||| oflags & OFLAGS_EXCL == OFLAGS_EXCL
    ||| oflags & OFLAGS_TRUNC == OFLAGS_TRUNC
    ||| fd_flags & FDFLAGS_APPEND == FDFLAGS_APPEND
    ||| fd_flags & FDFLAGS_DSYNC == FDFLAGS_DSYNC
    ||| fd_flags & FDFLAGS_RSYNC == FDFLAGS_RSYNC
    ||| fd_flags & FDFLAGS_SYNC == FDFLAGS_SYNC
}

/// Whether a character cannot stand in the name of a child.
pub open spec fn is_separator(c: char) -> bool {
    c == '/' || c == '\\' || c == '\0'
}

/// How a child is to be opened, where the request can be granted.
pub fn plan_open(path_segment: &str, write: bool, oflags: Oflags, fd_flags: Fdflags) -> (r: Result<OpenPlan, Errno>)
    ensures
        r == if is_mutating(write, oflags, fd_flags) {
            Err::<OpenPlan, Errno>(Errno::Notcapable)
        } else if exists|i: int| 0 <= i < path_segment@.len() && is_separator(#[trigger] path_segment@[i]) {
            Err(Errno::Ilseq)
        } else if oflags & OFLAGS_DIRECTORY == OFLAGS_DIRECTORY {
            Ok(OpenPlan::Directory)
        } else {
            Ok(OpenPlan::File)
        },
{
    if write || oflags & OFLAGS_CREAT == OFLAGS_CREAT || oflags & OFLAGS_EXCL == OFLAGS_EXCL || oflags & OFLAGS_TRUNC
        == OFLAGS_TRUNC || fd_flags & FDFLAGS_APPEND == FDFLAGS_APPEND || fd_flags & FDFLAGS_DSYNC == FDFLAGS_DSYNC
        || fd_flags & FDFLAGS_RSYNC == FDFLAGS_RSYNC || fd_flags & FDFLAGS_SYNC == FDFLAGS_SYNC {
        return Err(Errno::Notcapable);
    }
    let len: usize = path_segment.unicode_len();
    let mut i: usize = 0;
    while i < len
        invariant
            len == path_segment@.len(),
            i <= len,
            forall|k: int| 0 <= k < i ==> !is_separator(#[trigger] path_segment@[k]),
            !is_mutating(write, oflags, fd_flags),
        decreases len - i,
    {
        let c: char = path_segment.get_char(i);
        if c == '/' || c == '\\' || c == '\0' {
            assert(is_separator(path_segment@[i as int]));
            return Err(Errno::Ilseq);
        }
        i += 1;
    }
    if oflags & OFLAGS_DIRECTORY == OFLAGS_DIRECTORY {
        Ok(OpenPlan::Directory)
    } else {
        Ok(OpenPlan::File)
    }
}

/// What a guest is told where the host did not open a child.
pub fn open_failed(plan: OpenPlan, failure: HostFailure) -> (r: Errno)
    requires
        !(plan == OpenPlan::File && failure == HostFailure::Loop),
    ensures
        r == match failure {
            HostFailure::NotFound => Errno::Noent,
            HostFailure::NotADirectory => Errno::Notdir,
            _ => Errno::Io,
        },
{
    match failure {
        HostFailure::NotFound => Errno::Noent,
        HostFailure::NotADirectory => Errno::Notdir,
        _ => Errno::Io,
    }
}

/// What was opened as a file, by the type that the host tells of it. Nothing but regular files exists
/// for a guest there.
pub fn file_opened(kind: HostKind) -> (r: Result<Handle, Errno>)
    requires
        kind != HostKind::Symlink,
    ensures
        r == if kind == HostKind::File {
            Ok::<Handle, Errno>(Handle::RegularFile)
        } else {
            Err(Errno::Noent)
        },
{
    match kind {
        HostKind::File => Ok(Handle::RegularFile),
        _ => Err(Errno::Noent),
    }
}

/// Refuses a file whose name on the host, where it can be told, is not byte for byte the requested one.
pub fn check_exact_name(actual: Option<&[u8]>, path_segment: &str) -> (r: Result<(), Errno>)
    ensures
        r == match actual {
            Some(name) => if name@ == vstd::utf8::encode_utf8(path_segment@) {
                Ok::<(), Errno>(())
            } else {
                Err(Errno::Noent)
            },
            None => Err(Errno::Noent),
        },
{
    match actual {
        Some(name) => if bytes_equal(name, path_segment.as_bytes()) {
            Ok(())
        } else {
            Err(Errno::Noent)
        },
        None => Err(Errno::Noent),
    }
}

/// The type that a guest is told, where the type is supported.
pub open spec fn guest_type(kind: HostKind) -> Option<Filetype> {
    match kind {
        HostKind::File => Some(Filetype::RegularFile),
        HostKind::Directory => Some(Filetype::Directory),
        HostKind::Symlink => Some(Filetype::SymbolicLink),
        HostKind::Other => None,
    }
}

impl HostKind {
    /// See `guest_type`.
    pub fn file_type(self) -> (r: Option<Filetype>)
        ensures
            r == guest_type(self),
    {
        match self {
            HostKind::File => Some(Filetype::RegularFile),
            HostKind::Directory => Some(Filetype::Directory),
            HostKind::Symlink => Some(Filetype::SymbolicLink),
            HostKind::Other => None,
        }
    }
}

/// What is told of a file, where its type is supported: nothing but the type and the size, so that
/// answers depend on structure and contents alone.
pub open spec fn converted_filestat(kind: HostKind, len: u64) -> Option<Filestat> {
    match guest_type(kind) {
        Some(filetype) => Some(types::plain_filestat(0, filetype, len)),
        None => None,
    }
}

/// See `converted_filestat`.
pub fn filestat_convert(kind: HostKind, len: u64) -> (r: Option<Filestat>)
    ensures
        r == converted_filestat(kind, len),
{
    match kind.file_type() {
        Some(filetype) => Some(Filestat::plain(0, filetype, len)),
        None => None,
    }
}

/// What a guest is told of a child, from the type and the size that the host told.
pub fn filestat_child(answer: Result<(HostKind, u64), HostFailure>) -> (r: Result<Filestat, Errno>)
    ensures
        r == match answer {
            Ok((kind, len)) => match converted_filestat(kind, len) {
                Some(filestat) => Ok::<Filestat, Errno>(filestat),
                None => Err(Errno::Noent),
            },
            Err(HostFailure::NotFound) => Err(Errno::Noent),
            Err(_) => Err(Errno::Io),
        },
{
    match answer {
        Ok((kind, len)) => match filestat_convert(kind, len) {
            Some(filestat) => Ok(filestat),
            None => Err(Errno::Noent),
        },
        Err(HostFailure::NotFound) => Err(Errno::Noent),
        Err(_) => Err(Errno::Io),
    }
}

/// Whether the target of a symbolic link is absolute.
pub open spec fn is_absolute(target: Seq<char>) -> bool {
    target.len() > 0 && target[0] == '/'
}

/// What a guest is told of the target of a symbolic link, which the host told where it is valid
/// Unicode. Only relative links are allowed.
pub fn readlink_child(answer: Result<Option<String>, HostFailure>) -> (r: Result<String, Errno>)
    ensures
        r == match answer {
            Ok(Some(target)) => if is_absolute(target@) {
                Err::<String, Errno>(Errno::Io)
            } else {
                Ok(target)
            },
            Ok(None) => Err(Errno::Io),
            Err(HostFailure::NotFound) => Err(Errno::Noent),
            Err(HostFailure::Invalid) => Err(Errno::Inval),
            Err(_) => Err(Errno::Io),
        },
{
    match answer {
        Ok(Some(target)) => if target.as_str().unicode_len() > 0 && target.as_str().get_char(0) == '/' {
            Err(Errno::Io)
        } else {
            Ok(target)
        },
        Ok(None) => Err(Errno::Io),
        Err(HostFailure::NotFound) => Err(Errno::Noent),
        Err(HostFailure::Invalid) => Err(Errno::Inval),
        Err(_) => Err(Errno::Io),
    }
}

/// A listed entry as a guest sees it: its type and its name.
pub struct EntryModel {
    pub file_type: Filetype,
    pub name: Seq<char>,
}

/// The entry that a guest sees of one that the host lists.
pub open spec fn visible_entry(entry: HostEntry) -> Option<EntryModel> {
    match (guest_type(entry.kind), entry.name) {
        (Some(file_type), Some(name)) => Some(EntryModel { file_type, name: name@ }),
        _ => None,
    }
}

/// The entries that a guest sees, as the host lists them.
pub open spec fn visible_entries(entries: Seq<HostEntry>) -> Seq<EntryModel>
    decreases entries.len(),
{
    if entries.len() == 0 {
        Seq::empty()
    } else {
        let before = visible_entries(entries.drop_last());
        match visible_entry(entries.last()) {
            Some(entry) => before.push(entry),
            None => before,
        }
    }
}

/// The names of entries.
pub open spec fn entry_names(entries: Seq<EntryModel>) -> Seq<Seq<char>> {
    entries.map_values(|e: EntryModel| e.name)
}

/// Whether the length of every name can be told.
pub open spec fn names_fit(entries: Seq<EntryModel>) -> bool {
    forall|i: int|
        0 <= i < entries.len() ==> vstd::utf8::encode_utf8((#[trigger] entries[i]).name).len() <= u32::MAX
}

/// The directory entry of what a guest sees at a place of a listing.
pub open spec fn listed(entry: EntryModel, place: int) -> Dirent {
    Dirent {
        d_next: (place + 1) as u64,
        d_ino: 0,
        d_namlen: vstd::utf8::encode_utf8(entry.name).len() as u32,
        d_type: entry.file_type,
    }
}

/// Whether `r` lists what a guest sees, in the order of the names and from a cookie on.
pub open spec fn is_listing(entries: Seq<EntryModel>, cookie: u64, r: Seq<(Dirent, String)>) -> bool {
    exists|order: Seq<usize>|
        #[trigger] name_set::is_stable_order(entry_names(entries), order) && is_listing_by(
            entries,
            order,
            cookie,
            r,
        )
}

/// Whether `r` lists entries in an order, from a cookie on.
pub open spec fn is_listing_by(
    entries: Seq<EntryModel>,
    order: Seq<usize>,
    cookie: u64,
    r: Seq<(Dirent, String)>,
) -> bool {
    &&& r.len() == if cookie <= entries.len() {
        entries.len() - cookie
    } else {
        0
    }
    &&& forall|i: int|
        0 <= i < r.len() ==> {
            let entry = entries[order[cookie + i] as int];
            (#[trigger] r[i]).0 == listed(entry, cookie + i) && r[i].1@ == entry.name
        }
}

/// What a guest is told of a directory from a cookie on: the supported files whose names are valid
/// Unicode, in the order of their names. Refused with `Overflow` where a name is too long to tell its
/// length.
pub fn readdir(entries: Vec<HostEntry>, cookie: u64) -> (r: Result<Vec<(Dirent, String)>, Errno>)
    ensures
        match r {
            Ok(listing) => names_fit(visible_entries(entries@)) && is_listing(
                visible_entries(entries@),
                cookie,
                listing@,
            ),
            Err(e) => e == Errno::Overflow && !names_fit(visible_entries(entries@)),
        },
{
    let mut file_types: Vec<Filetype> = Vec::new();
    let mut names: Vec<String> = Vec::new();
    let mut lengths: Vec<u32> = Vec::new();
    let count: usize = entries.len();
    let mut i: usize = 0;
    assert(entries@.take(0) =~= Seq::<HostEntry>::empty());
    while i < count
        invariant
            i <= count,
            count == entries@.len(),
            are_visible(visible_entries(entries@.take(i as int)), file_types@, names@, lengths@),
        decreases count - i,
    {
        let ghost seen = visible_entries(entries@.take(i as int));
        let entry: &HostEntry = &entries[i];
        proof {
            assert(entries@.take(i + 1).drop_last() =~= entries@.take(i as int));
            visible_entries_grow(entries@, i + 1);
        }
        match (entry.kind.file_type(), &entry.name) {
            (Some(file_type), Some(name)) => {
                let len: usize = name.as_str().as_bytes().len();
                if len > 0xffff_ffff {
                    proof {
                        let all = visible_entries(entries@);
                        assert(all[seen.len() as int].name == name@);
                    }
                    return Err(Errno::Overflow);
                }
                file_types.push(file_type);
                names.push(name.as_str().to_owned());
                lengths.push(len as u32);
                assert(visible_entry(*entry) == Some(EntryModel { file_type, name: name@ }));
            },
            _ => {
                assert(visible_entry(*entry) is None);
            },
        }
        i += 1;
    }
    assert(entries@.take(count as int) =~= entries@);
    let ghost seen = visible_entries(entries@);
    let total: usize = names.len();
    let order: Vec<usize> = stable_order(&names);
    assert(name_set::texts(names@) =~= entry_names(seen));
    let mut listing: Vec<(Dirent, String)> = Vec::new();
    if cookie <= total as u64 {
        let mut k: usize = cookie as usize;
        while k < total
            invariant
                total == seen.len(),
                cookie <= k <= total,
                are_visible(seen, file_types@, names@, lengths@),
                name_set::is_stable_order(entry_names(seen), order@),
                listing@.len() == k - cookie,
                forall|j: int|
                    0 <= j < listing@.len() ==> {
                        let entry = seen[order@[cookie + j] as int];
                        (#[trigger] listing@[j]).0 == listed(entry, cookie + j) && listing@[j].1@ == entry.name
                    },
            decreases total - k,
        {
            assert(order@[k as int] < entry_names(seen).len());
            let at: usize = order[k];
            let dirent = Dirent {
                d_next: k as u64 + 1,
                d_ino: 0,
                d_namlen: lengths[at],
                d_type: file_types[at],
            };
            listing.push((dirent, names[at].as_str().to_owned()));
            k += 1;
        }
    }
    Ok(listing)
}

/// Whether the three lists hold the types, the names and the lengths of the names of entries.
spec fn are_visible(
    entries: Seq<EntryModel>,
    file_types: Seq<Filetype>,
    names: Seq<String>,
    lengths: Seq<u32>,
) -> bool {
    &&& file_types.len() == entries.len()
    &&& names.len() == entries.len()
    &&& lengths.len() == entries.len()
    &&& forall|i: int|
        0 <= i < entries.len() ==> {
            &&& file_types[i] == (#[trigger] entries[i]).file_type
            &&& names[i]@ == entries[i].name
            &&& lengths[i] == vstd::utf8::encode_utf8(entries[i].name).len()
        }
}

/// What a guest sees of the first entries stays where more are listed.
proof fn visible_entries_grow(entries: Seq<HostEntry>, n: int)
    requires
        0 <= n <= entries.len(),
    ensures
        visible_entries(entries.take(n)).len() <= visible_entries(entries).len(),
        forall|i: int|
            0 <= i < visible_entries(entries.take(n)).len() ==> visible_entries(entries.take(n))[i]
                == #[trigger] visible_entries(entries)[i],
    decreases entries.len(),
{
    if n < entries.len() {
        visible_entries_grow(entries.drop_last(), n);
        assert(entries.drop_last().take(n) =~= entries.take(n));
    } else {
        assert(entries.take(n) =~= entries);
    }
}

/// A directory is listed in the order of the code points of the names.
pub proof fn listing_is_sorted(entries: Seq<EntryModel>, cookie: u64, r: Seq<(Dirent, String)>, i: int, j: int)
    requires
        is_listing(entries, cookie, r),
        0 <= i < j < r.len(),
    ensures
        text::text_before(r[i].1@, r[j].1@) || r[i].1@ == r[j].1@,
{
    let order = choose|order: Seq<usize>|
        #[trigger] name_set::is_stable_order(entry_names(entries), order) && is_listing_by(
            entries,
            order,
            cookie,
            r,
        );
    let (a, b) = (order[cookie + i], order[cookie + j]);
    assert(entry_names(entries)[a as int] == r[i].1@);
    assert(entry_names(entries)[b as int] == r[j].1@);
}

/// A listing goes on where the cookie of an entry says: a listing from there holds what followed the
/// entry.
pub proof fn listing_resumes(
    entries: Seq<EntryModel>,
    cookie: u64,
    r: Seq<(Dirent, String)>,
    i: int,
    rest: Seq<(Dirent, String)>,
)
    requires
        entries.len() < u64::MAX,
        is_listing(entries, cookie, r),
        0 <= i < r.len(),
        is_listing(entries, r[i].0.d_next, rest),
    ensures
        rest.len() == r.len() - i - 1,
        forall|k: int|
            0 <= k < rest.len() ==> (#[trigger] rest[k]).0 == r[i + 1 + k].0 && rest[k].1@ == r[i + 1 + k].1@,
{
    let keys = entry_names(entries);
    let next = r[i].0.d_next;
    let order = choose|order: Seq<usize>|
        #[trigger] name_set::is_stable_order(keys, order) && is_listing_by(entries, order, cookie, r);
    let again = choose|order: Seq<usize>|
        #[trigger] name_set::is_stable_order(keys, order) && is_listing_by(entries, order, next, rest);
    name_set::stable_order_is_unique(keys, order, again);
    assert(next == cookie + i + 1);
    assert forall|k: int| 0 <= k < rest.len() implies (#[trigger] rest[k]).0 == r[i + 1 + k].0 && rest[k].1@ == r[i
        + 1 + k].1@ by {
        assert(next + k == cookie + (i + 1 + k));
        assert(r[i + 1 + k].0 == listed(entries[order[cookie + (i + 1 + k)] as int], cookie + (i + 1 + k)));
    }
}

/// Files of the host can be read and looked at, and nothing can be written. Directories pass on what their
/// files give.
pub proof fn host_files_are_for_reading(handle: Handle)
    ensures
        match handle {
            Handle::Directory => handle.handle_rights().base == 0x246000 && handle.handle_rights().inheriting
                == 0x246026,
            Handle::RegularFile => handle.handle_rights().base == 0x200026 && handle.handle_rights().inheriting == 0,
        },
{
    assert(FD_READ | FD_SEEK | FD_TELL | FD_FILESTAT_GET == 0x200026u64) by (bit_vector);
    assert(PATH_OPEN | FD_READDIR | PATH_FILESTAT_GET | FD_FILESTAT_GET == 0x246000u64) by (bit_vector);
    assert(0x200026u64 | 0x246000u64 == 0x246026u64) by (bit_vector);
}

/// A request would change a file exactly where it asks to write, to create, to create only, or to cut it
/// off, or for a mode of writing. Asking for a directory, or not to wait, changes nothing.
pub proof fn requests_to_change_are_known(write: bool, oflags: Oflags, fd_flags: Fdflags)
    ensures
        is_mutating(write, oflags, fd_flags) <==> write || oflags & 0xd != 0 || fd_flags & 0x1b != 0,
{
    assert((oflags & OFLAGS_CREAT == OFLAGS_CREAT || oflags & OFLAGS_EXCL == OFLAGS_EXCL || oflags & OFLAGS_TRUNC
        == OFLAGS_TRUNC) == (oflags & 0xd != 0)) by (bit_vector);
    assert((fd_flags & FDFLAGS_APPEND == FDFLAGS_APPEND || fd_flags & FDFLAGS_DSYNC == FDFLAGS_DSYNC || fd_flags
        & FDFLAGS_RSYNC == FDFLAGS_RSYNC || fd_flags & FDFLAGS_SYNC == FDFLAGS_SYNC) == (fd_flags & 0x1b != 0))
        by (bit_vector);
}

/// Slashes of both kinds and the zero character stand in no name, and every other character may.
pub proof fn separators_are_slashes_and_zero(c: char)
    ensures
        is_separator('/') && is_separator('\\') && is_separator('\0'),
        c != '/' && c != '\\' && c != '\0' ==> !is_separator(c),
{
}

/// Types are told as they are, and those that a guest does not know are not told. Besides the type only the
/// length is told.
pub proof fn host_types_are_told_as_they_are(kind: HostKind, len: u64)
    ensures
        guest_type(HostKind::File) == Some(Filetype::RegularFile),
        guest_type(HostKind::Directory) == Some(Filetype::Directory),
        guest_type(HostKind::Symlink) == Some(Filetype::SymbolicLink),
        guest_type(HostKind::Other) is None,
        converted_filestat(kind, len) is None <==> kind == HostKind::Other,
        converted_filestat(kind, len) matches Some(stat) ==> Some(stat.filetype) == guest_type(kind) && stat.size
            == len && stat.ino == 0 && stat.dev == 0 && stat.nlink == 1 && stat.atim == 0 && stat.mtim == 0
            && stat.ctim == 0,
{
}

/// Only a slash at the start makes the target of a link absolute.
pub proof fn only_leading_slashes_are_absolute(target: Seq<char>)
    ensures
        is_absolute(seq!['/'] + target),
        target.len() > 0 && target[0] != '/' ==> !is_absolute(target),
        !is_absolute(Seq::empty()),
{
}

/// A guest sees an entry exactly where the host tells a name that is text and a type that the guest knows,
/// and sees that name and type.
pub proof fn entries_are_seen_as_they_are(entry: HostEntry)
    ensures
        visible_entry(entry) is Some <==> entry.name is Some && entry.kind != HostKind::Other,
        visible_entry(entry) matches Some(seen) ==> seen.name == entry.name->0@ && Some(seen.file_type) == guest_type(
            entry.kind,
        ),
{
}

/// Every entry that a guest sees is seen once, and in the order of the host: one more entry adds itself, where
/// it is seen, and changes nothing else.
pub proof fn seen_entries_keep_their_order(entries: Seq<HostEntry>, entry: HostEntry)
    ensures
        visible_entries(Seq::empty()) == Seq::<EntryModel>::empty(),
        visible_entries(entries.push(entry)) == match visible_entry(entry) {
            Some(seen) => visible_entries(entries).push(seen),
            None => visible_entries(entries),
        },
{
    assert(entries.push(entry).drop_last() =~= entries);
}

/// A listing from the start holds every entry, and each under its own name, with its type and the place of
/// the next one.
pub proof fn listings_hold_what_is_seen(entries: Seq<EntryModel>, r: Seq<(Dirent, String)>, i: int)
    requires
        is_listing(entries, 0, r),
        0 <= i < r.len(),
        entries.len() < u64::MAX,
        names_fit(entries),
    ensures
        r.len() == entries.len(),
        exists|k: int|
            0 <= k < entries.len() && (#[trigger] entries[k]).name == r[i].1@ && entries[k].file_type == r[i].0.d_type,
        r[i].0.d_next == i + 1,
        r[i].0.d_ino == 0,
        r[i].0.d_namlen == vstd::utf8::encode_utf8(r[i].1@).len(),
{
    let order = choose|order: Seq<usize>|
        #[trigger] name_set::is_stable_order(entry_names(entries), order) && is_listing_by(entries, order, 0, r);
    let k = order[i] as int;
    assert(order[i] < entry_names(entries).len());
    assert(entries[k].name == r[i].1@);
    assert(r[i].0 == listed(entries[k], i));
}

/// Names fit exactly where the bytes of each can be counted with four bytes.
pub proof fn names_fit_one_by_one(entries: Seq<EntryModel>)
    ensures
        names_fit(entries) <==> forall|i: int|
            0 <= i < entries.len() ==> vstd::utf8::encode_utf8((#[trigger] entries[i]).name).len() <= 0xffff_ffff,
        entry_names(entries).len() == entries.len(),
        forall|i: int| 0 <= i < entries.len() ==> #[trigger] entry_names(entries)[i] == entries[i].name,
{
}

/// A listing from a cookie is what a listing from the start holds behind so many entries.
pub proof fn listings_from_a_cookie_skip_as_many(
    entries: Seq<EntryModel>,
    cookie: u64,
    all: Seq<(Dirent, String)>,
    r: Seq<(Dirent, String)>,
)
    requires
        entries.len() < u64::MAX,
        is_listing(entries, 0, all),
        is_listing(entries, cookie, r),
    ensures
        cookie >= entries.len() ==> r.len() == 0,
        cookie < entries.len() ==> r.len() == entries.len() - cookie && forall|k: int|
            0 <= k < r.len() ==> (#[trigger] r[k]).0 == all[cookie + k].0 && r[k].1@ == all[cookie + k].1@,
{
    if 0 < cookie < entries.len() {
        let i = cookie - 1;
        assert(all.len() == entries.len());
        let order = choose|order: Seq<usize>|
            #[trigger] name_set::is_stable_order(entry_names(entries), order) && is_listing_by(entries, order, 0, all);
        assert(all[i].0 == listed(entries[order[0 + i] as int], 0 + i));
        assert(all[i].0.d_next == cookie);
        listing_resumes(entries, 0, all, i, r);
        assert forall|k: int| 0 <= k < r.len() implies (#[trigger] r[k]).0 == all[cookie + k].0 && r[k].1@
            == all[cookie + k].1@ by {
            assert(r[k].0 == all[i + 1 + k].0);
        }
    } else if cookie == 0 {
        let p = choose|order: Seq<usize>|
            #[trigger] name_set::is_stable_order(entry_names(entries), order) && is_listing_by(entries, order, 0, all);
        let q = choose|order: Seq<usize>|
            #[trigger] name_set::is_stable_order(entry_names(entries), order) && is_listing_by(entries, order, 0, r);
        name_set::stable_order_is_unique(entry_names(entries), p, q);
        assert forall|k: int| 0 <= k < r.len() implies (#[trigger] r[k]).0 == all[cookie + k].0 && r[k].1@
            == all[cookie + k].1@ by {
            assert(all[k].0 == listed(entries[p[0 + k] as int], 0 + k));
        }
    }
}

} // verus!
