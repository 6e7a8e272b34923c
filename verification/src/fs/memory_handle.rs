//! Open files of an in-memory archive.

use std::sync::Arc;

use vstd::prelude::*;

use crate::api::rights::HandleRights;
use crate::api::types::{
    self, Dirent, Errno, Fdflags, Filestat, Filetype, Oflags, SeekFrom, FD_FILESTAT_GET, FD_READ, FD_READDIR, FD_SEEK,
    FD_TELL, OFLAGS_DIRECTORY, OFLAGS_TRUNC, PATH_FILESTAT_GET, PATH_OPEN,
};
use crate::base::bytes::{self, fill};
use crate::base::paths::{self, segments};
use crate::base::text::{chars_of, string_of};
use crate::fs::memory_tar::InMemoryArchive;
use crate::fs::memory_tree::{self, position, File, InMemoryDirEntry, InMemoryDirectory, LookupResult};

verus! {

pub open spec fn entry_inode(entry: InMemoryDirEntry) -> u64 {
    match entry {
        InMemoryDirEntry::Directory(d) => d.inode,
        InMemoryDirEntry::File(f) => f.inode,
    }
}

pub open spec fn entry_file_type(entry: InMemoryDirEntry) -> Filetype {
    match entry {
        InMemoryDirEntry::Directory(_) => Filetype::Directory,
        InMemoryDirEntry::File(_) => Filetype::RegularFile,
    }
}

/// What is told of an entry: directories have no size.
pub open spec fn entry_filestat(entry: InMemoryDirEntry) -> Filestat {
    match entry {
        InMemoryDirEntry::Directory(d) => types::plain_filestat(d.inode, Filetype::Directory, 0),
        InMemoryDirEntry::File(f) => types::plain_filestat(f.inode, Filetype::RegularFile, f.len),
    }
}

/// The rights that an entry gives. Nothing in an archive can be written to.
pub open spec fn entry_rights(entry: InMemoryDirEntry) -> HandleRights {
    let file = FD_READ | FD_SEEK | FD_TELL | FD_FILESTAT_GET;
    let directory = PATH_OPEN | FD_READDIR | PATH_FILESTAT_GET | FD_FILESTAT_GET;
    match entry {
        InMemoryDirEntry::Directory(_) => HandleRights {
            base: directory,
            inheriting: directory | file,
        },
        InMemoryDirEntry::File(_) => HandleRights { base: file, inheriting: 0 },
    }
}

impl InMemoryDirEntry {
    pub fn inode(&self) -> (r: u64)
        ensures
            r == entry_inode(*self),
    {
        match self {
            InMemoryDirEntry::Directory(d) => d.inode,
            InMemoryDirEntry::File(f) => f.inode,
        }
    }

    pub fn file_type(&self) -> (r: Filetype)
        ensures
            r == entry_file_type(*self),
    {
        match self {
            InMemoryDirEntry::Directory(_) => Filetype::Directory,
            InMemoryDirEntry::File(_) => Filetype::RegularFile,
        }
    }
}

/// Whether the bytes of a file lie within the archive.
pub open spec fn file_in_archive(f: File, archive: InMemoryArchive) -> bool {
    f.offset + f.len <= archive.bytes@.len()
}

/// The bytes of a file.
pub open spec fn file_bytes(f: File, archive: InMemoryArchive) -> Seq<u8> {
    archive.bytes@.subrange(f.offset as int, f.offset + f.len)
}

impl File {
    /// The bytes of the file.
    pub fn as_bytes<'b>(&self, archive: &'b InMemoryArchive) -> (r: &'b [u8])
        requires
            file_in_archive(*self, *archive),
        ensures
            r@ == file_bytes(*self, *archive),
    {
        let total: usize = archive.bytes.len();
        let start: usize = self.offset as usize;
        let end: usize = start + self.len as usize;
        vstd::slice::slice_subrange(archive.bytes.as_slice(), start, end)
    }
}

impl<'a> LookupResult<'a> {
    /// What was found, as an entry.
    pub open spec fn entry(self) -> InMemoryDirEntry {
        match self {
            LookupResult::File(f) => InMemoryDirEntry::File(*f),
            LookupResult::Directory(d) => InMemoryDirEntry::Directory(*d),
        }
    }

    pub fn filestat(&self) -> (r: Filestat)
        ensures
            r == entry_filestat(self.entry()),
    {
        match self {
            LookupResult::Directory(d) => Filestat::plain(d.inode, Filetype::Directory, 0),
            LookupResult::File(f) => Filestat::plain(f.inode, Filetype::RegularFile, f.len),
        }
    }
}

/// The position at an offset from another one.
pub open spec fn offset_from(from: u64, offset: i64) -> int {
    from + offset
}

/// The position at an offset from another one, where it can be held.
pub fn safe_offset_add(from: u64, offset: i64) -> (r: Option<u64>)
    ensures
        r == if 0 <= offset_from(from, offset) <= u64::MAX {
            Some(offset_from(from, offset) as u64)
        } else {
            None
        },
{
    if offset >= 0 {
        from.checked_add(offset as u64)
    } else if offset == i64::MIN {
        from.checked_sub(0x8000_0000_0000_0000)
    } else {
        from.checked_sub((-offset) as u64)
    }
}

/// An open file or directory.
pub struct Handle {
    pub filesystem: Arc<InMemoryArchive>,
    /// The path from the root, with a slash before each name.
    pub path: String,
    pub current_offset: u64,
}

/// A file or directory that can be opened many times.
pub struct StaticHandle {
    pub filesystem: Arc<InMemoryArchive>,
    pub path: String,
}

/// What stands at a path that starts with a slash.
pub open spec fn entry_at_text(archive: InMemoryArchive, path: Seq<char>) -> Option<InMemoryDirEntry> {
    archive.root.entry_at(paths::segments_of(path.skip(1)))
}

/// Whether a path starts with a slash and leads to something.
pub open spec fn leads_somewhere(archive: InMemoryArchive, path: Seq<char>) -> bool {
    &&& archive.wf()
    &&& path.len() > 0
    &&& path[0] == '/'
    &&& entry_at_text(archive, path) is Some
}

/// The answer to opening an entry of a directory.
pub open spec fn open_child(
    dir: InMemoryDirEntry,
    name: Seq<char>,
    write: bool,
    oflags: Oflags,
) -> Result<InMemoryDirEntry, Errno> {
    match dir {
        InMemoryDirEntry::File(_) => Err(Errno::Notdir),
        InMemoryDirEntry::Directory(d) => if write || oflags & OFLAGS_TRUNC == OFLAGS_TRUNC {
            Err(Errno::Notcapable)
        } else if !memory_tree::has_name(d.children@, name) {
            Err(Errno::Noent)
        } else {
            let entry = d.children@[memory_tree::index_of_name(d.children@, name)].entry;
            if oflags & OFLAGS_DIRECTORY == OFLAGS_DIRECTORY && entry is File {
                Err(Errno::Notdir)
            } else {
                Ok(entry)
            }
        },
    }
}

/// The directory entry of the child at a place, as a listing tells it.
pub open spec fn child_dirent(d: InMemoryDirectory, i: int) -> Result<(Dirent, Seq<char>), Errno> {
    let child = d.children@[i];
    let len = vstd::utf8::encode_utf8(child.name@).len();
    if len > u32::MAX {
        Err(Errno::Overflow)
    } else {
        Ok(
            (
                Dirent {
                    d_next: (i + 1) as u64,
                    d_ino: entry_inode(child.entry),
                    d_namlen: len as u32,
                    d_type: entry_file_type(child.entry),
                },
                child.name@,
            ),
        )
    }
}

pub open spec fn dirent_text(item: Result<(Dirent, String), Errno>) -> Result<
    (Dirent, Seq<char>),
    Errno,
> {
    match item {
        Ok((d, name)) => Ok((d, name@)),
        Err(e) => Err(e),
    }
}

impl Handle {
    /// A handle leads to something in its archive.
    pub open spec fn wf(self) -> bool {
        leads_somewhere(*self.filesystem, self.path@)
    }

    /// The root of the archive.
    pub open spec fn root(self) -> InMemoryDirectory {
        self.filesystem.root
    }

    /// What the handle is open for.
    pub open spec fn entry(self) -> InMemoryDirEntry {
        entry_at_text(*self.filesystem, self.path@)->0
    }

    /// Finds what stands at a path below this handle.
    pub fn lookup<'a>(&'a self, subpath: &str) -> (r: Option<LookupResult<'a>>)
        requires
            self.wf(),
            subpath@.len() > 0 ==> subpath@[0] != '/' && subpath@.last() != '/',
        ensures
            ({
                let path = paths::segments_of(self.path@.skip(1)) + paths::segments_of(subpath@);
                match r {
                    None => self.filesystem.root.entry_at(path) is None,
                    Some(found) => self.filesystem.root.entry_at(path) == Some(found.entry()) && match found {
                        LookupResult::Directory(d) => d.wf(),
                        LookupResult::File(_) => true,
                    },
                }
            }),
    {
        let chars = chars_of(self.path.as_str());
        let rest = string_of(&chars, 1, chars.len());
        assert(rest@ =~= self.path@.skip(1));
        let mut path = segments(rest.as_str());
        let ghost first = memory_tree::names(path@);
        let mut below = segments(subpath);
        let ghost second = memory_tree::names(below@);
        path.append(&mut below);
        assert(memory_tree::names(path@) =~= first + second);
        assert(memory_tree::names(path@).skip(0) =~= first + second);
        self.filesystem.root.lookup(&path, 0)
    }

    /// Finds what this handle is open for.
    pub fn lookup_self<'a>(&'a self) -> (r: LookupResult<'a>)
        requires
            self.wf(),
        ensures
            r.entry() == self.entry(),
            match r {
                LookupResult::Directory(d) => d.wf(),
                LookupResult::File(_) => true,
            },
    {
        proof {
            reveal_strlit("");
            paths::segments_of_nothing();
            assert(""@ =~= Seq::<char>::empty());
            let path = paths::segments_of(self.path@.skip(1));
            assert(path + Seq::<Seq<char>>::empty() =~= path);
        }
        match self.lookup("") {
            Some(found) => found,
            None => {
                assert(false);
                LookupResult::Directory(&self.filesystem.root)
            },
        }
    }

    pub fn file_type(&self) -> (r: Filetype)
        requires
            self.wf(),
        ensures
            r == entry_file_type(self.entry()),
    {
        match self.lookup_self() {
            LookupResult::Directory(_) => Filetype::Directory,
            LookupResult::File(_) => Filetype::RegularFile,
        }
    }

    pub fn rights(&self) -> (r: HandleRights)
        requires
            self.wf(),
        ensures
            r == entry_rights(self.entry()),
    {
        let file_rights: u64 = FD_READ | FD_SEEK | FD_TELL | FD_FILESTAT_GET;
        let directory_rights: u64 = PATH_OPEN | FD_READDIR | PATH_FILESTAT_GET | FD_FILESTAT_GET;
        match self.lookup_self() {
            LookupResult::Directory(_) => HandleRights::new(
                directory_rights,
                directory_rights | file_rights,
            ),
            LookupResult::File(_) => HandleRights::from_base(file_rights),
        }
    }

    /// Reads on from the current offset, filling the buffers in order.
    pub fn read(&mut self, iovs: &mut Vec<Vec<u8>>) -> (r: Result<usize, Errno>)
        requires
            old(self).wf(),
            old(self).entry() matches InMemoryDirEntry::File(f) ==> file_in_archive(
                f,
                *old(self).filesystem,
            ),
        ensures
            final(self).filesystem == old(self).filesystem,
            final(self).path == old(self).path,
            match old(self).entry() {
                InMemoryDirEntry::Directory(_) => {
                    &&& r == Err::<usize, Errno>(Errno::Isdir)
                    &&& final(self).current_offset == old(self).current_offset
                    &&& final(iovs)@ == old(iovs)@
                },
                InMemoryDirEntry::File(f) => {
                    let contents = file_bytes(f, *old(self).filesystem);
                    let from = old(self).current_offset as int;
                    let wanted = bytes::concat(bytes::byte_strings(old(iovs)@));
                    if from > contents.len() {
                        &&& r == Err::<usize, Errno>(Errno::Inval)
                        &&& final(self).current_offset == old(self).current_offset
                        &&& final(iovs)@ == old(iovs)@
                    } else {
                        &&& r matches Ok(n)
                        &&& n == if wanted.len() <= contents.len() - from {
                            wanted.len() as int
                        } else {
                            contents.len() - from
                        }
                        &&& bytes::concat(bytes::byte_strings(final(iovs)@)) == contents.subrange(
                            from,
                            from + n,
                        ) + wanted.skip(n as int)
                        &&& final(iovs)@.len() == old(iovs)@.len()
                        &&& forall|k: int|
                            0 <= k < old(iovs)@.len() ==> (#[trigger] final(iovs)@[k])@.len()
                                == old(iovs)@[k]@.len()
                        &&& final(self).current_offset == from + n
                    }
                },
            },
    {
        let offset: u64 = self.current_offset;
        let n: usize = match self.lookup_self() {
            LookupResult::Directory(_) => {
                return Err(Errno::Isdir);
            },
            LookupResult::File(f) => {
                let contents = f.as_bytes(&self.filesystem);
                if offset > contents.len() as u64 {
                    return Err(Errno::Inval);
                }
                fill(iovs, contents, offset as usize)
            },
        };
        self.current_offset = offset + n as u64;
        Ok(n)
    }

    pub fn tell(&self) -> (r: Result<u64, Errno>)
        requires
            self.wf(),
        ensures
            r == if self.entry() is File {
                Ok(self.current_offset)
            } else {
                Err(Errno::Isdir)
            },
    {
        match self.file_type() {
            Filetype::RegularFile => Ok(self.current_offset),
            _ => Err(Errno::Isdir),
        }
    }

    /// Moves the current offset, to no place before the start or behind the end of the file.
    pub fn seek(&mut self, pos: SeekFrom) -> (r: Result<u64, Errno>)
        requires
            old(self).wf(),
        ensures
            final(self).filesystem == old(self).filesystem,
            final(self).path == old(self).path,
            match old(self).entry() {
                InMemoryDirEntry::Directory(_) => {
                    &&& r == Err::<u64, Errno>(Errno::Isdir)
                    &&& final(self).current_offset == old(self).current_offset
                },
                InMemoryDirEntry::File(f) => {
                    let target = match pos {
                        SeekFrom::Start(offset) => offset as int,
                        SeekFrom::Current(offset) => offset_from(old(self).current_offset, offset),
                        SeekFrom::End(offset) => offset_from(f.len, offset),
                    };
                    if target < 0 || target > u64::MAX {
                        &&& r == Err::<u64, Errno>(Errno::Overflow)
                        &&& final(self).current_offset == old(self).current_offset
                    } else if target > f.len {
                        &&& r == Err::<u64, Errno>(Errno::Inval)
                        &&& final(self).current_offset == old(self).current_offset
                    } else {
                        &&& r == Ok::<u64, Errno>(target as u64)
                        &&& final(self).current_offset == target
                    }
                },
            },
    {
        let len: u64 = match self.lookup_self() {
            LookupResult::Directory(_) => {
                return Err(Errno::Isdir);
            },
            LookupResult::File(f) => f.len,
        };
        let target = match pos {
            SeekFrom::Start(offset) => Some(offset),
            SeekFrom::Current(offset) => safe_offset_add(self.current_offset, offset),
            SeekFrom::End(offset) => safe_offset_add(len, offset),
        };
        match target {
            None => Err(Errno::Overflow),
            Some(target) => {
                if target > len {
                    return Err(Errno::Inval);
                }
                self.current_offset = target;
                Ok(target)
            },
        }
    }

    /// Opens an entry of this directory, for reading.
    pub fn openat_child(
        &self,
        path_segment: &str,
        write: bool,
        oflags: Oflags,
    ) -> (r: Result<Handle, Errno>)
        requires
            self.wf(),
        ensures
            match r {
                Ok(h) => {
                    &&& h.wf()
                    &&& h.filesystem == self.filesystem
                    &&& h.path@ == self.path@.push('/') + path_segment@
                    &&& h.current_offset == 0
                    &&& open_child(self.entry(), path_segment@, write, oflags) == Ok::<
                        InMemoryDirEntry,
                        Errno,
                    >(h.entry())
                },
                Err(e) => open_child(self.entry(), path_segment@, write, oflags) == Err::<
                    InMemoryDirEntry,
                    Errno,
                >(e),
            },
    {
        let d = match self.lookup_self() {
            LookupResult::Directory(d) => d,
            LookupResult::File(_) => {
                return Err(Errno::Notdir);
            },
        };
        if write {
            return Err(Errno::Notcapable);
        }
        if oflags & OFLAGS_TRUNC == OFLAGS_TRUNC {
            return Err(Errno::Notcapable);
        }
        let name = path_segment.to_owned();
        let i: usize = match position(&d.children, &name) {
            Ok(i) => i,
            Err(_) => {
                return Err(Errno::Noent);
            },
        };
        proof {
            memory_tree::child_index(*d, name@, i as int);
        }
        if oflags & OFLAGS_DIRECTORY == OFLAGS_DIRECTORY {
            match &d.children[i].entry {
                InMemoryDirEntry::Directory(_) => {},
                InMemoryDirEntry::File(_) => {
                    return Err(Errno::Notdir);
                },
            }
        }
        let mut path = self.path.clone();
        path.push('/');
        path.append(path_segment);
        proof {
            assert(memory_tree::valid_name(d.children@[i as int].name@));
            paths::segments_of_child(self.path@.skip(1), name@);
            assert(path@ =~= self.path@.push('/') + name@);
            assert(path@.skip(1) =~= self.path@.skip(1).push('/') + name@);
            memory_tree::entry_at_child(
                self.root(),
                paths::segments_of(self.path@.skip(1)),
                *d,
                i as int,
            );
        }
        Ok(Handle { filesystem: self.filesystem.clone(), path, current_offset: 0 })
    }

    /// Lists this directory in the order of names, from the entry that the cookie counts to.
    pub fn readdir(&self, cookie: u64) -> (r: Result<Vec<Result<(Dirent, String), Errno>>, Errno>)
        requires
            self.wf(),
        ensures
            match self.entry() {
                InMemoryDirEntry::File(_) => r matches Err(e) && e == Errno::Notdir,
                InMemoryDirEntry::Directory(d) => if cookie > usize::MAX {
                    r matches Err(e) && e == Errno::Inval
                } else {
                    &&& r matches Ok(items)
                    &&& items@.len() == if cookie < d.children@.len() {
                        d.children@.len() - cookie
                    } else {
                        0
                    }
                    &&& forall|k: int|
                        0 <= k < items@.len() ==> dirent_text(#[trigger] items@[k]) == child_dirent(
                            d,
                            cookie + k,
                        )
                },
            },
    {
        let d = match self.lookup_self() {
            LookupResult::Directory(d) => d,
            LookupResult::File(_) => {
                return Err(Errno::Notdir);
            },
        };
        if cookie > usize::MAX as u64 {
            return Err(Errno::Inval);
        }
        let mut items: Vec<Result<(Dirent, String), Errno>> = Vec::new();
        let mut i: usize = cookie as usize;
        let count: usize = d.children.len();
        while i < count
            invariant
                count == d.children@.len(),
                cookie <= i,
                cookie < count ==> i <= count,
                cookie < count ==> items@.len() == i - cookie,
                cookie >= count ==> items@.len() == 0,
                forall|k: int|
                    0 <= k < items@.len() ==> dirent_text(#[trigger] items@[k]) == child_dirent(
                        *d,
                        cookie + k,
                    ),
            decreases count - i,
        {
            let child = &d.children[i];
            let len: usize = child.name.as_str().as_bytes().len();
            if len > 0xffff_ffff {
                items.push(Err(Errno::Overflow));
            } else {
                let dirent = Dirent {
                    d_next: i as u64 + 1,
                    d_ino: child.entry.inode(),
                    d_namlen: len as u32,
                    d_type: child.entry.file_type(),
                };
                items.push(Ok((dirent, child.name.clone())));
            }
            i += 1;
        }
        Ok(items)
    }

    /// There are no links in an archive.
    pub fn readlinkat_child(&self) -> (r: Result<String, Errno>)
        ensures
            r matches Err(e) && e == Errno::Inval,
    {
        Err(Errno::Inval)
    }

    pub fn filestat(&self) -> (r: Result<Filestat, Errno>)
        requires
            self.wf(),
        ensures
            r == Ok::<Filestat, Errno>(entry_filestat(self.entry())),
    {
        Ok(self.lookup_self().filestat())
    }

    /// Stats what stands at a path below this directory.
    pub fn filestat_child(&self, path_segment: &str) -> (r: Result<Filestat, Errno>)
        requires
            self.wf(),
            path_segment@.len() > 0 ==> path_segment@[0] != '/' && path_segment@.last() != '/',
        ensures
            r == match self.filesystem.root.entry_at(
                paths::segments_of(self.path@.skip(1)) + paths::segments_of(path_segment@),
            ) {
                Some(entry) => Ok(entry_filestat(entry)),
                None => Err(Errno::Noent),
            },
    {
        match self.lookup(path_segment) {
            Some(found) => Ok(found.filestat()),
            None => Err(Errno::Noent),
        }
    }

    /// No flags are set.
    pub fn fdstat(&self) -> (r: Result<Fdflags, Errno>)
        ensures
            r == Ok::<u16, Errno>(0),
    {
        Ok(0)
    }
}

impl StaticHandle {
    pub open spec fn wf(self) -> bool {
        leads_somewhere(*self.filesystem, self.path@)
    }

    /// Opens the file or directory, at its start.
    pub fn instantiate(&self) -> (r: Handle)
        requires
            self.wf(),
        ensures
            r.wf(),
            r.filesystem == self.filesystem,
            r.path@ == self.path@,
            r.current_offset == 0,
    {
        Handle { filesystem: self.filesystem.clone(), path: self.path.clone(), current_offset: 0 }
    }
}

/// What is told of an entry is what it is: its inode and type, and for a file its length. Nothing of an
/// archive can be written to, and files pass nothing on.
pub proof fn entries_are_told_as_they_are(entry: InMemoryDirEntry)
    ensures
        match entry {
            InMemoryDirEntry::Directory(d) => {
                &&& entry_inode(entry) == d.inode
                &&& entry_file_type(entry) == Filetype::Directory
                &&& entry_filestat(entry).ino == d.inode && entry_filestat(entry).size == 0
                &&& entry_filestat(entry).filetype == Filetype::Directory
                &&& entry_rights(entry).base == 0x246000
                &&& entry_rights(entry).inheriting == 0x246026
            },
            InMemoryDirEntry::File(f) => {
                &&& entry_inode(entry) == f.inode
                &&& entry_file_type(entry) == Filetype::RegularFile
                &&& entry_filestat(entry).ino == f.inode && entry_filestat(entry).size == f.len
                &&& entry_filestat(entry).filetype == Filetype::RegularFile
                &&& entry_rights(entry).base == 0x200026
                &&& entry_rights(entry).inheriting == 0
            },
        },
        entry_filestat(entry).nlink == 1 && entry_filestat(entry).dev == 0 && entry_filestat(entry).atim == 0
            && entry_filestat(entry).mtim == 0 && entry_filestat(entry).ctim == 0,
{
    assert(FD_READ | FD_SEEK | FD_TELL | FD_FILESTAT_GET == 0x200026u64) by (bit_vector);
    assert(PATH_OPEN | FD_READDIR | PATH_FILESTAT_GET | FD_FILESTAT_GET == 0x246000u64) by (bit_vector);
    assert(0x246000u64 | 0x200026u64 == 0x246026u64) by (bit_vector);
}

/// The bytes of a file are those of the archive from its offset on, as many as its length.
pub proof fn files_are_parts_of_the_archive(f: File, archive: InMemoryArchive, i: int)
    requires
        f.offset + f.len <= archive.bytes@.len(),
    ensures
        file_in_archive(f, archive),
        file_bytes(f, archive).len() == f.len,
        0 <= i < f.len ==> file_bytes(f, archive)[i] == archive.bytes@[f.offset + i],
{
}

/// Files that reach behind the end of the archive have no bytes to read.
pub proof fn files_must_lie_in_the_archive(f: File, archive: InMemoryArchive)
    ensures
        file_in_archive(f, archive) <==> f.offset + f.len <= archive.bytes@.len(),
{
}

/// A position at an offset is as far from the other one as the offset says, forward or backward.
pub proof fn offsets_are_distances(from: u64, offset: i64)
    ensures
        offset_from(from, offset) - from == offset,
{
}

/// A child is opened under its own name and under no other, for reading, and as a directory only where it is
/// one. Nothing is opened in a file.
pub proof fn children_are_opened_by_name(
    d: InMemoryDirectory,
    i: int,
    f: File,
    name: Seq<char>,
    write: bool,
    oflags: Oflags,
)
    requires
        d.wf(),
        0 <= i < d.children@.len(),
    ensures
        open_child(InMemoryDirEntry::File(f), name, write, oflags) == Err::<InMemoryDirEntry, Errno>(Errno::Notdir),
        write || oflags & OFLAGS_TRUNC == OFLAGS_TRUNC ==> open_child(
            InMemoryDirEntry::Directory(d),
            name,
            write,
            oflags,
        ) == Err::<InMemoryDirEntry, Errno>(Errno::Notcapable),
        !write && oflags & OFLAGS_TRUNC != OFLAGS_TRUNC ==> {
            &&& open_child(InMemoryDirEntry::Directory(d), d.children@[i].name@, write, oflags) == if oflags
                & OFLAGS_DIRECTORY == OFLAGS_DIRECTORY && d.children@[i].entry is File {
                Err(Errno::Notdir)
            } else {
                Ok(d.children@[i].entry)
            }
            &&& (forall|k: int| 0 <= k < d.children@.len() ==> (#[trigger] d.children@[k]).name@ != name)
                ==> open_child(InMemoryDirEntry::Directory(d), name, write, oflags) == Err::<
                InMemoryDirEntry,
                Errno,
            >(Errno::Noent)
        },
{
    memory_tree::child_index(d, d.children@[i].name@, i);
}

/// A listing tells of each child its own name, inode and type, and where the next one is.
pub proof fn children_are_listed_as_they_are(d: InMemoryDirectory, i: int)
    requires
        0 <= i < d.children@.len(),
        i < u64::MAX,
    ensures
        ({
            let child = d.children@[i];
            match child_dirent(d, i) {
                Ok((dirent, name)) => {
                    &&& name == child.name@
                    &&& dirent.d_next == i + 1
                    &&& dirent.d_namlen == vstd::utf8::encode_utf8(child.name@).len()
                    &&& match child.entry {
                        InMemoryDirEntry::Directory(c) => dirent.d_ino == c.inode && dirent.d_type
                            == Filetype::Directory,
                        InMemoryDirEntry::File(f) => dirent.d_ino == f.inode && dirent.d_type
                            == Filetype::RegularFile,
                    }
                },
                Err(e) => e == Errno::Overflow && vstd::utf8::encode_utf8(child.name@).len() > u32::MAX,
            }
        }),
{
}

/// Handles lead where their paths lead from the root: the names between the slashes, one after the other.
pub proof fn handles_lead_along_their_paths(archive: InMemoryArchive, path: Seq<char>, name: Seq<char>)
    requires
        path.len() > 0,
        name.len() > 0,
        !name.contains('/'),
    ensures
        entry_at_text(archive, seq!['/']) == archive.root.entry_at(Seq::empty()),
        entry_at_text(archive, path.push('/') + name) == archive.root.entry_at(
            paths::segments_of(path.skip(1)).push(name),
        ),
        leads_somewhere(archive, path) ==> path[0] == '/' && entry_at_text(archive, path) is Some,
{
    assert(seq!['/'].skip(1) =~= Seq::<char>::empty());
    paths::segments_of_nothing();
    assert((path.push('/') + name).skip(1) =~= path.skip(1).push('/') + name);
    paths::names_are_segments(path.skip(1), name);
}

/// What was found is told as it is, and so is each item of a listing: its entry and its name, or its error.
pub proof fn found_entries_are_told_as_they_are<'a>(found: LookupResult<'a>, item: Result<(Dirent, String), Errno>)
    ensures
        match found {
            LookupResult::File(f) => found.entry() == InMemoryDirEntry::File(*f),
            LookupResult::Directory(d) => found.entry() == InMemoryDirEntry::Directory(*d),
        },
        match item {
            Ok((dirent, name)) => dirent_text(item) == Ok::<(Dirent, Seq<char>), Errno>((dirent, name@)),
            Err(e) => dirent_text(item) == Err::<(Dirent, Seq<char>), Errno>(e),
        },
{
}

} // verus!
