//! The rights of an open file: what may be done with it, and with what is opened through it.

use vstd::prelude::*;

use crate::api::types::{
    Errno, Filetype, Rights, FD_ADVISE, FD_ALLOCATE, FD_DATASYNC, FD_FDSTAT_SET_FLAGS, FD_FILESTAT_GET,
    FD_FILESTAT_SET_SIZE, FD_FILESTAT_SET_TIMES, FD_READ, FD_READDIR, FD_SEEK, FD_SYNC, FD_TELL, FD_WRITE,
    PATH_CREATE_DIRECTORY, PATH_CREATE_FILE, PATH_FILESTAT_GET, PATH_FILESTAT_SET_SIZE,
    PATH_FILESTAT_SET_TIMES, PATH_LINK_SOURCE, PATH_LINK_TARGET, PATH_OPEN, PATH_REMOVE_DIRECTORY,
    PATH_RENAME_SOURCE, PATH_RENAME_TARGET, PATH_SYMLINK, PATH_UNLINK_FILE,
};

verus! {

/// Rights on a file itself, and the rights that files opened through it can have.
#[derive(Clone, Copy, PartialEq, Eq, Structural, Debug)]
pub struct HandleRights {
    pub base: Rights,
    pub inheriting: Rights,
}

/// An open file, under the number by which its owner knows it.
#[derive(Clone, Copy, PartialEq, Eq, Structural, Debug)]
pub struct OpenFile {
    pub handle: u64,
    pub file_type: Filetype,
    /// The rights that the file itself gives.
    pub rights: HandleRights,
}

/// Whether a set of rights has all of the others.
pub open spec fn rights_include(have: Rights, want: Rights) -> bool {
    have & want == want
}

/// The rights that can apply to a regular file.
pub open spec fn regular_file_rights() -> Rights {
    FD_FILESTAT_GET | FD_FILESTAT_SET_SIZE | FD_FILESTAT_SET_TIMES | FD_DATASYNC | FD_READ | FD_SEEK
        | FD_FDSTAT_SET_FLAGS | FD_SYNC | FD_TELL | FD_WRITE | FD_ADVISE | FD_ALLOCATE
}

/// The rights that can apply to a directory.
pub open spec fn directory_rights() -> Rights {
    FD_FILESTAT_GET | FD_FILESTAT_SET_SIZE | FD_FILESTAT_SET_TIMES | PATH_CREATE_DIRECTORY
        | PATH_CREATE_FILE | PATH_LINK_SOURCE | PATH_LINK_TARGET | PATH_OPEN | FD_READDIR
        | PATH_RENAME_SOURCE | PATH_RENAME_TARGET | PATH_FILESTAT_GET | PATH_FILESTAT_SET_SIZE
        | PATH_FILESTAT_SET_TIMES | PATH_SYMLINK | PATH_REMOVE_DIRECTORY | PATH_UNLINK_FILE
}

impl HandleRights {
    /// Whether all rights of `rhs` are there.
    pub open spec fn includes(self, rhs: HandleRights) -> bool {
        rights_include(self.base, rhs.base) && rights_include(self.inheriting, rhs.inheriting)
    }

    /// The rights that both sides have.
    pub open spec fn common(self, rhs: HandleRights) -> HandleRights {
        HandleRights { base: self.base & rhs.base, inheriting: self.inheriting & rhs.inheriting }
    }

    /// The rights of these that apply to a type of file.
    pub open spec fn for_type(self, ty: Filetype) -> HandleRights {
        if ty == Filetype::Directory {
            HandleRights { base: self.base & directory_rights(), inheriting: self.inheriting }
        } else {
            HandleRights { base: self.base & regular_file_rights(), inheriting: 0 }
        }
    }

    pub fn new(base: Rights, inheriting: Rights) -> (r: HandleRights)
        ensures
            r == (HandleRights { base, inheriting }),
    {
        HandleRights { base, inheriting }
    }

    /// Rights on the file itself alone.
    pub fn from_base(base: Rights) -> (r: HandleRights)
        ensures
            r == (HandleRights { base, inheriting: 0 }),
    {
        HandleRights { base, inheriting: 0 }
    }

    /// Whether all rights of `rhs` are there.
    pub fn contains(&self, rhs: &HandleRights) -> (r: bool)
        ensures
            r == self.includes(*rhs),
    {
        self.base & rhs.base == rhs.base && self.inheriting & rhs.inheriting == rhs.inheriting
    }

    /// Removes any rights that do not apply to this file type.
    pub fn filter_for_type(&self, ty: Filetype) -> (r: HandleRights)
        requires
            ty == Filetype::RegularFile || ty == Filetype::Directory,
        ensures
            r == self.for_type(ty),
    {
        let shared_rights: u64 = FD_FILESTAT_GET | FD_FILESTAT_SET_SIZE | FD_FILESTAT_SET_TIMES;
        match ty {
            Filetype::Directory => HandleRights {
                base: self.base & (shared_rights | PATH_CREATE_DIRECTORY | PATH_CREATE_FILE
                    | PATH_LINK_SOURCE | PATH_LINK_TARGET | PATH_OPEN | FD_READDIR | PATH_RENAME_SOURCE
                    | PATH_RENAME_TARGET | PATH_FILESTAT_GET | PATH_FILESTAT_SET_SIZE
                    | PATH_FILESTAT_SET_TIMES | PATH_SYMLINK | PATH_REMOVE_DIRECTORY
                    | PATH_UNLINK_FILE),
                inheriting: self.inheriting,
            },
            _ => HandleRights {
                base: self.base & (shared_rights | FD_DATASYNC | FD_READ | FD_SEEK | FD_FDSTAT_SET_FLAGS
                    | FD_SYNC | FD_TELL | FD_WRITE | FD_ADVISE | FD_ALLOCATE),
                inheriting: 0,
            },
        }
    }

    /// The rights that both sides have.
    pub fn bitand(&self, rhs: &HandleRights) -> (r: HandleRights)
        ensures
            r == self.common(*rhs),
    {
        HandleRights { base: self.base & rhs.base, inheriting: self.inheriting & rhs.inheriting }
    }
}

/// Refuses with `Notcapable` where the rights that something has do not include the required ones.
pub fn ensure_rights(have: &HandleRights, required: &HandleRights) -> (r: Result<(), Errno>)
    ensures
        r == if have.includes(*required) {
            Ok::<(), Errno>(())
        } else {
            Err(Errno::Notcapable)
        },
{
    if have.contains(required) {
        Ok(())
    } else {
        Err(Errno::Notcapable)
    }
}

/// Restricting rights never adds any: both sides include what they have in common.
pub proof fn common_rights_are_included(a: HandleRights, b: HandleRights)
    ensures
        a.includes(a.common(b)),
        b.includes(a.common(b)),
{
    let (x, y) = (a.base, b.base);
    let (v, w) = (a.inheriting, b.inheriting);
    assert(x & (x & y) == x & y && y & (x & y) == x & y) by (bit_vector);
    assert(v & (v & w) == v & w && w & (v & w) == v & w) by (bit_vector);
}

/// Inclusion of rights is transitive.
pub proof fn inclusion_is_transitive(a: HandleRights, b: HandleRights, c: HandleRights)
    requires
        a.includes(b),
        b.includes(c),
    ensures
        a.includes(c),
{
    let (x, y, z) = (a.base, b.base, c.base);
    assert(x & z == z) by (bit_vector)
        requires
            x & y == y,
            y & z == z,
    ;
    let (u, v, w) = (a.inheriting, b.inheriting, c.inheriting);
    assert(u & w == w) by (bit_vector)
        requires
            u & v == v,
            v & w == w,
    ;
}

/// Filtering for a type never adds a right, and filtering again changes nothing.
pub proof fn filter_for_type_only_removes(a: HandleRights, ty: Filetype)
    ensures
        a.includes(a.for_type(ty)),
        a.for_type(ty).for_type(ty) == a.for_type(ty),
{
    let x = a.base;
    let v = a.inheriting;
    let m = if ty == Filetype::Directory {
        directory_rights()
    } else {
        regular_file_rights()
    };
    assert(x & (x & m) == x & m && (x & m) & m == x & m) by (bit_vector);
    assert(v & v == v && v & 0 == 0) by (bit_vector);
}

/// Rights include others exactly where no bit of the others is missing, neither of those on the file itself
/// nor of those that are passed on.
pub proof fn inclusion_misses_no_bit(a: HandleRights, b: HandleRights)
    ensures
        a.includes(b) <==> b.base & !a.base == 0 && b.inheriting & !a.inheriting == 0,
        a.includes(a),
        a.includes((HandleRights { base: 0, inheriting: 0 })),
{
    let (x, y) = (a.base, b.base);
    let (v, w) = (a.inheriting, b.inheriting);
    assert((x & y == y) == (y & !x == 0) && x & x == x && x & 0 == 0) by (bit_vector);
    assert((v & w == w) == (w & !v == 0) && v & v == v && v & 0 == 0) by (bit_vector);
}

/// What two sides have in common is all that both include.
pub proof fn common_rights_are_the_most(a: HandleRights, b: HandleRights, c: HandleRights)
    requires
        a.includes(c),
        b.includes(c),
    ensures
        a.common(b).includes(c),
        a.common(b).base == a.base & b.base,
        a.common(b).inheriting == a.inheriting & b.inheriting,
{
    let (x, y, z) = (a.base, b.base, c.base);
    assert((x & y) & z == z) by (bit_vector)
        requires
            x & z == z,
            y & z == z,
    ;
    let (u, v, w) = (a.inheriting, b.inheriting, c.inheriting);
    assert((u & v) & w == w) by (bit_vector)
        requires
            u & w == w,
            v & w == w,
    ;
}

/// Filtering keeps exactly the rights that can apply to the type: for a directory those on its entries,
/// with all that is passed on, and for a file those on its contents, with nothing to pass on.
pub proof fn filtering_keeps_what_applies(a: HandleRights)
    ensures
        a.for_type(Filetype::Directory).base == a.base & 0x7ff7e00,
        a.for_type(Filetype::Directory).inheriting == a.inheriting,
        a.for_type(Filetype::RegularFile).base == a.base & 0xe001ff,
        a.for_type(Filetype::RegularFile).inheriting == 0,
{
    assert(directory_rights() == 0x7ff7e00u64) by (bit_vector);
    assert(regular_file_rights() == 0xe001ffu64) by (bit_vector);
}

} // verus!
