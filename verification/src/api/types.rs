//! The values of the `wasi_snapshot_preview1` interface that the file system layer works with.

use vstd::prelude::*;

verus! {

/// An error number of the interface.
#[derive(Clone, Copy, PartialEq, Eq, Structural, Debug)]
pub enum Errno {
    Success,
    TooBig,
    Acces,
    Addrinuse,
    Addrnotavail,
    Afnosupport,
    Again,
    Already,
    Badf,
    Badmsg,
    Busy,
    Canceled,
    Child,
    Connaborted,
    Connrefused,
    Connreset,
    Deadlk,
    Destaddrreq,
    Dom,
    Dquot,
    Exist,
    Fault,
    Fbig,
    Hostunreach,
    Idrm,
    Ilseq,
    Inprogress,
    Intr,
    Inval,
    Io,
    Isconn,
    Isdir,
    Loop,
    Mfile,
    Mlink,
    Msgsize,
    Multihop,
    Nametoolong,
    Netdown,
    Netreset,
    Netunreach,
    Nfile,
    Nobufs,
    Nodev,
    Noent,
    Noexec,
    Nolck,
    Nolink,
    Nomem,
    Nomsg,
    Noprotoopt,
    Nospc,
    Nosys,
    Notconn,
    Notdir,
    Notempty,
    Notrecoverable,
    Notsock,
    Notsup,
    Notty,
    Nxio,
    Overflow,
    Ownerdead,
    Perm,
    Pipe,
    Proto,
    Protonosupport,
    Prototype,
    Range,
    Rofs,
    Spipe,
    Srch,
    Stale,
    Timedout,
    Txtbsy,
    Xdev,
    Notcapable,
}

/// The number by which the interface passes an error.
pub open spec fn errno_number(e: Errno) -> i32 {
    match e {
        Errno::Success => 0,
        Errno::TooBig => 1,
        Errno::Acces => 2,
        Errno::Addrinuse => 3,
        Errno::Addrnotavail => 4,
        Errno::Afnosupport => 5,
        Errno::Again => 6,
        Errno::Already => 7,
        Errno::Badf => 8,
        Errno::Badmsg => 9,
        Errno::Busy => 10,
        Errno::Canceled => 11,
        Errno::Child => 12,
        Errno::Connaborted => 13,
        Errno::Connrefused => 14,
        Errno::Connreset => 15,
        Errno::Deadlk => 16,
        Errno::Destaddrreq => 17,
        Errno::Dom => 18,
        Errno::Dquot => 19,
        Errno::Exist => 20,
        Errno::Fault => 21,
        Errno::Fbig => 22,
        Errno::Hostunreach => 23,
        Errno::Idrm => 24,
        Errno::Ilseq => 25,
        Errno::Inprogress => 26,
        Errno::Intr => 27,
        Errno::Inval => 28,
        Errno::Io => 29,
        Errno::Isconn => 30,
        Errno::Isdir => 31,
        Errno::Loop => 32,
        Errno::Mfile => 33,
        Errno::Mlink => 34,
        Errno::Msgsize => 35,
        Errno::Multihop => 36,
        Errno::Nametoolong => 37,
        Errno::Netdown => 38,
        Errno::Netreset => 39,
        Errno::Netunreach => 40,
        Errno::Nfile => 41,
        Errno::Nobufs => 42,
        Errno::Nodev => 43,
        Errno::Noent => 44,
        Errno::Noexec => 45,
        Errno::Nolck => 46,
        Errno::Nolink => 47,
        Errno::Nomem => 48,
        Errno::Nomsg => 49,
        Errno::Noprotoopt => 50,
        Errno::Nospc => 51,
        Errno::Nosys => 52,
        Errno::Notconn => 53,
        Errno::Notdir => 54,
        Errno::Notempty => 55,
        Errno::Notrecoverable => 56,
        Errno::Notsock => 57,
        Errno::Notsup => 58,
        Errno::Notty => 59,
        Errno::Nxio => 60,
        Errno::Overflow => 61,
        Errno::Ownerdead => 62,
        Errno::Perm => 63,
        Errno::Pipe => 64,
        Errno::Proto => 65,
        Errno::Protonosupport => 66,
        Errno::Prototype => 67,
        Errno::Range => 68,
        Errno::Rofs => 69,
        Errno::Spipe => 70,
        Errno::Srch => 71,
        Errno::Stale => 72,
        Errno::Timedout => 73,
        Errno::Txtbsy => 74,
        Errno::Xdev => 75,
        Errno::Notcapable => 76,
    }
}

impl Errno {
    /// The number by which the interface passes this error.
    pub fn number(self) -> (r: i32)
        ensures
            r == errno_number(self),
            0 <= r <= 76,
            r == 0 <==> self == Errno::Success,
    {
        match self {
            Errno::Success => 0,
            Errno::TooBig => 1,
            Errno::Acces => 2,
            Errno::Addrinuse => 3,
            Errno::Addrnotavail => 4,
            Errno::Afnosupport => 5,
            Errno::Again => 6,
            Errno::Already => 7,
            Errno::Badf => 8,
            Errno::Badmsg => 9,
            Errno::Busy => 10,
            Errno::Canceled => 11,
            Errno::Child => 12,
            Errno::Connaborted => 13,
            Errno::Connrefused => 14,
            Errno::Connreset => 15,
            Errno::Deadlk => 16,
            Errno::Destaddrreq => 17,
            Errno::Dom => 18,
            Errno::Dquot => 19,
            Errno::Exist => 20,
            Errno::Fault => 21,
            Errno::Fbig => 22,
            Errno::Hostunreach => 23,
            Errno::Idrm => 24,
            Errno::Ilseq => 25,
            Errno::Inprogress => 26,
            Errno::Intr => 27,
            Errno::Inval => 28,
            Errno::Io => 29,
            Errno::Isconn => 30,
            Errno::Isdir => 31,
            Errno::Loop => 32,
            Errno::Mfile => 33,
            Errno::Mlink => 34,
            Errno::Msgsize => 35,
            Errno::Multihop => 36,
            Errno::Nametoolong => 37,
            Errno::Netdown => 38,
            Errno::Netreset => 39,
            Errno::Netunreach => 40,
            Errno::Nfile => 41,
            Errno::Nobufs => 42,
            Errno::Nodev => 43,
            Errno::Noent => 44,
            Errno::Noexec => 45,
            Errno::Nolck => 46,
            Errno::Nolink => 47,
            Errno::Nomem => 48,
            Errno::Nomsg => 49,
            Errno::Noprotoopt => 50,
            Errno::Nospc => 51,
            Errno::Nosys => 52,
            Errno::Notconn => 53,
            Errno::Notdir => 54,
            Errno::Notempty => 55,
            Errno::Notrecoverable => 56,
            Errno::Notsock => 57,
            Errno::Notsup => 58,
            Errno::Notty => 59,
            Errno::Nxio => 60,
            Errno::Overflow => 61,
            Errno::Ownerdead => 62,
            Errno::Perm => 63,
            Errno::Pipe => 64,
            Errno::Proto => 65,
            Errno::Protonosupport => 66,
            Errno::Prototype => 67,
            Errno::Range => 68,
            Errno::Rofs => 69,
            Errno::Spipe => 70,
            Errno::Srch => 71,
            Errno::Stale => 72,
            Errno::Timedout => 73,
            Errno::Txtbsy => 74,
            Errno::Xdev => 75,
            Errno::Notcapable => 76,
        }
    }
}

/// The kind of file behind a handle.
#[derive(Clone, Copy, PartialEq, Eq, Structural, Debug)]
pub enum Filetype {
    Unknown,
    BlockDevice,
    CharacterDevice,
    Directory,
    RegularFile,
    SocketDgram,
    SocketStream,
    SymbolicLink,
}

/// The byte by which a directory entry passes a file type.
pub open spec fn filetype_number(t: Filetype) -> u8 {
    match t {
        Filetype::Unknown => 0,
        Filetype::BlockDevice => 1,
        Filetype::CharacterDevice => 2,
        Filetype::Directory => 3,
        Filetype::RegularFile => 4,
        Filetype::SocketDgram => 5,
        Filetype::SocketStream => 6,
        Filetype::SymbolicLink => 7,
    }
}

impl Filetype {
    /// The byte by which a directory entry passes this file type.
    pub fn number(self) -> (r: u8)
        ensures
            r == filetype_number(self),
    {
        match self {
            Filetype::Unknown => 0,
            Filetype::BlockDevice => 1,
            Filetype::CharacterDevice => 2,
            Filetype::Directory => 3,
            Filetype::RegularFile => 4,
            Filetype::SocketDgram => 5,
            Filetype::SocketStream => 6,
            Filetype::SymbolicLink => 7,
        }
    }
}

/// Where a relative seek starts.
#[derive(Clone, Copy, PartialEq, Eq, Structural, Debug)]
pub enum Whence {
    Begin,
    Cur,
    End,
}

/// A seek request.
#[derive(Clone, Copy, PartialEq, Eq, Structural, Debug)]
pub enum SeekFrom {
    Start(u64),
    End(i64),
    Current(i64),
}

/// A clock of the interface.
#[derive(Clone, Copy, PartialEq, Eq, Structural, Debug)]
pub enum Clockid {
    Realtime,
    Monotonic,
    ProcessCputimeId,
    ThreadCputimeId,
}

/// The attributes of a file.
#[derive(Clone, Copy, PartialEq, Eq, Structural, Debug)]
pub struct Filestat {
    pub dev: u64,
    pub ino: u64,
    pub filetype: Filetype,
    pub nlink: u64,
    pub size: u64,
    pub atim: u64,
    pub mtim: u64,
    pub ctim: u64,
}

/// The attributes of a file of which only the inode, the type and the size are told: one link, no
/// device and no times.
pub open spec fn plain_filestat(ino: u64, filetype: Filetype, size: u64) -> Filestat {
    Filestat { dev: 0, ino, filetype, nlink: 1, size, atim: 0, mtim: 0, ctim: 0 }
}

impl Filestat {
    /// See `plain_filestat`.
    pub fn plain(ino: u64, filetype: Filetype, size: u64) -> (r: Filestat)
        ensures
            r == plain_filestat(ino, filetype, size),
    {
        Filestat { dev: 0, ino, filetype, nlink: 1, size, atim: 0, mtim: 0, ctim: 0 }
    }
}

/// The fixed part of a directory entry.
#[derive(Clone, Copy, PartialEq, Eq, Structural, Debug)]
pub struct Dirent {
    pub d_next: u64,
    pub d_ino: u64,
    pub d_namlen: u32,
    pub d_type: Filetype,
}

/// What is told of an open descriptor.
#[derive(Clone, Copy, PartialEq, Eq, Structural, Debug)]
pub struct Fdstat {
    pub fs_filetype: Filetype,
    pub fs_flags: u16,
    pub fs_rights_base: u64,
    pub fs_rights_inheriting: u64,
}

/// A set of rights, one bit each.
pub type Rights = u64;

pub const FD_DATASYNC: u64 = 0x1;

pub const FD_READ: u64 = 0x2;

pub const FD_SEEK: u64 = 0x4;

pub const FD_FDSTAT_SET_FLAGS: u64 = 0x8;

pub const FD_SYNC: u64 = 0x10;

pub const FD_TELL: u64 = 0x20;

pub const FD_WRITE: u64 = 0x40;

pub const FD_ADVISE: u64 = 0x80;

pub const FD_ALLOCATE: u64 = 0x100;

pub const PATH_CREATE_DIRECTORY: u64 = 0x200;

pub const PATH_CREATE_FILE: u64 = 0x400;

pub const PATH_LINK_SOURCE: u64 = 0x800;

pub const PATH_LINK_TARGET: u64 = 0x1000;

pub const PATH_OPEN: u64 = 0x2000;

pub const FD_READDIR: u64 = 0x4000;

pub const PATH_READLINK: u64 = 0x8000;

pub const PATH_RENAME_SOURCE: u64 = 0x10000;

pub const PATH_RENAME_TARGET: u64 = 0x20000;

pub const PATH_FILESTAT_GET: u64 = 0x40000;

pub const PATH_FILESTAT_SET_SIZE: u64 = 0x80000;

pub const PATH_FILESTAT_SET_TIMES: u64 = 0x100000;

pub const FD_FILESTAT_GET: u64 = 0x200000;

pub const FD_FILESTAT_SET_SIZE: u64 = 0x400000;

pub const FD_FILESTAT_SET_TIMES: u64 = 0x800000;

pub const PATH_SYMLINK: u64 = 0x1000000;

pub const PATH_REMOVE_DIRECTORY: u64 = 0x2000000;

pub const PATH_UNLINK_FILE: u64 = 0x4000000;

/// Flags with which a file is opened.
pub type Oflags = u16;

pub const OFLAGS_CREAT: u16 = 0x1;

pub const OFLAGS_DIRECTORY: u16 = 0x2;

pub const OFLAGS_EXCL: u16 = 0x4;

pub const OFLAGS_TRUNC: u16 = 0x8;

/// Flags of an open descriptor.
pub type Fdflags = u16;

pub const FDFLAGS_APPEND: u16 = 0x1;

pub const FDFLAGS_DSYNC: u16 = 0x2;

pub const FDFLAGS_NONBLOCK: u16 = 0x4;

pub const FDFLAGS_RSYNC: u16 = 0x8;

pub const FDFLAGS_SYNC: u16 = 0x10;

/// Flags of a path lookup.
pub type Lookupflags = u32;

pub const LOOKUPFLAGS_SYMLINK_FOLLOW: u32 = 0x1;

/// Errors have the numbers that the interface gives them, and no two have the same.
pub proof fn errors_are_numbered_as_the_interface_says(a: Errno, b: Errno)
    ensures
        errno_number(Errno::Success) == 0,
        errno_number(Errno::TooBig) == 1,
        errno_number(Errno::Acces) == 2,
        errno_number(Errno::Addrinuse) == 3,
        errno_number(Errno::Addrnotavail) == 4,
        errno_number(Errno::Afnosupport) == 5,
        errno_number(Errno::Again) == 6,
        errno_number(Errno::Already) == 7,
        errno_number(Errno::Badf) == 8,
        errno_number(Errno::Badmsg) == 9,
        errno_number(Errno::Busy) == 10,
        errno_number(Errno::Canceled) == 11,
        errno_number(Errno::Child) == 12,
        errno_number(Errno::Connaborted) == 13,
        errno_number(Errno::Connrefused) == 14,
        errno_number(Errno::Connreset) == 15,
        errno_number(Errno::Deadlk) == 16,
        errno_number(Errno::Destaddrreq) == 17,
        errno_number(Errno::Dom) == 18,
        errno_number(Errno::Dquot) == 19,
        errno_number(Errno::Exist) == 20,
        errno_number(Errno::Fault) == 21,
        errno_number(Errno::Fbig) == 22,
        errno_number(Errno::Hostunreach) == 23,
        errno_number(Errno::Idrm) == 24,
        errno_number(Errno::Ilseq) == 25,
        errno_number(Errno::Inprogress) == 26,
        errno_number(Errno::Intr) == 27,
        errno_number(Errno::Inval) == 28,
        errno_number(Errno::Io) == 29,
        errno_number(Errno::Isconn) == 30,
        errno_number(Errno::Isdir) == 31,
        errno_number(Errno::Loop) == 32,
        errno_number(Errno::Mfile) == 33,
        errno_number(Errno::Mlink) == 34,
        errno_number(Errno::Msgsize) == 35,
        errno_number(Errno::Multihop) == 36,
        errno_number(Errno::Nametoolong) == 37,
        errno_number(Errno::Netdown) == 38,
        errno_number(Errno::Netreset) == 39,
        errno_number(Errno::Netunreach) == 40,
        errno_number(Errno::Nfile) == 41,
        errno_number(Errno::Nobufs) == 42,
        errno_number(Errno::Nodev) == 43,
        errno_number(Errno::Noent) == 44,
        errno_number(Errno::Noexec) == 45,
        errno_number(Errno::Nolck) == 46,
        errno_number(Errno::Nolink) == 47,
        errno_number(Errno::Nomem) == 48,
        errno_number(Errno::Nomsg) == 49,
        errno_number(Errno::Noprotoopt) == 50,
        errno_number(Errno::Nospc) == 51,
        errno_number(Errno::Nosys) == 52,
        errno_number(Errno::Notconn) == 53,
        errno_number(Errno::Notdir) == 54,
        errno_number(Errno::Notempty) == 55,
        errno_number(Errno::Notrecoverable) == 56,
        errno_number(Errno::Notsock) == 57,
        errno_number(Errno::Notsup) == 58,
        errno_number(Errno::Notty) == 59,
        errno_number(Errno::Nxio) == 60,
        errno_number(Errno::Overflow) == 61,
        errno_number(Errno::Ownerdead) == 62,
        errno_number(Errno::Perm) == 63,
        errno_number(Errno::Pipe) == 64,
        errno_number(Errno::Proto) == 65,
        errno_number(Errno::Protonosupport) == 66,
        errno_number(Errno::Prototype) == 67,
        errno_number(Errno::Range) == 68,
        errno_number(Errno::Rofs) == 69,
        errno_number(Errno::Spipe) == 70,
        errno_number(Errno::Srch) == 71,
        errno_number(Errno::Stale) == 72,
        errno_number(Errno::Timedout) == 73,
        errno_number(Errno::Txtbsy) == 74,
        errno_number(Errno::Xdev) == 75,
        errno_number(Errno::Notcapable) == 76,
        errno_number(a) == errno_number(b) ==> a == b,
{
}

/// File types have the numbers that the interface gives them, and no two have the same.
pub proof fn types_are_numbered_as_the_interface_says(a: Filetype, b: Filetype)
    ensures
        filetype_number(Filetype::Unknown) == 0,
        filetype_number(Filetype::BlockDevice) == 1,
        filetype_number(Filetype::CharacterDevice) == 2,
        filetype_number(Filetype::Directory) == 3,
        filetype_number(Filetype::RegularFile) == 4,
        filetype_number(Filetype::SocketDgram) == 5,
        filetype_number(Filetype::SocketStream) == 6,
        filetype_number(Filetype::SymbolicLink) == 7,
        filetype_number(a) == filetype_number(b) ==> a == b,
{
}

/// What is told of a file is its inode, its type and its size. Two that agree in these are told alike, and
/// the times and the device are those of no file.
pub proof fn plain_files_have_no_times(ino: u64, filetype: Filetype, size: u64)
    ensures
        ({
            let stat = plain_filestat(ino, filetype, size);
            &&& stat.ino == ino && stat.filetype == filetype && stat.size == size
            &&& stat.nlink == 1
            &&& stat.dev == 0 && stat.atim == 0 && stat.mtim == 0 && stat.ctim == 0
        }),
{
}

/// Each right is one bit, at the place that the interface gives it.
pub proof fn rights_are_the_bits_of_the_interface()
    ensures
        FD_DATASYNC == 0x1 && FD_READ == 0x2 && FD_SEEK == 0x4 && FD_FDSTAT_SET_FLAGS == 0x8,
        FD_SYNC == 0x10 && FD_TELL == 0x20 && FD_WRITE == 0x40 && FD_ADVISE == 0x80,
        FD_ALLOCATE == 0x100 && PATH_CREATE_DIRECTORY == 0x200 && PATH_CREATE_FILE == 0x400,
        PATH_LINK_SOURCE == 0x800 && PATH_LINK_TARGET == 0x1000 && PATH_OPEN == 0x2000,
        FD_READDIR == 0x4000 && PATH_READLINK == 0x8000 && PATH_RENAME_SOURCE == 0x10000,
        PATH_RENAME_TARGET == 0x20000 && PATH_FILESTAT_GET == 0x40000,
        PATH_FILESTAT_SET_SIZE == 0x80000 && PATH_FILESTAT_SET_TIMES == 0x100000,
        FD_FILESTAT_GET == 0x200000 && FD_FILESTAT_SET_SIZE == 0x400000,
        FD_FILESTAT_SET_TIMES == 0x800000 && PATH_SYMLINK == 0x1000000,
        PATH_REMOVE_DIRECTORY == 0x2000000 && PATH_UNLINK_FILE == 0x4000000,
        OFLAGS_CREAT == 0x1 && OFLAGS_DIRECTORY == 0x2 && OFLAGS_EXCL == 0x4 && OFLAGS_TRUNC == 0x8,
        FDFLAGS_APPEND == 0x1 && FDFLAGS_DSYNC == 0x2 && FDFLAGS_NONBLOCK == 0x4,
        FDFLAGS_RSYNC == 0x8 && FDFLAGS_SYNC == 0x10 && LOOKUPFLAGS_SYMLINK_FOLLOW == 0x1,
{
}

} // verus!
