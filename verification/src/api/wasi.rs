//! The calls of a guest that concern files, clocks and the environment.
//!
//! Each call is checked here against the descriptor table. What it asks of an open file is done
//! outside, and the reply is turned into the answer for the guest here.

use vstd::prelude::*;

use crate::api::descriptors::{self, Descriptor, InjectFdError, Root, SubSystem};
use crate::api::environment::{self, merge_environment, EnvVar};
use crate::api::guest_bytes::{self, ToGuestBytes, DIRENT_SIZE};
use crate::api::navigation::{self, navigate, NavigateAction, NavigateResult, Navigation};
use crate::api::rights::{ensure_rights, HandleRights, OpenFile};
use crate::api::types::{
    self, Clockid, Dirent, Errno, Fdflags, Fdstat, Filetype, Lookupflags, Oflags, Rights, SeekFrom, Whence,
    FDFLAGS_DSYNC, FDFLAGS_RSYNC, FDFLAGS_SYNC, FD_DATASYNC, FD_FILESTAT_GET, FD_READ, FD_READDIR,
    FD_SEEK, FD_SYNC, FD_TELL, FD_WRITE, OFLAGS_CREAT, OFLAGS_TRUNC, PATH_CREATE_DIRECTORY,
    PATH_CREATE_FILE, PATH_FILESTAT_GET, PATH_FILESTAT_SET_SIZE, PATH_OPEN,
};

verus! {

#[derive(Clone, Copy, PartialEq, Eq, Structural, Debug)]
pub enum InitError {
    /// The file system could not be set up.
    Filesystem(descriptors::InitError),
}

/// The state of a guest.
pub struct WasiCtx {
    pub fs: SubSystem,
    pub envs: Vec<EnvVar>,
}

/// The rights of a descriptor, with the file it is open for, or `Badf` where there is none, or
/// `Notcapable` where it lacks rights.
pub open spec fn granted(fs: SubSystem, fd: i32, required: Rights) -> Result<OpenFile, Errno> {
    if !fs.fds().contains_key(fd) {
        Err(Errno::Badf)
    } else if fs.fds()[fd].rights.includes(HandleRights { base: required, inheriting: 0 }) {
        Ok(fs.fds()[fd].file)
    } else {
        Err(Errno::Notcapable)
    }
}

/// The path of the root that a descriptor was opened for from the start.
pub open spec fn preopen_name(fs: SubSystem, fd: i32) -> Result<Seq<u8>, Errno> {
    if !fs.fds().contains_key(fd) {
        Err(Errno::Badf)
    } else {
        match fs.fds()[fd].preopen {
            None => Err(Errno::Notsup),
            Some(i) => if fs.fds()[fd].file.file_type != Filetype::Directory {
                Err(Errno::Notdir)
            } else {
                let name = vstd::utf8::encode_utf8(fs.roots()[i as int].path@);
                if name.len() <= u32::MAX {
                    Ok(name)
                } else {
                    Err(Errno::Overflow)
                }
            },
        }
    }
}

/// What a seek asks of a file.
#[derive(Clone, Copy)]
pub enum SeekAction {
    /// Say where the file is.
    Tell(OpenFile),
    Seek(OpenFile, SeekFrom),
}

/// The rights that a seek needs.
pub open spec fn seek_rights(offset: i64, whence: Whence) -> Rights {
    if whence == Whence::Cur {
        if offset == 0 {
            FD_TELL
        } else {
            FD_SEEK | FD_TELL
        }
    } else {
        FD_SEEK
    }
}

/// The answer to a seek, where the descriptor has the rights.
pub open spec fn seek_action(file: OpenFile, offset: i64, whence: Whence) -> Result<SeekAction, Errno> {
    match whence {
        Whence::Begin => if offset < 0 {
            Err(Errno::Inval)
        } else {
            Ok(SeekAction::Seek(file, SeekFrom::Start(offset as u64)))
        },
        Whence::End => Ok(SeekAction::Seek(file, SeekFrom::End(offset))),
        Whence::Cur => if offset == 0 {
            Ok(SeekAction::Tell(file))
        } else {
            Ok(SeekAction::Seek(file, SeekFrom::Current(offset)))
        },
    }
}

/// The bytes of a directory entry: its numbers and its name.
pub open spec fn record_bytes(d: Dirent, name: Seq<char>) -> Seq<u8> {
    d.guest_bytes() + vstd::utf8::encode_utf8(name)
}

/// The bytes of a directory listing in a buffer with room for `room` of them: entry after entry,
/// cut off where the buffer ends. An entry that cannot be read fails the listing, where the buffer
/// does not end before it.
pub open spec fn listing_bytes(items: Seq<Result<(Dirent, String), Errno>>, room: nat) -> Result<
    Seq<u8>,
    Errno,
>
    decreases items.len(),
{
    if items.len() == 0 {
        Ok(Seq::empty())
    } else {
        match items[0] {
            Err(e) => Err(e),
            Ok((d, name)) => {
                let record = record_bytes(d, name@);
                if vstd::utf8::encode_utf8(name@).len() > u32::MAX {
                    Err(Errno::Overflow)
                } else if record.len() > room {
                    Ok(record.take(room as int))
                } else {
                    match listing_bytes(items.drop_first(), (room - record.len()) as nat) {
                        Err(e) => Err(e),
                        Ok(rest) => Ok(record + rest),
                    }
                }
            },
        }
    }
}

/// A listing never takes more room than there is.
pub proof fn listing_fits(items: Seq<Result<(Dirent, String), Errno>>, room: nat)
    ensures
        listing_bytes(items, room) matches Ok(b) ==> b.len() <= room,
    decreases items.len(),
{
    if items.len() > 0 {
        if let Ok((d, name)) = items[0] {
            let record = record_bytes(d, name@);
            if record.len() <= room {
                listing_fits(items.drop_first(), (room - record.len()) as nat);
            }
        }
    }
}

/// A listing in a smaller buffer is the start of the listing in a larger one.
pub proof fn listing_is_prefix(items: Seq<Result<(Dirent, String), Errno>>, room: nat, more: nat)
    requires
        room <= more,
        listing_bytes(items, room) is Ok,
        listing_bytes(items, more) is Ok,
    ensures
        listing_bytes(items, room)->Ok_0.is_prefix_of(listing_bytes(items, more)->Ok_0),
    decreases items.len(),
{
    if items.len() > 0 {
        if let Ok((d, name)) = items[0] {
            let record = record_bytes(d, name@);
            if record.len() <= room {
                let rest = items.drop_first();
                listing_is_prefix(
                    rest,
                    (room - record.len()) as nat,
                    (more - record.len()) as nat,
                );
                let short = listing_bytes(rest, (room - record.len()) as nat)->Ok_0;
                let long = listing_bytes(rest, (more - record.len()) as nat)->Ok_0;
                assert((record + long).subrange(0, (record + short).len() as int) =~= record + short);
            } else if record.len() <= more {
                let long = listing_bytes(items.drop_first(), (more - record.len()) as nat)->Ok_0;
                assert((record + long).subrange(0, room as int) =~= record.take(room as int));
            } else {
                assert(record.take(more as int).subrange(0, room as int) =~= record.take(
                    room as int,
                ));
            }
        }
    }
}

/// What opening a path needs: of the directory that holds the file, and for the new descriptor.
#[derive(Clone, Copy)]
pub struct PathOpen {
    pub parent_rights: HandleRights,
    pub opened_rights: HandleRights,
    pub read: bool,
    pub write: bool,
    pub oflags: Oflags,
    pub fdflags: Fdflags,
}

/// What a request to open a path needs.
pub open spec fn path_open_needs(
    oflags: Oflags,
    fs_rights_base: Rights,
    fs_rights_inheriting: Rights,
    fdflags: Fdflags,
) -> PathOpen {
    let base = PATH_OPEN;
    let base = if oflags & OFLAGS_CREAT == OFLAGS_CREAT {
        base | PATH_CREATE_FILE
    } else {
        base
    };
    let base = if oflags & OFLAGS_TRUNC == OFLAGS_TRUNC {
        base | PATH_FILESTAT_SET_SIZE
    } else {
        base
    };
    let inheriting = fs_rights_base | fs_rights_inheriting;
    let inheriting = if fdflags & FDFLAGS_DSYNC == FDFLAGS_DSYNC {
        inheriting | FD_DATASYNC
    } else {
        inheriting
    };
    let inheriting = if fdflags & FDFLAGS_SYNC == FDFLAGS_SYNC || fdflags & FDFLAGS_RSYNC
        == FDFLAGS_RSYNC {
        inheriting | FD_SYNC
    } else {
        inheriting
    };
    PathOpen {
        parent_rights: HandleRights { base, inheriting },
        opened_rights: HandleRights { base: fs_rights_base, inheriting: fs_rights_inheriting },
        read: fs_rights_base & FD_READ == FD_READ,
        write: fs_rights_base & FD_WRITE == FD_WRITE,
        oflags,
        fdflags,
    }
}

/// What to do with the place that a navigation ended at.
pub enum PathAction {
    /// Go on with an entry of a directory.
    Child { parent: OpenFile, filename: String },
    /// Go on with a directory that is open already.
    Itself(OpenFile),
}

pub open spec fn path_action(
    place: NavigateResult,
    parent_rights: HandleRights,
    directory_rights: Option<HandleRights>,
) -> Result<PathAction, Errno> {
    match place {
        NavigateResult::Parented { parent_handle, filename } => if parent_handle.rights.includes(
            parent_rights,
        ) {
            Ok(PathAction::Child { parent: parent_handle, filename })
        } else {
            Err(Errno::Notcapable)
        },
        NavigateResult::Unparented { directory_handle } => match directory_rights {
            Some(rights) if !directory_handle.rights.includes(rights) => Err(Errno::Notcapable),
            _ => Ok(PathAction::Itself(directory_handle)),
        },
    }
}

/// Checks the rights of the place that a navigation ended at.
fn check_place(
    place: NavigateResult,
    parent_rights: HandleRights,
    directory_rights: Option<HandleRights>,
) -> (r: Result<PathAction, Errno>)
    ensures
        r == path_action(place, parent_rights, directory_rights),
{
    match place {
        NavigateResult::Parented { parent_handle, filename } => {
            match ensure_rights(&parent_handle.rights, &parent_rights) {
                Ok(()) => Ok(PathAction::Child { parent: parent_handle, filename }),
                Err(e) => Err(e),
            }
        },
        NavigateResult::Unparented { directory_handle } => {
            match directory_rights {
                Some(rights) => match ensure_rights(&directory_handle.rights, &rights) {
                    Ok(()) => Ok(PathAction::Itself(directory_handle)),
                    Err(e) => Err(e),
                },
                None => Ok(PathAction::Itself(directory_handle)),
            }
        },
    }
}

/// A number of bytes, where four bytes can hold it.
pub fn size_result(n: usize) -> (r: Result<u32, Errno>)
    ensures
        r == if n <= u32::MAX {
            Ok(n as u32)
        } else {
            Err(Errno::Overflow)
        },
{
    if n <= 0xffff_ffff {
        Ok(n as u32)
    } else {
        Err(Errno::Overflow)
    }
}

impl WasiCtx {
    pub open spec fn wf(self) -> bool {
        self.fs.wf() && environment::sorted_by_key(self.envs@)
    }

    /// Sets up a guest: the roots of the interpreter come first, then those of the caller, and the
    /// variables of the caller are set over the defaults.
    pub fn new(
        static_filesystems: Vec<Root>,
        filesystems: Vec<Root>,
        default_environment_variables: Vec<EnvVar>,
        envs: Vec<EnvVar>,
    ) -> (r: Result<WasiCtx, InitError>)
        requires
            static_filesystems@.len() + filesystems@.len() <= usize::MAX,
        ensures
            match r {
                Ok(ctx) => {
                    &&& ctx.wf()
                    &&& ctx.fs.roots() == static_filesystems@ + filesystems@
                    &&& ctx.fs.roots().len() <= i32::MAX - 2
                    &&& ctx.fs.fds() == descriptors::root_descriptors(
                        ctx.fs.roots(),
                        ctx.fs.roots().len(),
                    )
                    &&& ctx.fs.highest_fd() == 2 + ctx.fs.roots().len()
                    &&& environment::env_map(ctx.envs@) == environment::env_merge(
                        environment::env_merge(Map::empty(), default_environment_variables@),
                        envs@,
                    )
                },
                Err(e) => {
                    &&& e == InitError::Filesystem(descriptors::InitError::TooManyRoots)
                    &&& static_filesystems@.len() + filesystems@.len() > i32::MAX - 2
                },
            },
    {
        let mut roots = static_filesystems;
        let mut more = filesystems;
        roots.append(&mut more);
        match SubSystem::new(roots) {
            Ok(fs) => Ok(
                WasiCtx { fs, envs: merge_environment(default_environment_variables, envs) },
            ),
            Err(e) => Err(InitError::Filesystem(e)),
        }
    }

    /// Opens a descriptor for a file.
    pub fn inject_fd(&mut self, file: OpenFile, fd: Option<i32>) -> (r: Result<i32, InjectFdError>)
        requires
            old(self).wf(),
        ensures
            final(self).wf(),
            final(self).envs == old(self).envs,
            final(self).fs.roots() == old(self).fs.roots(),
            final(self).fs.highest_fd() == if fd is None && old(self).fs.highest_fd() < i32::MAX {
                old(self).fs.highest_fd() + 1
            } else {
                old(self).fs.highest_fd() as int
            },
            match r {
                Ok(n) => {
                    &&& fd is Some ==> fd == Some(n)
                    &&& fd is None ==> n == old(self).fs.highest_fd() + 1
                    &&& !old(self).fs.fds().contains_key(n)
                    &&& final(self).fs.fds() == old(self).fs.fds().insert(
                        n,
                        Descriptor { fd: n, preopen: None, file, rights: file.rights },
                    )
                },
                Err(InjectFdError::AlreadyExists) => {
                    &&& final(self).fs.fds() == old(self).fs.fds()
                    &&& match fd {
                        Some(n) => old(self).fs.fds().contains_key(n),
                        None => old(self).fs.highest_fd() < i32::MAX
                            && old(self).fs.fds().contains_key(
                            (old(self).fs.highest_fd() + 1) as i32,
                        ),
                    }
                },
                Err(InjectFdError::TooManyFiles) => {
                    &&& final(self).fs.fds() == old(self).fs.fds()
                    &&& fd is None
                    &&& old(self).fs.highest_fd() == i32::MAX
                },
            },
    {
        self.fs.inject_fd(file, fd)
    }

    /// Opens a second descriptor, and answers with its number, or with the error as a negative
    /// number.
    pub fn dup_hack(&mut self, fd: i32) -> (r: i32)
        requires
            old(self).wf(),
        ensures
            final(self).wf(),
            final(self).envs == old(self).envs,
            final(self).fs.roots() == old(self).fs.roots(),
            if !old(self).fs.fds().contains_key(fd) || old(self).fs.highest_fd() == i32::MAX {
                &&& r == -types::errno_number(
                    if old(self).fs.fds().contains_key(fd) {
                        Errno::Mfile
                    } else {
                        Errno::Badf
                    },
                )
                &&& final(self).fs.fds() == old(self).fs.fds()
                &&& final(self).fs.highest_fd() == old(self).fs.highest_fd()
            } else {
                &&& r == old(self).fs.highest_fd() + 1
                &&& final(self).fs.highest_fd() == r
                &&& final(self).fs.fds() == old(self).fs.fds().insert(
                    r,
                    Descriptor { fd: r, ..old(self).fs.fds()[fd] },
                )
            },
    {
        match self.fs.dup(fd) {
            Ok(fd) => fd,
            Err(e) => -e.number(),
        }
    }

    pub fn environ_sizes_get(&self) -> (r: Result<(u32, u32), Errno>)
        ensures
            r == if self.envs@.len() <= u32::MAX && environment::env_block(self.envs@).len()
                <= u32::MAX {
                Ok((self.envs@.len() as u32, environment::env_block(self.envs@).len() as u32))
            } else {
                Err(Errno::Overflow)
            },
    {
        environment::environ_sizes_get(&self.envs)
    }

    /// What to write into the memory of the guest: addresses at `environ`, variables at
    /// `environ_buf`.
    pub fn environ_get(&self, environ: u32, environ_buf: u32) -> (r: Result<
        (Vec<u8>, Vec<u8>),
        Errno,
    >)
        ensures
            match r {
                Ok((addresses, contents)) => {
                    &&& environment::env_end(self.envs@, environ, environ_buf) is Ok
                    &&& addresses@ == environment::env_table(self.envs@, environ_buf)
                    &&& contents@ == environment::env_block(self.envs@)
                },
                Err(e) => environment::env_end(self.envs@, environ, environ_buf) == Err::<
                    (u32, u32),
                    Errno,
                >(e),
            },
    {
        environment::environ_get(&self.envs, environ, environ_buf)
    }

    /// The time of a clock. The clocks are fixed by the caller.
    pub fn clock_time_get(&self, id: Clockid, realtime_clock: u64, monotonic_clock: u64) -> (r: Result<
        u64,
        Errno,
    >)
        requires
            id == Clockid::Realtime || id == Clockid::Monotonic,
        ensures
            r == if id == Clockid::Realtime {
                Ok::<u64, Errno>(realtime_clock)
            } else {
                Ok(monotonic_clock)
            },
    {
        match id {
            Clockid::Realtime => Ok(realtime_clock),
            _ => Ok(monotonic_clock),
        }
    }

    /// Randomness is not given: a guest runs in a deterministic environment.
    pub fn random_get(&self) -> (r: Result<(), Errno>)
        ensures
            r == Err::<(), Errno>(Errno::Nosys),
    {
        Err(Errno::Nosys)
    }

    pub fn fd_close(&mut self, fd: i32) -> (r: Result<(), Errno>)
        requires
            old(self).wf(),
        ensures
            final(self).wf(),
            final(self).envs == old(self).envs,
            final(self).fs.roots() == old(self).fs.roots(),
            final(self).fs.highest_fd() == old(self).fs.highest_fd(),
            final(self).fs.fds() == old(self).fs.fds().remove(fd),
            r == if old(self).fs.fds().contains_key(fd) {
                Ok::<(), Errno>(())
            } else {
                Err(Errno::Badf)
            },
    {
        if !self.fs.close(fd) {
            Err(Errno::Badf)
        } else {
            Ok(())
        }
    }

    /// The descriptor with a number.
    pub fn descriptor(&self, fd: i32) -> (r: Result<Descriptor, Errno>)
        ensures
            r == if self.fs.fds().contains_key(fd) {
                Ok(self.fs.fds()[fd])
            } else {
                Err(Errno::Badf)
            },
    {
        match self.fs.get_descriptor(fd) {
            Some(d) => Ok(d),
            None => Err(Errno::Badf),
        }
    }

    /// The file of a descriptor that has rights.
    fn granted_file(&self, fd: i32, required: Rights) -> (r: Result<OpenFile, Errno>)
        ensures
            r == granted(self.fs, fd, required),
    {
        let d = match self.fs.get_descriptor(fd) {
            Some(d) => d,
            None => {
                return Err(Errno::Badf);
            },
        };
        match ensure_rights(&d.rights, &HandleRights::from_base(required)) {
            Ok(()) => Ok(d.file),
            Err(e) => Err(e),
        }
    }

    /// The state of a descriptor, given the flags of its file.
    pub fn fd_fdstat_get(&self, fd: i32, flags: Result<Fdflags, Errno>) -> (r: Result<Fdstat, Errno>)
        ensures
            r == if !self.fs.fds().contains_key(fd) {
                Err(Errno::Badf)
            } else {
                match flags {
                    Err(e) => Err(e),
                    Ok(fs_flags) => Ok(
                        Fdstat {
                            fs_filetype: self.fs.fds()[fd].file.file_type,
                            fs_flags,
                            fs_rights_base: self.fs.fds()[fd].rights.base,
                            fs_rights_inheriting: self.fs.fds()[fd].rights.inheriting,
                        },
                    ),
                }
            },
    {
        let d = match self.fs.get_descriptor(fd) {
            Some(d) => d,
            None => {
                return Err(Errno::Badf);
            },
        };
        match flags {
            Err(e) => Err(e),
            Ok(fs_flags) => Ok(
                Fdstat {
                    fs_filetype: d.file.file_type,
                    fs_flags,
                    fs_rights_base: d.rights.base,
                    fs_rights_inheriting: d.rights.inheriting,
                },
            ),
        }
    }

    /// The file to stat.
    pub fn fd_filestat_get(&self, fd: i32) -> (r: Result<OpenFile, Errno>)
        ensures
            r == granted(self.fs, fd, FD_FILESTAT_GET),
    {
        self.granted_file(fd, FD_FILESTAT_GET)
    }

    /// The file to read from.
    pub fn fd_read(&self, fd: i32) -> (r: Result<OpenFile, Errno>)
        ensures
            r == granted(self.fs, fd, FD_READ),
    {
        self.granted_file(fd, FD_READ)
    }

    /// The file to write to.
    pub fn fd_write(&self, fd: i32) -> (r: Result<OpenFile, Errno>)
        ensures
            r == granted(self.fs, fd, FD_WRITE),
    {
        self.granted_file(fd, FD_WRITE)
    }

    /// The file whose position is asked for.
    pub fn fd_tell(&self, fd: i32) -> (r: Result<OpenFile, Errno>)
        ensures
            r == granted(self.fs, fd, FD_TELL),
    {
        self.granted_file(fd, FD_TELL)
    }

    /// The directory to list.
    pub fn fd_readdir(&self, fd: i32) -> (r: Result<OpenFile, Errno>)
        ensures
            r == granted(self.fs, fd, FD_READDIR),
    {
        self.granted_file(fd, FD_READDIR)
    }

    /// The directory in which to create another.
    pub fn path_create_directory(&self, fd: i32) -> (r: Result<OpenFile, Errno>)
        ensures
            r == granted(self.fs, fd, PATH_CREATE_DIRECTORY),
    {
        self.granted_file(fd, PATH_CREATE_DIRECTORY)
    }

    /// What a seek asks of a file. A seek by nothing only asks where the file is.
    pub fn fd_seek(&self, fd: i32, offset: i64, whence: Whence) -> (r: Result<SeekAction, Errno>)
        ensures
            r == match granted(self.fs, fd, seek_rights(offset, whence)) {
                Err(e) => Err(e),
                Ok(file) => seek_action(file, offset, whence),
            },
    {
        let required: u64 = match whence {
            Whence::Cur => if offset == 0 {
                FD_TELL
            } else {
                FD_SEEK | FD_TELL
            },
            _ => FD_SEEK,
        };
        let file = match self.granted_file(fd, required) {
            Ok(file) => file,
            Err(e) => {
                return Err(e);
            },
        };
        match whence {
            Whence::Begin => if offset < 0 {
                Err(Errno::Inval)
            } else {
                Ok(SeekAction::Seek(file, SeekFrom::Start(offset as u64)))
            },
            Whence::End => Ok(SeekAction::Seek(file, SeekFrom::End(offset))),
            Whence::Cur => if offset == 0 {
                Ok(SeekAction::Tell(file))
            } else {
                Ok(SeekAction::Seek(file, SeekFrom::Current(offset)))
            },
        }
    }

    /// The name of the root that a descriptor was opened for from the start.
    fn preopen(&self, fd: i32) -> (r: Result<Vec<u8>, Errno>)
        requires
            self.wf(),
        ensures
            match r {
                Ok(name) => preopen_name(self.fs, fd) == Ok::<Seq<u8>, Errno>(name@),
                Err(e) => preopen_name(self.fs, fd) == Err::<Seq<u8>, Errno>(e),
            },
    {
        let d = match self.fs.get_descriptor(fd) {
            Some(d) => d,
            None => {
                return Err(Errno::Badf);
            },
        };
        let i: usize = match d.preopen {
            Some(i) => i,
            None => {
                return Err(Errno::Notsup);
            },
        };
        if d.file.file_type != Filetype::Directory {
            return Err(Errno::Notdir);
        }
        let path = self.fs.root_path(i);
        let name = path.as_str().as_bytes();
        if name.len() > 0xffff_ffff {
            return Err(Errno::Overflow);
        }
        let mut copy: Vec<u8> = Vec::new();
        copy.extend_from_slice(name);
        assert(copy@ =~= name@);
        Ok(copy)
    }

    /// How long the name of a root is.
    pub fn fd_prestat_get(&self, fd: i32) -> (r: Result<u32, Errno>)
        requires
            self.wf(),
        ensures
            r == match preopen_name(self.fs, fd) {
                Ok(name) => Ok(name.len() as u32),
                Err(e) => Err(e),
            },
    {
        match self.preopen(fd) {
            Ok(name) => Ok(name.len() as u32),
            Err(e) => Err(e),
        }
    }

    /// The name of a root, for a buffer of the given length.
    pub fn fd_prestat_dir_name(&self, fd: i32, path_len: u32) -> (r: Result<Vec<u8>, Errno>)
        requires
            self.wf(),
        ensures
            match (r, preopen_name(self.fs, fd)) {
                (Ok(name), Ok(expected)) => name@ == expected && expected.len() <= path_len,
                (Err(e), Ok(expected)) => e == Errno::Nametoolong && expected.len() > path_len,
                (Err(e), Err(expected)) => e == expected,
                (Ok(_), Err(_)) => false,
            },
    {
        match self.preopen(fd) {
            Ok(name) => if name.len() as u32 > path_len {
                Err(Errno::Nametoolong)
            } else {
                Ok(name)
            },
            Err(e) => Err(e),
        }
    }

    /// Starts to find the file at a path, to stat it.
    pub fn path_filestat_get(&self, dirfd: i32, flags: Lookupflags, path: &str) -> (r: Result<
        (Navigation, NavigateAction),
        Errno,
    >)
        ensures
            ({
                let required = HandleRights { base: PATH_FILESTAT_GET, inheriting: 0 };
                let d = self.fs.fds()[dirfd];
                match r {
                    Err(e) => if !self.fs.fds().contains_key(dirfd) {
                        e == Errno::Badf
                    } else if d.file.file_type != Filetype::Directory {
                        e == Errno::Notdir
                    } else {
                        navigation::refused(d.file, d.rights, path@, required) == Some(e)
                    },
                    Ok((n, action)) => {
                        &&& self.fs.fds().contains_key(dirfd)
                        &&& navigation::refused(d.file, d.rights, path@, required) is None
                        &&& n.started(action, d.file, path@, required, flags)
                    },
                }
            }),
    {
        let d = match self.fs.get_descriptor(dirfd) {
            Some(d) => d,
            None => {
                return Err(Errno::Badf);
            },
        };
        if d.file.file_type != Filetype::Directory {
            return Err(Errno::Notdir);
        }
        navigate(d.file, d.rights, path, HandleRights::from_base(PATH_FILESTAT_GET), flags)
    }

    /// Starts to find the file at a path, to open it.
    pub fn path_open(
        &self,
        dirfd: i32,
        dirflags: Lookupflags,
        path: &str,
        oflags: Oflags,
        fs_rights_base: Rights,
        fs_rights_inheriting: Rights,
        fdflags: Fdflags,
    ) -> (r: Result<(PathOpen, Navigation, NavigateAction), Errno>)
        ensures
            ({
                let open = path_open_needs(oflags, fs_rights_base, fs_rights_inheriting, fdflags);
                let d = self.fs.fds()[dirfd];
                match r {
                    Err(e) => if !self.fs.fds().contains_key(dirfd) {
                        e == Errno::Badf
                    } else {
                        navigation::refused(d.file, d.rights, path@, open.parent_rights) == Some(e)
                    },
                    Ok((o, n, action)) => {
                        &&& self.fs.fds().contains_key(dirfd)
                        &&& o == open
                        &&& navigation::refused(d.file, d.rights, path@, open.parent_rights) is None
                        &&& n.started(action, d.file, path@, open.parent_rights, dirflags)
                    },
                }
            }),
    {
        let mut needed_base: u64 = PATH_OPEN;
        let mut needed_inheriting: u64 = fs_rights_base | fs_rights_inheriting;
        if oflags & OFLAGS_CREAT == OFLAGS_CREAT {
            needed_base = needed_base | PATH_CREATE_FILE;
        }
        if oflags & OFLAGS_TRUNC == OFLAGS_TRUNC {
            needed_base = needed_base | PATH_FILESTAT_SET_SIZE;
        }
        if fdflags & FDFLAGS_DSYNC == FDFLAGS_DSYNC {
            needed_inheriting = needed_inheriting | FD_DATASYNC;
        }
        if fdflags & FDFLAGS_SYNC == FDFLAGS_SYNC || fdflags & FDFLAGS_RSYNC == FDFLAGS_RSYNC {
            needed_inheriting = needed_inheriting | FD_SYNC;
        }
        let open = PathOpen {
            parent_rights: HandleRights::new(needed_base, needed_inheriting),
            opened_rights: HandleRights::new(fs_rights_base, fs_rights_inheriting),
            read: fs_rights_base & FD_READ == FD_READ,
            write: fs_rights_base & FD_WRITE == FD_WRITE,
            oflags,
            fdflags,
        };
        let d = match self.fs.get_descriptor(dirfd) {
            Some(d) => d,
            None => {
                return Err(Errno::Badf);
            },
        };
        match navigate(d.file, d.rights, path, open.parent_rights, dirflags) {
            Ok((n, action)) => Ok((open, n, action)),
            Err(e) => Err(e),
        }
    }

    /// Opens a descriptor for the file that was found and opened, with those of the wanted rights
    /// that apply to its type.
    pub fn path_opened(&mut self, open: &PathOpen, file: OpenFile) -> (r: Result<i32, Errno>)
        requires
            old(self).wf(),
            file.file_type == Filetype::RegularFile || file.file_type == Filetype::Directory,
        ensures
            final(self).wf(),
            final(self).envs == old(self).envs,
            final(self).fs.roots() == old(self).fs.roots(),
            ({
                let rights = open.opened_rights.for_type(file.file_type);
                match r {
                    Ok(fd) => {
                        &&& file.rights.includes(rights)
                        &&& fd == old(self).fs.highest_fd() + 1
                        &&& final(self).fs.highest_fd() == fd
                        &&& final(self).fs.fds() == old(self).fs.fds().insert(
                            fd,
                            Descriptor { fd, preopen: None, file, rights: rights.common(file.rights) },
                        )
                    },
                    Err(e) => {
                        &&& final(self).fs.fds() == old(self).fs.fds()
                        &&& final(self).fs.highest_fd() == old(self).fs.highest_fd()
                        &&& e == if file.rights.includes(rights) {
                            Errno::Mfile
                        } else {
                            Errno::Notcapable
                        }
                        &&& file.rights.includes(rights) ==> old(self).fs.highest_fd() == i32::MAX
                    },
                }
            }),
    {
        let rights = open.opened_rights.filter_for_type(file.file_type);
        match ensure_rights(&file.rights, &rights) {
            Ok(()) => self.fs.new_descriptor(file, Some(rights)),
            Err(e) => Err(e),
        }
    }
}

impl PathOpen {
    /// What to open, where a navigation ended. An entry needs the rights of its directory.
    pub fn target(&self, place: NavigateResult) -> (r: Result<PathAction, Errno>)
        ensures
            r == path_action(place, self.parent_rights, None),
    {
        check_place(place, self.parent_rights, None)
    }
}

/// What to stat, where a navigation ended.
pub fn filestat_target(place: NavigateResult) -> (r: Result<PathAction, Errno>)
    ensures
        r == path_action(
            place,
            (HandleRights { base: PATH_FILESTAT_GET, inheriting: 0 }),
            Some((HandleRights { base: PATH_FILESTAT_GET, inheriting: 0 })),
        ),
{
    let required = HandleRights::from_base(PATH_FILESTAT_GET);
    check_place(place, required, Some(required))
}

/// A descriptor that is opened through a path has no right beyond those asked for, and none beyond
/// those that the file gives.
pub proof fn opened_rights_are_limited(open: PathOpen, file: OpenFile)
    ensures
        open.opened_rights.includes(
            open.opened_rights.for_type(file.file_type).common(file.rights),
        ),
        file.rights.includes(open.opened_rights.for_type(file.file_type).common(file.rights)),
{
    let filtered = open.opened_rights.for_type(file.file_type);
    crate::api::rights::filter_for_type_only_removes(open.opened_rights, file.file_type);
    crate::api::rights::common_rights_are_included(filtered, file.rights);
    crate::api::rights::inclusion_is_transitive(
        open.opened_rights,
        filtered,
        filtered.common(file.rights),
    );
}

/// What to write into a buffer of `buf_len` bytes for a directory listing.
pub fn readdir_bytes(items: &Vec<Result<(Dirent, String), Errno>>, buf_len: u32) -> (r: Result<
    Vec<u8>,
    Errno,
>)
    ensures
        match r {
            Ok(written) => listing_bytes(items@, buf_len as nat) == Ok::<Seq<u8>, Errno>(written@)
                && written@.len() <= buf_len,
            Err(e) => listing_bytes(items@, buf_len as nat) == Err::<Seq<u8>, Errno>(e),
        },
{
    let mut written: Vec<u8> = Vec::new();
    let mut room: u32 = buf_len;
    let mut i: usize = 0;
    proof {
        listing_fits(items@, buf_len as nat);
        assert(items@.skip(0) =~= items@);
        let rest = listing_bytes(items@, buf_len as nat);
        if let Ok(b) = rest {
            assert(written@ + b =~= b);
        }
    }
    while i < items.len()
        invariant
            i <= items@.len(),
            written@.len() + room == buf_len,
            listing_bytes(items@, buf_len as nat) == match listing_bytes(
                items@.skip(i as int),
                room as nat,
            ) {
                Ok(rest) => Ok::<Seq<u8>, Errno>(written@ + rest),
                Err(e) => Err(e),
            },
        decreases items@.len() - i,
    {
        proof {
            assert(items@.skip(i as int)[0] == items@[i as int]);
            assert(items@.skip(i as int).drop_first() =~= items@.skip(i + 1));
        }
        match &items[i] {
            Err(e) => {
                return Err(*e);
            },
            Ok((d, name)) => {
                let mut record = d.to_guest_bytes();
                let name_bytes = name.as_str().as_bytes();
                if name_bytes.len() > 0xffff_ffff {
                    return Err(Errno::Overflow);
                }
                proof {
                    guest_bytes::dirent_size(*d);
                }
                let dirent_len: usize = record.len();
                let size: u64 = DIRENT_SIZE as u64 + name_bytes.len() as u64;
                let ghost before = written@;
                let ghost whole = record_bytes(*d, name@);
                if size > room as u64 {
                    let head: usize = if dirent_len < room as usize {
                        dirent_len
                    } else {
                        room as usize
                    };
                    record.truncate(head);
                    written.append(&mut record);
                    let rest: usize = room as usize - head;
                    if rest > 0 {
                        written.extend_from_slice(vstd::slice::slice_subrange(name_bytes, 0, rest));
                    }
                    assert(written@ =~= before + whole.take(room as int));
                    return Ok(written);
                }
                written.append(&mut record);
                written.extend_from_slice(name_bytes);
                assert(written@ =~= before + whole);
                room = room - size as u32;
                proof {
                    if let Ok(rest) = listing_bytes(items@.skip(i + 1), room as nat) {
                        assert(before + (whole + rest) =~= written@ + rest);
                    }
                }
            },
        }
        i += 1;
    }
    assert(written@ + Seq::<u8>::empty() =~= written@);
    Ok(written)
}

/// A call is granted exactly where there is such a descriptor and it has every right that is asked for. It
/// is then for the file of the descriptor.
pub proof fn calls_need_their_rights(fs: SubSystem, fd: i32, required: Rights)
    ensures
        granted(fs, fd, required) == Err::<OpenFile, Errno>(Errno::Badf) <==> !fs.fds().contains_key(fd),
        fs.fds().contains_key(fd) && fs.fds()[fd].rights.base & required == required ==> granted(fs, fd, required)
            == Ok::<OpenFile, Errno>(fs.fds()[fd].file),
        fs.fds().contains_key(fd) && fs.fds()[fd].rights.base & required != required ==> granted(fs, fd, required)
            == Err::<OpenFile, Errno>(Errno::Notcapable),
{
    let v = fs.fds()[fd].rights.inheriting;
    assert(v & 0 == 0) by (bit_vector);
}

/// The name of a root is told for descriptors that were open from the start and for those only. It is the
/// path under which the root was given.
pub proof fn only_roots_have_names(fs: SubSystem, fd: i32)
    ensures
        match preopen_name(fs, fd) {
            Ok(name) => {
                &&& fs.fds().contains_key(fd)
                &&& fs.fds()[fd].preopen is Some
                &&& fs.fds()[fd].file.file_type == Filetype::Directory
                &&& name == vstd::utf8::encode_utf8(fs.roots()[fs.fds()[fd].preopen->0 as int].path@)
            },
            Err(Errno::Badf) => !fs.fds().contains_key(fd),
            Err(Errno::Notsup) => fs.fds().contains_key(fd) && fs.fds()[fd].preopen is None,
            Err(Errno::Notdir) => fs.fds().contains_key(fd) && fs.fds()[fd].preopen is Some
                && fs.fds()[fd].file.file_type != Filetype::Directory,
            Err(e) => e == Errno::Overflow && fs.fds().contains_key(fd) && fs.fds()[fd].preopen is Some
                && vstd::utf8::encode_utf8(fs.roots()[fs.fds()[fd].preopen->0 as int].path@).len() > u32::MAX,
        },
{
}

/// A seek that moves a file needs the right to move it, and one that starts from where the file is needs
/// the right to know where that is. A seek by nothing from there moves nothing.
pub proof fn seeks_need_their_rights(file: OpenFile, offset: i64, whence: Whence)
    ensures
        seek_rights(offset, whence) & FD_TELL == FD_TELL <==> whence == Whence::Cur,
        seek_rights(offset, whence) & FD_SEEK == FD_SEEK <==> !(whence == Whence::Cur && offset == 0),
        seek_rights(offset, whence) & !(FD_TELL | FD_SEEK) == 0,
        match seek_action(file, offset, whence) {
            Ok(SeekAction::Tell(f)) => f == file && whence == Whence::Cur && offset == 0,
            Ok(SeekAction::Seek(f, to)) => f == file && match whence {
                Whence::Begin => to matches SeekFrom::Start(n) && n == offset,
                Whence::Cur => to == SeekFrom::Current(offset) && offset != 0,
                Whence::End => to == SeekFrom::End(offset),
            },
            Err(e) => e == Errno::Inval && whence == Whence::Begin && offset < 0,
        },
        whence == Whence::Begin && offset < 0 ==> seek_action(file, offset, whence) is Err,
{
    assert(FD_TELL & FD_TELL == FD_TELL && FD_TELL & FD_SEEK != FD_SEEK && FD_TELL & !(FD_TELL | FD_SEEK) == 0
        && FD_SEEK & FD_SEEK == FD_SEEK && FD_SEEK & FD_TELL != FD_TELL && FD_SEEK & !(FD_TELL | FD_SEEK) == 0
        && (FD_SEEK | FD_TELL) & FD_TELL == FD_TELL && (FD_SEEK | FD_TELL) & FD_SEEK == FD_SEEK && (FD_SEEK
        | FD_TELL) & !(FD_TELL | FD_SEEK) == 0) by (bit_vector);
}

/// A listing that fits is the entries one after the other, each as its numbers and its name.
pub proof fn listings_hold_every_entry(items: Seq<Result<(Dirent, String), Errno>>, room: nat, d: Dirent, name: String)
    requires
        items.len() > 0,
        items[0] == Ok::<(Dirent, String), Errno>((d, name)),
        vstd::utf8::encode_utf8(name@).len() <= u32::MAX,
    ensures
        ({
            let record = d.guest_bytes() + vstd::utf8::encode_utf8(name@);
            if record.len() > room {
                listing_bytes(items, room) == Ok::<Seq<u8>, Errno>(record.take(room as int))
            } else {
                match listing_bytes(items.drop_first(), (room - record.len()) as nat) {
                    Ok(rest) => listing_bytes(items, room) == Ok::<Seq<u8>, Errno>(record + rest),
                    Err(e) => listing_bytes(items, room) == Err::<Seq<u8>, Errno>(e),
                }
            }
        }),
        listing_bytes(Seq::empty(), room) == Ok::<Seq<u8>, Errno>(Seq::empty()),
{
}

/// An entry that cannot be read fails a listing that gets to it.
pub proof fn unreadable_entries_fail_listings(items: Seq<Result<(Dirent, String), Errno>>, room: nat, e: Errno)
    requires
        items.len() > 0,
        items[0] == Err::<(Dirent, String), Errno>(e),
    ensures
        listing_bytes(items, room) == Err::<Seq<u8>, Errno>(e),
{
}

/// Opening needs the right to open, to create where a file may be created, and to change the size where it
/// is cut off. All rights that are asked for must be passed on, with those to write through where that is
/// asked for. The file is opened for what the rights name.
pub proof fn opening_needs_what_it_does(
    oflags: Oflags,
    fs_rights_base: Rights,
    fs_rights_inheriting: Rights,
    fdflags: Fdflags,
)
    ensures
        ({
            let open = path_open_needs(oflags, fs_rights_base, fs_rights_inheriting, fdflags);
            let base = open.parent_rights.base;
            let passed_on = open.parent_rights.inheriting;
            let wanted = fs_rights_base | fs_rights_inheriting;
            &&& open.opened_rights.base == fs_rights_base
            &&& open.opened_rights.inheriting == fs_rights_inheriting
            &&& open.read <==> fs_rights_base & FD_READ == FD_READ
            &&& open.write <==> fs_rights_base & FD_WRITE == FD_WRITE
            &&& open.oflags == oflags
            &&& open.fdflags == fdflags
            &&& base & PATH_OPEN == PATH_OPEN
            &&& base & PATH_CREATE_FILE == PATH_CREATE_FILE <==> oflags & OFLAGS_CREAT == OFLAGS_CREAT
            &&& base & PATH_FILESTAT_SET_SIZE == PATH_FILESTAT_SET_SIZE <==> oflags & OFLAGS_TRUNC
                == OFLAGS_TRUNC
            &&& base & !(PATH_OPEN | PATH_CREATE_FILE | PATH_FILESTAT_SET_SIZE) == 0
            &&& passed_on & wanted == wanted
            &&& passed_on & !(wanted | FD_DATASYNC | FD_SYNC) == 0
            &&& fdflags & FDFLAGS_DSYNC == FDFLAGS_DSYNC ==> passed_on & FD_DATASYNC == FD_DATASYNC
            &&& fdflags & FDFLAGS_DSYNC != FDFLAGS_DSYNC ==> passed_on & FD_DATASYNC == wanted & FD_DATASYNC
            &&& fdflags & FDFLAGS_SYNC == FDFLAGS_SYNC || fdflags & FDFLAGS_RSYNC == FDFLAGS_RSYNC ==> passed_on
                & FD_SYNC == FD_SYNC
            &&& !(fdflags & FDFLAGS_SYNC == FDFLAGS_SYNC || fdflags & FDFLAGS_RSYNC == FDFLAGS_RSYNC)
                ==> passed_on & FD_SYNC == wanted & FD_SYNC
        }),
{
    let x = fs_rights_base | fs_rights_inheriting;
    let o = PATH_OPEN;
    let oc = PATH_OPEN | PATH_CREATE_FILE;
    let ot = PATH_OPEN | PATH_FILESTAT_SET_SIZE;
    let oct = PATH_OPEN | PATH_CREATE_FILE | PATH_FILESTAT_SET_SIZE;
    assert(o & PATH_OPEN == PATH_OPEN && o & PATH_CREATE_FILE != PATH_CREATE_FILE && o & PATH_FILESTAT_SET_SIZE
        != PATH_FILESTAT_SET_SIZE && o & !oct == 0 && oc & PATH_OPEN == PATH_OPEN && oc & PATH_CREATE_FILE
        == PATH_CREATE_FILE && oc & PATH_FILESTAT_SET_SIZE != PATH_FILESTAT_SET_SIZE && oc & !oct == 0 && ot
        & PATH_OPEN == PATH_OPEN && ot & PATH_CREATE_FILE != PATH_CREATE_FILE && ot & PATH_FILESTAT_SET_SIZE
        == PATH_FILESTAT_SET_SIZE && ot & !oct == 0 && oct & PATH_OPEN == PATH_OPEN && oct & PATH_CREATE_FILE
        == PATH_CREATE_FILE && oct & PATH_FILESTAT_SET_SIZE == PATH_FILESTAT_SET_SIZE && oct & !oct == 0)
        by (bit_vector)
        requires
            o == PATH_OPEN,
            oc == PATH_OPEN | PATH_CREATE_FILE,
            ot == PATH_OPEN | PATH_FILESTAT_SET_SIZE,
            oct == PATH_OPEN | PATH_CREATE_FILE | PATH_FILESTAT_SET_SIZE,
    ;
    assert(x & x == x && x & !(x | FD_DATASYNC | FD_SYNC) == 0) by (bit_vector);
    assert((x | FD_DATASYNC) & x == x && (x | FD_DATASYNC) & !(x | FD_DATASYNC | FD_SYNC) == 0 && (x | FD_DATASYNC)
        & FD_DATASYNC == FD_DATASYNC && (x | FD_DATASYNC) & FD_SYNC == x & FD_SYNC) by (bit_vector);
    assert((x | FD_SYNC) & x == x && (x | FD_SYNC) & !(x | FD_DATASYNC | FD_SYNC) == 0 && (x | FD_SYNC) & FD_SYNC
        == FD_SYNC && (x | FD_SYNC) & FD_DATASYNC == x & FD_DATASYNC) by (bit_vector);
    assert((x | FD_DATASYNC | FD_SYNC) & x == x && (x | FD_DATASYNC | FD_SYNC) & !(x | FD_DATASYNC | FD_SYNC) == 0
        && (x | FD_DATASYNC | FD_SYNC) & FD_SYNC == FD_SYNC && (x | FD_DATASYNC | FD_SYNC) & FD_DATASYNC
        == FD_DATASYNC) by (bit_vector);
}

/// Where a navigation ended at an entry, it goes on with exactly that entry, and the directory must have all
/// rights that the call needs. A directory that the path leads to itself must have those that are named for
/// it, where any are.
pub proof fn places_need_their_rights(
    parent: OpenFile,
    filename: String,
    directory: OpenFile,
    needed: HandleRights,
    directory_needed: Option<HandleRights>,
)
    ensures
        path_action(NavigateResult::Parented { parent_handle: parent, filename }, needed, directory_needed) == if parent.rights.base
            & needed.base == needed.base && parent.rights.inheriting & needed.inheriting == needed.inheriting {
            Ok(PathAction::Child { parent, filename })
        } else {
            Err(Errno::Notcapable)
        },
        path_action(NavigateResult::Unparented { directory_handle: directory }, needed, directory_needed)
            == if directory_needed is None || (directory.rights.base & directory_needed->0.base
            == directory_needed->0.base && directory.rights.inheriting & directory_needed->0.inheriting
            == directory_needed->0.inheriting) {
            Ok(PathAction::Itself(directory))
        } else {
            Err(Errno::Notcapable)
        },
{
}

} // verus!
