//! Handles that stand for no file: one that prints, and one that is empty.

use vstd::prelude::*;

use crate::api::rights::HandleRights;
use crate::api::types::{
    self, Errno, Fdflags, Filestat, Filetype, FDFLAGS_APPEND, FD_FILESTAT_GET, FD_READ, FD_TELL, FD_WRITE,
};

verus! {

/// A file handle that simply prints to a writer.
pub struct PrintHandle<W> {
    pub writer: W,
}

/// Why a writer did not take bytes.
#[derive(Clone, Copy, PartialEq, Eq, Structural, Debug)]
pub enum WriteFailure {
    /// Nobody reads any more what is written.
    BrokenPipe,
    Other,
}

impl<W> PrintHandle<W> {
    pub fn new(writer: W) -> (r: PrintHandle<W>)
        ensures
            r.writer == writer,
    {
        PrintHandle { writer }
    }

    pub fn file_type(&self) -> (r: Filetype)
        ensures
            r == Filetype::CharacterDevice,
    {
        Filetype::CharacterDevice
    }

    /// Some programs expect to be able to run `tell` on their standard streams.
    pub fn rights(&self) -> (r: HandleRights)
        ensures
            r == (HandleRights { base: FD_WRITE | FD_FILESTAT_GET | FD_TELL, inheriting: 0 }),
    {
        HandleRights::from_base(FD_WRITE | FD_FILESTAT_GET | FD_TELL)
    }

    /// What the guest is told of what the writer did.
    pub fn written(&self, outcome: Result<usize, WriteFailure>) -> (r: Result<usize, Errno>)
        ensures
            r == match outcome {
                Ok(n) => Ok::<usize, Errno>(n),
                Err(WriteFailure::BrokenPipe) => Err(Errno::Pipe),
                Err(WriteFailure::Other) => Err(Errno::Io),
            },
    {
        match outcome {
            Ok(n) => Ok(n),
            Err(WriteFailure::BrokenPipe) => Err(Errno::Pipe),
            Err(WriteFailure::Other) => Err(Errno::Io),
        }
    }

    /// The position is always told to be at the start.
    pub fn tell(&self) -> (r: u64)
        ensures
            r == 0,
    {
        0
    }

    pub fn filestat(&self) -> (r: Filestat)
        ensures
            r == types::plain_filestat(0, Filetype::CharacterDevice, 0),
    {
        Filestat::plain(0, Filetype::CharacterDevice, 0)
    }

    pub fn fdstat(&self) -> (r: Fdflags)
        ensures
            r == FDFLAGS_APPEND,
    {
        FDFLAGS_APPEND
    }
}

/// A handle that is always at its end.
#[derive(Clone, Copy, PartialEq, Eq, Structural, Debug)]
pub struct NullHandle;

impl NullHandle {
    pub fn file_type(&self) -> (r: Filetype)
        ensures
            r == Filetype::CharacterDevice,
    {
        Filetype::CharacterDevice
    }

    pub fn rights(&self) -> (r: HandleRights)
        ensures
            r == (HandleRights { base: FD_FILESTAT_GET | FD_READ | FD_WRITE, inheriting: 0 }),
    {
        HandleRights::from_base(FD_FILESTAT_GET | FD_READ | FD_WRITE)
    }

    /// Reads nothing into the buffers.
    pub fn read(&self, iovs: &mut Vec<Vec<u8>>) -> (n: usize)
        ensures
            n == 0,
            *final(iovs) == *old(iovs),
    {
        0
    }
}

} // verus!
