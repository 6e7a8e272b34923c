//! Requests of clients, and the errors with which they are refused.

use vstd::prelude::*;

verus! {

/// A request to build targets.
pub struct Build {
    targets: Vec<String>,
}

impl Build {
    pub closed spec fn targets(self) -> Seq<String> {
        self.targets@
    }

    pub fn new(targets: Vec<String>) -> (r: Build)
        ensures
            r.targets() == targets@,
    {
        Build { targets }
    }

    /// The labels of the targets.
    pub fn into_targets(self) -> (r: Vec<String>)
        ensures
            r@ == self.targets(),
    {
        self.targets
    }
}

/// Why a server cannot serve.
#[derive(Debug)]
pub enum InternalError {
    Io { message: String },
    /// Another server runs in the same place.
    AlreadyRunning,
}

/// Why the lock of a server cannot be taken: another server has it, or the disk is at fault.
pub fn lock_error(contended: bool, message: String) -> (r: InternalError)
    ensures
        r == if contended {
            InternalError::AlreadyRunning
        } else {
            InternalError::Io { message }
        },
{
    if contended {
        InternalError::AlreadyRunning
    } else {
        InternalError::Io { message }
    }
}

/// Why a runtime does not start.
#[derive(Clone, Copy, PartialEq, Eq, Structural, Debug)]
pub enum InitError {
    /// The interface to the system could not be set up.
    Wasi(crate::api::wasi::InitError),
}

/// Why the state of an interface cannot be forked.
#[derive(Clone, Copy, PartialEq, Eq, Structural, Debug)]
pub enum ForkError {
    /// The interface does not support it.
    NotSupported,
}

/// Passes the failure to set up the interface to the system on.
pub fn init_result<T>(result: Result<T, crate::api::wasi::InitError>) -> (r: Result<T, InitError>)
    ensures
        r == match result {
            Ok(x) => Ok(x),
            Err(e) => Err(InitError::Wasi(e)),
        },
{
    match result {
        Ok(x) => Ok(x),
        Err(e) => Err(InitError::Wasi(e)),
    }
}

/// Forking is not supported, unless an interface says otherwise.
pub fn default_fork<T>() -> (r: Result<T, ForkError>)
    ensures
        r == Err::<T, ForkError>(ForkError::NotSupported),
{
    Err(ForkError::NotSupported)
}

/// Why a server does not stop.
#[derive(Clone, Copy, PartialEq, Eq, Structural, Debug)]
pub enum StopError {
    /// It was told to before.
    AlreadySignaled,
    /// Nobody listens to the signal any more.
    ReceiverDropped,
}

/// The signal by which a server is told to stop, once.
#[derive(Clone, Copy, PartialEq, Eq, Structural, Debug)]
pub struct ShutdownSignal {
    pub signaled: bool,
}

impl ShutdownSignal {
    pub fn new() -> (r: ShutdownSignal)
        ensures
            !r.signaled,
    {
        ShutdownSignal { signaled: false }
    }

    /// Takes the signal, to send it.
    pub fn take(&mut self) -> (r: Result<(), StopError>)
        ensures
            final(self).signaled,
            r == if old(self).signaled {
                Err::<(), StopError>(StopError::AlreadySignaled)
            } else {
                Ok(())
            },
    {
        if self.signaled {
            Err(StopError::AlreadySignaled)
        } else {
            self.signaled = true;
            Ok(())
        }
    }

    /// What a client is told after the signal was sent, or not received.
    pub fn sent(&self, received: bool) -> (r: Result<(), StopError>)
        ensures
            r == if received {
                Ok::<(), StopError>(())
            } else {
                Err(StopError::ReceiverDropped)
            },
    {
        if received {
            Ok(())
        } else {
            Err(StopError::ReceiverDropped)
        }
    }
}

/// The address by which clients find a server, from where it listens.
pub fn api_url(listen_addr: &str) -> (r: String)
    ensures
        r@ == "http://"@ + listen_addr@,
{
    let mut url: String = "http://".to_owned();
    url.append(listen_addr);
    url
}

} // verus!
