//! Pipes between the host and a guest.

use std::collections::VecDeque;

use vstd::prelude::*;

use crate::api::rights::HandleRights;
use crate::api::types::{self, Errno, Filestat, Filetype, FD_FILESTAT_GET, FD_READ, FD_WRITE};
use crate::base::bytes::{self, fill};

verus! {

/// The pipes of a host, which differ in their inodes.
pub struct PipeFs {
    pub next_inode: u64,
}

/// A pipe, with a buffer for each direction that it has.
pub struct Pipe {
    pub inode: u64,
    /// What the guest wrote for the host.
    pub write: Option<Buffer>,
    /// What the host wrote for the guest.
    pub read: Option<Buffer>,
}

/// Bytes that wait to be read, and the tasks that wait for some, by their numbers.
pub struct Buffer {
    pub data: VecDeque<u8>,
    pub read_waiters: Vec<u64>,
}

/// A read by the host found no bytes.
#[derive(Clone, Copy, PartialEq, Eq, Structural, Debug)]
pub struct WouldBlock;

/// What a read makes of the room that its buffers have, from the bytes that wait: as many of them as there
/// are or fit, in order, and behind them what was there before. Gives the bytes, and how many were read.
pub open spec fn read_into(data: Seq<u8>, room: Seq<u8>) -> (Seq<u8>, nat) {
    let n = if room.len() <= data.len() {
        room.len()
    } else {
        data.len()
    };
    (data.take(n as int) + room.skip(n as int), n)
}

/// The bytes of buffers, one after the other.
pub open spec fn contents(buffers: Seq<Vec<u8>>) -> Seq<u8> {
    bytes::concat(bytes::byte_strings(buffers))
}

/// Whether buffers have the sizes that they had before.
pub open spec fn same_sizes(before: Seq<Vec<u8>>, after: Seq<Vec<u8>>) -> bool {
    &&& after.len() == before.len()
    &&& forall|k: int| 0 <= k < before.len() ==> (#[trigger] after[k])@.len() == before[k]@.len()
}

/// What is written is read: where there is room for all that waits, and nothing waited before, a read gives
/// the bytes of all writes in their order.
pub proof fn written_bytes_are_read(writes: Seq<Seq<u8>>, room: Seq<u8>)
    requires
        bytes::concat(writes).len() <= room.len(),
    ensures
        ({
            let (filled, n) = read_into(bytes::concat(writes), room);
            n == bytes::concat(writes).len() && filled.take(n as int) == bytes::concat(writes)
        }),
{
    let data = bytes::concat(writes);
    let (filled, n) = read_into(data, room);
    assert(filled.take(n as int) =~= data);
}

impl Buffer {
    pub fn new() -> (r: Buffer)
        ensures
            r.data@ == Seq::<u8>::empty(),
            r.read_waiters@ == Seq::<u64>::empty(),
    {
        Buffer { data: VecDeque::new(), read_waiters: Vec::new() }
    }

    /// Fills buffers in order from the bytes that wait, without waiting for more. The bytes stay.
    pub fn read_nonblock(&self, iovs: &mut Vec<Vec<u8>>) -> (n: usize)
        ensures
            (contents(final(iovs)@), n as nat) == read_into(self.data@, contents(old(iovs)@)),
            same_sizes(old(iovs)@, final(iovs)@),
    {
        let len: usize = self.data.len();
        let mut waiting: Vec<u8> = Vec::new();
        let mut i: usize = 0;
        while i < len
            invariant
                i <= len,
                len == self.data@.len(),
                waiting@ == self.data@.take(i as int),
            decreases len - i,
        {
            waiting.push(self.data[i]);
            i += 1;
            assert(waiting@ =~= self.data@.take(i as int));
        }
        assert(waiting@ =~= self.data@);
        let n: usize = fill(iovs, waiting.as_slice(), 0);
        assert(waiting@.subrange(0, n as int) =~= self.data@.take(n as int));
        n
    }

    /// Adds bytes. Gives how many, and the tasks to wake.
    pub fn write(&mut self, iovs: &Vec<Vec<u8>>) -> (r: (usize, Vec<u64>))
        requires
            contents(iovs@).len() <= usize::MAX,
        ensures
            final(self).data@ == old(self).data@ + contents(iovs@),
            final(self).read_waiters@ == Seq::<u64>::empty(),
            r.0 == contents(iovs@).len(),
            r.1@ == old(self).read_waiters@,
    {
        let ghost all = bytes::byte_strings(iovs@);
        let ghost start = self.data@;
        let mut total: usize = 0;
        let mut i: usize = 0;
        assert(all.take(0) =~= Seq::<Seq<u8>>::empty());
        assert(start + bytes::concat(all.take(0)) =~= start);
        while i < iovs.len()
            invariant
                i <= iovs@.len(),
                all == bytes::byte_strings(iovs@),
                bytes::concat(all).len() <= usize::MAX,
                total == bytes::concat(all.take(i as int)).len(),
                self.data@ == start + bytes::concat(all.take(i as int)),
                self.read_waiters == old(self).read_waiters,
            decreases iovs@.len() - i,
        {
            let iov: &Vec<u8> = &iovs[i];
            let ghost before = self.data@;
            proof {
                assert(all.take(i + 1).drop_last() =~= all.take(i as int));
                concat_grows(all, i + 1);
            }
            total += iov.len();
            let mut k: usize = 0;
            assert(before + iov@.take(0) =~= before);
            while k < iov.len()
                invariant
                    k <= iov@.len(),
                    self.data@ == before + iov@.take(k as int),
                    self.read_waiters == old(self).read_waiters,
                decreases iov@.len() - k,
            {
                self.data.push_back(iov[k]);
                k += 1;
                assert(self.data@ =~= before + iov@.take(k as int));
            }
            i += 1;
            assert(iov@.take(iov@.len() as int) =~= iov@);
            assert(self.data@ =~= start + bytes::concat(all.take(i as int)));
        }
        assert(all.take(all.len() as int) =~= all);
        let mut woken: Vec<u64> = Vec::new();
        core::mem::swap(&mut self.read_waiters, &mut woken);
        (total, woken)
    }
}

/// Fewer buffers hold no more bytes.
proof fn concat_grows(buffers: Seq<Seq<u8>>, n: int)
    requires
        0 <= n <= buffers.len(),
    ensures
        bytes::concat(buffers.take(n)).len() <= bytes::concat(buffers).len(),
    decreases buffers.len(),
{
    if n < buffers.len() {
        concat_grows(buffers.drop_last(), n);
        assert(buffers.drop_last().take(n) =~= buffers.take(n));
    } else {
        assert(buffers.take(n) =~= buffers);
    }
}

impl PipeFs {
    pub fn new() -> (r: PipeFs)
        ensures
            r.next_inode == 0,
    {
        PipeFs { next_inode: 0 }
    }

    /// A new pipe, which the guest can read from or write to.
    pub fn new_pipe(&mut self, read: bool, write: bool) -> (r: Pipe)
        requires
            old(self).next_inode < u64::MAX,
        ensures
            final(self).next_inode == old(self).next_inode + 1,
            r.inode == old(self).next_inode,
            match r.write {
                Some(b) => write && b.data@.len() == 0 && b.read_waiters@.len() == 0,
                None => !write,
            },
            match r.read {
                Some(b) => read && b.data@.len() == 0 && b.read_waiters@.len() == 0,
                None => !read,
            },
    {
        let inode: u64 = self.next_inode;
        self.next_inode = inode + 1;
        Pipe {
            inode,
            write: if write {
                Some(Buffer::new())
            } else {
                None
            },
            read: if read {
                Some(Buffer::new())
            } else {
                None
            },
        }
    }
}

impl Pipe {
    /// Reads what the guest wrote, in order. The bytes stay. A read that gets no byte would block: where none
    /// waits, or there is no room.
    pub fn read(&self, buf: &mut Vec<Vec<u8>>) -> (r: Result<usize, WouldBlock>)
        requires
            self.write is Some,
        ensures
            ({
                let (filled, n) = read_into(self.write->0.data@, contents(old(buf)@));
                &&& contents(final(buf)@) == filled
                &&& r == if n == 0 {
                    Err::<usize, WouldBlock>(WouldBlock)
                } else {
                    Ok(n as usize)
                }
            }),
            r is Err <==> self.write->0.data@.len() == 0 || contents(old(buf)@).len() == 0,
            same_sizes(old(buf)@, final(buf)@),
    {
        match &self.write {
            Some(buffer) => {
                let n: usize = buffer.read_nonblock(buf);
                if n == 0 {
                    Err(WouldBlock)
                } else {
                    Ok(n)
                }
            },
            None => Err(WouldBlock),
        }
    }

    /// Writes for the guest. Gives how many bytes were written, which are all, and the tasks to wake.
    pub fn write(&mut self, buf: &Vec<Vec<u8>>) -> (r: (usize, Vec<u64>))
        requires
            old(self).read is Some,
            contents(buf@).len() <= usize::MAX,
        ensures
            final(self).read is Some,
            final(self).read->0.data@ == old(self).read->0.data@ + contents(buf@),
            final(self).read->0.read_waiters@ == Seq::<u64>::empty(),
            final(self).write == old(self).write,
            final(self).inode == old(self).inode,
            r.0 == contents(buf@).len(),
            r.1@ == old(self).read->0.read_waiters@,
    {
        match &mut self.read {
            Some(buffer) => buffer.write(buf),
            None => (0, Vec::new()),
        }
    }

    pub fn file_type(&self) -> (r: Filetype)
        ensures
            r == Filetype::CharacterDevice,
    {
        Filetype::CharacterDevice
    }

    /// The rights of the guest.
    pub fn rights(&self) -> (r: HandleRights)
        ensures
            r == (HandleRights {
                base: FD_FILESTAT_GET | (if self.read is Some { FD_READ } else { 0 }) | (if self.write is Some {
                    FD_WRITE
                } else {
                    0
                }),
                inheriting: 0,
            }),
    {
        let read: u64 = if self.read.is_some() {
            FD_READ
        } else {
            0
        };
        let write: u64 = if self.write.is_some() {
            FD_WRITE
        } else {
            0
        };
        HandleRights::from_base(FD_FILESTAT_GET | read | write)
    }

    /// Writes for the host, where the guest may. Gives how many bytes were written, which are all, and
    /// the tasks to wake.
    pub fn guest_write(&mut self, iovs: &Vec<Vec<u8>>) -> (r: Result<(usize, Vec<u64>), Errno>)
        requires
            contents(iovs@).len() <= usize::MAX,
        ensures
            final(self).read == old(self).read,
            final(self).inode == old(self).inode,
            match old(self).write {
                None => r == Err::<(usize, Vec<u64>), Errno>(Errno::Notcapable) && final(self).write is None,
                Some(before) => {
                    &&& final(self).write is Some
                    &&& final(self).write->0.data@ == before.data@ + contents(iovs@)
                    &&& final(self).write->0.read_waiters@ == Seq::<u64>::empty()
                    &&& r is Ok
                    &&& r->Ok_0.0 == contents(iovs@).len()
                    &&& r->Ok_0.1@ == before.read_waiters@
                },
            },
    {
        match &mut self.write {
            Some(buffer) => Ok(buffer.write(iovs)),
            None => Err(Errno::Notcapable),
        }
    }

    pub fn filestat(&self) -> (r: Filestat)
        ensures
            r == types::plain_filestat(self.inode, Filetype::CharacterDevice, 0),
    {
        Filestat::plain(self.inode, Filetype::CharacterDevice, 0)
    }
}

/// A read gives as many bytes as wait and fit, from the first on, and leaves the rest of the room as it was.
pub proof fn reads_give_the_first_bytes(data: Seq<u8>, room: Seq<u8>)
    ensures
        ({
            let (filled, n) = read_into(data, room);
            &&& n <= data.len() && n <= room.len()
            &&& n == data.len() || n == room.len()
            &&& filled.len() == room.len()
            &&& forall|i: int| 0 <= i < n ==> #[trigger] filled[i] == data[i]
            &&& forall|i: int| n <= i < room.len() ==> #[trigger] filled[i] == room[i]
        }),
{
}

/// Buffers that keep their sizes keep their number and each its length.
pub proof fn sizes_are_kept_one_by_one(before: Seq<Vec<u8>>, after: Seq<Vec<u8>>, k: int)
    requires
        same_sizes(before, after),
        0 <= k < before.len(),
    ensures
        after.len() == before.len(),
        after[k]@.len() == before[k]@.len(),
{
}

/// The bytes of buffers are those of each, one behind the other.
pub proof fn buffers_are_read_in_order(buffers: Seq<Vec<u8>>, last: Vec<u8>)
    ensures
        contents(Seq::empty()) == Seq::<u8>::empty(),
        contents(buffers.push(last)) == contents(buffers) + last@,
{
    let all = bytes::byte_strings(buffers.push(last));
    assert(bytes::byte_strings(Seq::empty()) =~= Seq::<Seq<u8>>::empty());
    assert(all =~= bytes::byte_strings(buffers).push(last@));
    assert(all.drop_last() =~= bytes::byte_strings(buffers));
}

} // verus!
