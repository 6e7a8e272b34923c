//! The bytes by which values stand in the memory of a guest.

use byteorder::{LittleEndian, WriteBytesExt};
use vstd::prelude::*;

use crate::api::types::{self, Dirent};

verus! {

/// `WriteBytesExt::write_u64` appends a number in little-endian order. Writing to memory does not
/// fail.
#[verifier::external_body]
fn append_u64(buffer: &mut Vec<u8>, n: u64)
    ensures
        final(buffer)@ == old(buffer)@ + vstd::bytes::spec_u64_to_le_bytes(n),
{
    buffer.write_u64::<LittleEndian>(n).expect("infallible write")
}

/// `WriteBytesExt::write_u32` appends a number in little-endian order. Writing to memory does not
/// fail.
#[verifier::external_body]
pub(crate) fn append_u32(buffer: &mut Vec<u8>, n: u32)
    ensures
        final(buffer)@ == old(buffer)@ + vstd::bytes::spec_u32_to_le_bytes(n),
{
    buffer.write_u32::<LittleEndian>(n).expect("infallible write")
}

/// A value that can stand in the memory of a guest.
pub trait ToGuestBytes {
    /// The bytes of the value.
    spec fn guest_bytes(&self) -> Seq<u8>;

    /// The bytes of the value.
    fn to_guest_bytes(&self) -> (r: Vec<u8>)
        ensures
            r@ == self.guest_bytes(),
    ;
}

/// How many bytes a directory entry takes, without its name.
pub const DIRENT_SIZE: usize = 24;

impl ToGuestBytes for Dirent {
    /// Two numbers of eight bytes and one of four, all little-endian, the type, and three bytes of
    /// padding.
    open spec fn guest_bytes(&self) -> Seq<u8> {
        vstd::bytes::spec_u64_to_le_bytes(self.d_next) + vstd::bytes::spec_u64_to_le_bytes(self.d_ino)
            + vstd::bytes::spec_u32_to_le_bytes(self.d_namlen) + seq![
            types::filetype_number(self.d_type),
            0u8,
            0u8,
            0u8,
        ]
    }

    fn to_guest_bytes(&self) -> (r: Vec<u8>) {
        let mut buffer: Vec<u8> = Vec::with_capacity(DIRENT_SIZE);
        append_u64(&mut buffer, self.d_next);
        append_u64(&mut buffer, self.d_ino);
        append_u32(&mut buffer, self.d_namlen);
        buffer.push(self.d_type.number());
        buffer.push(0);
        buffer.push(0);
        buffer.push(0);
        assert(buffer@ =~= self.guest_bytes());
        buffer
    }
}

/// Every directory entry takes the same number of bytes.
pub proof fn dirent_size(d: Dirent)
    ensures
        d.guest_bytes().len() == DIRENT_SIZE,
{
    vstd::bytes::lemma_auto_spec_u64_to_from_le_bytes();
    vstd::bytes::lemma_auto_spec_u32_to_from_le_bytes();
}

/// A directory entry stands in memory as the place of the next one, the inode, the length of the name and
/// the type, at their places and in little-endian order.
pub proof fn dirents_are_laid_out(d: Dirent)
    ensures
        ({
            let bytes = d.guest_bytes();
            &&& bytes.len() == 24
            &&& vstd::bytes::spec_u64_from_le_bytes(bytes.subrange(0, 8)) == d.d_next
            &&& vstd::bytes::spec_u64_from_le_bytes(bytes.subrange(8, 16)) == d.d_ino
            &&& vstd::bytes::spec_u32_from_le_bytes(bytes.subrange(16, 20)) == d.d_namlen
            &&& bytes[20] == types::filetype_number(d.d_type)
            &&& bytes[21] == 0 && bytes[22] == 0 && bytes[23] == 0
        }),
{
    vstd::bytes::lemma_auto_spec_u64_to_from_le_bytes();
    vstd::bytes::lemma_auto_spec_u32_to_from_le_bytes();
    let bytes = d.guest_bytes();
    assert(bytes.subrange(0, 8) =~= vstd::bytes::spec_u64_to_le_bytes(d.d_next));
    assert(bytes.subrange(8, 16) =~= vstd::bytes::spec_u64_to_le_bytes(d.d_ino));
    assert(bytes.subrange(16, 20) =~= vstd::bytes::spec_u32_to_le_bytes(d.d_namlen));
}

} // verus!
