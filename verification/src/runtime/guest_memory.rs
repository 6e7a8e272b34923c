//! The buffers by which values pass into and out of the memory of a guest.
//!
//! A buffer is described by a header of little-endian numbers: where its bytes start, how many there
//! are and, for what a guest hands out, how they are encoded.

use vstd::prelude::*;

use crate::api::guest_bytes::append_u32;

verus! {

/// How the bytes that a guest hands out encode a text.
#[derive(Clone, Copy, PartialEq, Eq, Structural, Debug)]
pub enum DataEncoding {
    Utf8,
    Latin1,
}

/// Why a buffer cannot be read or written.
#[derive(Clone, Copy, PartialEq, Eq, Structural, Debug)]
pub enum MemoryError {
    /// A pointer leads outside of the memory.
    BadPointer,
    /// The encoding of the bytes is not known.
    InvalidEncoding,
}

/// A buffer that was filled for the guest.
#[derive(Clone, Copy, PartialEq, Eq, Structural, Debug)]
pub struct InputBuffer {
    pub pointer: u32,
}

/// A buffer that the guest filled.
#[derive(Debug)]
pub struct OutputBuffer {
    pub bytes: Vec<u8>,
    pub encoding: DataEncoding,
}

/// The number that stands at a place of the memory.
pub open spec fn number_at(memory: Seq<u8>, at: int) -> Option<u32> {
    if 0 <= at && at + 4 <= memory.len() {
        Some(vstd::bytes::spec_u32_from_le_bytes(memory.subrange(at, at + 4)))
    } else {
        None
    }
}

/// The memory with some of its bytes replaced.
pub open spec fn overwritten(memory: Seq<u8>, at: int, bytes: Seq<u8>) -> Seq<u8> {
    memory.take(at) + bytes + memory.skip(at + bytes.len())
}

/// What becomes of the memory when bytes are handed to the buffer whose header stands at `pointer`,
/// and whether they were.
pub open spec fn input_written(memory: Seq<u8>, pointer: u32, bytes: Seq<u8>) -> (Seq<u8>, bool) {
    match number_at(memory, pointer as int) {
        None => (memory, false),
        Some(start) => if start + bytes.len() > memory.len() {
            (memory, false)
        } else {
            let filled = overwritten(memory, start as int, bytes);
            if pointer + 8 > memory.len() {
                (filled, false)
            } else {
                let length = vstd::bytes::spec_u32_to_le_bytes(bytes.len() as u32);
                (overwritten(filled, pointer + 4, length), true)
            }
        },
    }
}

/// The encoding that a number stands for.
pub open spec fn encoding_of(n: u32) -> Option<DataEncoding> {
    if n == 1 {
        Some(DataEncoding::Utf8)
    } else if n == 2 {
        Some(DataEncoding::Latin1)
    } else {
        None
    }
}

/// What the buffer whose header stands at `pointer` holds.
pub open spec fn output_at(memory: Seq<u8>, pointer: u32) -> Result<(Seq<u8>, DataEncoding), MemoryError> {
    match (number_at(memory, pointer as int), number_at(memory, pointer + 4), number_at(memory, pointer + 8)) {
        (Some(start), Some(len), Some(encoding)) => match encoding_of(encoding) {
            None => Err(MemoryError::InvalidEncoding),
            Some(encoding) => if start + len > u32::MAX || start + len > memory.len() {
                Err(MemoryError::BadPointer)
            } else {
                Ok((memory.subrange(start as int, start + len), encoding))
            },
        },
        _ => Err(MemoryError::BadPointer),
    }
}

/// Reads the number at a place of the memory, `offset` bytes behind a pointer.
fn read_number(memory: &[u8], pointer: u32, offset: u32) -> (r: Option<u32>)
    requires
        offset <= 8,
    ensures
        r == number_at(memory@, pointer + offset),
{
    let at: u64 = pointer as u64 + offset as u64;
    if at + 4 > memory.len() as u64 {
        return None;
    }
    let start: usize = at as usize;
    Some(vstd::bytes::u32_from_le_bytes(vstd::slice::slice_subrange(memory, start, start + 4)))
}

/// Replaces bytes of the memory.
fn overwrite(memory: &mut Vec<u8>, at: usize, bytes: &[u8])
    requires
        at + bytes@.len() <= old(memory)@.len(),
    ensures
        final(memory)@ == overwritten(old(memory)@, at as int, bytes@),
{
    let ghost start = memory@;
    let total: usize = memory.len();
    let mut i: usize = 0;
    assert(memory@ =~= overwritten(start, at as int, bytes@.take(0)));
    while i < bytes.len()
        invariant
            i <= bytes@.len(),
            total == start.len(),
            at + bytes@.len() <= total,
            memory@ == overwritten(start, at as int, bytes@.take(i as int)),
        decreases bytes@.len() - i,
    {
        memory.set(at + i, bytes[i]);
        assert(memory@ =~= overwritten(start, at as int, bytes@.take(i + 1)));
        i += 1;
    }
    assert(bytes@.take(bytes@.len() as int) =~= bytes@);
}

impl InputBuffer {
    /// Where the header of the buffer stands.
    pub fn pointer(&self) -> (r: u32)
        ensures
            r == self.pointer,
    {
        self.pointer
    }
}

/// Hands bytes to the guest: fills the buffer that the guest allocated for them, whose header stands
/// at `slice_pointer`, and sets its length. What was filled stays so where the length cannot be set.
pub fn write_input(memory: &mut Vec<u8>, slice_pointer: u32, bytes: &[u8]) -> (r: Result<InputBuffer, MemoryError>)
    requires
        bytes@.len() <= u32::MAX,
    ensures
        final(memory)@ == input_written(old(memory)@, slice_pointer, bytes@).0,
        r == if input_written(old(memory)@, slice_pointer, bytes@).1 {
            Ok::<InputBuffer, MemoryError>(InputBuffer { pointer: slice_pointer })
        } else {
            Err(MemoryError::BadPointer)
        },
{
    let total: usize = memory.len();
    let start: u32 = match read_number(memory.as_slice(), slice_pointer, 0) {
        Some(n) => n,
        None => return Err(MemoryError::BadPointer),
    };
    if start as u64 + bytes.len() as u64 > total as u64 {
        return Err(MemoryError::BadPointer);
    }
    overwrite(memory, start as usize, bytes);
    if slice_pointer as u64 + 8 > total as u64 {
        return Err(MemoryError::BadPointer);
    }
    let length: Vec<u8> = vstd::bytes::u32_to_le_bytes(bytes.len() as u32);
    overwrite(memory, slice_pointer as usize + 4, length.as_slice());
    Ok(InputBuffer { pointer: slice_pointer })
}

/// Takes from the guest what the buffer whose header stands at `pointer` holds.
pub fn read_output(memory: &[u8], pointer: u32) -> (r: Result<OutputBuffer, MemoryError>)
    ensures
        match r {
            Ok(buffer) => output_at(memory@, pointer) == Ok::<(Seq<u8>, DataEncoding), MemoryError>(
                (buffer.bytes@, buffer.encoding),
            ),
            Err(e) => output_at(memory@, pointer) == Err::<(Seq<u8>, DataEncoding), MemoryError>(e),
        },
{
    let start: u32 = match read_number(memory, pointer, 0) {
        Some(n) => n,
        None => return Err(MemoryError::BadPointer),
    };
    let len: u32 = match read_number(memory, pointer, 4) {
        Some(n) => n,
        None => return Err(MemoryError::BadPointer),
    };
    let encoding: DataEncoding = match read_number(memory, pointer, 8) {
        Some(1) => DataEncoding::Utf8,
        Some(2) => DataEncoding::Latin1,
        Some(_) => return Err(MemoryError::InvalidEncoding),
        None => return Err(MemoryError::BadPointer),
    };
    let end: u32 = match start.checked_add(len) {
        Some(end) => end,
        None => return Err(MemoryError::BadPointer),
    };
    if end as u64 > memory.len() as u64 {
        return Err(MemoryError::BadPointer);
    }
    let bytes: Vec<u8> = vstd::slice::slice_to_vec(
        vstd::slice::slice_subrange(memory, start as usize, end as usize),
    );
    Ok(OutputBuffer { bytes, encoding })
}

impl OutputBuffer {
    /// Whether the bytes are UTF-8 as they stand: so encoded, or in a Latin-1 text that is all ASCII.
    pub fn is_utf8(&self) -> (r: bool)
        ensures
            r == (self.encoding == DataEncoding::Utf8 || forall|i: int|
                0 <= i < self.bytes@.len() ==> self.bytes@[i] <= 0x7f),
    {
        if self.encoding == DataEncoding::Utf8 {
            return true;
        }
        let mut i: usize = 0;
        while i < self.bytes.len()
            invariant
                i <= self.bytes@.len(),
                self.encoding != DataEncoding::Utf8,
                forall|k: int| 0 <= k < i ==> self.bytes@[k] <= 0x7f,
            decreases self.bytes@.len() - i,
        {
            if self.bytes[i] > 0x7f {
                return false;
            }
            i += 1;
        }
        true
    }
}

/// The number that stands for an encoding.
pub open spec fn encoding_number(encoding: DataEncoding) -> u32 {
    match encoding {
        DataEncoding::Utf8 => 1,
        DataEncoding::Latin1 => 2,
    }
}

/// The header of a buffer that a guest hands out.
pub open spec fn output_header(start: u32, len: u32, encoding: DataEncoding) -> Seq<u8> {
    vstd::bytes::spec_u32_to_le_bytes(start) + vstd::bytes::spec_u32_to_le_bytes(len)
        + vstd::bytes::spec_u32_to_le_bytes(encoding_number(encoding))
}

impl OutputBuffer {
    /// The header of the buffer, where its bytes start at a place of the memory.
    pub fn header(&self, start: u32) -> (r: Vec<u8>)
        requires
            self.bytes@.len() <= u32::MAX,
        ensures
            r@ == output_header(start, self.bytes@.len() as u32, self.encoding),
    {
        let encoding: u32 = match self.encoding {
            DataEncoding::Utf8 => 1,
            DataEncoding::Latin1 => 2,
        };
        let mut header: Vec<u8> = Vec::new();
        append_u32(&mut header, start);
        append_u32(&mut header, self.bytes.len() as u32);
        append_u32(&mut header, encoding);
        assert(header@ =~= output_header(start, self.bytes@.len() as u32, self.encoding));
        header
    }
}

/// What a guest hands out is what is taken from it: where a header stands in the memory that leads to
/// some bytes, those bytes are read.
pub proof fn output_is_read_back(memory: Seq<u8>, pointer: u32, start: u32, bytes: Seq<u8>, encoding: DataEncoding)
    requires
        start + bytes.len() <= u32::MAX,
        pointer + 12 <= memory.len(),
        start + bytes.len() <= memory.len(),
        memory.subrange(pointer as int, pointer + 12) == output_header(start, bytes.len() as u32, encoding),
        memory.subrange(start as int, start + bytes.len()) == bytes,
    ensures
        output_at(memory, pointer) == Ok::<(Seq<u8>, DataEncoding), MemoryError>((bytes, encoding)),
{
    vstd::bytes::lemma_auto_spec_u32_to_from_le_bytes();
    let header = memory.subrange(pointer as int, pointer + 12);
    let len = bytes.len() as u32;
    assert(memory.subrange(pointer as int, pointer + 4) =~= header.subrange(0, 4));
    assert(header.subrange(0, 4) =~= vstd::bytes::spec_u32_to_le_bytes(start));
    assert(memory.subrange(pointer + 4, pointer + 8) =~= header.subrange(4, 8));
    assert(header.subrange(4, 8) =~= vstd::bytes::spec_u32_to_le_bytes(len));
    assert(memory.subrange(pointer + 8, pointer + 12) =~= header.subrange(8, 12));
    assert(header.subrange(8, 12) =~= vstd::bytes::spec_u32_to_le_bytes(encoding_number(encoding)));
}

/// Handing bytes to a guest changes nothing but the bytes of the buffer and its length.
pub proof fn input_is_written_in_place(memory: Seq<u8>, pointer: u32, bytes: Seq<u8>, at: int)
    requires
        bytes.len() <= u32::MAX,
        0 <= at < memory.len(),
        !(pointer + 4 <= at < pointer + 8),
        number_at(memory, pointer as int) matches Some(start) ==> !(start <= at < start + bytes.len()),
    ensures
        input_written(memory, pointer, bytes).0.len() == memory.len(),
        input_written(memory, pointer, bytes).0[at] == memory[at],
{
    vstd::bytes::lemma_auto_spec_u32_to_from_le_bytes();
}

/// The guest finds in a buffer what was handed to it: the header leads to the bytes and counts them,
/// where the buffer does not lie upon its own header.
pub proof fn input_is_found(memory: Seq<u8>, pointer: u32, bytes: Seq<u8>)
    requires
        bytes.len() <= u32::MAX,
        input_written(memory, pointer, bytes).1,
        number_at(memory, pointer as int) matches Some(start) ==> start + bytes.len() <= pointer || pointer + 8
            <= start,
    ensures
        ({
            let after = input_written(memory, pointer, bytes).0;
            let start = number_at(memory, pointer as int)->0;
            &&& number_at(after, pointer as int) == Some(start)
            &&& number_at(after, pointer + 4) == Some(bytes.len() as u32)
            &&& after.subrange(start as int, start + bytes.len()) == bytes
        }),
{
    vstd::bytes::lemma_auto_spec_u32_to_from_le_bytes();
    let after = input_written(memory, pointer, bytes).0;
    let start = number_at(memory, pointer as int)->0;
    assert(after.subrange(pointer as int, pointer + 4) =~= memory.subrange(pointer as int, pointer + 4));
    assert(after.subrange(pointer + 4, pointer + 8) =~= vstd::bytes::spec_u32_to_le_bytes(bytes.len() as u32));
    assert(after.subrange(start as int, start + bytes.len()) =~= bytes);
}

/// Encodings have one number each, and no other number stands for one.
pub proof fn encodings_are_numbered(encoding: DataEncoding, n: u32)
    ensures
        encoding_of(encoding_number(encoding)) == Some(encoding),
        encoding_number(DataEncoding::Utf8) == 1,
        encoding_number(DataEncoding::Latin1) == 2,
        n != 1 && n != 2 ==> encoding_of(n) is None,
{
}

/// A number is found where its bytes stand, the lowest first, and nowhere outside of the memory.
pub proof fn numbers_are_found_in_memory(memory: Seq<u8>, at: int, n: u32)
    ensures
        number_at(memory, at) is Some <==> 0 <= at && at + 4 <= memory.len(),
        0 <= at && at + 4 <= memory.len() && memory.subrange(at, at + 4) == vstd::bytes::spec_u32_to_le_bytes(n)
            ==> number_at(memory, at) == Some(n),
{
    vstd::bytes::lemma_auto_spec_u32_to_from_le_bytes();
    assert(vstd::bytes::spec_u32_to_le_bytes(n).len() == 4);
}

/// Bytes that are overwritten are the new ones, and all others stay.
pub proof fn overwriting_stays_in_place(memory: Seq<u8>, at: int, bytes: Seq<u8>, i: int)
    requires
        0 <= at,
        at + bytes.len() <= memory.len(),
        0 <= i < memory.len(),
    ensures
        overwritten(memory, at, bytes).len() == memory.len(),
        overwritten(memory, at, bytes)[i] == if at <= i < at + bytes.len() {
            bytes[i - at]
        } else {
            memory[i]
        },
{
}

/// Bytes are handed to a guest exactly where the header of the buffer and the buffer lie in the memory.
pub proof fn buffers_must_lie_in_memory(memory: Seq<u8>, pointer: u32, bytes: Seq<u8>)
    ensures
        input_written(memory, pointer, bytes).1 <==> (pointer + 8 <= memory.len() && number_at(memory, pointer as int)
            is Some && number_at(memory, pointer as int)->0 + bytes.len() <= memory.len()),
        number_at(memory, pointer as int) is None ==> input_written(memory, pointer, bytes).0 == memory,
{
}

/// What a guest hands out is refused exactly where the header or the bytes do not lie in the memory, or the
/// encoding is not known.
pub proof fn outputs_are_refused_for_a_reason(memory: Seq<u8>, pointer: u32)
    ensures
        match output_at(memory, pointer) {
            Ok((bytes, encoding)) => {
                &&& pointer + 12 <= memory.len()
                &&& number_at(memory, pointer as int) matches Some(start) && number_at(memory, pointer + 4) == Some(
                    bytes.len() as u32,
                ) && start + bytes.len() <= memory.len() && bytes == memory.subrange(
                    start as int,
                    start + bytes.len(),
                )
                &&& number_at(memory, pointer + 8) matches Some(n) && encoding_of(n) == Some(encoding)
            },
            Err(MemoryError::InvalidEncoding) => number_at(memory, pointer + 8) matches Some(n) && n != 1 && n != 2,
            Err(MemoryError::BadPointer) => pointer + 12 > memory.len() || (number_at(memory, pointer as int)->0
                + number_at(memory, pointer + 4)->0 > u32::MAX || number_at(memory, pointer as int)->0 + number_at(
                memory,
                pointer + 4,
            )->0 > memory.len()),
        },
{
}

} // verus!
