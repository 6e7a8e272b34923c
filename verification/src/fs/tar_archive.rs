//! The entries of a tar archive held in memory, as the `tar` crate reads them.

use vstd::prelude::*;

verus! {

/// An input or output error of the standard library.
#[verifier::external_type_specification]
#[verifier::external_body]
pub struct ExIoError(std::io::Error);

/// One entry of an archive.
pub struct TarEntry {
    /// The raw bytes of the path.
    pub path: Vec<u8>,
    /// The byte that stands for the entry type in a header.
    pub kind: u8,
    /// Where the bytes of the entry start in the archive.
    pub position: u64,
    /// The size field of the header, where it can be read.
    pub size: Result<u64, std::io::Error>,
}

/// The entry type of a regular file.
pub const KIND_REGULAR: u8 = 0x30;

/// The entry type of a directory.
pub const KIND_DIRECTORY: u8 = 0x35;

/// What an entry tells.
pub struct TarEntryModel {
    pub path: Seq<u8>,
    pub kind: u8,
    pub position: u64,
    pub size: Option<u64>,
}

impl View for TarEntry {
    type V = TarEntryModel;

    open spec fn view(&self) -> TarEntryModel {
        TarEntryModel {
            path: self.path@,
            kind: self.kind,
            position: self.position,
            size: match self.size {
                Ok(n) => Some(n),
                Err(_) => None,
            },
        }
    }
}

/// What the entries of an archive tell, in order. `None` is an entry that cannot be read.
pub open spec fn listing_model(items: Seq<Result<TarEntry, std::io::Error>>) -> Seq<
    Option<TarEntryModel>,
> {
    items.map_values(
        |item: Result<TarEntry, std::io::Error>|
            match item {
                Ok(entry) => Some(entry@),
                Err(_) => None,
            },
    )
}

/// The bytes of a header, and of what an extended header takes.
pub const BLOCK_SIZE: usize = 512;

/// The entry type of a sparse file.
pub const KIND_SPARSE: u8 = 0x53;

/// The block with a number.
pub open spec fn block_at(bytes: Seq<u8>, k: int) -> Seq<u8> {
    bytes.subrange(BLOCK_SIZE * k, BLOCK_SIZE * k + BLOCK_SIZE)
}

/// How many digits a decimal number has at least that is not below the half of all that a `u64`
/// counts.
pub const HUGE_DIGITS: usize = 19;

/// Whether there are so many decimal digits from a place on that the number is huge.
pub open spec fn huge_number_at(bytes: Seq<u8>, p: int) -> bool {
    &&& p + HUGE_DIGITS <= bytes.len()
    &&& forall|i: int| p <= i < p + HUGE_DIGITS ==> 0x30 <= #[trigger] bytes[i] <= 0x39
}

/// Whether a record at a place gives a huge size: `size=`, and the number, perhaps with a plus sign.
pub open spec fn huge_size_at(bytes: Seq<u8>, p: int) -> bool {
    &&& 0 <= p
    &&& p + 5 < bytes.len()
    &&& bytes[p] == 0x73
    &&& bytes[p + 1] == 0x69
    &&& bytes[p + 2] == 0x7a
    &&& bytes[p + 3] == 0x65
    &&& bytes[p + 4] == 0x3d
    &&& huge_number_at(bytes, if bytes[p + 5] == 0x2b { p + 6 } else { p + 5 })
}

/// Whether a record somewhere gives a huge size.
pub open spec fn has_huge_size(bytes: Seq<u8>) -> bool {
    exists|p: int| huge_size_at(bytes, p)
}

/// Whether a block can be the header of a sparse file with extended headers and a huge size: the size
/// field, a binary number whose first bit is set, holds it, or a record before the header does.
pub open spec fn huge_sparse_at(bytes: Seq<u8>, k: int) -> bool {
    let header = block_at(bytes, k);
    &&& 0 <= k
    &&& BLOCK_SIZE * k + BLOCK_SIZE <= bytes.len()
    &&& header[156] == KIND_SPARSE
    &&& header[482] == 1
    &&& (header[124] >= 0x80 && header[128] >= 0x80) || has_huge_size(bytes.take(BLOCK_SIZE * k))
}

/// Whether no block can be the header of a sparse file with extended headers and a size of half of all
/// that a `u64` counts, or more.
pub open spec fn readable(bytes: Seq<u8>) -> bool {
    forall|k: int| !huge_sparse_at(bytes, k)
}

fn is_huge_number(bytes: &[u8], from: usize) -> (r: bool)
    requires
        from <= bytes@.len(),
    ensures
        r == huge_number_at(bytes@, from as int),
{
    let total: usize = bytes.len();
    if total - from < HUGE_DIGITS {
        return false;
    }
    let mut i: usize = 0;
    while i < HUGE_DIGITS
        invariant
            i <= HUGE_DIGITS,
            from + HUGE_DIGITS <= total,
            total == bytes@.len(),
            forall|j: int| from <= j < from + i ==> 0x30 <= #[trigger] bytes@[j] <= 0x39,
        decreases HUGE_DIGITS - i,
    {
        if bytes[from + i] < 0x30 || bytes[from + i] > 0x39 {
            assert(!huge_number_at(bytes@, from as int));
            return false;
        }
        i += 1;
    }
    true
}

fn gives_huge_size(bytes: &[u8]) -> (r: bool)
    ensures
        r == has_huge_size(bytes@),
{
    let mut p: usize = 0;
    while p < bytes.len() && bytes.len() - p > 5
        invariant
            p <= bytes@.len(),
            forall|q: int| 0 <= q < p ==> !huge_size_at(bytes@, q),
        decreases bytes@.len() - p,
    {
        if bytes[p] == 0x73 && bytes[p + 1] == 0x69 && bytes[p + 2] == 0x7a && bytes[p + 3] == 0x65
            && bytes[p + 4] == 0x3d {
            let from: usize = if bytes[p + 5] == 0x2b {
                p + 6
            } else {
                p + 5
            };
            if is_huge_number(bytes, from) {
                assert(huge_size_at(bytes@, p as int));
                return true;
            }
        }
        p += 1;
    }
    false
}

/// Whether the entries of an archive can be read, or be found to be invalid. What is left out is an
/// archive that seems to hold a sparse file larger than any memory.
pub fn is_readable(bytes: &[u8]) -> (r: bool)
    ensures
        r == readable(bytes@),
{
    let mut at: usize = 0;
    let ghost mut k: int = 0;
    while at < bytes.len() && bytes.len() - at >= BLOCK_SIZE
        invariant
            at <= bytes@.len(),
            at == BLOCK_SIZE * k,
            0 <= k,
            forall|j: int| j < k ==> !huge_sparse_at(bytes@, j),
        decreases bytes@.len() - at,
    {
        let ghost header = block_at(bytes@, k);
        assert(header[156] == bytes@[at + 156]);
        assert(header[482] == bytes@[at + 482]);
        assert(header[124] == bytes@[at + 124]);
        assert(header[128] == bytes@[at + 128]);
        if bytes[at + 156] == KIND_SPARSE && bytes[at + 482] == 1 {
            if bytes[at + 124] >= 0x80 && bytes[at + 128] >= 0x80 {
                assert(huge_sparse_at(bytes@, k));
                return false;
            }
            let before = vstd::slice::slice_subrange(bytes, 0, at);
            assert(before@ =~= bytes@.take(at as int));
            if gives_huge_size(before) {
                assert(huge_sparse_at(bytes@, k));
                return false;
            }
        }
        at += BLOCK_SIZE;
        proof {
            k = k + 1;
        }
    }
    assert forall|j: int| !huge_sparse_at(bytes@, j) by {
        if j >= k {
            assert(BLOCK_SIZE * j >= BLOCK_SIZE * k) by (nonlinear_arith)
                requires
                    j >= k,
            ;
        }
    }
    true
}

/// What the `tar` crate reads from an archive: its entries in order, up to and with the first that
/// cannot be read. `None` when the archive cannot be listed at all.
pub uninterp spec fn tar_listing(bytes: Seq<u8>) -> Option<Seq<Option<TarEntryModel>>>;

/// Reads the entries of an archive with `tar::Archive::entries`, and of each entry its
/// `path_bytes`, the entry type and size of its header, and its `raw_file_position`. The result is
/// a function of the bytes of the archive alone.
///
/// Archives that are not `readable` are left out: after the header of a sparse file the crate adds the
/// size of each extended header to the place of the next entry without a check, which overflows where
/// the place was next to the largest `u64`. It takes a size of at least the half of all that a `u64`
/// counts to get there, as the places before it and the extended headers lie in memory. Only a size
/// field in binary or a `size` record of an earlier entry can give such a size.
#[verifier::external_body]
pub(crate) fn read_archive(bytes: &[u8]) -> (r: Result<Vec<Result<TarEntry, std::io::Error>>, std::io::Error>)
    requires
        readable(bytes@),
    ensures
        match r {
            Ok(items) => tar_listing(bytes@) == Some(listing_model(items@)),
            Err(_) => tar_listing(bytes@) is None,
        },
{
    let mut archive = tar::Archive::new(bytes);
    let items = archive.entries()?.map(|item| item.map(|entry| TarEntry {
        path: entry.path_bytes().into_owned(),
        kind: entry.header().entry_type().as_byte(),
        position: entry.raw_file_position(),
        size: entry.header().size(),
    })).collect();
    Ok(items)
}

/// Entries are told one by one, each with all that it tells, and one that cannot be read as such.
pub proof fn listings_tell_each_entry(items: Seq<Result<TarEntry, std::io::Error>>, i: int)
    requires
        0 <= i < items.len(),
    ensures
        listing_model(items).len() == items.len(),
        match (items[i], listing_model(items)[i]) {
            (Ok(entry), Some(model)) => {
                &&& model.path == entry.path@
                &&& model.kind == entry.kind
                &&& model.position == entry.position
                &&& match (entry.size, model.size) {
                    (Ok(a), Some(b)) => a == b,
                    (Err(_), None) => true,
                    _ => false,
                }
            },
            (Err(_), None) => true,
            _ => false,
        },
{
}

/// An archive is not readable where a block says that it is the header of a sparse file that goes on in further
/// headers, with a size in binary whose first bit is set.
pub proof fn archives_with_huge_sparse_files_are_not_readable(bytes: Seq<u8>, k: int)
    requires
        0 <= k,
        512 * k + 512 <= bytes.len(),
        bytes[512 * k + 156] == 0x53,
        bytes[512 * k + 482] == 1,
        bytes[512 * k + 124] >= 0x80,
        bytes[512 * k + 128] >= 0x80,
    ensures
        !readable(bytes),
{
    let header = block_at(bytes, k);
    assert(header[156] == bytes[512 * k + 156] && header[482] == bytes[512 * k + 482]);
    assert(header[124] == bytes[512 * k + 124] && header[128] == bytes[512 * k + 128]);
    assert(huge_sparse_at(bytes, k));
}

/// An archive without the header of a sparse file that goes on in further headers is readable.
pub proof fn archives_without_sparse_files_are_readable(bytes: Seq<u8>)
    requires
        forall|k: int|
            0 <= k && 512 * k + 512 <= bytes.len() ==> #[trigger] block_at(bytes, k)[156] != 0x53 || block_at(
                bytes,
                k,
            )[482] != 1,
    ensures
        readable(bytes),
{
    assert forall|k: int| !huge_sparse_at(bytes, k) by {
        if huge_sparse_at(bytes, k) {
            assert(block_at(bytes, k)[156] == 0x53);
        }
    }
}

/// An archive is not readable where the header of a sparse file that goes on in further headers stands behind
/// a record that gives a size of nineteen digits or more. A plus sign can stand before the digits.
pub proof fn archives_with_records_of_huge_sizes_are_not_readable(bytes: Seq<u8>, k: int, p: int, digits: int)
    requires
        0 <= k,
        512 * k + 512 <= bytes.len(),
        bytes[512 * k + 156] == 0x53,
        bytes[512 * k + 482] == 1,
        0 <= p,
        bytes[p] == 0x73 && bytes[p + 1] == 0x69 && bytes[p + 2] == 0x7a && bytes[p + 3] == 0x65 && bytes[p + 4] == 0x3d,
        digits == p + 5 || digits == p + 6 && bytes[p + 5] == 0x2b,
        digits + 19 <= 512 * k,
        forall|i: int| digits <= i < digits + 19 ==> 0x30 <= #[trigger] bytes[i] <= 0x39,
    ensures
        !readable(bytes),
{
    let before = bytes.take(512 * k);
    let header = block_at(bytes, k);
    assert(header[156] == bytes[512 * k + 156] && header[482] == bytes[512 * k + 482]);
    assert(digits == p + 5 ==> 0x30 <= bytes[p + 5] <= 0x39);
    assert forall|i: int| digits <= i < digits + 19 implies 0x30 <= #[trigger] before[i] <= 0x39 by {
        assert(before[i] == bytes[i]);
    }
    assert(huge_size_at(before, p));
    assert(huge_sparse_at(bytes, k));
}

/// An archive in which no size field is a binary number of more than half of all that a `u64` counts, and no
/// text gives a size, is readable.
pub proof fn archives_without_huge_sizes_are_readable(bytes: Seq<u8>)
    requires
        forall|k: int|
            0 <= k && 512 * k + 512 <= bytes.len() ==> #[trigger] block_at(bytes, k)[124] < 0x80 || block_at(
                bytes,
                k,
            )[128] < 0x80,
        forall|p: int|
            0 <= p && p + 5 <= bytes.len() && #[trigger] bytes[p] == 0x73 ==> bytes[p + 1] != 0x69 || bytes[p + 2]
                != 0x7a || bytes[p + 3] != 0x65 || bytes[p + 4] != 0x3d,
    ensures
        readable(bytes),
{
    assert forall|k: int| !huge_sparse_at(bytes, k) by {
        if huge_sparse_at(bytes, k) {
            assert(block_at(bytes, k)[124] < 0x80 || block_at(bytes, k)[128] < 0x80);
            let before = bytes.take(512 * k);
            let p = choose|p: int| huge_size_at(before, p);
            assert(before[p] == bytes[p] && before[p + 4] == bytes[p + 4]);
        }
    }
}

} // verus!
