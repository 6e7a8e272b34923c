//! Byte sequences: splitting, and the UTF-8 texts that they hold.

use vstd::prelude::*;
use vstd::string::StringSliceAdditionalSpecFns;

use crate::base::text::TextOrder;

verus! {

/// The error with which `std::str::from_utf8` refuses bytes.
#[verifier::external_type_specification]
#[verifier::external_body]
pub struct ExUtf8Error(core::str::Utf8Error);

/// `std::str::from_utf8` gives the text that the bytes encode, and refuses exactly the bytes that
/// are not valid UTF-8.
pub assume_specification[ core::str::from_utf8 ](v: &[u8]) -> (r: Result<&str, core::str::Utf8Error>)
    ensures
        match r {
            Ok(s) => vstd::utf8::valid_utf8(v@) && s.spec_bytes() == v@,
            Err(_) => !vstd::utf8::valid_utf8(v@),
        },
;

/// The pieces of a sequence between separators. There is one piece more than there are separators.
pub open spec fn split_on<T>(s: Seq<T>, separator: T) -> Seq<Seq<T>>
    decreases s.len(),
{
    if s.len() == 0 {
        seq![Seq::empty()]
    } else {
        let before = split_on(s.drop_last(), separator);
        if s.last() == separator {
            before.push(Seq::empty())
        } else {
            before.drop_last().push(before.last().push(s.last()))
        }
    }
}

/// No piece holds a separator, and there is at least one piece.
pub proof fn split_on_pieces<T>(s: Seq<T>, separator: T)
    ensures
        split_on(s, separator).len() > 0,
        forall|i: int|
            0 <= i < split_on(s, separator).len() ==> !(#[trigger] split_on(s, separator)[i]).contains(
                separator,
            ),
    decreases s.len(),
{
    if s.len() > 0 {
        split_on_pieces(s.drop_last(), separator);
        let before = split_on(s.drop_last(), separator);
        let pieces = split_on(s, separator);
        assert forall|i: int| 0 <= i < pieces.len() implies !(#[trigger] pieces[i]).contains(
            separator,
        ) by {
            if i < before.len() - 1 {
                assert(pieces[i] == before[i]);
            } else if s.last() == separator {
                if i == before.len() - 1 {
                    assert(pieces[i] == before[i]);
                }
            } else {
                assert(pieces[i] == before.last().push(s.last()));
                assert(!before.last().contains(separator)) by {
                    assert(before.last() == before[before.len() - 1]);
                }
                if pieces[i].contains(separator) {
                    let k = choose|k: int| 0 <= k < pieces[i].len() && pieces[i][k] == separator;
                    assert(k < before.last().len());
                    assert(before.last()[k] == separator);
                }
            }
        }
    }
}

/// The contents of a list of byte strings.
pub open spec fn byte_strings(v: Seq<Vec<u8>>) -> Seq<Seq<u8>> {
    v.map_values(|b: Vec<u8>| b@)
}

/// Splits bytes at every separator.
pub fn split_bytes(s: &[u8], separator: u8) -> (r: Vec<Vec<u8>>)
    ensures
        byte_strings(r@) == split_on(s@, separator),
{
    let mut pieces: Vec<Vec<u8>> = Vec::new();
    let mut current: Vec<u8> = Vec::new();
    let mut i: usize = 0;
    assert(s@.take(0) =~= Seq::<u8>::empty());
    assert(byte_strings(pieces@).push(current@) =~= seq![Seq::<u8>::empty()]);
    while i < s.len()
        invariant
            i <= s@.len(),
            byte_strings(pieces@).push(current@) == split_on(s@.take(i as int), separator),
        decreases s@.len() - i,
    {
        let ghost before = byte_strings(pieces@).push(current@);
        let ghost done = byte_strings(pieces@);
        let b: u8 = s[i];
        assert(s@.take(i + 1).drop_last() =~= s@.take(i as int));
        assert(s@.take(i + 1).last() == b);
        if b == separator {
            let ghost piece = current@;
            pieces.push(current);
            current = Vec::new();
            assert(byte_strings(pieces@) =~= done.push(piece));
            assert(current@ =~= Seq::<u8>::empty());
        } else {
            current.push(b);
            assert(before.drop_last() =~= done);
        }
        i += 1;
    }
    assert(s@.take(s@.len() as int) =~= s@);
    let ghost done = byte_strings(pieces@);
    let ghost piece = current@;
    pieces.push(current);
    assert(byte_strings(pieces@) =~= done.push(piece));
    pieces
}

/// Whether two byte strings are equal.
pub fn bytes_equal(a: &[u8], b: &[u8]) -> (r: bool)
    ensures
        r == (a@ == b@),
{
    if a.len() != b.len() {
        return false;
    }
    let mut i: usize = 0;
    while i < a.len()
        invariant
            i <= a@.len(),
            a@.len() == b@.len(),
            forall|k: int| 0 <= k < i ==> a@[k] == b@[k],
        decreases a@.len() - i,
    {
        if a[i] != b[i] {
            return false;
        }
        i += 1;
    }
    assert(a@ =~= b@);
    true
}

/// The text that bytes encode, where they are valid UTF-8.
pub fn decode_text(b: &[u8]) -> (r: Result<String, core::str::Utf8Error>)
    ensures
        match r {
            Ok(s) => vstd::utf8::valid_utf8(b@) && s@ == vstd::utf8::decode_utf8(b@) && vstd::utf8::encode_utf8(s@) == b@,
            Err(_) => !vstd::utf8::valid_utf8(b@),
        },
{
    match core::str::from_utf8(b) {
        Ok(s) => {
            proof {
                vstd::utf8::encode_utf8_decode_utf8(s@);
            }
            Ok(s.to_owned())
        },
        Err(e) => Err(e),
    }
}

/// A text that holds an ASCII character holds its byte.
pub proof fn ascii_char_in_bytes(s: Seq<char>, c: char)
    requires
        s.contains(c),
        c as u32 <= 0x7f,
    ensures
        vstd::utf8::encode_utf8(s).contains(c as u8),
    decreases s.len(),
{
    let first = vstd::utf8::encode_scalar(s[0] as u32);
    let rest = vstd::utf8::encode_utf8(s.drop_first());
    assert(vstd::utf8::encode_utf8(s) == first + rest);
    if s[0] == c {
        assert(vstd::utf8::is_ascii_chars(seq![c]));
        vstd::utf8::is_ascii_chars_encode_utf8(seq![c]);
        assert(seq![c].drop_first() =~= Seq::<char>::empty());
        assert(vstd::utf8::encode_utf8(seq![c]) =~= first);
        assert(first[0] == c as u8);
        assert((first + rest)[0] == c as u8);
    } else {
        let k = choose|k: int| 0 <= k < s.len() && s[k] == c;
        assert(s.drop_first()[k - 1] == c);
        ascii_char_in_bytes(s.drop_first(), c);
        let j = choose|j: int| 0 <= j < rest.len() && rest[j] == c as u8;
        assert((first + rest)[first.len() + j] == c as u8);
    }
}

/// Whether `i` is where two byte strings first differ, with `a` the smaller one there or at its end.
pub open spec fn smaller_at(a: Seq<u8>, b: Seq<u8>, i: int) -> bool {
    &&& 0 <= i <= a.len()
    &&& i < b.len()
    &&& forall|j: int| 0 <= j < i ==> a[j] == b[j]
    &&& i == a.len() || a[i] < b[i]
}

/// Whether `a` comes strictly before `b`, byte by byte.
pub open spec fn bytes_before(a: Seq<u8>, b: Seq<u8>) -> bool {
    exists|i: int| #[trigger] smaller_at(a, b, i)
}

/// No byte string comes before itself, or before one that comes before it.
pub proof fn bytes_before_asymmetric(a: Seq<u8>, b: Seq<u8>)
    ensures
        !bytes_before(a, a),
        bytes_before(a, b) ==> !bytes_before(b, a),
{
    if bytes_before(a, b) && bytes_before(b, a) {
        let i = choose|i: int| #[trigger] smaller_at(a, b, i);
        let k = choose|k: int| #[trigger] smaller_at(b, a, k);
        if i < k {
            assert(b[i] == a[i]);
        } else if k < i {
            assert(a[k] == b[k]);
        }
    }
}

/// The order of byte strings is transitive.
pub proof fn bytes_before_transitive(a: Seq<u8>, b: Seq<u8>, c: Seq<u8>)
    requires
        bytes_before(a, b),
        bytes_before(b, c),
    ensures
        bytes_before(a, c),
{
    let i = choose|i: int| #[trigger] smaller_at(a, b, i);
    let k = choose|k: int| #[trigger] smaller_at(b, c, k);
    let m = if i < k {
        i
    } else {
        k
    };
    assert forall|j: int| 0 <= j < m implies a[j] == c[j] by {
        assert(a[j] == b[j] && b[j] == c[j]);
    }
    if m < a.len() {
        if m < i {
            assert(a[m] == b[m]);
        }
        if m < k {
            assert(b[m] == c[m]);
        }
    }
    assert(smaller_at(a, c, m));
}

/// Compares two byte strings.
pub fn compare_bytes(a: &[u8], b: &[u8]) -> (r: TextOrder)
    ensures
        r == TextOrder::Equal <==> a@ == b@,
        r == TextOrder::Less <==> bytes_before(a@, b@),
        r == TextOrder::Greater <==> bytes_before(b@, a@),
{
    let mut i: usize = 0;
    proof {
        bytes_before_asymmetric(a@, b@);
        bytes_before_asymmetric(b@, a@);
    }
    while i < a.len() && i < b.len()
        invariant
            i <= a@.len(),
            i <= b@.len(),
            forall|j: int| 0 <= j < i ==> a@[j] == b@[j],
            bytes_before(a@, b@) ==> !bytes_before(b@, a@),
        decreases a@.len() - i,
    {
        if a[i] < b[i] {
            assert(smaller_at(a@, b@, i as int));
            return TextOrder::Less;
        }
        if b[i] < a[i] {
            assert(smaller_at(b@, a@, i as int));
            return TextOrder::Greater;
        }
        i += 1;
    }
    if a.len() < b.len() {
        assert(smaller_at(a@, b@, i as int));
        TextOrder::Less
    } else if b.len() < a.len() {
        assert(smaller_at(b@, a@, i as int));
        TextOrder::Greater
    } else {
        assert(a@ =~= b@);
        TextOrder::Equal
    }
}

/// The bytes of several buffers, one after the other.
pub open spec fn concat(buffers: Seq<Seq<u8>>) -> Seq<u8>
    decreases buffers.len(),
{
    if buffers.len() == 0 {
        Seq::empty()
    } else {
        concat(buffers.drop_last()) + buffers.last()
    }
}

/// Fills buffers in order from the bytes that start at `from`, and says how many were copied.
pub fn fill(buffers: &mut Vec<Vec<u8>>, src: &[u8], from: usize) -> (n: usize)
    requires
        from <= src@.len(),
    ensures
        n == if concat(byte_strings(old(buffers)@)).len() <= src@.len() - from {
            concat(byte_strings(old(buffers)@)).len() as int
        } else {
            src@.len() - from
        },
        final(buffers)@.len() == old(buffers)@.len(),
        forall|k: int|
            0 <= k < old(buffers)@.len() ==> (#[trigger] final(buffers)@[k])@.len()
                == old(buffers)@[k]@.len(),
        concat(byte_strings(final(buffers)@)) == src@.subrange(from as int, from + n) + concat(
            byte_strings(old(buffers)@),
        ).skip(n as int),
{
    let ghost start = byte_strings(buffers@);
    let count: usize = buffers.len();
    let available: usize = src.len();
    let mut n: usize = 0;
    let mut i: usize = 0;
    assert(start.take(0) =~= Seq::<Seq<u8>>::empty());
    assert(byte_strings(buffers@).take(0) =~= Seq::<Seq<u8>>::empty());
    assert(concat(start.take(0)) =~= src@.subrange(from as int, from + 0) + concat(start.take(0)).skip(
        0,
    ));
    while i < count
        invariant
            i <= count,
            available == src@.len(),
            count == buffers@.len(),
            count == start.len(),
            start == byte_strings(old(buffers)@),
            from + n <= src@.len(),
            forall|k: int| i <= k < count ==> (#[trigger] buffers@[k])@ == start[k],
            forall|k: int|
                0 <= k < count ==> (#[trigger] buffers@[k])@.len() == start[k].len(),
            n == if concat(start.take(i as int)).len() <= src@.len() - from {
                concat(start.take(i as int)).len() as int
            } else {
                src@.len() - from
            },
            concat(byte_strings(buffers@).take(i as int)) == src@.subrange(from as int, from + n)
                + concat(start.take(i as int)).skip(n as int),
        decreases count - i,
    {
        let ghost before = buffers@;
        let ghost done = concat(start.take(i as int));
        let len: usize = buffers[i].len();
        let left: usize = available - from - n;
        let m: usize = if len < left {
            len
        } else {
            left
        };
        let mut buffer: Vec<u8> = Vec::new();
        let mut j: usize = 0;
        while j < len
            invariant
                i < count,
                available == src@.len(),
                count == buffers@.len(),
                buffers@ == before,
                len == before[i as int]@.len(),
                j <= len,
                m <= len,
                from + n + m <= src@.len(),
                buffer@.len() == j,
                forall|k: int|
                    0 <= k < j ==> #[trigger] buffer@[k] == if k < m {
                        src@[from + n + k]
                    } else {
                        before[i as int]@[k]
                    },
            decreases len - j,
        {
            if j < m {
                buffer.push(src[from + n + j]);
            } else {
                let b: u8 = buffers[i][j];
                buffer.push(b);
            }
            j += 1;
        }
        let ghost new_buffer = buffer@;
        buffers[i] = buffer;
        proof {
            let after = byte_strings(buffers@);
            assert(new_buffer =~= src@.subrange(from + n, from + n + m) + start[i as int].skip(
                m as int,
            ));
            assert(after.take(i + 1).drop_last() =~= byte_strings(before).take(i as int));
            assert(after.take(i + 1).last() == new_buffer);
            assert(start.take(i + 1).drop_last() =~= start.take(i as int));
            assert(start.take(i + 1).last() == start[i as int]);
            assert(concat(start.take(i + 1)) == done + start[i as int]);
            assert(concat(after.take(i + 1)) =~= src@.subrange(from as int, from + n + m) + concat(
                start.take(i + 1),
            ).skip(n + m));
        }
        n += m;
        i += 1;
    }
    assert(start.take(count as int) =~= start);
    assert(byte_strings(buffers@).take(count as int) =~= byte_strings(buffers@));
    n
}

/// The pieces with separators between them.
pub open spec fn joined_with<T>(pieces: Seq<Seq<T>>, separator: T) -> Seq<T>
    decreases pieces.len(),
{
    if pieces.len() == 0 {
        Seq::empty()
    } else if pieces.len() == 1 {
        pieces[0]
    } else {
        joined_with(pieces.drop_last(), separator).push(separator) + pieces.last()
    }
}

/// Nothing is lost where a sequence is split: with separators between them the pieces are the sequence
/// again.
pub proof fn split_pieces_are_the_whole<T>(s: Seq<T>, separator: T)
    ensures
        joined_with(split_on(s, separator), separator) == s,
    decreases s.len(),
{
    if s.len() == 0 {
        assert(joined_with(split_on(s, separator), separator) =~= s);
    } else {
        let before = split_on(s.drop_last(), separator);
        let pieces = split_on(s, separator);
        split_pieces_are_the_whole(s.drop_last(), separator);
        split_on_pieces(s.drop_last(), separator);
        if s.last() == separator {
            assert(pieces.drop_last() =~= before);
            assert(joined_with(pieces, separator) =~= s.drop_last().push(separator));
        } else {
            assert(pieces.drop_last() =~= before.drop_last());
            assert(joined_with(pieces, separator) =~= joined_with(before, separator).push(s.last()));
        }
        assert(s.drop_last().push(s.last()) =~= s);
    }
}

/// A sequence without separators is one piece, and one more separator ends a piece and starts the next.
pub proof fn pieces_end_at_separators<T>(s: Seq<T>, rest: Seq<T>, separator: T)
    requires
        !rest.contains(separator),
    ensures
        split_on(rest, separator) == seq![rest],
        split_on(s.push(separator) + rest, separator) == split_on(s, separator).push(rest),
    decreases rest.len(),
{
    let all = s.push(separator) + rest;
    if rest.len() == 0 {
        assert(rest =~= Seq::<T>::empty());
        assert(all.drop_last() =~= s);
    } else {
        let shorter = rest.drop_last();
        assert(rest.contains(rest.last()));
        assert forall|x: T| shorter.contains(x) implies rest.contains(x) by {
            let k = choose|k: int| 0 <= k < shorter.len() && shorter[k] == x;
            assert(rest[k] == x);
        }
        pieces_end_at_separators(s, shorter, separator);
        assert(shorter.push(rest.last()) =~= rest);
        assert(seq![shorter].drop_last() =~= Seq::<Seq<T>>::empty());
        assert(all.drop_last() =~= s.push(separator) + shorter);
        assert(all.last() == rest.last());
        let before = split_on(s, separator).push(shorter);
        assert(before.drop_last() =~= split_on(s, separator));
    }
}

/// Byte strings are ordered by the first byte in which they differ, and a byte string comes before every
/// longer one that starts with it.
pub proof fn first_difference_orders_bytes(common: Seq<u8>, x: u8, y: u8, a: Seq<u8>, b: Seq<u8>)
    ensures
        x < y ==> bytes_before(common.push(x) + a, common.push(y) + b),
        bytes_before(common, common.push(y) + b),
{
    let n = common.len() as int;
    if x < y {
        assert(smaller_at(common.push(x) + a, common.push(y) + b, n));
    }
    assert(smaller_at(common, common.push(y) + b, n));
}

/// Buffers behind other buffers hold their bytes behind those of the others, and one buffer its own.
pub proof fn buffers_follow_each_other(a: Seq<Seq<u8>>, b: Seq<Seq<u8>>, one: Seq<u8>)
    ensures
        concat(a + b) == concat(a) + concat(b),
        concat(seq![one]) == one,
    decreases b.len(),
{
    assert(seq![one].drop_last() =~= Seq::<Seq<u8>>::empty());
    assert(concat(seq![one].drop_last()) =~= Seq::<u8>::empty());
    assert(concat(seq![one]) =~= one);
    if b.len() == 0 {
        assert(a + b =~= a);
        assert(concat(a) + concat(b) =~= concat(a));
    } else {
        buffers_follow_each_other(a, b.drop_last(), one);
        assert((a + b).drop_last() =~= a + b.drop_last());
        assert(concat(a + b) =~= concat(a) + concat(b));
    }
}

/// The contents of byte strings are told one by one.
pub proof fn byte_strings_are_told_one_by_one(v: Seq<Vec<u8>>)
    ensures
        byte_strings(v).len() == v.len(),
        forall|i: int| 0 <= i < v.len() ==> #[trigger] byte_strings(v)[i] == v[i]@,
{
}

} // verus!
