//! Logging of the output streams of runtimes.
//!
//! Lines are split on `\r\n`, `\n`, or `\r` (to handle full line edits). The terminators are removed
//! from the output.

use vstd::prelude::*;

use crate::base::bytes;

verus! {

#[derive(Clone, Copy, PartialEq, Eq, Structural, Debug)]
pub enum StdioStreamType {
    Stdout,
    Stderr,
}

/// A line that was written.
pub struct StdioLine {
    pub stream: StdioStreamType,
    pub contents: Vec<u8>,
}

/// The bytes of lines.
pub open spec fn line_contents(lines: Seq<StdioLine>) -> Seq<Seq<u8>> {
    lines.map_values(|line: StdioLine| line.contents@)
}

/// A stream that was read so far: the lines that ended, the line that has not, and whether the last
/// one ended with a carriage return.
#[verifier::ext_equal]
pub struct LogState {
    pub lines: Seq<Seq<u8>>,
    pub data: Seq<u8>,
    pub trailing_cr: bool,
}

/// A stream after one more byte. A newline behind a carriage return belongs to the same terminator.
pub open spec fn feed_byte(s: LogState, b: u8) -> LogState {
    if b == 0x0a && s.trailing_cr {
        LogState { lines: s.lines, data: s.data, trailing_cr: false }
    } else if b == 0x0a || b == 0x0d {
        LogState { lines: s.lines.push(s.data), data: Seq::empty(), trailing_cr: b == 0x0d }
    } else {
        LogState { lines: s.lines, data: s.data.push(b), trailing_cr: false }
    }
}

/// A stream after more bytes.
pub open spec fn feed(s: LogState, bytes: Seq<u8>) -> LogState
    decreases bytes.len(),
{
    if bytes.len() == 0 {
        s
    } else {
        feed_byte(feed(s, bytes.drop_last()), bytes.last())
    }
}

/// However a stream is cut into writes, the same lines come out.
pub proof fn writes_can_be_cut_anywhere(s: LogState, a: Seq<u8>, b: Seq<u8>)
    ensures
        feed(feed(s, a), b) == feed(s, a + b),
    decreases b.len(),
{
    if b.len() == 0 {
        assert(a + b =~= a);
    } else {
        writes_can_be_cut_anywhere(s, a, b.drop_last());
        assert((a + b).drop_last() =~= a + b.drop_last());
        assert((a + b).last() == b.last());
    }
}

/// A stream with one newline for each line terminator.
pub open spec fn normalized(bytes: Seq<u8>) -> Seq<u8>
    decreases bytes.len(),
{
    if bytes.len() == 0 {
        Seq::empty()
    } else {
        let before = normalized(bytes.drop_last());
        if bytes.last() == 0x0a && bytes.len() > 1 && bytes[bytes.len() - 2] == 0x0d {
            before
        } else if bytes.last() == 0x0d {
            before.push(0x0au8)
        } else {
            before.push(bytes.last())
        }
    }
}

/// The lines of a stream, with the one that has not ended last, are its pieces between line
/// terminators.
pub proof fn lines_are_pieces(bytes: Seq<u8>)
    ensures
        ({
            let s = feed(
                LogState { lines: Seq::empty(), data: Seq::empty(), trailing_cr: false },
                bytes,
            );
            &&& s.lines.push(s.data) == bytes::split_on(normalized(bytes), 0x0au8)
            &&& s.trailing_cr == (bytes.len() > 0 && bytes.last() == 0x0d)
        }),
    decreases bytes.len(),
{
    let start = LogState { lines: Seq::empty(), data: Seq::empty(), trailing_cr: false };
    if bytes.len() == 0 {
        assert(start.lines.push(start.data) =~= seq![Seq::<u8>::empty()]);
    } else {
        lines_are_pieces(bytes.drop_last());
        let before = feed(start, bytes.drop_last());
        let pieces = before.lines.push(before.data);
        let clean = normalized(bytes.drop_last());
        assert(pieces.drop_last() =~= before.lines);
        if bytes.len() > 1 {
            assert(bytes.drop_last().last() == bytes[bytes.len() - 2]);
        }
        assert(clean.push(0x0au8).drop_last() =~= clean);
        assert(clean.push(bytes.last()).drop_last() =~= clean);
    }
}

/// No line holds a line terminator.
pub proof fn lines_hold_no_terminator(bytes: Seq<u8>, i: int)
    requires
        0 <= i < bytes::split_on(normalized(bytes), 0x0au8).len(),
    ensures
        !bytes::split_on(normalized(bytes), 0x0au8)[i].contains(0x0au8),
{
    bytes::split_on_pieces(normalized(bytes), 0x0au8);
}

/// One output stream.
pub struct WriteHandle {
    pub data: Vec<u8>,
    pub previous_line_trailing_cr: bool,
    pub stream: StdioStreamType,
}

/// The lines of a runtime.
pub struct Logger {
    pub lines: Vec<StdioLine>,
}

impl Logger {
    /// A logger, with the handles of the two output streams. Both count as standard output.
    pub fn new() -> (r: (Logger, WriteHandle, WriteHandle))
        ensures
            r.0.lines@.len() == 0,
            r.1.data@.len() == 0,
            !r.1.previous_line_trailing_cr,
            r.1.stream == StdioStreamType::Stdout,
            r.2.data@.len() == 0,
            !r.2.previous_line_trailing_cr,
            r.2.stream == StdioStreamType::Stdout,
    {
        (
            Logger { lines: Vec::new() },
            WriteHandle {
                data: Vec::new(),
                previous_line_trailing_cr: false,
                stream: StdioStreamType::Stdout,
            },
            WriteHandle {
                data: Vec::new(),
                previous_line_trailing_cr: false,
                stream: StdioStreamType::Stdout,
            },
        )
    }

    /// The lines that ended.
    pub fn finish(self) -> (r: Vec<StdioLine>)
        ensures
            r == self.lines,
    {
        self.lines
    }
}

impl WriteHandle {
    /// The stream so far, with the lines that are kept for it.
    pub open spec fn log(self, lines: Seq<StdioLine>) -> LogState {
        LogState {
            lines: line_contents(lines),
            data: self.data@,
            trailing_cr: self.previous_line_trailing_cr,
        }
    }

    /// Writes more of the stream. The lines that end are kept, and all bytes are taken.
    pub fn write(&mut self, lines: &mut Vec<StdioLine>, buf: &[u8]) -> (n: usize)
        ensures
            n == buf@.len(),
            final(self).stream == old(self).stream,
            final(self).log(final(lines)@) == feed(old(self).log(old(lines)@), buf@),
            old(lines)@.is_prefix_of(final(lines)@),
            forall|i: int|
                old(lines)@.len() <= i < final(lines)@.len() ==> (
                #[trigger] final(lines)@[i]).stream == old(self).stream,
    {
        let ghost start = self.log(lines@);
        let mut i: usize = 0;
        assert(buf@.take(0) =~= Seq::<u8>::empty());
        while i < buf.len()
            invariant
                i <= buf@.len(),
                start == old(self).log(old(lines)@),
                self.stream == old(self).stream,
                self.log(lines@) == feed(start, buf@.take(i as int)),
                old(lines)@.len() <= lines@.len(),
                forall|k: int| 0 <= k < old(lines)@.len() ==> #[trigger] lines@[k] == old(lines)@[k],
                forall|k: int|
                    old(lines)@.len() <= k < lines@.len() ==> (#[trigger] lines@[k]).stream
                        == old(self).stream,
            decreases buf@.len() - i,
        {
            let b: u8 = buf[i];
            let ghost before = self.log(lines@);
            proof {
                assert(buf@.take(i + 1).drop_last() =~= buf@.take(i as int));
                assert(buf@.take(i + 1).last() == b);
            }
            if b == 0x0a && self.previous_line_trailing_cr {
                self.previous_line_trailing_cr = false;
            } else if b == 0x0a || b == 0x0d {
                let mut line: Vec<u8> = Vec::new();
                core::mem::swap(&mut line, &mut self.data);
                let ghost contents = line@;
                lines.push(StdioLine { stream: self.stream, contents: line });
                self.previous_line_trailing_cr = b == 0x0d;
                proof {
                    assert(line_contents(lines@) =~= before.lines.push(contents));
                    assert(self.data@ =~= Seq::<u8>::empty());
                }
            } else {
                self.data.push(b);
                self.previous_line_trailing_cr = false;
            }
            assert(self.log(lines@) =~= feed_byte(before, b));
            i += 1;
        }
        assert(buf@.take(buf@.len() as int) =~= buf@);
        assert(old(lines)@ =~= lines@.subrange(0, old(lines)@.len() as int));
        buf.len()
    }
}

/// The lines of a file that holds the output of an action: a newline ends a line, and the last line
/// may go without.
pub open spec fn stored_lines(data: Seq<u8>) -> Seq<Seq<u8>> {
    let pieces = bytes::split_on(data, 0x0au8);
    if pieces.last().len() == 0 {
        pieces.drop_last()
    } else {
        pieces
    }
}

/// The lines of a file that holds the output of an action.
pub fn repeat_stdio(data: &[u8]) -> (r: Vec<Vec<u8>>)
    ensures
        bytes::byte_strings(r@) == stored_lines(data@),
{
    let mut lines = bytes::split_bytes(data, 0x0a);
    proof {
        bytes::split_on_pieces(data@, 0x0au8);
    }
    let n: usize = lines.len();
    let ghost all = bytes::byte_strings(lines@);
    assert(all.last() == lines@[n - 1]@);
    if lines[n - 1].len() == 0 {
        let _ = lines.pop();
        assert(bytes::byte_strings(lines@) =~= all.drop_last());
    }
    lines
}

/// Bytes that end no line go to the line that has not ended. A newline, a carriage return, and the two
/// together each end it once.
pub proof fn lines_end_at_terminators(s: LogState, text: Seq<u8>)
    requires
        !text.contains(0x0a),
        !text.contains(0x0d),
    ensures
        feed(s, text).lines == s.lines,
        feed(s, text).data == s.data + text,
        text.len() > 0 ==> !feed(s, text).trailing_cr,
        feed(s, seq![0x0du8]) == (LogState { lines: s.lines.push(s.data), data: Seq::empty(), trailing_cr: true }),
        feed(s, seq![0x0du8, 0x0au8]) == (LogState {
            lines: s.lines.push(s.data),
            data: Seq::empty(),
            trailing_cr: false,
        }),
        feed(s, seq![0x0au8]) == if s.trailing_cr {
            LogState { lines: s.lines, data: s.data, trailing_cr: false }
        } else {
            LogState { lines: s.lines.push(s.data), data: Seq::empty(), trailing_cr: false }
        },
    decreases text.len(),
{
    reveal_with_fuel(feed, 3);
    assert(seq![0x0du8].drop_last() =~= Seq::<u8>::empty());
    assert(seq![0x0au8].drop_last() =~= Seq::<u8>::empty());
    assert(seq![0x0du8, 0x0au8].drop_last() =~= seq![0x0du8]);
    if text.len() == 0 {
        assert(s.data + text =~= s.data);
    } else {
        let shorter = text.drop_last();
        assert(text.contains(text.last()));
        assert forall|x: u8| shorter.contains(x) implies text.contains(x) by {
            let k = choose|k: int| 0 <= k < shorter.len() && shorter[k] == x;
            assert(text[k] == x);
        }
        lines_end_at_terminators(s, shorter);
        assert((s.data + shorter).push(text.last()) =~= s.data + text);
    }
}

/// Lines are told one by one.
pub proof fn lines_are_told_one_by_one(lines: Seq<StdioLine>, h: WriteHandle)
    ensures
        line_contents(lines).len() == lines.len(),
        forall|i: int| 0 <= i < lines.len() ==> #[trigger] line_contents(lines)[i] == lines[i].contents@,
        h.log(lines).lines == line_contents(lines),
        h.log(lines).data == h.data@,
        h.log(lines).trailing_cr == h.previous_line_trailing_cr,
{
}

/// Each stored line comes back, whether it ends in a newline or is the last one and does not. Carriage
/// returns stay in it, and lines may be empty.
pub proof fn stored_lines_come_back(data: Seq<u8>, line: Seq<u8>)
    requires
        data.len() == 0 || data.last() == 0x0a,
        !line.contains(0x0a),
    ensures
        stored_lines(Seq::empty()) == Seq::<Seq<u8>>::empty(),
        stored_lines((data + line).push(0x0a)) == stored_lines(data).push(line),
        line.len() > 0 ==> stored_lines(data + line) == stored_lines(data).push(line),
{
    let nothing = Seq::<u8>::empty();
    bytes::pieces_end_at_separators(nothing, nothing, 0x0au8);
    assert(stored_lines(nothing) =~= Seq::<Seq<u8>>::empty());
    let whole = data + line;
    bytes::pieces_end_at_separators(whole, nothing, 0x0au8);
    assert(whole.push(0x0a) + nothing =~= whole.push(0x0a));
    let pieces = bytes::split_on(whole, 0x0au8);
    assert(pieces.push(nothing).drop_last() =~= pieces);
    if data.len() == 0 {
        assert(data =~= nothing);
        assert(whole =~= line);
        bytes::pieces_end_at_separators(nothing, line, 0x0au8);
        assert(stored_lines(data).push(line) =~= seq![line]);
    } else {
        let before = data.drop_last();
        assert(before.push(0x0a) =~= data);
        bytes::pieces_end_at_separators(before, line, 0x0au8);
        bytes::pieces_end_at_separators(before, nothing, 0x0au8);
        assert(before.push(0x0a) + nothing =~= data);
        let earlier = bytes::split_on(before, 0x0au8);
        assert(earlier.push(nothing).drop_last() =~= earlier);
    }
}

} // verus!
