//! The log lines shown in the window: a bounded buffer of lines, and the
//! writer that cuts a byte stream into lines for it.
use vstd::prelude::*;
use std::collections::VecDeque;
use crate::helper::string_views;
use crate::text::{copy_string, push_char, str_chars, utf8_lossy, utf8_lossy_spec};

verus! {

/// The most recent log lines, oldest first; at most `max_lines` of them (one
/// when `max_lines` is 0).
pub struct LogBuffer {
    lines: VecDeque<String>,
    max_lines: usize,
}

/// The lines kept after `line` is added: when the buffer is full, the oldest
/// line leaves first.
pub open spec fn push_line(lines: Seq<Seq<char>>, max_lines: nat, line: Seq<char>) -> Seq<Seq<char>> {
    if lines.len() >= max_lines && lines.len() > 0 {
        lines.drop_first().push(line)
    } else {
        lines.push(line)
    }
}

/// The lines joined with `\n` between them.
pub open spec fn join_lines(lines: Seq<Seq<char>>) -> Seq<char>
    decreases lines.len(),
{
    if lines.len() == 0 {
        Seq::empty()
    } else if lines.len() == 1 {
        lines[0]
    } else {
        join_lines(lines.drop_last()) + "\n"@ + lines.last()
    }
}

impl LogBuffer {
    /// The lines held, oldest first.
    pub closed spec fn lines_view(&self) -> Seq<Seq<char>> {
        string_views(self.lines@)
    }

    /// The most lines held.
    pub closed spec fn capacity(&self) -> nat {
        self.max_lines as nat
    }

    /// The buffer never holds more than its capacity (or one line).
    pub closed spec fn wf(&self) -> bool {
        self.lines@.len() <= if self.max_lines == 0 { 1 } else { self.max_lines as int }
    }

    /// An empty buffer for at most `max_lines` lines.
    pub fn new(max_lines: usize) -> (r: Self)
        ensures
            r.wf(),
            r.lines_view() == Seq::<Seq<char>>::empty(),
            r.capacity() == max_lines,
    {
        let r = LogBuffer { lines: VecDeque::with_capacity(max_lines), max_lines };
        assert(string_views(r.lines@) =~= Seq::<Seq<char>>::empty());
        r
    }

    /// Add a line, dropping the oldest when the buffer is full.
    pub fn push(&mut self, line: String)
        requires
            old(self).wf(),
        ensures
            final(self).wf(),
            final(self).capacity() == old(self).capacity(),
            final(self).lines_view() == push_line(old(self).lines_view(), old(self).capacity(), line@),
    {
        let ghost before = string_views(self.lines@);
        let ghost lv = line@;
        if self.lines.len() >= self.max_lines && self.lines.len() > 0 {
            let _ = self.lines.pop_front();
            assert(string_views(self.lines@) =~= before.drop_first());
        }
        let ghost mid = string_views(self.lines@);
        self.lines.push_back(line);
        assert(string_views(self.lines@) =~= mid.push(lv));
    }

    /// All lines, oldest first.
    pub fn get_lines(&self) -> (r: Vec<String>)
        ensures
            string_views(r@) == self.lines_view(),
    {
        let mut out: Vec<String> = Vec::new();
        let mut i: usize = 0;
        while i < self.lines.len()
            invariant
                i <= self.lines@.len(),
                string_views(out@) == string_views(self.lines@).take(i as int),
            decreases self.lines@.len() - i,
        {
            let ghost before = string_views(out@);
            let c = copy_string(&self.lines[i]);
            out.push(c);
            assert(string_views(out@) =~= before.push(c@));
            assert(string_views(out@) =~= string_views(self.lines@).take(i + 1));
            i = i + 1;
        }
        assert(string_views(self.lines@).take(self.lines@.len() as int) =~= string_views(self.lines@));
        out
    }

    /// All lines joined with newlines.
    pub fn get_text(&self) -> (r: String)
        ensures
            r@ == join_lines(self.lines_view()),
    {
        let mut out = String::new();
        let ghost lv = string_views(self.lines@);
        let mut i: usize = 0;
        assert(lv.take(0) =~= Seq::<Seq<char>>::empty());
        while i < self.lines.len()
            invariant
                i <= self.lines@.len(),
                lv == string_views(self.lines@),
                out@ == join_lines(lv.take(i as int)),
            decreases self.lines@.len() - i,
        {
            let ghost before = out@;
            if i > 0 {
                push_char(&mut out, '\n');
            }
            let chars = str_chars(self.lines[i].as_str());
            let mut k: usize = 0;
            let ghost mid = out@;
            while k < chars.len()
                invariant
                    k <= chars@.len(),
                    out@ == mid + chars@.take(k as int),
                decreases chars@.len() - k,
            {
                push_char(&mut out, chars[k]);
                assert(out@ =~= mid + chars@.take(k + 1));
                k = k + 1;
            }
            proof {
                assert(chars@.take(chars@.len() as int) =~= chars@);
                let t = lv.take(i + 1);
                assert(t.drop_last() =~= lv.take(i as int));
                assert(t.last() == chars@);
                reveal_strlit("\n");
                if i == 0 {
                    assert(out@ =~= join_lines(t));
                } else {
                    assert(out@ =~= before + "\n"@ + chars@);
                }
            }
            i = i + 1;
        }
        assert(lv.take(self.lines@.len() as int) =~= lv);
        out
    }

    /// Remove all lines.
    pub fn clear(&mut self)
        requires
            old(self).wf(),
        ensures
            final(self).wf(),
            final(self).capacity() == old(self).capacity(),
            final(self).lines_view() == Seq::<Seq<char>>::empty(),
    {
        self.lines.clear();
        assert(string_views(self.lines@) =~= Seq::<Seq<char>>::empty());
    }
}

/// Cuts written bytes into lines: each `\n` ends a line, which goes to the
/// buffer as text (invalid UTF-8 replaced); bytes after the last `\n` wait for
/// more.
pub struct LogBufferWriter {
    line: Vec<u8>,
}

/// The buffer's lines and the pending bytes after one byte is written.
pub open spec fn write_byte(st: (Seq<Seq<char>>, Seq<u8>), max_lines: nat, b: u8) -> (Seq<Seq<char>>, Seq<u8>) {
    if b == 10 {
        (push_line(st.0, max_lines, utf8_lossy_spec(st.1)), Seq::empty())
    } else {
        (st.0, st.1.push(b))
    }
}

/// The buffer's lines and the pending bytes after `bytes` are written, one
/// after the other.
pub open spec fn write_bytes(st: (Seq<Seq<char>>, Seq<u8>), max_lines: nat, bytes: Seq<u8>) -> (Seq<Seq<char>>, Seq<u8>)
    decreases bytes.len(),
{
    if bytes.len() == 0 {
        st
    } else {
        write_byte(write_bytes(st, max_lines, bytes.drop_last()), max_lines, bytes.last())
    }
}

/// The buffer's lines after a flush: the pending bytes, if any, become a line.
pub open spec fn flush_pending(lines: Seq<Seq<char>>, max_lines: nat, pending: Seq<u8>) -> Seq<Seq<char>> {
    if pending.len() > 0 {
        push_line(lines, max_lines, utf8_lossy_spec(pending))
    } else {
        lines
    }
}

impl LogBufferWriter {
    /// The bytes written since the last complete line.
    pub closed spec fn pending(&self) -> Seq<u8> {
        self.line@
    }

    /// A writer with nothing pending.
    pub fn new() -> (r: Self)
        ensures
            r.pending() == Seq::<u8>::empty(),
    {
        LogBufferWriter { line: Vec::new() }
    }

    /// Write bytes; every complete line goes to `buffer`. All bytes are taken.
    pub fn write(&mut self, buffer: &mut LogBuffer, bytes: &[u8]) -> (n: usize)
        requires
            old(buffer).wf(),
        ensures
            n == bytes@.len(),
            final(buffer).wf(),
            final(buffer).capacity() == old(buffer).capacity(),
            (final(buffer).lines_view(), final(self).pending())
                == write_bytes((old(buffer).lines_view(), old(self).pending()), old(buffer).capacity(), bytes@),
    {
        let mut i: usize = 0;
        assert(bytes@.take(0) =~= Seq::<u8>::empty());
        while i < bytes.len()
            invariant
                i <= bytes@.len(),
                buffer.wf(),
                buffer.capacity() == old(buffer).capacity(),
                (buffer.lines_view(), self.line@)
                    == write_bytes((old(buffer).lines_view(), old(self).line@), old(buffer).capacity(), bytes@.take(i as int)),
            decreases bytes@.len() - i,
        {
            let b = bytes[i];
            proof {
                let t = bytes@.take(i + 1);
                assert(t.drop_last() =~= bytes@.take(i as int));
                assert(t.last() == b);
            }
            if b == 10 {
                let text = utf8_lossy(self.line.as_slice());
                buffer.push(text);
                self.line.clear();
                assert(self.line@ =~= Seq::<u8>::empty());
            } else {
                self.line.push(b);
            }
            i = i + 1;
        }
        assert(bytes@.take(bytes@.len() as int) =~= bytes@);
        bytes.len()
    }

    /// Send the pending bytes, if any, to `buffer` as a line.
    pub fn flush(&mut self, buffer: &mut LogBuffer)
        requires
            old(buffer).wf(),
        ensures
            final(buffer).wf(),
            final(buffer).capacity() == old(buffer).capacity(),
            final(buffer).lines_view() == flush_pending(old(buffer).lines_view(), old(buffer).capacity(), old(self).pending()),
            final(self).pending() == Seq::<u8>::empty(),
    {
        if self.line.len() > 0 {
            let text = utf8_lossy(self.line.as_slice());
            buffer.push(text);
            self.line.clear();
        }
        assert(self.line@ =~= Seq::<u8>::empty());
    }
}

/// Writing two pieces one after the other leaves the buffer and the pending
/// bytes as writing them at once does: how the stream is cut into writes does
/// not matter.
pub proof fn lemma_write_concat(st: (Seq<Seq<char>>, Seq<u8>), max_lines: nat, a: Seq<u8>, b: Seq<u8>)
    ensures
        write_bytes(write_bytes(st, max_lines, a), max_lines, b) == write_bytes(st, max_lines, a + b),
    decreases b.len(),
{
    if b.len() == 0 {
        assert(a + b =~= a);
    } else {
        lemma_write_concat(st, max_lines, a, b.drop_last());
        assert((a + b).drop_last() =~= a + b.drop_last());
        assert((a + b).last() == b.last());
    }
}

/// Bytes without a newline send nothing to the buffer: they wait.
pub proof fn lemma_write_without_newline(st: (Seq<Seq<char>>, Seq<u8>), max_lines: nat, bytes: Seq<u8>)
    requires
        forall|i: int| 0 <= i < bytes.len() ==> bytes[i] != 10,
    ensures
        write_bytes(st, max_lines, bytes) == (st.0, st.1 + bytes),
    decreases bytes.len(),
{
    if bytes.len() == 0 {
        assert(st.1 + bytes =~= st.1);
    } else {
        lemma_write_without_newline(st, max_lines, bytes.drop_last());
        assert((st.1 + bytes.drop_last()).push(bytes.last()) =~= st.1 + bytes);
    }
}

/// A line that ends with a newline reaches the buffer whole, and nothing stays
/// pending.
pub proof fn lemma_write_line(st: (Seq<Seq<char>>, Seq<u8>), max_lines: nat, bytes: Seq<u8>)
    requires
        forall|i: int| 0 <= i < bytes.len() ==> bytes[i] != 10,
    ensures
        write_bytes(st, max_lines, bytes.push(10)) == (push_line(st.0, max_lines, utf8_lossy_spec(st.1 + bytes)), Seq::<u8>::empty()),
{
    lemma_write_without_newline(st, max_lines, bytes);
    assert(bytes.push(10).drop_last() =~= bytes);
}

/// A full buffer stays full: adding a line drops the oldest, so the number of
/// lines never passes the capacity.
pub proof fn lemma_push_bounded(lines: Seq<Seq<char>>, max_lines: nat, line: Seq<char>)
    requires
        lines.len() <= if max_lines == 0 { 1 } else { max_lines },
    ensures
        push_line(lines, max_lines, line).len() <= if max_lines == 0 { 1 } else { max_lines },
        push_line(lines, max_lines, line).last() == line,
{
}


/// The lines held after pushing `pushed`, one after the other, into an empty
/// buffer of capacity `max_lines`.
pub open spec fn push_all(max_lines: nat, pushed: Seq<Seq<char>>) -> Seq<Seq<char>>
    decreases pushed.len(),
{
    if pushed.len() == 0 {
        Seq::empty()
    } else {
        push_line(push_all(max_lines, pushed.drop_last()), max_lines, pushed.last())
    }
}

/// A buffer of capacity `max_lines` (at least one) holds the last
/// `max_lines` lines pushed since it was made or cleared (all of them while
/// there are fewer), oldest first.
pub proof fn lemma_keeps_last_lines(max_lines: nat, pushed: Seq<Seq<char>>)
    requires
        max_lines >= 1,
    ensures
        push_all(max_lines, pushed) == pushed.subrange(
            if pushed.len() > max_lines { pushed.len() - max_lines } else { 0 },
            pushed.len() as int,
        ),
    decreases pushed.len(),
{
    if pushed.len() > 0 {
        let front = pushed.drop_last();
        lemma_keeps_last_lines(max_lines, front);
        let k = pushed.len() as int;
        if k - 1 >= max_lines {
            assert(front.subrange(k - 1 - max_lines, k - 1).drop_first().push(pushed.last())
                =~= pushed.subrange(k - max_lines, k));
        } else {
            assert(front.subrange(0, k - 1).push(pushed.last()) =~= pushed.subrange(0, k));
        }
    } else {
        assert(pushed.subrange(0, 0) =~= Seq::<Seq<char>>::empty());
    }
}

} // verus!
