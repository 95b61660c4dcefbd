use vstd::prelude::*;

use crate::text::{lemma_split_nonempty, split_on};

verus! {

/// Declares `std::sync::mpsc::Sender` as an opaque type: it is only carried.
#[verifier::external_type_specification]
#[verifier::external_body]
#[verifier::reject_recursive_types(T)]
pub struct ExSender<T>(std::sync::mpsc::Sender<T>);

/// Declares `std::sync::mpsc::Receiver` as an opaque type: it is only carried.
#[verifier::external_type_specification]
#[verifier::external_body]
#[verifier::reject_recursive_types(T)]
pub struct ExReceiver<T>(std::sync::mpsc::Receiver<T>);

/// The reading end of the engine's pipes: lines read from the engine go out
/// through `data_out`; a message on `quit_in` ends the reading.
pub struct UgiReader {
    pub data_out: std::sync::mpsc::Sender<String>,
    pub quit_in: std::sync::mpsc::Receiver<bool>,
}

impl UgiReader {
    /// The reading end made of its two channel ends.
    pub fn new(
        data_out: std::sync::mpsc::Sender<String>,
        quit_in: std::sync::mpsc::Receiver<bool>,
    ) -> (r: UgiReader)
        ensures
            r.data_out == data_out,
            r.quit_in == quit_in,
    {
        UgiReader { data_out, quit_in }
    }
}

/// The writing end of the engine's pipes: commands arrive on `data_in` to
/// be written to the engine; a message on `quit_in` ends the writing.
pub struct UgiWriter {
    pub data_in: std::sync::mpsc::Receiver<String>,
    pub quit_in: std::sync::mpsc::Receiver<bool>,
}

impl UgiWriter {
    /// The writing end made of its two channel ends.
    pub fn new(
        data_in: std::sync::mpsc::Receiver<String>,
        quit_in: std::sync::mpsc::Receiver<bool>,
    ) -> (r: UgiWriter)
        ensures
            r.data_in == data_in,
            r.quit_in == quit_in,
    {
        UgiWriter { data_in, quit_in }
    }
}

/// The end of a line.
pub const NEWLINE: u8 = 10;

/// A carriage return, dropped where it ends a line.
pub const CARRIAGE_RETURN: u8 = 13;

/// A line without the carriage return that may end it.
pub open spec fn strip_cr(l: Seq<u8>) -> Seq<u8> {
    if l.len() > 0 && l.last() == CARRIAGE_RETURN {
        l.drop_last()
    } else {
        l
    }
}

/// The views of a list of byte vectors.
pub open spec fn byte_lines_view(v: Seq<Vec<u8>>) -> Seq<Seq<u8>> {
    v.map_values(|l: Vec<u8>| l@)
}

/// Cuts a byte stream that arrives in pieces into lines. Bytes after the
/// last line break wait for the next piece.
pub struct LineSplitter {
    pending: Vec<u8>,
}

impl View for LineSplitter {
    type V = Seq<u8>;

    /// The bytes received after the last line break.
    closed spec fn view(&self) -> Seq<u8> {
        self.pending@
    }
}

impl LineSplitter {
    /// The splitter's invariant: what waits holds no line break.
    pub open spec fn wf(&self) -> bool {
        forall|k: int| 0 <= k < self@.len() ==> #[trigger] self@[k] != NEWLINE
    }

    /// A splitter with nothing waiting.
    pub fn new() -> (r: LineSplitter)
        ensures
            r.wf(),
            r@ == Seq::<u8>::empty(),
    {
        LineSplitter { pending: Vec::new() }
    }

    /// Takes the next piece of the stream and returns the lines it completes,
    /// each without its line break and final carriage return.
    pub fn feed(&mut self, bytes: &[u8]) -> (lines: Vec<Vec<u8>>)
        requires
            old(self).wf(),
        ensures
            final(self).wf(),
            ({
                let parts = split_on(old(self)@ + bytes@, NEWLINE);
                &&& byte_lines_view(lines@) == parts.drop_last().map_values(
                    |l: Seq<u8>| strip_cr(l),
                )
                &&& final(self)@ == parts.last()
            }),
    {
        let ghost t = self@ + bytes@;
        let ghost start = self@;
        let mut cur: Vec<u8> = Vec::new();
        cur.append(&mut self.pending);
        let mut lines: Vec<Vec<u8>> = Vec::new();
        let ghost mut raw: Seq<Seq<u8>> = Seq::empty();
        proof {
            lemma_split_without_sep(start, NEWLINE);
            assert(t.subrange(0, start.len() as int) == start);
        }
        let mut i: usize = 0;
        while i < bytes.len()
            invariant
                t == start + bytes@,
                i <= bytes@.len(),
                split_on(t.subrange(0, start.len() + i), NEWLINE) == raw.push(cur@),
                byte_lines_view(lines@) == raw.map_values(|l: Seq<u8>| strip_cr(l)),
                forall|k: int| 0 <= k < cur@.len() ==> #[trigger] cur@[k] != NEWLINE,
            decreases bytes@.len() - i,
        {
            let b = bytes[i];
            let ghost pre = t.subrange(0, start.len() + i);
            let ghost next = t.subrange(0, start.len() + i + 1);
            proof {
                assert(next.drop_last() == pre);
                assert(next.last() == b);
                lemma_split_nonempty(pre, NEWLINE);
            }
            let ghost cur_before = cur@;
            let ghost lines_before = byte_lines_view(lines@);
            if b == NEWLINE {
                let mut line = cur;
                cur = Vec::new();
                let n = line.len();
                if n > 0 && line[n - 1] == CARRIAGE_RETURN {
                    line.pop();
                }
                proof {
                    assert(line@ == strip_cr(cur_before));
                }
                let ghost lv = line@;
                lines.push(line);
                proof {
                    assert(byte_lines_view(lines@) =~= lines_before.push(lv));
                    let old_raw = raw;
                    raw = raw.push(cur_before);
                    assert(raw.map_values(|l: Seq<u8>| strip_cr(l)) =~= old_raw.map_values(
                        |l: Seq<u8>| strip_cr(l),
                    ).push(strip_cr(cur_before)));
                    assert(byte_lines_view(lines@) =~= raw.map_values(|l: Seq<u8>| strip_cr(l)));
                    assert(split_on(next, NEWLINE) =~= raw.push(cur@));
                }
            } else {
                cur.push(b);
                proof {
                    assert(split_on(next, NEWLINE) =~= raw.push(cur@));
                }
            }
            i = i + 1;
        }
        proof {
            assert(t.subrange(0, t.len() as int) == t);
            assert(raw.push(cur@).drop_last() =~= raw);
        }
        self.pending = cur;
        lines
    }

    /// Takes what waits after the last line break, at the end of the stream.
    pub fn finish(&mut self) -> (rest: Option<Vec<u8>>)
        requires
            old(self).wf(),
        ensures
            final(self).wf(),
            final(self)@ == Seq::<u8>::empty(),
            old(self)@.len() == 0 ==> rest is None,
            old(self)@.len() > 0 ==> rest is Some && rest->Some_0@ == strip_cr(old(self)@),
    {
        if self.pending.len() == 0 {
            return None;
        }
        let mut line: Vec<u8> = Vec::new();
        line.append(&mut self.pending);
        let n = line.len();
        if line[n - 1] == CARRIAGE_RETURN {
            line.pop();
        }
        Some(line)
    }
}

/// A stream without a separator is one piece.
proof fn lemma_split_without_sep<A>(s: Seq<A>, sep: A)
    requires
        forall|k: int| 0 <= k < s.len() ==> #[trigger] s[k] != sep,
    ensures
        split_on(s, sep) == seq![s],
    decreases s.len(),
{
    if s.len() > 0 {
        lemma_split_without_sep(s.drop_last(), sep);
        assert(s.drop_last().push(s.last()) =~= s);
        assert(split_on(s, sep) =~= seq![s]);
    } else {
        assert(s =~= Seq::<A>::empty());
    }
}

} // verus!
