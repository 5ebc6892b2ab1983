//! Splitting an MBOX archive into messages, line by line, and gathering
//! the indexed documents into batches.

use vstd::prelude::*;

use crate::text::{chars_of, spec_utf8_lossy, string_of, trim, trim_chars, utf8_lossy};

verus! {

/// The bytes `From ` that open each message of an MBOX archive.
pub open spec fn from_marker() -> Seq<u8> {
    seq![70u8, 114u8, 111u8, 109u8, 32u8]
}

/// A line (without its line feed) that opens a new message.
pub open spec fn is_from_line(line: Seq<u8>) -> bool {
    line.len() >= 5 && line.take(5) == from_marker()
}

/// The text kept of a `From ` line: decoded leniently and trimmed.
pub open spec fn from_text(line: Seq<u8>) -> Seq<char> {
    trim(spec_utf8_lossy(line))
}

/// A line with its line feed restored.
pub open spec fn terminated(line: Seq<u8>) -> Seq<u8> {
    line.push(10u8)
}

/// State of the splitter: the messages completed, each with the text of
/// the `From ` line in effect when it began; the bytes of the message in
/// progress; and the `From ` line in effect.
pub struct SplitState {
    pub done: Seq<(Seq<u8>, Seq<char>)>,
    pub current: Seq<u8>,
    pub from: Seq<char>,
}

/// One line of the archive: a `From ` line closes the message in progress
/// (when it has any bytes) and becomes the line in effect; every line joins
/// the message in progress.
pub open spec fn split_step(st: SplitState, line: Seq<u8>) -> SplitState {
    if is_from_line(line) {
        let done = if st.current.len() > 0 {
            st.done.push((st.current, st.from))
        } else {
            st.done
        };
        SplitState { done, current: terminated(line), from: from_text(line) }
    } else {
        SplitState { done: st.done, current: st.current + terminated(line), from: st.from }
    }
}

/// The splitter after reading `lines` from the start.
pub open spec fn split_lines(lines: Seq<Seq<u8>>) -> SplitState
    decreases lines.len(),
{
    if lines.len() == 0 {
        SplitState { done: Seq::empty(), current: Seq::empty(), from: Seq::empty() }
    } else {
        split_step(split_lines(lines.drop_last()), lines.last())
    }
}

/// The messages of a whole archive: those completed, and the one in
/// progress at its end.
pub open spec fn mbox_messages(lines: Seq<Seq<u8>>) -> Seq<(Seq<u8>, Seq<char>)> {
    let st = split_lines(lines);
    if st.current.len() > 0 {
        st.done.push((st.current, st.from))
    } else {
        st.done
    }
}

/// All lines, each with its line feed.
pub open spec fn joined(lines: Seq<Seq<u8>>) -> Seq<u8>
    decreases lines.len(),
{
    if lines.len() == 0 {
        Seq::empty()
    } else {
        joined(lines.drop_last()) + terminated(lines.last())
    }
}

/// The bytes of a sequence of messages, one after another.
pub open spec fn flatten(msgs: Seq<(Seq<u8>, Seq<char>)>) -> Seq<u8>
    decreases msgs.len(),
{
    if msgs.len() == 0 {
        Seq::empty()
    } else {
        flatten(msgs.drop_last()) + msgs.last().0
    }
}

/// One message of the archive: its bytes and the text of the `From ` line
/// in effect when it began.
pub struct RawMessage {
    pub bytes: Vec<u8>,
    pub from_line: String,
}

/// Reads an archive line by line and hands out each message once the next
/// one begins.
pub struct MboxSplitter {
    current: Vec<u8>,
    from_line: String,
}

impl MboxSplitter {
    /// The bytes of the message in progress.
    pub closed spec fn current(&self) -> Seq<u8> {
        self.current@
    }

    /// The `From ` line in effect.
    pub closed spec fn from(&self) -> Seq<char> {
        self.from_line@
    }

    /// A splitter that has read nothing.
    pub fn new() -> (r: Self)
        ensures
            r.current() == Seq::<u8>::empty(),
            r.from() == Seq::<char>::empty(),
    {
        MboxSplitter { current: Vec::new(), from_line: String::new() }
    }

    /// Reads one line (without its line feed). Hands out the message in
    /// progress when this line opens a new one.
    pub fn push_line(&mut self, line: &[u8]) -> (r: Option<RawMessage>)
        ensures
            ({
                let st = split_step(
                    SplitState { done: Seq::empty(), current: old(self).current(), from: old(self).from() },
                    line@,
                );
                &&& final(self).current() == st.current
                &&& final(self).from() == st.from
            }),
            r is Some <==> is_from_line(line@) && old(self).current().len() > 0,
            r matches Some(m) ==> m.bytes@ == old(self).current() && m.from_line@ == old(
                self,
            ).from(),
    {
        let opens = line.len() >= 5 && line[0] == 70u8 && line[1] == 114u8 && line[2] == 111u8
            && line[3] == 109u8 && line[4] == 32u8;
        assert(opens == is_from_line(line@)) by {
            if line@.len() >= 5 {
                if opens {
                    assert(line@.take(5) =~= from_marker());
                } else {
                    if line@.take(5) == from_marker() {
                        assert(line@.take(5)[0] == line@[0]);
                        assert(line@.take(5)[1] == line@[1]);
                        assert(line@.take(5)[2] == line@[2]);
                        assert(line@.take(5)[3] == line@[3]);
                        assert(line@.take(5)[4] == line@[4]);
                    }
                }
            }
        }
        let mut out: Option<RawMessage> = None;
        if opens {
            if self.current.len() > 0 {
                let mut bytes: Vec<u8> = Vec::new();
                std::mem::swap(&mut bytes, &mut self.current);
                let mut from_line = String::new();
                std::mem::swap(&mut from_line, &mut self.from_line);
                out = Some(RawMessage { bytes, from_line });
            } else {
                self.current = Vec::new();
            }
            let decoded = utf8_lossy(line);
            let cs = chars_of(decoded.as_str());
            let t = trim_chars(cs.as_slice());
            self.from_line = string_of(t.as_slice());
        }
        let ghost before = self.current@;
        let ghost f = self.from_line@;
        assert(opens ==> before =~= Seq::<u8>::empty());
        let mut i: usize = 0;
        while i < line.len()
            invariant
                i <= line.len(),
                self.current@ == before + line@.take(i as int),
                self.from_line@ == f,
            decreases line.len() - i,
        {
            self.current.push(line[i]);
            assert(line@.take(i + 1) == line@.take(i as int).push(line@[i as int]));
            i = i + 1;
        }
        assert(line@.take(line.len() as int) == line@);
        self.current.push(10u8);
        assert(before + terminated(line@) == (before + line@).push(10u8));
        assert(opens ==> self.current@ =~= terminated(line@));
        out
    }

    /// Hands out the message in progress at the end of the archive.
    pub fn finish(self) -> (r: Option<RawMessage>)
        ensures
            self.current().len() > 0 ==> (r matches Some(m) && m.bytes@ == self.current()
                && m.from_line@ == self.from()),
            self.current().len() == 0 ==> r is None,
    {
        if self.current.len() > 0 {
            Some(RawMessage { bytes: self.current, from_line: self.from_line })
        } else {
            None
        }
    }
}

/// Splits a whole archive, given as its lines, into messages.
pub fn split_mbox(lines: &[Vec<u8>]) -> (r: Vec<RawMessage>)
    ensures
        r@.len() == mbox_messages(lines@.map_values(|l: Vec<u8>| l@)).len(),
        forall|i: int|
            0 <= i < r@.len() ==> (#[trigger] r@[i]).bytes@ == mbox_messages(
                lines@.map_values(|l: Vec<u8>| l@),
            )[i].0 && r@[i].from_line@ == mbox_messages(lines@.map_values(|l: Vec<u8>| l@))[i].1,
{
    let ghost ls = lines@.map_values(|l: Vec<u8>| l@);
    let mut sp = MboxSplitter::new();
    let mut out: Vec<RawMessage> = Vec::new();
    let mut i: usize = 0;
    while i < lines.len()
        invariant
            i <= lines.len(),
            ls == lines@.map_values(|l: Vec<u8>| l@),
            split_lines(ls.take(i as int)).current == sp.current(),
            split_lines(ls.take(i as int)).from == sp.from(),
            split_lines(ls.take(i as int)).done.len() == out@.len(),
            forall|k: int|
                0 <= k < out@.len() ==> (#[trigger] out@[k]).bytes@ == split_lines(
                    ls.take(i as int),
                ).done[k].0 && out@[k].from_line@ == split_lines(ls.take(i as int)).done[k].1,
        decreases lines.len() - i,
    {
        assert(ls.take(i + 1).drop_last() == ls.take(i as int));
        assert(ls.take(i + 1).last() == lines@[i as int]@);
        let ghost st = split_lines(ls.take(i as int));
        match sp.push_line(lines[i].as_slice()) {
            Some(m) => {
                out.push(m);
                assert(split_lines(ls.take(i + 1)).done == st.done.push((st.current, st.from)));
            },
            None => {
                assert(split_lines(ls.take(i + 1)).done == st.done);
            },
        }
        i = i + 1;
    }
    assert(ls.take(lines.len() as int) == ls);
    match sp.finish() {
        Some(m) => {
            out.push(m);
        },
        None => {},
    }
    out
}

/// Flattening distributes over pushing a message.
proof fn lemma_flatten_push(msgs: Seq<(Seq<u8>, Seq<char>)>, m: (Seq<u8>, Seq<char>))
    ensures
        flatten(msgs.push(m)) == flatten(msgs) + m.0,
{
    assert(msgs.push(m).drop_last() == msgs);
}

proof fn lemma_split_bytes(lines: Seq<Seq<u8>>)
    ensures
        flatten(split_lines(lines).done) + split_lines(lines).current == joined(lines),
        lines.len() > 0 ==> split_lines(lines).current.len() > 0,
        forall|i: int|
            0 <= i < split_lines(lines).done.len() ==> (#[trigger] split_lines(lines).done[i]).0.len()
                > 0,
    decreases lines.len(),
{
    if lines.len() > 0 {
        let p = lines.drop_last();
        lemma_split_bytes(p);
        let st = split_lines(p);
        let l = lines.last();
        if is_from_line(l) && st.current.len() > 0 {
            lemma_flatten_push(st.done, (st.current, st.from));
        }
        assert(joined(lines) == joined(p) + terminated(l));
    }
}

/// Splitting loses and adds no byte: the messages, one after another, are
/// the archive's lines, each with its line feed.
pub proof fn law_split_keeps_bytes(lines: Seq<Seq<u8>>)
    ensures
        flatten(mbox_messages(lines)) == joined(lines),
{
    lemma_split_bytes(lines);
    let st = split_lines(lines);
    if st.current.len() > 0 {
        lemma_flatten_push(st.done, (st.current, st.from));
    } else {
        assert(st.current == Seq::<u8>::empty());
        assert(flatten(st.done) + st.current == flatten(st.done));
    }
}

/// No message is empty.
pub proof fn law_messages_nonempty(lines: Seq<Seq<u8>>)
    ensures
        forall|i: int|
            0 <= i < mbox_messages(lines).len() ==> (#[trigger] mbox_messages(lines)[i]).0.len()
                > 0,
{
    lemma_split_bytes(lines);
}

/// The bytes begin with `From `.
pub open spec fn opens_with_from(b: Seq<u8>) -> bool {
    b.len() >= 5 && b.take(5) == from_marker()
}

proof fn lemma_split_opens(lines: Seq<Seq<u8>>)
    ensures
        forall|i: int|
            1 <= i < split_lines(lines).done.len() ==> opens_with_from(
                (#[trigger] split_lines(lines).done[i]).0,
            ),
        split_lines(lines).done.len() > 0 ==> opens_with_from(split_lines(lines).current),
    decreases lines.len(),
{
    if lines.len() > 0 {
        let p = lines.drop_last();
        lemma_split_opens(p);
        let st = split_lines(p);
        let l = lines.last();
        if is_from_line(l) {
            assert(terminated(l).take(5) == l.take(5));
            if st.current.len() > 0 {
                let d = st.done.push((st.current, st.from));
                assert forall|i: int| 1 <= i < d.len() implies opens_with_from(#[trigger] d[i].0) by {
                    if i < st.done.len() {
                        assert(d[i] == st.done[i]);
                    }
                }
            }
        } else if st.done.len() > 0 {
            assert((st.current + terminated(l)).take(5) == st.current.take(5));
        }
    }
}

/// Every message but the first opens with a `From ` line.
pub proof fn law_messages_open_with_from(lines: Seq<Seq<u8>>)
    ensures
        forall|i: int|
            1 <= i < mbox_messages(lines).len() ==> opens_with_from(
                (#[trigger] mbox_messages(lines)[i]).0,
            ),
{
    lemma_split_opens(lines);
    let st = split_lines(lines);
    if st.current.len() > 0 {
        let m = st.done.push((st.current, st.from));
        assert forall|i: int| 1 <= i < m.len() implies opens_with_from(#[trigger] m[i].0) by {
            if i < st.done.len() {
                assert(m[i] == st.done[i]);
            }
        }
    }
}

/// Gathers the documents that processing yields into batches for the
/// index, counting them.
pub struct Batcher<T> {
    count: usize,
    batch: Vec<T>,
}

/// Documents are handed to the index fifty at a time.
pub const BATCH_SIZE: usize = 50;

impl<T> Batcher<T> {
    /// Documents accepted so far.
    pub closed spec fn count(&self) -> nat {
        self.count as nat
    }

    /// Documents accepted but not yet handed out.
    pub closed spec fn pending(&self) -> Seq<T> {
        self.batch@
    }

    /// A batcher that has accepted nothing.
    pub fn new() -> (r: Self)
        ensures
            r.count() == 0,
            r.pending() == Seq::<T>::empty(),
    {
        Batcher { count: 0, batch: Vec::new() }
    }

    /// The number of documents accepted so far: the position of the next.
    pub fn next_index(&self) -> (r: usize)
        ensures
            r == self.count(),
    {
        self.count
    }

    /// Records the outcome of processing one message: a document is kept
    /// and counted, a failure is skipped.
    pub fn record(&mut self, doc: Option<T>)
        requires
            old(self).count() < usize::MAX,
        ensures
            match doc {
                Some(d) => final(self).count() == old(self).count() + 1 && final(self).pending()
                    == old(self).pending().push(d),
                None => final(self).count() == old(self).count() && final(self).pending()
                    == old(self).pending(),
            },
    {
        match doc {
            Some(d) => {
                self.batch.push(d);
                self.count = self.count + 1;
            },
            None => {},
        }
    }

    /// Hands out the pending documents once there are at least
    /// `BATCH_SIZE` of them.
    pub fn take_full(&mut self) -> (r: Option<Vec<T>>)
        ensures
            final(self).count() == old(self).count(),
            old(self).pending().len() >= BATCH_SIZE ==> (r matches Some(b) && b@ == old(
                self,
            ).pending() && final(self).pending() == Seq::<T>::empty()),
            old(self).pending().len() < BATCH_SIZE ==> r is None && final(self).pending() == old(
                self,
            ).pending(),
    {
        if self.batch.len() >= BATCH_SIZE {
            let mut b: Vec<T> = Vec::new();
            std::mem::swap(&mut b, &mut self.batch);
            Some(b)
        } else {
            None
        }
    }

    /// Hands out whatever is pending, if anything.
    pub fn take_rest(&mut self) -> (r: Option<Vec<T>>)
        ensures
            final(self).count() == old(self).count(),
            final(self).pending() == Seq::<T>::empty(),
            old(self).pending().len() > 0 ==> (r matches Some(b) && b@ == old(self).pending()),
            old(self).pending().len() == 0 ==> r is None,
    {
        if self.batch.len() > 0 {
            let mut b: Vec<T> = Vec::new();
            std::mem::swap(&mut b, &mut self.batch);
            Some(b)
        } else {
            None
        }
    }
}

} // verus!
