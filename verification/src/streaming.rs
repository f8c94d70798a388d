//! Reading server-sent events from a streaming chat completion and framing
//! the finished answer as Discord messages.
use vstd::prelude::*;
use crate::chunking::views;
use crate::text::{
    decimal, decimal_chars, find_from, first_occurrence, from_chars, lemma_first_occurrence,
    push_all, push_str, slice_chars, starts_with, to_chars, trim, trim_chars,
};

verus! {

/// Text received from the stream that does not yet end in a line feed.
pub struct LineBuffer {
    pending: Vec<char>,
}

impl View for LineBuffer {
    type V = Seq<char>;

    closed spec fn view(&self) -> Seq<char> {
        self.pending@
    }
}

impl LineBuffer {
    /// An empty buffer.
    pub fn new() -> (b: Self)
        ensures
            b@ == Seq::<char>::empty(),
    {
        LineBuffer { pending: Vec::new() }
    }

    /// Appends received text.
    pub fn push_text(&mut self, text: &str)
        ensures
            final(self)@ == old(self)@ + text@,
    {
        push_str(&mut self.pending, text);
    }

    /// Takes the first complete line, trimmed, and removes it and its line
    /// feed from the buffer; `None` while no line feed has arrived.
    pub fn next_line(&mut self) -> (line: Option<String>)
        ensures
            match first_occurrence(old(self)@, seq!['\n'], 0) {
                Some(i) => line matches Some(l) && l@ == trim(old(self)@.take(i + 1))
                    && final(self)@ == old(self)@.skip(i + 1),
                None => line is None && final(self)@ == old(self)@,
            },
    {
        let nl = ['\n'];
        assert(nl@ =~= seq!['\n']);
        match find_from(self.pending.as_slice(), &nl, 0) {
            Some(i) => {
                proof {
                    lemma_first_occurrence(self.pending@, seq!['\n'], 0);
                }
                assert(self.pending@.len() == self.pending.len());
                let head = slice_chars(self.pending.as_slice(), 0, i + 1);
                let rest = slice_chars(self.pending.as_slice(), i + 1, self.pending.len());
                assert(head@ =~= self.pending@.take(i + 1));
                assert(rest@ =~= self.pending@.skip(i + 1));
                self.pending = rest;
                let t = trim_chars(head.as_slice());
                Some(from_chars(t.as_slice()))
            },
            None => None,
        }
    }
}

/// What one trimmed line of the event stream carries.
pub enum StreamLine {
    /// `data: [DONE]`: the stream is complete.
    Done,
    /// `data: <payload>`: a JSON chunk to decode.
    Data(String),
    /// Anything else, which is ignored.
    Other,
}

pub open spec fn data_prefix() -> Seq<char> {
    seq!['d', 'a', 't', 'a', ':', ' ']
}

pub open spec fn done_marker() -> Seq<char> {
    seq!['[', 'D', 'O', 'N', 'E', ']']
}

/// A line that starts with `data: ` carries a payload.
pub open spec fn is_data_line(line: Seq<char>) -> bool {
    starts_with(line, data_prefix())
}

/// A data line whose payload, trimmed, is `[DONE]` ends the stream.
pub open spec fn is_done_line(line: Seq<char>) -> bool {
    is_data_line(line) && trim(line.skip(6)) == done_marker()
}

/// Classifies one trimmed line of the event stream.
pub fn classify_stream_line(line: &str) -> (r: StreamLine)
    ensures
        match r {
            StreamLine::Done => is_done_line(line@),
            StreamLine::Data(p) => is_data_line(line@) && !is_done_line(line@) && p@ == line@.skip(6),
            StreamLine::Other => !is_data_line(line@),
        },
{
    let c = to_chars(line);
    let prefix = ['d', 'a', 't', 'a', ':', ' '];
    assert(prefix@ =~= data_prefix());
    if crate::text::matches_at(c.as_slice(), &prefix, 0) {
        let payload = slice_chars(c.as_slice(), 6, c.len());
        assert(payload@ =~= line@.skip(6));
        let t = trim_chars(payload.as_slice());
        let done = ['[', 'D', 'O', 'N', 'E', ']'];
        assert(done@ =~= done_marker());
        if crate::cleaning::eq_chars(t.as_slice(), &done) {
            StreamLine::Done
        } else {
            StreamLine::Data(from_chars(payload.as_slice()))
        }
    } else {
        StreamLine::Other
    }
}

/// The room left for an answer in one message: the message limit less the
/// formatting padding.
pub fn chunk_budget(max_message_length: usize, padding: usize) -> (n: usize)
    requires
        padding <= max_message_length,
    ensures
        n == max_message_length - padding,
{
    max_message_length - padding
}

/// Chunk `index` (from 0) of `count`, framed under `title`: a single chunk
/// is `**title:**`, several are numbered `(Part i/n)`; the text sits in a
/// code block.
pub open spec fn framed_chunk(title: Seq<char>, index: nat, count: nat, chunk: Seq<char>) -> Seq<
    char,
> {
    if count == 1 {
        "**"@ + title + ":**\n```\n"@ + chunk + "\n```"@
    } else {
        "**"@ + title + " (Part "@ + decimal(index + 1) + "/"@ + decimal(count) + ")**\n```\n"@
            + chunk + "\n```"@
    }
}

/// Frames every chunk of an answer under `title`.
pub fn frame_chunks(title: &str, chunks: &Vec<String>) -> (framed: Vec<String>)
    ensures
        framed@.len() == chunks@.len(),
        forall|k: int|
            0 <= k < chunks@.len() ==> (#[trigger] framed@[k])@ == framed_chunk(
                title@,
                k as nat,
                chunks@.len() as nat,
                chunks@[k]@,
            ),
{
    let n = chunks.len();
    let mut framed: Vec<String> = Vec::new();
    let mut i: usize = 0;
    while i < n
        invariant
            i <= n,
            n == chunks@.len(),
            framed@.len() == i,
            forall|k: int|
                0 <= k < i ==> (#[trigger] framed@[k])@ == framed_chunk(
                    title@,
                    k as nat,
                    n as nat,
                    chunks@[k]@,
                ),
        decreases n - i,
    {
        let mut out = to_chars("**");
        push_str(&mut out, title);
        if n == 1 {
            push_str(&mut out, ":**\n```\n");
        } else {
            push_str(&mut out, " (Part ");
            let a = decimal_chars(i as u128 + 1);
            push_all(&mut out, a.as_slice());
            push_str(&mut out, "/");
            let b = decimal_chars(n as u128);
            push_all(&mut out, b.as_slice());
            push_str(&mut out, ")**\n```\n");
        }
        push_str(&mut out, chunks[i].as_str());
        push_str(&mut out, "\n```");
        framed.push(from_chars(out.as_slice()));
        i = i + 1;
    }
    framed
}

} // verus!
