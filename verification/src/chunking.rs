//! Splitting long answers into Discord-sized messages, line by line.
use vstd::prelude::*;
use crate::text::{from_chars, lemma_trim_is_subrange, lemma_utf8_len_subrange, trim, trim_chars, lemma_lines_have_no_newline, lemma_utf8_len_bounds, lemma_utf8_len_concat, lines, lines_of, to_chars, utf8_len, utf8_len_of};

verus! {

/// The views of a vector of strings.
pub open spec fn views(v: Seq<String>) -> Seq<Seq<char>> {
    Seq::new(v.len(), |k: int| v[k]@)
}

/// `current` and `line` joined by a line feed, or `line` alone when
/// `current` is empty.
pub open spec fn join_line(current: Seq<char>, line: Seq<char>) -> Seq<char> {
    if current.len() == 0 {
        line
    } else {
        current + seq!['\n'] + line
    }
}

/// One step of greedy packing: the line joins the current chunk while the
/// result fits in `max_len` bytes; otherwise the current chunk (if any) is
/// closed and the line starts the next one.
pub open spec fn pack_step(
    state: (Seq<Seq<char>>, Seq<char>),
    line: Seq<char>,
    max_len: nat,
) -> (Seq<Seq<char>>, Seq<char>) {
    let (chunks, current) = state;
    let candidate = join_line(current, line);
    if utf8_len(candidate) <= max_len {
        (chunks, candidate)
    } else if current.len() > 0 {
        (chunks.push(current), line)
    } else {
        (chunks, line)
    }
}

/// Closed chunks and the open chunk after packing `lines`.
pub open spec fn pack(lines: Seq<Seq<char>>, max_len: nat) -> (Seq<Seq<char>>, Seq<char>)
    decreases lines.len(),
{
    if lines.len() == 0 {
        (Seq::empty(), Seq::empty())
    } else {
        pack_step(pack(lines.drop_last(), max_len), lines.last(), max_len)
    }
}

/// All chunks of greedy packing, the open one included when non-empty.
pub open spec fn packed_chunks(lines: Seq<Seq<char>>, max_len: nat) -> Seq<Seq<char>> {
    let (chunks, current) = pack(lines, max_len);
    if current.len() > 0 {
        chunks.push(current)
    } else {
        chunks
    }
}

/// The chunks that `split_message` gives for `content`.
pub open spec fn split_message_spec(content: Seq<char>, max_len: nat) -> Seq<Seq<char>> {
    packed_chunks(lines_of(content), max_len)
}

/// A chunk either fits in `max_len` bytes or is a single line that was too
/// long on its own.
pub open spec fn chunk_ok(chunk: Seq<char>, max_len: nat) -> bool {
    utf8_len(chunk) <= max_len || !chunk.contains('\n')
}

/// Every chunk of greedy packing is non-empty and fits, or is one long line.
pub proof fn lemma_pack_chunks_ok(lines: Seq<Seq<char>>, max_len: nat)
    requires
        forall|k: int| 0 <= k < lines.len() ==> !(#[trigger] lines[k]).contains('\n'),
    ensures
        forall|k: int|
            0 <= k < pack(lines, max_len).0.len() ==> (#[trigger] pack(lines, max_len).0[k]).len()
                > 0 && chunk_ok(pack(lines, max_len).0[k], max_len),
        chunk_ok(pack(lines, max_len).1, max_len),
    decreases lines.len(),
{
    if lines.len() > 0 {
        let prev = lines.drop_last();
        assert forall|k: int| 0 <= k < prev.len() implies !(#[trigger] prev[k]).contains('\n') by {
            assert(prev[k] == lines[k]);
        }
        lemma_pack_chunks_ok(prev, max_len);
        let line = lines.last();
        assert(!line.contains('\n'));
        let (chunks, current) = pack(prev, max_len);
        let candidate = join_line(current, line);
        if utf8_len(candidate) <= max_len {
            assert(pack(lines, max_len) == (chunks, candidate));
        } else if current.len() > 0 {
            assert(pack(lines, max_len) == (chunks.push(current), line));
            assert forall|k: int| 0 <= k < chunks.push(current).len() implies (#[trigger] chunks.push(
                current,
            )[k]).len() > 0 && chunk_ok(chunks.push(current)[k], max_len) by {
                if k < chunks.len() {
                    assert(chunks.push(current)[k] == chunks[k]);
                }
            }
        } else {
            assert(pack(lines, max_len) == (chunks, line));
        }
    }
}

/// Every chunk that `split_message` gives is non-empty, and fits in
/// `max_len` bytes unless it is a single line that is longer on its own.
pub proof fn lemma_split_message_chunks_ok(content: Seq<char>, max_len: nat)
    ensures
        forall|k: int|
            0 <= k < split_message_spec(content, max_len).len() ==> (#[trigger] split_message_spec(
                content,
                max_len,
            )[k]).len() > 0 && chunk_ok(split_message_spec(content, max_len)[k], max_len),
{
    lemma_lines_have_no_newline(content);
    let lines = lines_of(content);
    lemma_pack_chunks_ok(lines, max_len);
    let (chunks, current) = pack(lines, max_len);
    assert forall|k: int| 0 <= k < split_message_spec(content, max_len).len() implies (
    #[trigger] split_message_spec(content, max_len)[k]).len() > 0 && chunk_ok(
        split_message_spec(content, max_len)[k],
        max_len,
    ) by {
        if k < chunks.len() {
            assert(split_message_spec(content, max_len)[k] == chunks[k]);
        }
    }
}

/// Appends `line` to `current`.
fn append_chars(current: &mut Vec<char>, line: &[char])
    ensures
        final(current)@ == old(current)@ + line@,
{
    let mut i: usize = 0;
    while i < line.len()
        invariant
            i <= line@.len(),
            current@ == old(current)@ + line@.take(i as int),
        decreases line@.len() - i,
    {
        current.push(line[i]);
        assert(line@.take(i + 1) =~= line@.take(i as int).push(line@[i as int]));
        i = i + 1;
    }
    assert(line@.take(line@.len() as int) =~= line@);
}

/// Greedy packing of `lines` into chunks of at most `max_len` bytes.
pub fn pack_lines(lines: &Vec<Vec<char>>, max_len: usize) -> (chunks: Vec<String>)
    ensures
        views(chunks@) == packed_chunks(Seq::new(lines@.len(), |k: int| lines@[k]@), max_len as nat),
{
    let ghost ls = Seq::new(lines@.len(), |k: int| lines@[k]@);
    let mut chunks: Vec<String> = Vec::new();
    let mut current: Vec<char> = Vec::new();
    let mut current_len: u128 = 0;
    let mut i: usize = 0;
    while i < lines.len()
        invariant
            i <= lines@.len(),
            ls == Seq::new(lines@.len(), |k: int| lines@[k]@),
            views(chunks@) == pack(ls.take(i as int), max_len as nat).0,
            current@ == pack(ls.take(i as int), max_len as nat).1,
            current_len == utf8_len(current@),
            current_len <= 4 * current@.len(),
        decreases lines@.len() - i,
    {
        let line = &lines[i];
        assert(ls.take(i + 1).drop_last() =~= ls.take(i as int));
        assert(ls.take(i + 1).last() == line@);
        let line_len = utf8_len_of(line.as_slice());
        assert(line@.len() == line.len() && current@.len() == current.len());
        let candidate_len: u128 = if current.len() == 0 {
            line_len
        } else {
            current_len + 1 + line_len
        };
        proof {
            if current@.len() > 0 {
                lemma_utf8_len_concat(current@, seq!['\n']);
                lemma_utf8_len_concat(current@ + seq!['\n'], line@);
                assert(utf8_len(seq!['\n']) == 1) by {
                    reveal_with_fuel(utf8_len, 2);
                    assert(seq!['\n'].drop_last() =~= Seq::<char>::empty());
                }
            }
        }
        if candidate_len <= max_len as u128 {
            let ghost before = current@;
            if current.len() > 0 {
                current.push('\n');
            }
            append_chars(&mut current, line.as_slice());
            assert(current@ =~= join_line(before, line@));
            current_len = candidate_len;
            proof {
                lemma_utf8_len_bounds(current@);
            }
        } else {
            if current.len() > 0 {
                let closed = from_chars(current.as_slice());
                chunks.push(closed);
                assert(views(chunks@) =~= pack(ls.take(i as int), max_len as nat).0.push(closed@));
            }
            current = Vec::new();
            append_chars(&mut current, line.as_slice());
            assert(current@ =~= line@);
            current_len = line_len;
        }
        i = i + 1;
    }
    assert(ls.take(lines@.len() as int) =~= ls);
    if current.len() > 0 {
        let closed = from_chars(current.as_slice());
        chunks.push(closed);
        assert(views(chunks@) =~= pack(ls, max_len as nat).0.push(closed@));
    }
    chunks
}

/// Splits `content` at line boundaries into chunks of at most `max_len`
/// bytes; a single line longer than that stays one chunk.
pub fn split_by_lines(content: &str, max_len: usize) -> (chunks: Vec<String>)
    ensures
        views(chunks@) == split_message_spec(content@, max_len as nat),
        forall|k: int|
            0 <= k < chunks@.len() ==> (#[trigger] chunks@[k])@.len() > 0 && chunk_ok(
                chunks@[k]@,
                max_len as nat,
            ),
{
    let chars = to_chars(content);
    let ls = lines(chars.as_slice());
    assert(Seq::new(ls@.len(), |k: int| ls@[k]@) =~= lines_of(content@));
    let chunks = pack_lines(&ls, max_len);
    proof {
        lemma_split_message_chunks_ok(content@, max_len as nat);
        assert forall|k: int| 0 <= k < chunks@.len() implies (#[trigger] chunks@[k])@.len() > 0
            && chunk_ok(chunks@[k]@, max_len as nat) by {
            assert(views(chunks@)[k] == chunks@[k]@);
            assert(split_message_spec(content@, max_len as nat)[k] == chunks@[k]@);
        }
    }
    chunks
}

/// One step of the summary splitter: when the line would push a non-empty
/// chunk past `max_len` bytes, the chunk is closed (trimmed) first; the line
/// is then appended, after a line feed unless the chunk is empty.
pub open spec fn trimmed_pack_step(
    state: (Seq<Seq<char>>, Seq<char>),
    line: Seq<char>,
    max_len: nat,
) -> (Seq<Seq<char>>, Seq<char>) {
    let (chunks, current) = state;
    if current.len() > 0 && utf8_len(current) + utf8_len(line) + 1 > max_len {
        (chunks.push(trim(current)), line)
    } else {
        (chunks, join_line(current, line))
    }
}

/// Closed chunks and the open chunk after the summary splitter saw `lines`.
pub open spec fn trimmed_pack(lines: Seq<Seq<char>>, max_len: nat) -> (
    Seq<Seq<char>>,
    Seq<char>,
)
    decreases lines.len(),
{
    if lines.len() == 0 {
        (Seq::empty(), Seq::empty())
    } else {
        trimmed_pack_step(trimmed_pack(lines.drop_last(), max_len), lines.last(), max_len)
    }
}

/// The chunks of the summary splitter for `content`.
pub open spec fn split_trimmed_spec(content: Seq<char>, max_len: nat) -> Seq<Seq<char>> {
    let (chunks, current) = trimmed_pack(lines_of(content), max_len);
    if current.len() > 0 {
        chunks.push(trim(current))
    } else {
        chunks
    }
}

proof fn lemma_chunk_ok_trim(chunk: Seq<char>, max_len: nat)
    requires
        chunk_ok(chunk, max_len),
    ensures
        chunk_ok(trim(chunk), max_len),
{
    lemma_trim_is_subrange(chunk);
    let (a, b) = choose|a: int, b: int|
        0 <= a <= b <= chunk.len() && #[trigger] trim(chunk) == chunk.subrange(a, b);
    lemma_utf8_len_subrange(chunk, a, b);
    if trim(chunk).contains('\n') {
        let j = choose|j: int| 0 <= j < trim(chunk).len() && trim(chunk)[j] == '\n';
        assert(chunk[a + j] == '\n');
    }
}

/// Every chunk of the summary splitter fits in `max_len` bytes or is one
/// long line.
pub proof fn lemma_trimmed_pack_ok(lines: Seq<Seq<char>>, max_len: nat)
    requires
        forall|k: int| 0 <= k < lines.len() ==> !(#[trigger] lines[k]).contains('\n'),
    ensures
        forall|k: int|
            0 <= k < trimmed_pack(lines, max_len).0.len() ==> chunk_ok(
                #[trigger] trimmed_pack(lines, max_len).0[k],
                max_len,
            ),
        chunk_ok(trimmed_pack(lines, max_len).1, max_len),
    decreases lines.len(),
{
    if lines.len() > 0 {
        let prev = lines.drop_last();
        assert forall|k: int| 0 <= k < prev.len() implies !(#[trigger] prev[k]).contains('\n') by {
            assert(prev[k] == lines[k]);
        }
        lemma_trimmed_pack_ok(prev, max_len);
        let line = lines.last();
        assert(!line.contains('\n'));
        let (chunks, current) = trimmed_pack(prev, max_len);
        if current.len() > 0 && utf8_len(current) + utf8_len(line) + 1 > max_len {
            lemma_chunk_ok_trim(current, max_len);
            let c2 = chunks.push(trim(current));
            assert forall|k: int| 0 <= k < c2.len() implies chunk_ok(#[trigger] c2[k], max_len) by {
                if k < chunks.len() {
                    assert(c2[k] == chunks[k]);
                }
            }
        } else if current.len() > 0 {
            lemma_utf8_len_concat(current, seq!['\n']);
            lemma_utf8_len_concat(current + seq!['\n'], line);
            assert(utf8_len(seq!['\n']) == 1) by {
                reveal_with_fuel(utf8_len, 2);
                assert(seq!['\n'].drop_last() =~= Seq::<char>::empty());
            }
        }
    }
}

/// Every chunk of the summary splitter fits in `max_len` bytes unless it is
/// a single line that is longer on its own.
pub proof fn lemma_split_trimmed_chunks_ok(content: Seq<char>, max_len: nat)
    ensures
        forall|k: int|
            0 <= k < split_trimmed_spec(content, max_len).len() ==> chunk_ok(
                #[trigger] split_trimmed_spec(content, max_len)[k],
                max_len,
            ),
{
    lemma_lines_have_no_newline(content);
    let lines = lines_of(content);
    lemma_trimmed_pack_ok(lines, max_len);
    let (chunks, current) = trimmed_pack(lines, max_len);
    if current.len() > 0 {
        lemma_chunk_ok_trim(current, max_len);
    }
    assert forall|k: int| 0 <= k < split_trimmed_spec(content, max_len).len() implies chunk_ok(
        #[trigger] split_trimmed_spec(content, max_len)[k],
        max_len,
    ) by {
        if k < chunks.len() {
            assert(split_trimmed_spec(content, max_len)[k] == chunks[k]);
        }
    }
}

/// Splits `content` at line boundaries: a line that would push the current
/// chunk past `max_len` bytes starts a new one; chunks are trimmed.
pub fn split_trimmed_by_lines(content: &str, max_len: usize) -> (chunks: Vec<String>)
    ensures
        views(chunks@) == split_trimmed_spec(content@, max_len as nat),
        forall|k: int| 0 <= k < chunks@.len() ==> chunk_ok(#[trigger] chunks@[k]@, max_len as nat),
{
    let chars = to_chars(content);
    let lines = lines(chars.as_slice());
    let ghost ls = lines_of(content@);
    let mut chunks: Vec<String> = Vec::new();
    let mut current: Vec<char> = Vec::new();
    let mut current_len: u128 = 0;
    let mut i: usize = 0;
    while i < lines.len()
        invariant
            i <= lines@.len(),
            ls == lines_of(content@),
            lines@.len() == ls.len(),
            forall|k: int| 0 <= k < lines@.len() ==> (#[trigger] lines@[k])@ == ls[k],
            views(chunks@) == trimmed_pack(ls.take(i as int), max_len as nat).0,
            current@ == trimmed_pack(ls.take(i as int), max_len as nat).1,
            current_len == utf8_len(current@),
            current_len <= 4 * current@.len(),
        decreases lines@.len() - i,
    {
        let line = &lines[i];
        assert(ls.take(i + 1).drop_last() =~= ls.take(i as int));
        assert(ls.take(i + 1).last() == line@);
        let line_len = utf8_len_of(line.as_slice());
        assert(line@.len() == line.len() && current@.len() == current.len());
        if current.len() > 0 && current_len + line_len + 1 > max_len as u128 {
            let closed_chars = trim_chars(current.as_slice());
            let closed = from_chars(closed_chars.as_slice());
            chunks.push(closed);
            assert(views(chunks@) =~= trimmed_pack(ls.take(i as int), max_len as nat).0.push(
                closed@,
            ));
            current = Vec::new();
            append_chars(&mut current, line.as_slice());
            assert(current@ =~= line@);
            current_len = line_len;
        } else {
            let ghost before = current@;
            proof {
                if before.len() > 0 {
                    lemma_utf8_len_concat(before, seq!['\n']);
                    lemma_utf8_len_concat(before + seq!['\n'], line@);
                    assert(utf8_len(seq!['\n']) == 1) by {
                        reveal_with_fuel(utf8_len, 2);
                        assert(seq!['\n'].drop_last() =~= Seq::<char>::empty());
                    }
                }
            }
            let added: u128 = if current.len() > 0 {
                current.push('\n');
                1 + line_len
            } else {
                line_len
            };
            append_chars(&mut current, line.as_slice());
            assert(current@ =~= join_line(before, line@));
            current_len = current_len + added;
            proof {
                lemma_utf8_len_bounds(current@);
            }
        }
        i = i + 1;
    }
    assert(ls.take(lines@.len() as int) =~= ls);
    if current.len() > 0 {
        let closed_chars = trim_chars(current.as_slice());
        let closed = from_chars(closed_chars.as_slice());
        chunks.push(closed);
        assert(views(chunks@) =~= trimmed_pack(ls, max_len as nat).0.push(closed@));
    }
    proof {
        lemma_split_trimmed_chunks_ok(content@, max_len as nat);
        assert forall|k: int| 0 <= k < chunks@.len() implies chunk_ok(
            #[trigger] chunks@[k]@,
            max_len as nat,
        ) by {
            assert(views(chunks@)[k] == chunks@[k]@);
            assert(split_trimmed_spec(content@, max_len as nat)[k] == chunks@[k]@);
        }
    }
    chunks
}

} // verus!
