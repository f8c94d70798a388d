//! The `^sum` command: transcript and page cleaning, content preparation and
//! answer chunking for summaries.
use vstd::prelude::*;
use crate::chunking::{chunk_ok, split_trimmed_by_lines, split_trimmed_spec, views};
use crate::cleaning::{html_summary_text, subtitle_text, summary_page_text, vtt_subtitle_text};
use crate::text::{
    byte_boundary, byte_prefix, contains_chars, contains_pat, contains_str, decimal, decimal_chars,
    from_chars, join_sep, lemma_utf8_len_concat, lemma_trim_is_subrange, lemma_utf8_len_subrange,
    prefix_bytes, push_all, push_str, starts_with, to_chars, trim, trim_chars, utf8_len,
    utf8_len_of, words, words_of, is_white_space, ws_free, lemma_words_shape,
    lemma_words_append_word, lemma_words_push_space, lemma_trim_fixed,
};

verus! {

/// The command group of the summary command.
pub struct Sum;

impl Sum {
    pub fn new() -> (r: Self)
        ensures
            r == Sum,
    {
        Sum
    }
}

/// Splits a summary at line boundaries: a line that would push a non-empty
/// chunk past `max_len` bytes starts a new chunk; chunks are trimmed.
pub fn split_message(content: &str, max_len: usize) -> (chunks: Vec<String>)
    ensures
        views(chunks@) == split_trimmed_spec(content@, max_len as nat),
        forall|k: int| 0 <= k < chunks@.len() ==> chunk_ok(#[trigger] chunks@[k]@, max_len as nat),
{
    split_trimmed_by_lines(content, max_len)
}

/// The spoken text of a WebVTT subtitle file: headers, notes, timing and
/// cue-number lines dropped, inline timestamp and styling tags removed, words
/// joined by spaces.
pub fn clean_vtt_content(vtt: &str) -> (r: String)
    ensures
        r@ == subtitle_text(vtt@),
{
    vtt_subtitle_text(vtt)
}

/// The most characters of page text that a summary works on.
pub const PAGE_TEXT_LIMIT: usize = 15000;

/// The plain text of a web page: scripts and styles removed, tags replaced by
/// spaces, words joined by single spaces, at most 15000 characters.
pub fn clean_html(html: &str) -> (r: String)
    ensures
        r@ == summary_page_text(html@, PAGE_TEXT_LIMIT as nat),
{
    html_summary_text(html, PAGE_TEXT_LIMIT)
}

/// `content` cut to `max_len` bytes with a note appended, when it is longer.
pub open spec fn truncated_with(content: Seq<char>, max_len: nat, note: Seq<char>) -> Seq<char> {
    if utf8_len(content) > max_len {
        byte_prefix(content, max_len) + note
    } else {
        content
    }
}

/// Truncation keeps short content as it is, and cuts long content to its
/// first `max_len` bytes, whole characters, followed by the note.
pub proof fn lemma_truncated_with_law(content: Seq<char>, max_len: nat, note: Seq<char>)
    requires
        utf8_len(content) > max_len ==> byte_boundary(content, max_len),
    ensures
        utf8_len(content) <= max_len ==> truncated_with(content, max_len, note) == content,
        utf8_len(content) > max_len ==> exists|k: int|
            0 <= k < content.len() && utf8_len(#[trigger] content.take(k)) == max_len
                && truncated_with(content, max_len, note) == content.take(k) + note,
{
    if utf8_len(content) > max_len {
        let k = choose|k: int| 0 <= k <= content.len() && utf8_len(#[trigger] content.take(k)) == max_len;
        assert(content.take(content.len() as int) =~= content);
        assert(k != content.len());
        assert(truncated_with(content, max_len, note) == content.take(k) + note);
    }
}

fn truncate_with_note(content: &str, max_len: usize, note: &str) -> (r: String)
    requires
        utf8_len(content@) > max_len ==> byte_boundary(content@, max_len as nat),
    ensures
        r@ == truncated_with(content@, max_len as nat, note@),
{
    let chars = to_chars(content);
    let len = utf8_len_of(chars.as_slice());
    if len > max_len as u128 {
        let mut head = prefix_bytes(chars.as_slice(), max_len as u128);
        push_str(&mut head, note);
        from_chars(head.as_slice())
    } else {
        String::from_str(content)
    }
}

/// Content longer than `max_len` bytes is cut there and marked as truncated.
/// The cut must fall on a character boundary, as slicing a `str` requires.
pub fn truncate_content(content: &str, max_len: usize) -> (r: String)
    requires
        utf8_len(content@) > max_len ==> byte_boundary(content@, max_len as nat),
    ensures
        r@ == truncated_with(content@, max_len as nat, " [Content truncated due to length]"@),
{
    truncate_with_note(content, max_len, " [Content truncated due to length]")
}

/// The most bytes of combined chunk summaries that go into the final prompt.
pub const FINAL_PROMPT_LIMIT: usize = 80000;

/// Combined chunk summaries cut to 80000 bytes, with a note, when longer.
pub fn limit_combined_summaries(combined: &str) -> (r: String)
    requires
        utf8_len(combined@) > FINAL_PROMPT_LIMIT ==> byte_boundary(
            combined@,
            FINAL_PROMPT_LIMIT as nat,
        ),
    ensures
        r@ == truncated_with(
            combined@,
            FINAL_PROMPT_LIMIT as nat,
            " [Content truncated due to size - showing first 80000 characters]"@,
        ),
{
    truncate_with_note(
        combined,
        FINAL_PROMPT_LIMIT,
        " [Content truncated due to size - showing first 80000 characters]",
    )
}

/// `current` and `word` joined by a space, or `word` alone.
pub open spec fn join_space(current: Seq<char>, word: Seq<char>) -> Seq<char> {
    if current.len() == 0 {
        word
    } else {
        current + seq![' '] + word
    }
}

/// One word of the summary chunker: a word longer than half a chunk is
/// dropped; a word that would push a non-empty chunk past `size` bytes closes
/// it (trimmed) and starts the next one.
pub open spec fn word_pack_step(
    state: (Seq<Seq<char>>, Seq<char>),
    word: Seq<char>,
    size: nat,
) -> (Seq<Seq<char>>, Seq<char>) {
    let (chunks, current) = state;
    if utf8_len(word) > size / 2 {
        state
    } else if current.len() > 0 && utf8_len(current) + utf8_len(word) + 1 > size {
        (chunks.push(trim(current)), word)
    } else {
        (chunks, join_space(current, word))
    }
}

pub open spec fn word_pack(ws: Seq<Seq<char>>, size: nat) -> (Seq<Seq<char>>, Seq<char>)
    decreases ws.len(),
{
    if ws.len() == 0 {
        (Seq::empty(), Seq::empty())
    } else {
        word_pack_step(word_pack(ws.drop_last(), size), ws.last(), size)
    }
}

/// The chunks that long content is cut into before each is summarised.
pub open spec fn word_chunks(content: Seq<char>, size: nat) -> Seq<Seq<char>> {
    let (chunks, current) = word_pack(words(content), size);
    if current.len() > 0 {
        chunks.push(trim(current))
    } else {
        chunks
    }
}

proof fn lemma_trim_len(s: Seq<char>)
    ensures
        utf8_len(trim(s)) <= utf8_len(s),
{
    lemma_trim_is_subrange(s);
    let (a, b) = choose|a: int, b: int| 0 <= a <= b <= s.len() && #[trigger] trim(s) == s.subrange(a, b);
    lemma_utf8_len_subrange(s, a, b);
}

/// Every chunk, and the open one, is at most `size` bytes long.
pub proof fn lemma_word_pack_fits(ws: Seq<Seq<char>>, size: nat)
    ensures
        forall|k: int|
            0 <= k < word_pack(ws, size).0.len() ==> utf8_len(#[trigger] word_pack(ws, size).0[k])
                <= size,
        utf8_len(word_pack(ws, size).1) <= size,
    decreases ws.len(),
{
    if ws.len() > 0 {
        lemma_word_pack_fits(ws.drop_last(), size);
        let (chunks, current) = word_pack(ws.drop_last(), size);
        let word = ws.last();
        if utf8_len(word) > size / 2 {
        } else if current.len() > 0 && utf8_len(current) + utf8_len(word) + 1 > size {
            lemma_trim_len(current);
            let c2 = chunks.push(trim(current));
            assert forall|k: int| 0 <= k < c2.len() implies utf8_len(#[trigger] c2[k]) <= size by {
                if k < chunks.len() {
                    assert(c2[k] == chunks[k]);
                }
            }
        } else if current.len() > 0 {
            lemma_utf8_len_concat(current, seq![' ']);
            lemma_utf8_len_concat(current + seq![' '], word);
            assert(utf8_len(seq![' ']) == 1) by {
                reveal_with_fuel(utf8_len, 2);
                assert(seq![' '].drop_last() =~= Seq::<char>::empty());
            }
        }
    }
}

/// Every chunk of the summary chunker is at most `size` bytes long.
pub proof fn lemma_word_chunks_fit(content: Seq<char>, size: nat)
    ensures
        forall|k: int|
            0 <= k < word_chunks(content, size).len() ==> utf8_len(
                #[trigger] word_chunks(content, size)[k],
            ) <= size,
{
    let ws = words(content);
    lemma_word_pack_fits(ws, size);
    let (chunks, current) = word_pack(ws, size);
    lemma_trim_len(current);
    assert forall|k: int| 0 <= k < word_chunks(content, size).len() implies utf8_len(
        #[trigger] word_chunks(content, size)[k],
    ) <= size by {
        if k < chunks.len() {
            assert(word_chunks(content, size)[k] == chunks[k]);
        }
    }
}

/// The words of the chunks, chunk after chunk.
pub open spec fn chunk_word_list(chunks: Seq<Seq<char>>) -> Seq<Seq<char>>
    decreases chunks.len(),
{
    if chunks.len() == 0 {
        Seq::empty()
    } else {
        chunk_word_list(chunks.drop_last()) + words(chunks.last())
    }
}

proof fn lemma_word_pack_words(ws: Seq<Seq<char>>, size: nat)
    requires
        forall|k: int| 0 <= k < ws.len() ==> (#[trigger] ws[k]).len() > 0 && ws_free(ws[k]),
    ensures
        chunk_word_list(word_pack(ws, size).0) + words(word_pack(ws, size).1) == ws.filter(
            |w: Seq<char>| utf8_len(w) <= size / 2,
        ),
        word_pack(ws, size).1.len() == 0 || (!is_white_space(word_pack(ws, size).1[0])
            && !is_white_space(word_pack(ws, size).1.last())),
    decreases ws.len(),
{
    let p = |w: Seq<char>| utf8_len(w) <= size / 2;
    if ws.len() == 0 {
        reveal(Seq::filter);
        assert(words(Seq::<char>::empty()) =~= Seq::<Seq<char>>::empty());
        assert(chunk_word_list(Seq::<Seq<char>>::empty()) + Seq::<Seq<char>>::empty() =~= Seq::<Seq<char>>::empty());
    } else {
        let front = ws.drop_last();
        assert forall|k: int| 0 <= k < front.len() implies (#[trigger] front[k]).len() > 0 && ws_free(front[k]) by {
            assert(front[k] == ws[k]);
        }
        lemma_word_pack_words(front, size);
        let (chunks, current) = word_pack(front, size);
        let word = ws.last();
        assert(word.len() > 0 && ws_free(word));
        reveal(Seq::filter);
        assert(ws.filter(p) == (if p(word) {
            front.filter(p).push(word)
        } else {
            front.filter(p)
        }));
        lemma_words_append_word(Seq::<char>::empty(), word);
        assert(Seq::<char>::empty() + word =~= word);
        assert(words(Seq::<char>::empty()) =~= Seq::<Seq<char>>::empty());
        if utf8_len(word) > size / 2 {
        } else if current.len() > 0 && utf8_len(current) + utf8_len(word) + 1 > size {
            lemma_trim_fixed(current);
            let c2 = chunks.push(current);
            assert(c2.drop_last() =~= chunks);
            assert(chunk_word_list(c2) == chunk_word_list(chunks) + words(current));
            assert(chunk_word_list(c2) + words(word) =~= chunk_word_list(chunks) + words(current) + seq![word]);
        } else {
            if current.len() > 0 {
                let x = current.push(' ');
                lemma_words_push_space(current);
                lemma_words_append_word(x, word);
                assert(current + seq![' '] + word =~= x + word);
                assert((current + seq![' '] + word)[0] == current[0]);
                assert((current + seq![' '] + word).last() == word.last());
            }
            assert(chunk_word_list(chunks) + words(join_space(current, word)) =~= (chunk_word_list(chunks) + words(current)).push(word));
        }
    }
}

/// The chunker keeps every word of the content that is at most half a chunk
/// long, in order, and nothing else: the words of the chunks, one chunk
/// after the other, are the content's words with the longer ones left out.
pub proof fn lemma_word_chunks_keep_words(content: Seq<char>, size: nat)
    ensures
        chunk_word_list(word_chunks(content, size)) == words(content).filter(
            |w: Seq<char>| utf8_len(w) <= size / 2,
        ),
{
    let ws = words(content);
    lemma_words_shape(content);
    assert forall|k: int| 0 <= k < ws.len() implies (#[trigger] ws[k]).len() > 0 && ws_free(ws[k]) by {
        assert forall|j: int| 0 <= j < ws[k].len() implies !is_white_space(#[trigger] ws[k][j]) by {}
    }
    lemma_word_pack_words(ws, size);
    let (chunks, current) = word_pack(ws, size);
    if current.len() > 0 {
        lemma_trim_fixed(current);
        assert(chunks.push(current).drop_last() =~= chunks);
    } else {
        assert(words(current) =~= Seq::<Seq<char>>::empty());
        assert(chunk_word_list(chunks) + words(current) =~= chunk_word_list(chunks));
    }
}

proof fn lemma_word_pack_greedy(ws: Seq<Seq<char>>, size: nat)
    requires
        forall|k: int| 0 <= k < ws.len() ==> (#[trigger] ws[k]).len() > 0 && ws_free(ws[k]),
    ensures
        word_pack(ws, size).1.len() == 0 ==> word_pack(ws, size).0.len() == 0,
        word_pack(ws, size).1.len() > 0 ==> words(word_pack(ws, size).1).len() > 0,
        word_pack(ws, size).1.len() > 0 && word_pack(ws, size).0.len() > 0 ==> utf8_len(
            word_pack(ws, size).0.last(),
        ) + 1 + utf8_len(words(word_pack(ws, size).1)[0]) > size,
        forall|i: int|
            0 <= i && i + 1 < word_pack(ws, size).0.len() ==> utf8_len(
                #[trigger] word_pack(ws, size).0[i],
            ) + 1 + utf8_len(words(word_pack(ws, size).0[i + 1])[0]) > size,
        forall|i: int|
            0 <= i < word_pack(ws, size).0.len() ==> words(#[trigger] word_pack(ws, size).0[i]).len()
                > 0,
    decreases ws.len(),
{
    if ws.len() > 0 {
        let front = ws.drop_last();
        assert forall|k: int| 0 <= k < front.len() implies (#[trigger] front[k]).len() > 0 && ws_free(front[k]) by {
            assert(front[k] == ws[k]);
        }
        lemma_word_pack_greedy(front, size);
        lemma_word_pack_words(front, size);
        let (chunks, current) = word_pack(front, size);
        let word = ws.last();
        lemma_words_append_word(Seq::<char>::empty(), word);
        assert(Seq::<char>::empty() + word =~= word);
        assert(words(Seq::<char>::empty()) =~= Seq::<Seq<char>>::empty());
        if utf8_len(word) > size / 2 {
        } else if current.len() > 0 && utf8_len(current) + utf8_len(word) + 1 > size {
            lemma_trim_fixed(current);
            let c2 = chunks.push(current);
            assert(words(word)[0] == word);
            assert forall|i: int| 0 <= i && i + 1 < c2.len() implies utf8_len(#[trigger] c2[i]) + 1
                + utf8_len(words(c2[i + 1])[0]) > size by {
                if i + 1 < chunks.len() {
                    assert(c2[i] == chunks[i] && c2[i + 1] == chunks[i + 1]);
                } else {
                    assert(c2[i] == chunks.last());
                    assert(c2[i + 1] == current);
                }
            }
            assert forall|i: int| 0 <= i < c2.len() implies words(#[trigger] c2[i]).len() > 0 by {
                if i < chunks.len() {
                    assert(c2[i] == chunks[i]);
                }
            }
        } else if current.len() > 0 {
            let x = current.push(' ');
            lemma_words_push_space(current);
            lemma_words_append_word(x, word);
            assert(current + seq![' '] + word =~= x + word);
            assert(words(join_space(current, word))[0] == words(current)[0]);
        }
    }
}

/// The chunker fills each chunk before starting the next: a chunk and the
/// first word of the chunk after it would not fit together in `size` bytes.
pub proof fn lemma_word_chunks_greedy(content: Seq<char>, size: nat)
    ensures
        forall|i: int|
            0 <= i && i + 1 < word_chunks(content, size).len() ==> words(
                word_chunks(content, size)[i + 1],
            ).len() > 0 && utf8_len(#[trigger] word_chunks(content, size)[i]) + 1 + utf8_len(
                words(word_chunks(content, size)[i + 1])[0],
            ) > size,
{
    let ws = words(content);
    lemma_words_shape(content);
    assert forall|k: int| 0 <= k < ws.len() implies (#[trigger] ws[k]).len() > 0 && ws_free(ws[k]) by {
        assert forall|j: int| 0 <= j < ws[k].len() implies !is_white_space(#[trigger] ws[k][j]) by {}
    }
    lemma_word_pack_greedy(ws, size);
    lemma_word_pack_words(ws, size);
    let (chunks, current) = word_pack(ws, size);
    let out = word_chunks(content, size);
    if current.len() > 0 {
        lemma_trim_fixed(current);
        assert forall|i: int| 0 <= i && i + 1 < out.len() implies words(out[i + 1]).len() > 0 && utf8_len(
            #[trigger] out[i],
        ) + 1 + utf8_len(words(out[i + 1])[0]) > size by {
            if i + 1 < chunks.len() {
                assert(out[i] == chunks[i] && out[i + 1] == chunks[i + 1]);
            } else {
                assert(out[i] == chunks.last());
                assert(out[i + 1] == current);
            }
        }
    }
}

/// Cuts content into chunks of whole words, each at most `chunk_size` bytes;
/// words longer than half a chunk are left out.
pub fn chunk_words(content: &str, chunk_size: usize) -> (chunks: Vec<String>)
    ensures
        views(chunks@) == word_chunks(content@, chunk_size as nat),
        forall|k: int|
            0 <= k < chunks@.len() ==> utf8_len(#[trigger] chunks@[k]@) <= chunk_size,
{
    let chars = to_chars(content);
    let ws = words_of(chars.as_slice());
    let ghost sw = words(content@);
    let mut chunks: Vec<String> = Vec::new();
    let mut current: Vec<char> = Vec::new();
    let mut current_len: u128 = 0;
    let mut i: usize = 0;
    while i < ws.len()
        invariant
            i <= ws@.len(),
            sw == words(content@),
            ws@.len() == sw.len(),
            forall|k: int| 0 <= k < ws@.len() ==> (#[trigger] ws@[k])@ == sw[k],
            views(chunks@) == word_pack(sw.take(i as int), chunk_size as nat).0,
            current@ == word_pack(sw.take(i as int), chunk_size as nat).1,
            current_len == utf8_len(current@),
            utf8_len(current@) <= chunk_size,
        decreases ws@.len() - i,
    {
        let word = &ws[i];
        assert(sw.take(i + 1).drop_last() =~= sw.take(i as int));
        assert(sw.take(i + 1).last() == word@);
        proof {
            lemma_word_pack_fits(sw.take(i + 1), chunk_size as nat);
        }
        let word_len = utf8_len_of(word.as_slice());
        if word_len > (chunk_size / 2) as u128 {
        } else if current.len() > 0 && current_len + word_len + 1 > chunk_size as u128 {
            let closed_chars = trim_chars(current.as_slice());
            let closed = from_chars(closed_chars.as_slice());
            chunks.push(closed);
            assert(views(chunks@) =~= word_pack(sw.take(i as int), chunk_size as nat).0.push(
                closed@,
            ));
            current = Vec::new();
            push_all(&mut current, word.as_slice());
            assert(current@ =~= word@);
            current_len = word_len;
        } else {
            let ghost before = current@;
            proof {
                if before.len() > 0 {
                    lemma_utf8_len_concat(before, seq![' ']);
                    lemma_utf8_len_concat(before + seq![' '], word@);
                    assert(utf8_len(seq![' ']) == 1) by {
                        reveal_with_fuel(utf8_len, 2);
                        assert(seq![' '].drop_last() =~= Seq::<char>::empty());
                    }
                }
            }
            if current.len() > 0 {
                current.push(' ');
                current_len = current_len + 1;
            }
            push_all(&mut current, word.as_slice());
            current_len = current_len + word_len;
            assert(current@ =~= join_space(before, word@));
        }
        i = i + 1;
    }
    assert(sw.take(ws@.len() as int) =~= sw);
    if current.len() > 0 {
        let closed_chars = trim_chars(current.as_slice());
        let closed = from_chars(closed_chars.as_slice());
        chunks.push(closed);
        assert(views(chunks@) =~= word_pack(sw, chunk_size as nat).0.push(closed@));
    }
    proof {
        lemma_word_chunks_fit(content@, chunk_size as nat);
        assert forall|k: int| 0 <= k < chunks@.len() implies utf8_len(#[trigger] chunks@[k]@)
            <= chunk_size by {
            assert(views(chunks@)[k] == chunks@[k]@);
            assert(word_chunks(content@, chunk_size as nat)[k] == chunks@[k]@);
        }
    }
    chunks
}

/// What a `^sum` invocation asks for.
#[derive(PartialEq, Eq, Structural, Clone, Copy)]
pub enum SumRequest {
    /// No URL given.
    MissingUrl,
    /// Not an `http://` or `https://` URL.
    InvalidUrl,
    /// A YouTube video.
    YouTube,
    /// Any other web page.
    WebPage,
}

/// How the bot reads a `^sum` invocation (its trimmed text is the URL).
pub open spec fn sum_request_spec(raw: Seq<char>) -> SumRequest {
    let url = trim(raw);
    if url.len() == 0 {
        SumRequest::MissingUrl
    } else if !starts_with(url, "http://"@) && !starts_with(url, "https://"@) {
        SumRequest::InvalidUrl
    } else if contains_pat(url, "youtube.com/"@) || contains_pat(url, "youtu.be/"@) {
        SumRequest::YouTube
    } else {
        SumRequest::WebPage
    }
}

/// Reads a `^sum` invocation; the URL is the trimmed input.
pub fn classify_sum_request(raw: &str) -> (r: (SumRequest, String))
    ensures
        r.0 == sum_request_spec(raw@),
        r.1@ == trim(raw@),
{
    let url = crate::text::trim_str(raw);
    let kind = if url.as_str().is_empty() {
        SumRequest::MissingUrl
    } else if !crate::text::starts_with_str(url.as_str(), "http://")
        && !crate::text::starts_with_str(url.as_str(), "https://") {
        SumRequest::InvalidUrl
    } else if contains_str(url.as_str(), "youtube.com/") || contains_str(url.as_str(), "youtu.be/") {
        SumRequest::YouTube
    } else {
        SumRequest::WebPage
    };
    (kind, url)
}

/// The reply to an invocation that cannot run.
pub fn sum_request_reply(kind: SumRequest) -> (r: Option<String>)
    ensures
        match kind {
            SumRequest::MissingUrl => r matches Some(m) && m@ == "Please provide a URL to summarize!\n\n**Usage:** `^sum <url>`"@,
            SumRequest::InvalidUrl => r matches Some(m) && m@ == "Please provide a valid URL starting with `http://` or `https://`"@,
            _ => r is None,
        },
{
    match kind {
        SumRequest::MissingUrl => Some(String::from_str("Please provide a URL to summarize!\n\n**Usage:** `^sum <url>`")),
        SumRequest::InvalidUrl => Some(String::from_str("Please provide a valid URL starting with `http://` or `https://`")),
        _ => None,
    }
}

/// The system prompt used when no summary prompt file can be read.
pub fn fallback_summary_prompt(is_youtube: bool) -> (p: String)
    ensures
        p@ == (if is_youtube {
            "You are an expert at summarizing YouTube video content. Focus on key points, main themes, and important takeaways. Structure your summary with clear sections and highlight the most valuable information for viewers."@
        } else {
            "You are an expert content summarizer. Create a comprehensive, well-structured summary of the provided content. Use clear formatting and highlight key points. Keep the summary informative but concise."@
        }),
{
    if is_youtube {
        String::from_str("You are an expert at summarizing YouTube video content. Focus on key points, main themes, and important takeaways. Structure your summary with clear sections and highlight the most valuable information for viewers.")
    } else {
        String::from_str("You are an expert content summarizer. Create a comprehensive, well-structured summary of the provided content. Use clear formatting and highlight key points. Keep the summary informative but concise.")
    }
}

/// The most bytes of page content that go into a summary request
/// (transcripts are not limited).
pub open spec fn content_limit_spec(is_youtube: bool) -> nat {
    if is_youtube {
        usize::MAX as nat
    } else {
        20000
    }
}

/// The size of the pieces that long content is summarised in.
pub fn summary_chunk_size(is_youtube: bool) -> (n: usize)
    ensures
        n == (if is_youtube { 24000usize } else { 16000usize }),
{
    if is_youtube {
        24000
    } else {
        16000
    }
}

/// The user prompt for content read from a downloaded file.
pub open spec fn file_prompt_spec(is_youtube: bool, url: Seq<char>, content: Seq<char>) -> Seq<char> {
    "Please analyze and summarize this "@ + (if is_youtube {
        "YouTube video subtitle file"@
    } else {
        "webpage HTML content"@
    }) + " from "@ + url + ":\n\n"@ + content
}

/// The user prompt for content handed over directly.
pub open spec fn direct_prompt_spec(is_youtube: bool, url: Seq<char>, content: Seq<char>) -> Seq<char> {
    "Please summarize this "@ + (if is_youtube {
        "YouTube video transcript"@
    } else {
        "webpage content"@
    }) + " from "@ + url + ":\n\n"@ + content
}

/// The prompt for a file's cleaned content; blank content is refused.
pub fn file_summary_prompt(is_youtube: bool, url: &str, cleaned: &str) -> (r: Result<String, String>)
    ensures
        match r {
            Ok(p) => trim(cleaned@).len() > 0 && p@ == file_prompt_spec(is_youtube, url@, cleaned@),
            Err(e) => trim(cleaned@).len() == 0 && e@ == "File contains no readable content after cleaning"@,
        },
{
    let c = to_chars(cleaned);
    if trim_chars(c.as_slice()).len() == 0 {
        return Err(String::from_str("File contains no readable content after cleaning"));
    }
    let mut out = to_chars("Please analyze and summarize this ");
    if is_youtube {
        push_str(&mut out, "YouTube video subtitle file");
    } else {
        push_str(&mut out, "webpage HTML content");
    }
    push_str(&mut out, " from ");
    push_str(&mut out, url);
    push_str(&mut out, ":\n\n");
    push_str(&mut out, cleaned);
    Ok(from_chars(out.as_slice()))
}

/// The prompt for content handed over directly, with the content cut to the
/// page limit when it is a web page.
pub fn direct_summary_prompt(is_youtube: bool, url: &str, content: &str) -> (r: (String, String))
    requires
        !is_youtube && utf8_len(content@) > 20000 ==> byte_boundary(content@, 20000),
    ensures
        r.1@ == (if is_youtube {
            content@
        } else {
            truncated_with(content@, 20000, " [Content truncated due to length]"@)
        }),
        r.0@ == direct_prompt_spec(is_youtube, url@, r.1@),
{
    let body = if is_youtube {
        String::from_str(content)
    } else {
        truncate_content(content, 20000)
    };
    let mut out = to_chars("Please summarize this ");
    if is_youtube {
        push_str(&mut out, "YouTube video transcript");
    } else {
        push_str(&mut out, "webpage content");
    }
    push_str(&mut out, " from ");
    push_str(&mut out, url);
    push_str(&mut out, ":\n\n");
    push_str(&mut out, body.as_str());
    (from_chars(out.as_slice()), body)
}

/// The prompt that asks for the summary of one chunk.
pub open spec fn chunk_prompt_spec(is_youtube: bool, chunk: Seq<char>) -> Seq<char> {
    "Create a detailed summary of this content chunk from "@ + (if is_youtube {
        "a YouTube video"@
    } else {
        "a webpage"@
    }) + ". Focus on key points, topics, and important information:\n\n"@ + chunk
}

/// Builds the prompt for one chunk.
pub fn chunk_prompt(is_youtube: bool, chunk: &str) -> (p: String)
    ensures
        p@ == chunk_prompt_spec(is_youtube, chunk@),
{
    let mut out = to_chars("Create a detailed summary of this content chunk from ");
    if is_youtube {
        push_str(&mut out, "a YouTube video");
    } else {
        push_str(&mut out, "a webpage");
    }
    push_str(&mut out, ". Focus on key points, topics, and important information:\n\n");
    push_str(&mut out, chunk);
    from_chars(out.as_slice())
}

/// A chunk's summary, or the chunk itself (numbered from 1) when the model
/// answered with a retrieval fallback.
pub open spec fn chunk_summary_spec(index: nat, chunk: Seq<char>, summary: Seq<char>) -> Seq<char> {
    if crate::commands::search::is_fallback_reply(summary) {
        "Content chunk "@ + decimal(index + 1) + ": "@ + chunk
    } else {
        summary
    }
}

/// Keeps a chunk's summary, or the chunk when the model fell back.
pub fn chunk_summary_or_content(index: usize, chunk: &str, summary: &str) -> (r: String)
    ensures
        r@ == chunk_summary_spec(index as nat, chunk@, summary@),
{
    if crate::commands::search::looks_like_fallback(summary) {
        let mut out = to_chars("Content chunk ");
        let n = decimal_chars(index as u128 + 1);
        push_all(&mut out, n.as_slice());
        push_str(&mut out, ": ");
        push_str(&mut out, chunk);
        from_chars(out.as_slice())
    } else {
        String::from_str(summary)
    }
}

/// Whether a video needs summaries of summaries: more than ten chunks.
pub fn needs_sections(is_youtube: bool, chunk_count: usize) -> (b: bool)
    ensures
        b == (is_youtube && chunk_count > 10),
{
    is_youtube && chunk_count > 10
}

/// The separator between summaries.
pub open spec fn summary_separator() -> Seq<char> {
    "\n\n---\n\n"@
}

/// The summaries grouped five at a time, each group joined by the separator.
pub open spec fn sections_spec(summaries: Seq<Seq<char>>) -> Seq<Seq<char>>
    decreases summaries.len(),
{
    if summaries.len() == 0 {
        Seq::empty()
    } else if summaries.len() <= 5 {
        seq![join_sep(summaries, summary_separator())]
    } else {
        seq![join_sep(summaries.take(5), summary_separator())] + sections_spec(summaries.skip(5))
    }
}

/// Groups chunk summaries five at a time, as `chunks(5)` does.
pub fn group_sections(summaries: &Vec<String>) -> (sections: Vec<String>)
    ensures
        views(sections@) == sections_spec(views(summaries@)),
{
    let ghost all = views(summaries@);
    let mut sections: Vec<String> = Vec::new();
    let mut start: usize = 0;
    let sep = to_chars("\n\n---\n\n");
    assert(all.skip(0) =~= all);
    while start < summaries.len()
        invariant
            start <= summaries@.len(),
            all == views(summaries@),
            sep@ == summary_separator(),
            views(sections@) + sections_spec(all.skip(start as int)) == sections_spec(all),
        decreases summaries@.len() - start,
    {
        let end: usize = if summaries.len() - start <= 5 {
            summaries.len()
        } else {
            start + 5
        };
        let mut parts: Vec<Vec<char>> = Vec::new();
        let mut k: usize = start;
        while k < end
            invariant
                start <= k <= end <= summaries@.len(),
                parts@.len() == k - start,
                forall|j: int| 0 <= j < parts@.len() ==> (#[trigger] parts@[j])@ == summaries@[start + j]@,
            decreases end - k,
        {
            parts.push(to_chars(summaries[k].as_str()));
            k = k + 1;
        }
        let joined = crate::text::join_chars(&parts, sep.as_slice());
        let ghost rest = all.skip(start as int);
        proof {
            if rest.len() <= 5 {
                assert(Seq::new(parts@.len(), |j: int| parts@[j]@) =~= rest);
            } else {
                assert(Seq::new(parts@.len(), |j: int| parts@[j]@) =~= rest.take(5));
                assert(rest.skip(5) =~= all.skip(end as int));
            }
        }
        let ghost before = views(sections@);
        sections.push(from_chars(joined.as_slice()));
        assert(views(sections@) =~= before.push(joined@));
        if end == summaries.len() {
            assert(all.skip(end as int) =~= Seq::<Seq<char>>::empty());
        }
        start = end;
    }
    assert(all.skip(summaries@.len() as int) =~= Seq::<Seq<char>>::empty());
    assert(views(sections@) =~= views(sections@) + Seq::<Seq<char>>::empty());
    sections
}

/// The prompt that asks for the summary of one section.
pub fn section_prompt(section: &str) -> (p: String)
    ensures
        p@ == "Create a comprehensive summary of this section from a YouTube video. Focus on the main topics, key points, and important information:\n\n"@ + section@,
{
    crate::text::concat_str(
        "Create a comprehensive summary of this section from a YouTube video. Focus on the main topics, key points, and important information:\n\n",
        section,
    )
}

/// A section summary labelled with its number (from 1).
pub fn label_section(index: usize, summary: &str) -> (r: String)
    ensures
        r@ == "Section "@ + decimal(index as nat + 1) + ": "@ + summary@,
{
    let mut out = to_chars("Section ");
    let n = decimal_chars(index as u128 + 1);
    push_all(&mut out, n.as_slice());
    push_str(&mut out, ": ");
    push_str(&mut out, summary);
    from_chars(out.as_slice())
}

/// The final prompt built from the combined chunk summaries.
pub open spec fn final_prompt_spec(is_youtube: bool, url: Seq<char>, summaries: Seq<char>) -> Seq<char> {
    "Create a comprehensive, well-structured summary of this "@ + (if is_youtube {
        "YouTube video"@
    } else {
        "webpage"@
    }) + " from "@ + url
        + ". Use the following detailed chunk summaries to build a complete overview that covers all major topics, key points, and important information:\n\n"@
        + summaries
        + "\n\nPlease organize the summary with clear sections and highlight the most important takeaways."@
}

/// Builds the final prompt from the combined (already limited) summaries.
pub fn final_summary_prompt(is_youtube: bool, url: &str, summaries: &str) -> (p: String)
    ensures
        p@ == final_prompt_spec(is_youtube, url@, summaries@),
{
    let mut out = to_chars("Create a comprehensive, well-structured summary of this ");
    if is_youtube {
        push_str(&mut out, "YouTube video");
    } else {
        push_str(&mut out, "webpage");
    }
    push_str(&mut out, " from ");
    push_str(&mut out, url);
    push_str(
        &mut out,
        ". Use the following detailed chunk summaries to build a complete overview that covers all major topics, key points, and important information:\n\n",
    );
    push_str(&mut out, summaries);
    push_str(
        &mut out,
        "\n\nPlease organize the summary with clear sections and highlight the most important takeaways.",
    );
    from_chars(out.as_slice())
}

/// The system instruction for summarising one chunk.
pub fn chunk_system_prompt() -> (p: String)
    ensures
        p@ == "You are an expert content summarizer. Create comprehensive summaries that capture all important details, key points, and main topics from the provided content. Aim for summaries that are informative and detailed while remaining concise."@,
{
    String::from_str("You are an expert content summarizer. Create comprehensive summaries that capture all important details, key points, and main topics from the provided content. Aim for summaries that are informative and detailed while remaining concise.")
}

/// The system instruction for summarising one section of chunk summaries.
pub fn section_system_prompt() -> (p: String)
    ensures
        p@ == "You are an expert content summarizer. Create comprehensive section summaries that capture the main topics and key information."@,
{
    String::from_str("You are an expert content summarizer. Create comprehensive section summaries that capture the main topics and key information.")
}

/// The error when chunk `index` (from 0) of `count` could not be summarised.
pub open spec fn chunk_failure_spec(index: nat, count: nat, model: Seq<char>, e: Seq<char>) -> Seq<char> {
    if contains_pat(e, "Connection refused"@) || contains_pat(e, "Connection Error"@) {
        "❌ **LM Studio Connection Lost During Chunk Processing**\n\nFailed to process chunk "@ + decimal(index + 1) + " of "@ + decimal(count)
            + "\n\n**Solutions:**\n• **Check LM Studio**: Ensure LM Studio is still running\n• **Model Loaded**: Verify model `"@ + model
            + "` is still loaded\n• **Server Status**: Check if LM Studio server is still active\n• **Try Shorter Content**: Consider using shorter videos/webpages\n\n**Progress:** Successfully processed "@
            + decimal(index) + " of "@ + decimal(count) + " chunks before failure"@
    } else if contains_pat(e, "Windows Permission Error"@) || contains_pat(e, "os error 10013"@) {
        "❌ **Windows Permission Error During Processing**\n\nNetwork access was denied while processing chunk "@ + decimal(index + 1) + " of "@ + decimal(count)
            + "\n\n**Quick Fix:**\n• **Restart as Administrator**: Close the bot and run as administrator\n\n**Progress:** Successfully processed "@
            + decimal(index) + " of "@ + decimal(count) + " chunks before failure"@
    } else {
        "❌ **Chunk Processing Error**\n\nFailed to process chunk "@ + decimal(index + 1) + " of "@ + decimal(count) + "\n\n**Error:** "@ + e
            + "\n\n**Progress:** Successfully processed "@ + decimal(index) + " of "@ + decimal(count)
            + " chunks\n**Suggestion:** Try using shorter content or a different model"@
    }
}

fn push_num(out: &mut Vec<char>, n: u128)
    ensures
        final(out)@ == old(out)@ + decimal(n as nat),
{
    let d = decimal_chars(n);
    push_all(out, d.as_slice());
}

/// Explains why a chunk could not be summarised.
pub fn chunk_failure_message(index: usize, count: usize, model: &str, error: &str) -> (m: String)
    ensures
        m@ == chunk_failure_spec(index as nat, count as nat, model@, error@),
{
    let i = index as u128;
    let n = count as u128;
    let mut out: Vec<char> = Vec::new();
    if contains_str(error, "Connection refused") || contains_str(error, "Connection Error") {
        push_str(&mut out, "❌ **LM Studio Connection Lost During Chunk Processing**\n\nFailed to process chunk ");
        push_num(&mut out, i + 1);
        push_str(&mut out, " of ");
        push_num(&mut out, n);
        push_str(&mut out, "\n\n**Solutions:**\n• **Check LM Studio**: Ensure LM Studio is still running\n• **Model Loaded**: Verify model `");
        push_str(&mut out, model);
        push_str(&mut out, "` is still loaded\n• **Server Status**: Check if LM Studio server is still active\n• **Try Shorter Content**: Consider using shorter videos/webpages\n\n**Progress:** Successfully processed ");
        push_num(&mut out, i);
        push_str(&mut out, " of ");
        push_num(&mut out, n);
        push_str(&mut out, " chunks before failure");
    } else if contains_str(error, "Windows Permission Error") || contains_str(error, "os error 10013") {
        push_str(&mut out, "❌ **Windows Permission Error During Processing**\n\nNetwork access was denied while processing chunk ");
        push_num(&mut out, i + 1);
        push_str(&mut out, " of ");
        push_num(&mut out, n);
        push_str(&mut out, "\n\n**Quick Fix:**\n• **Restart as Administrator**: Close the bot and run as administrator\n\n**Progress:** Successfully processed ");
        push_num(&mut out, i);
        push_str(&mut out, " of ");
        push_num(&mut out, n);
        push_str(&mut out, " chunks before failure");
    } else {
        push_str(&mut out, "❌ **Chunk Processing Error**\n\nFailed to process chunk ");
        push_num(&mut out, i + 1);
        push_str(&mut out, " of ");
        push_num(&mut out, n);
        push_str(&mut out, "\n\n**Error:** ");
        push_str(&mut out, error);
        push_str(&mut out, "\n\n**Progress:** Successfully processed ");
        push_num(&mut out, i);
        push_str(&mut out, " of ");
        push_num(&mut out, n);
        push_str(&mut out, " chunks\n**Suggestion:** Try using shorter content or a different model");
    }
    from_chars(out.as_slice())
}

/// The error when section `index` (from 0) could not be summarised.
pub open spec fn section_failure_spec(index: nat, model: Seq<char>, e: Seq<char>) -> Seq<char> {
    if contains_pat(e, "Connection refused"@) || contains_pat(e, "Connection Error"@) {
        "❌ **LM Studio Connection Lost During Section Processing**\n\nFailed to process section "@ + decimal(index + 1)
            + " during hierarchical summarization\n\n**Solutions:**\n• **Check LM Studio**: Ensure LM Studio is still running\n• **Model Status**: Verify model `"@
            + model + "` is still loaded\n• **Try Again**: Restart the command\n\n**Progress:** Individual chunks completed, failed during section consolidation"@
    } else {
        "❌ **Section Processing Error**\n\nFailed during hierarchical summarization of section "@ + decimal(index + 1) + "\n\n**Error:** "@ + e
            + "\n\n**Note:** Individual chunks were processed successfully"@
    }
}

/// Explains why a section could not be summarised.
pub fn section_failure_message(index: usize, model: &str, error: &str) -> (m: String)
    ensures
        m@ == section_failure_spec(index as nat, model@, error@),
{
    let mut out: Vec<char> = Vec::new();
    if contains_str(error, "Connection refused") || contains_str(error, "Connection Error") {
        push_str(&mut out, "❌ **LM Studio Connection Lost During Section Processing**\n\nFailed to process section ");
        push_num(&mut out, index as u128 + 1);
        push_str(&mut out, " during hierarchical summarization\n\n**Solutions:**\n• **Check LM Studio**: Ensure LM Studio is still running\n• **Model Status**: Verify model `");
        push_str(&mut out, model);
        push_str(&mut out, "` is still loaded\n• **Try Again**: Restart the command\n\n**Progress:** Individual chunks completed, failed during section consolidation");
    } else {
        push_str(&mut out, "❌ **Section Processing Error**\n\nFailed during hierarchical summarization of section ");
        push_num(&mut out, index as u128 + 1);
        push_str(&mut out, "\n\n**Error:** ");
        push_str(&mut out, error);
        push_str(&mut out, "\n\n**Note:** Individual chunks were processed successfully");
    }
    from_chars(out.as_slice())
}

/// How sending the summary request failed, as `reqwest` classifies it.
pub enum RequestFailure {
    Timeout,
    Connect,
    Other,
}

/// The error shown when the summary request could not be sent.
pub open spec fn request_failure_spec(
    kind: RequestFailure,
    e: Seq<char>,
    timeout_secs: nat,
    base_url: Seq<char>,
    model: Seq<char>,
    content_len: nat,
    url: Seq<char>,
) -> Seq<char> {
    match kind {
        RequestFailure::Timeout => "⏰ **Request Timeout**\n\nThe request to LM Studio timed out after "@ + decimal(timeout_secs)
            + " seconds.\n\n**Solutions:**\n• **Reduce Content**: Try a shorter video/webpage\n• **Check LM Studio**: Ensure LM Studio is running and responsive\n• **Model Performance**: Consider using a faster model\n• **System Resources**: Check if your system has enough RAM/CPU\n\n**Current Setup:**\n• LM Studio URL: `"@
            + base_url + "`\n• Model: `"@ + model + "`\n• Content Length: "@ + decimal(content_len) + " characters\n\n*Source: <"@ + url + ">*"@,
        RequestFailure::Connect => "🚫 **Connection Error**\n\nCannot connect to LM Studio at `"@ + base_url
            + "`.\n\n**Solutions:**\n• **Start LM Studio**: Ensure LM Studio is running\n• **Load Model**: Load model `"@ + model
            + "` in LM Studio\n• **Enable Server**: Click 'Start Server' in LM Studio\n• **Check Configuration**: Verify URL in lmapiconf.txt\n• **Firewall**: Check Windows Defender/firewall settings\n• **Try localhost**: Use `http://127.0.0.1:1234` instead of localhost\n\n*Source: <"@
            + url + ">*"@,
        RequestFailure::Other => if contains_pat(e, "os error 10013"@) {
            "🚫 **Windows Permission Error (10013)**\n\nNetwork access denied by Windows.\n\n**Quick Fixes:**\n• **Run as Administrator**: Right-click and 'Run as administrator'\n• **Windows Firewall**: Add firewall exception for this program\n• **Use IP Address**: Try `http://127.0.0.1:1234` in lmapiconf.txt\n\n**Current URL:** `"@
                + base_url + "`\n*Source: <"@ + url + ">*"@
        } else {
            "🔗 **Network Error**\n\nUnexpected network error occurred.\n\n**Error:** "@ + e
                + "\n\n**Solutions:**\n• **Check Connection**: Verify your internet connection\n• **Restart LM Studio**: Try restarting LM Studio\n• **Check Configuration**: Verify settings in lmapiconf.txt\n• **Try Again**: Network issues are often temporary\n\n**Current Setup:**\n• LM Studio URL: `"@
                + base_url + "`\n• Model: `"@ + model + "`\n\n*Source: <"@ + url + ">*"@
        },
    }
}

/// Explains a summary request that could not be sent.
pub fn request_failure_message(
    kind: RequestFailure,
    error: &str,
    timeout_secs: u64,
    base_url: &str,
    model: &str,
    content_len: usize,
    url: &str,
) -> (m: String)
    ensures
        m@ == request_failure_spec(kind, error@, timeout_secs as nat, base_url@, model@, content_len as nat, url@),
{
    let mut out: Vec<char> = Vec::new();
    match kind {
        RequestFailure::Timeout => {
            push_str(&mut out, "⏰ **Request Timeout**\n\nThe request to LM Studio timed out after ");
            push_num(&mut out, timeout_secs as u128);
            push_str(&mut out, " seconds.\n\n**Solutions:**\n• **Reduce Content**: Try a shorter video/webpage\n• **Check LM Studio**: Ensure LM Studio is running and responsive\n• **Model Performance**: Consider using a faster model\n• **System Resources**: Check if your system has enough RAM/CPU\n\n**Current Setup:**\n• LM Studio URL: `");
            push_str(&mut out, base_url);
            push_str(&mut out, "`\n• Model: `");
            push_str(&mut out, model);
            push_str(&mut out, "`\n• Content Length: ");
            push_num(&mut out, content_len as u128);
            push_str(&mut out, " characters\n\n*Source: <");
            push_str(&mut out, url);
            push_str(&mut out, ">*");
        },
        RequestFailure::Connect => {
            push_str(&mut out, "🚫 **Connection Error**\n\nCannot connect to LM Studio at `");
            push_str(&mut out, base_url);
            push_str(&mut out, "`.\n\n**Solutions:**\n• **Start LM Studio**: Ensure LM Studio is running\n• **Load Model**: Load model `");
            push_str(&mut out, model);
            push_str(&mut out, "` in LM Studio\n• **Enable Server**: Click 'Start Server' in LM Studio\n• **Check Configuration**: Verify URL in lmapiconf.txt\n• **Firewall**: Check Windows Defender/firewall settings\n• **Try localhost**: Use `http://127.0.0.1:1234` instead of localhost\n\n*Source: <");
            push_str(&mut out, url);
            push_str(&mut out, ">*");
        },
        RequestFailure::Other => {
            if contains_str(error, "os error 10013") {
                push_str(&mut out, "🚫 **Windows Permission Error (10013)**\n\nNetwork access denied by Windows.\n\n**Quick Fixes:**\n• **Run as Administrator**: Right-click and 'Run as administrator'\n• **Windows Firewall**: Add firewall exception for this program\n• **Use IP Address**: Try `http://127.0.0.1:1234` in lmapiconf.txt\n\n**Current URL:** `");
                push_str(&mut out, base_url);
                push_str(&mut out, "`\n*Source: <");
                push_str(&mut out, url);
                push_str(&mut out, ">*");
            } else {
                push_str(&mut out, "🔗 **Network Error**\n\nUnexpected network error occurred.\n\n**Error:** ");
                push_str(&mut out, error);
                push_str(&mut out, "\n\n**Solutions:**\n• **Check Connection**: Verify your internet connection\n• **Restart LM Studio**: Try restarting LM Studio\n• **Check Configuration**: Verify settings in lmapiconf.txt\n• **Try Again**: Network issues are often temporary\n\n**Current Setup:**\n• LM Studio URL: `");
                push_str(&mut out, base_url);
                push_str(&mut out, "`\n• Model: `");
                push_str(&mut out, model);
                push_str(&mut out, "`\n\n*Source: <");
                push_str(&mut out, url);
                push_str(&mut out, ">*");
            }
        },
    }
    from_chars(out.as_slice())
}

/// The error shown when the streamed answer could not be read.
pub fn streaming_error_message(error: &str, url: &str) -> (m: String)
    ensures
        m@ == "❌ **Streaming Error**\n\nFailed to read streaming response: "@ + error@
            + "\n\n**Solutions:**\n• Try again with a shorter video/webpage\n• Check your internet connection\n• Verify AI model is stable\n\n*Source: <"@
            + url@ + ">*"@,
{
    let mut out = to_chars("❌ **Streaming Error**\n\nFailed to read streaming response: ");
    push_str(&mut out, error);
    push_str(&mut out, "\n\n**Solutions:**\n• Try again with a shorter video/webpage\n• Check your internet connection\n• Verify AI model is stable\n\n*Source: <");
    push_str(&mut out, url);
    push_str(&mut out, ">*");
    from_chars(out.as_slice())
}

/// The progress note while the summary streams in.
pub fn progress_text(elapsed_secs: u64) -> (m: String)
    ensures
        m@ == "🤖 Generating summary... ("@ + decimal(elapsed_secs as nat) + "s)"@,
{
    let mut out = to_chars("🤖 Generating summary... (");
    push_num(&mut out, elapsed_secs as u128);
    push_str(&mut out, "s)");
    from_chars(out.as_slice())
}

/// What the streamed summary becomes: refused when the model fell back to
/// retrieval or gave under fifty bytes (or only blanks); otherwise the
/// summary, think blocks removed, with its heading and source, in one
/// message or, when longer than `max_len` bytes, in chunks.
pub open spec fn summary_result_spec(
    accumulated: Seq<char>,
    is_youtube: bool,
    url: Seq<char>,
    model: Seq<char>,
    max_len: nat,
) -> Result<Seq<Seq<char>>, Seq<char>> {
    let s = crate::thinking::strip_think_blocks(accumulated);
    if crate::commands::search::is_fallback_reply(s) {
        Err(
            "❌ **Summarization Failed**\n\n**Issue:** The AI model `"@ + model
                + "` appears to be unsuitable for content summarization.\n\n**Solution:** This may indicate:\n• **Model Type**: Model may need different prompting strategies\n• **Content Complexity**: Try shorter content or different approach\n• **Model Configuration**: Verify model is properly loaded in LM Studio\n\n**Alternative:** Try using a different model configured for summarization.\n\n*Source: <"@
                + url + ">*"@,
        )
    } else if trim(s).len() == 0 || utf8_len(s) < 50 {
        Err(
            "❌ **Summarization Failed**\n\n**Issue:** The AI model returned insufficient content ("@
                + decimal(utf8_len(s))
                + " characters).\n\n**Possible causes:**\n• Model is not properly configured for summarization\n• Content was too long or complex\n• API connection issues\n\n*Source: <"@
                + url + ">*"@,
        )
    } else {
        let f = "**"@ + (if is_youtube {
            "YouTube Video"@
        } else {
            "Webpage"@
        }) + " Summary**\n\n"@ + trim(s) + "\n\n*Source: <"@ + url + ">*"@;
        if utf8_len(f) > max_len {
            Ok(split_trimmed_spec(f, max_len))
        } else {
            Ok(seq![f])
        }
    }
}

/// Turns the streamed summary into the messages to post, or the error to
/// show instead.
pub fn summary_messages(accumulated: &str, is_youtube: bool, url: &str, model: &str, max_len: usize) -> (r: Result<Vec<String>, String>)
    ensures
        match (r, summary_result_spec(accumulated@, is_youtube, url@, model@, max_len as nat)) {
            (Ok(ms), Ok(xs)) => views(ms@) == xs,
            (Err(e), Err(x)) => e@ == x,
            _ => false,
        },
{
    let stripped = crate::thinking::remove_think_blocks(accumulated);
    let s = stripped.as_str();
    if crate::commands::search::looks_like_fallback(s) {
        let mut out = to_chars("❌ **Summarization Failed**\n\n**Issue:** The AI model `");
        push_str(&mut out, model);
        push_str(&mut out, "` appears to be unsuitable for content summarization.\n\n**Solution:** This may indicate:\n• **Model Type**: Model may need different prompting strategies\n• **Content Complexity**: Try shorter content or different approach\n• **Model Configuration**: Verify model is properly loaded in LM Studio\n\n**Alternative:** Try using a different model configured for summarization.\n\n*Source: <");
        push_str(&mut out, url);
        push_str(&mut out, ">*");
        return Err(from_chars(out.as_slice()));
    }
    let chars = to_chars(s);
    let trimmed = trim_chars(chars.as_slice());
    let bytes = utf8_len_of(chars.as_slice());
    if trimmed.len() == 0 || bytes < 50 {
        let mut out = to_chars("❌ **Summarization Failed**\n\n**Issue:** The AI model returned insufficient content (");
        push_num(&mut out, bytes);
        push_str(&mut out, " characters).\n\n**Possible causes:**\n• Model is not properly configured for summarization\n• Content was too long or complex\n• API connection issues\n\n*Source: <");
        push_str(&mut out, url);
        push_str(&mut out, ">*");
        return Err(from_chars(out.as_slice()));
    }
    let mut f = to_chars("**");
    if is_youtube {
        push_str(&mut f, "YouTube Video");
    } else {
        push_str(&mut f, "Webpage");
    }
    push_str(&mut f, " Summary**\n\n");
    push_all(&mut f, trimmed.as_slice());
    push_str(&mut f, "\n\n*Source: <");
    push_str(&mut f, url);
    push_str(&mut f, ">*");
    let text = from_chars(f.as_slice());
    if utf8_len_of(f.as_slice()) > max_len as u128 {
        Ok(split_message(text.as_str(), max_len))
    } else {
        let v = vec![text];
        assert(views(v@) =~= seq![f@]);
        Ok(v)
    }
}

/// What the summary command reports along the way.
pub enum SumNotice {
    /// The settings could not be loaded; the loader's error.
    ConfigError(String),
    /// Content is being fetched.
    Fetching,
    /// The transcript could not be fetched; the error.
    TranscriptFailed(String),
    /// The page could not be fetched; the error.
    PageFailed(String),
    /// The summary is being generated.
    Generating,
    /// The subtitle file is gone; its path.
    SubtitleFileMissing(String),
    /// No subtitle file was given for a video.
    NoSubtitlePath,
    /// Summarising failed; the error.
    SummaryFailed(String),
}

/// The text of a notice.
pub open spec fn sum_notice_spec(n: SumNotice) -> Seq<char> {
    match n {
        SumNotice::ConfigError(e) => "❌ **Configuration Error**\n\n"@ + e@
            + "\n\n**Setup required:** Ensure `lmapiconf.txt` is properly configured with your LM Studio settings."@,
        SumNotice::Fetching => "🔄 Fetching content..."@,
        SumNotice::TranscriptFailed(e) => "❌ Failed to fetch YouTube transcript: "@ + e@,
        SumNotice::PageFailed(e) => "❌ Failed to fetch webpage: "@ + e@,
        SumNotice::Generating => "🤖 Generating summary..."@,
        SumNotice::SubtitleFileMissing(p) => "❌ Subtitle file missing: "@ + p@,
        SumNotice::NoSubtitlePath => "❌ No subtitle file path provided for YouTube video"@,
        SumNotice::SummaryFailed(e) => "❌ Failed to generate summary: "@ + e@,
    }
}

fn prefixed(head: &str, tail: &String) -> (m: String)
    ensures
        m@ == head@ + tail@,
{
    let mut out = to_chars(head);
    push_str(&mut out, tail.as_str());
    from_chars(out.as_slice())
}

/// Writes a notice.
pub fn sum_notice_text(n: &SumNotice) -> (m: String)
    ensures
        m@ == sum_notice_spec(*n),
{
    match n {
        SumNotice::ConfigError(e) => {
            let mut out = to_chars("❌ **Configuration Error**\n\n");
            push_str(&mut out, e.as_str());
            push_str(&mut out, "\n\n**Setup required:** Ensure `lmapiconf.txt` is properly configured with your LM Studio settings.");
            from_chars(out.as_slice())
        },
        SumNotice::Fetching => String::from_str("🔄 Fetching content..."),
        SumNotice::TranscriptFailed(e) => prefixed("❌ Failed to fetch YouTube transcript: ", e),
        SumNotice::PageFailed(e) => prefixed("❌ Failed to fetch webpage: ", e),
        SumNotice::Generating => String::from_str("🤖 Generating summary..."),
        SumNotice::SubtitleFileMissing(p) => prefixed("❌ Subtitle file missing: ", p),
        SumNotice::NoSubtitlePath => String::from_str("❌ No subtitle file path provided for YouTube video"),
        SumNotice::SummaryFailed(e) => prefixed("❌ Failed to generate summary: ", e),
    }
}

/// Why a page could not be fetched for a summary.
pub enum PageFetchError {
    /// The server answered with this status (as displayed).
    Http(String),
    /// The page could not be saved; the error.
    SaveFailed(String),
}

impl PageFetchError {
    /// The message shown for the error.
    pub fn message(&self) -> (m: String)
        ensures
            m@ == match self {
                PageFetchError::Http(s) => "HTTP error: "@ + s@,
                PageFetchError::SaveFailed(e) => "Failed to save HTML file: "@ + e@,
            },
    {
        match self {
            PageFetchError::Http(s) => prefixed("HTTP error: ", s),
            PageFetchError::SaveFailed(e) => prefixed("Failed to save HTML file: ", e),
        }
    }
}

/// Summaries joined by the separator, as they go into the final prompt.
pub fn join_summaries(summaries: &Vec<String>) -> (r: String)
    ensures
        r@ == join_sep(views(summaries@), summary_separator()),
{
    let mut parts: Vec<Vec<char>> = Vec::new();
    let mut k: usize = 0;
    while k < summaries.len()
        invariant
            k <= summaries@.len(),
            parts@.len() == k,
            forall|j: int| 0 <= j < k ==> (#[trigger] parts@[j])@ == summaries@[j]@,
        decreases summaries@.len() - k,
    {
        parts.push(to_chars(summaries[k].as_str()));
        k = k + 1;
    }
    assert(Seq::new(parts@.len(), |j: int| parts@[j]@) =~= views(summaries@));
    let sep = to_chars("\n\n---\n\n");
    let joined = crate::text::join_chars(&parts, sep.as_slice());
    from_chars(joined.as_slice())
}

/// The error when the saved content cannot be read back; the error's text.
pub fn file_read_error(error: &str) -> (m: String)
    ensures
        m@ == "Failed to read file: "@ + error@,
{
    crate::text::concat_str("Failed to read file: ", error)
}

/// The error when the summary request is answered with a failure status
/// (as displayed).
pub fn summary_status_error(status: &str) -> (m: String)
    ensures
        m@ == "API returned error: "@ + status@,
{
    crate::text::concat_str("API returned error: ", status)
}

} // verus!
