//! Removal of `<think>…</think>` blocks that reasoning models emit before
//! their answer.
use vstd::prelude::*;
use crate::text::{
    append_part, find_from, first_occurrence, from_chars, join_sep, lemma_first_occurrence,
    lemma_join_sep_push, lines, lines_of, slice_chars, to_chars, trim, trim_chars, contains_pat,
    is_white_space, lemma_join_contains, lemma_join_trimmed, lemma_trim_ends, lemma_lines_of_join,
    lemma_lines_have_no_newline, lemma_trim_is_subrange,
};

verus! {

pub open spec fn think_open() -> Seq<char> {
    seq!['<', 't', 'h', 'i', 'n', 'k', '>']
}

pub open spec fn think_close() -> Seq<char> {
    seq!['<', '/', 't', 'h', 'i', 'n', 'k', '>']
}

/// `s` with every `<think>…</think>` block removed, as the regex
/// `(?s)<think>.*?</think>` replaced by nothing leaves it: the leftmost
/// opening tag is matched with the first closing tag after it, and an
/// opening tag with no closing tag after it leaves the rest unchanged.
pub open spec fn strip_think_blocks(s: Seq<char>) -> Seq<char>
    decreases s.len(),
{
    match first_occurrence(s, think_open(), 0) {
        None => s,
        Some(i) => match first_occurrence(s, think_close(), i + 7) {
            None => s,
            Some(j) => if 0 <= i && i + 7 <= j && j + 8 <= s.len() {
                s.take(i) + strip_think_blocks(s.skip(j + 8))
            } else {
                s
            },
        },
    }
}

/// `regex::Regex::replace_all` with the pattern `(?s)<think>.*?</think>`
/// and an empty replacement: the contract claims the leftmost-first,
/// non-overlapping, shortest-body matches that the regex crate documents
/// for lazy repetition.
#[verifier::external_body]
pub(crate) fn remove_think_blocks(s: &str) -> (r: String)
    ensures
        r@ == strip_think_blocks(s@),
{
    let re = regex::Regex::new(r"(?s)<think>.*?</think>").unwrap();
    re.replace_all(s, "").into_owned()
}

/// The text before the first opening tag left once the closed blocks are
/// gone: a think block that the model never closed runs to the end of the
/// text and is removed with it.
pub open spec fn cut_unclosed(s: Seq<char>) -> Seq<char> {
    match first_occurrence(s, think_open(), 0) {
        Some(i) => s.take(i),
        None => s,
    }
}

/// The text with its think blocks removed, closed or not.
pub open spec fn without_thinking(s: Seq<char>) -> Seq<char> {
    cut_unclosed(strip_think_blocks(s))
}

/// Removes the closed think blocks, then an unclosed one to the end.
fn remove_all_thinking(content: &str) -> (r: Vec<char>)
    ensures
        r@ == without_thinking(content@),
{
    let stripped = remove_think_blocks(content);
    let all = to_chars(stripped.as_str());
    let open = ['<', 't', 'h', 'i', 'n', 'k', '>'];
    assert(open@ =~= think_open());
    match find_from(all.as_slice(), &open, 0) {
        Some(i) => {
            proof {
                lemma_first_occurrence(all@, think_open(), 0);
            }
            let kept = slice_chars(all.as_slice(), 0, i);
            assert(kept@ =~= all@.take(i as int));
            kept
        },
        None => all,
    }
}

/// The trimmed lines that are not empty after trimming.
pub open spec fn trimmed_nonempty_lines(ls: Seq<Seq<char>>) -> Seq<Seq<char>>
    decreases ls.len(),
{
    if ls.len() == 0 {
        Seq::empty()
    } else {
        let r = trimmed_nonempty_lines(ls.drop_last());
        if trim(ls.last()).len() > 0 {
            r.push(trim(ls.last()))
        } else {
            r
        }
    }
}

/// What `filter_thinking_tags` returns: think blocks removed (an unclosed
/// one to the end of the text), every line trimmed, blank lines dropped, the
/// rest joined by line feeds and trimmed.
pub open spec fn filter_thinking_spec(content: Seq<char>) -> Seq<char> {
    trim(join_sep(trimmed_nonempty_lines(lines_of(without_thinking(content))), seq!['\n']))
}

/// Removes think blocks, trims every line and drops the blank ones.
pub fn filter_thinking(content: &str) -> (r: String)
    ensures
        r@ == filter_thinking_spec(content@),
{
    let chars = remove_all_thinking(content);
    let ls = lines(chars.as_slice());
    let ghost spec_lines = lines_of(chars@);
    let mut joined: Vec<char> = Vec::new();
    let mut count: usize = 0;
    let ghost mut kept: Seq<Seq<char>> = Seq::empty();
    let mut i: usize = 0;
    while i < ls.len()
        invariant
            i <= ls@.len(),
            spec_lines == lines_of(chars@),
            ls@.len() == spec_lines.len(),
            forall|k: int| 0 <= k < ls@.len() ==> (#[trigger] ls@[k])@ == spec_lines[k],
            kept == trimmed_nonempty_lines(spec_lines.take(i as int)),
            joined@ == join_sep(kept, seq!['\n']),
            count == kept.len(),
            count <= i,
        decreases ls@.len() - i,
    {
        assert(spec_lines.take(i + 1).drop_last() =~= spec_lines.take(i as int));
        assert(spec_lines.take(i + 1).last() == ls@[i as int]@);
        let t = trim_chars(ls[i].as_slice());
        if t.len() > 0 {
            proof {
                lemma_join_sep_push(kept, t@, seq!['\n']);
                kept = kept.push(t@);
            }
            append_part(&mut joined, count == 0, t.as_slice(), &['\n']);
            count = count + 1;
        }
        i = i + 1;
    }
    assert(spec_lines.take(ls@.len() as int) =~= spec_lines);
    let trimmed = trim_chars(joined.as_slice());
    from_chars(trimmed.as_slice())
}

/// What the line filter keeps: every line that is not blank, trimmed, and
/// only such lines.
proof fn lemma_trimmed_nonempty_lines(ls: Seq<Seq<char>>)
    ensures
        forall|k: int|
            0 <= k < ls.len() && trim(#[trigger] ls[k]).len() > 0 ==> exists|j: int|
                0 <= j < trimmed_nonempty_lines(ls).len() && trimmed_nonempty_lines(ls)[j] == trim(
                    ls[k],
                ),
        forall|j: int|
            0 <= j < trimmed_nonempty_lines(ls).len() ==> (#[trigger] trimmed_nonempty_lines(ls)[j]).len()
                > 0 && !is_white_space(trimmed_nonempty_lines(ls)[j][0]) && !is_white_space(
                trimmed_nonempty_lines(ls)[j].last(),
            ),
    decreases ls.len(),
{
    if ls.len() > 0 {
        let front = ls.drop_last();
        lemma_trimmed_nonempty_lines(front);
        let r = trimmed_nonempty_lines(front);
        let t = trimmed_nonempty_lines(ls);
        lemma_trim_ends(ls.last());
        assert forall|k: int| 0 <= k < ls.len() && trim(#[trigger] ls[k]).len() > 0 implies exists|j: int|
            0 <= j < t.len() && t[j] == trim(ls[k]) by {
            if k < front.len() {
                assert(front[k] == ls[k]);
                let j = choose|j: int| 0 <= j < r.len() && r[j] == trim(front[k]);
                assert(t[j] == r[j]);
            } else {
                assert(t[r.len() as int] == trim(ls.last()));
            }
        }
        assert forall|j: int| 0 <= j < t.len() implies (#[trigger] t[j]).len() > 0 && !is_white_space(
            t[j][0],
        ) && !is_white_space(t[j].last()) by {
            if j < r.len() {
                assert(t[j] == r[j]);
            }
        }
    }
}

/// No non-blank line of the answer is lost: every line of the text left
/// once the think blocks are removed that is not blank shows up, trimmed,
/// in what `filter_thinking_tags` returns.
pub proof fn lemma_filter_thinking_keeps_lines(content: Seq<char>, k: int)
    requires
        0 <= k < lines_of(without_thinking(content)).len(),
        trim(lines_of(without_thinking(content))[k]).len() > 0,
    ensures
        contains_pat(filter_thinking_spec(content), trim(lines_of(without_thinking(content))[k])),
{
    let ls = lines_of(without_thinking(content));
    lemma_trimmed_nonempty_lines(ls);
    let t = trimmed_nonempty_lines(ls);
    let j = choose|j: int| 0 <= j < t.len() && t[j] == trim(ls[k]);
    lemma_join_trimmed(t, seq!['\n']);
    lemma_join_contains(t, seq!['\n'], j);
}

proof fn lemma_trimmed_nonempty_lines_filter(ls: Seq<Seq<char>>)
    ensures
        trimmed_nonempty_lines(ls) == ls.filter(|l: Seq<char>| trim(l).len() > 0).map_values(
            |l: Seq<char>| trim(l),
        ),
    decreases ls.len(),
{
    reveal(Seq::filter);
    if ls.len() > 0 {
        lemma_trimmed_nonempty_lines_filter(ls.drop_last());
        let f = ls.drop_last().filter(|l: Seq<char>| trim(l).len() > 0);
        if trim(ls.last()).len() > 0 {
            assert(f.push(ls.last()).map_values(|l: Seq<char>| trim(l)) =~= f.map_values(
                |l: Seq<char>| trim(l),
            ).push(trim(ls.last())));
        }
    } else {
        assert(ls.filter(|l: Seq<char>| trim(l).len() > 0).map_values(|l: Seq<char>| trim(l))
            =~= Seq::<Seq<char>>::empty());
    }
}

/// The lines of what `filter_thinking_tags` returns are exactly the lines
/// of the text left once the think blocks are removed that are not blank,
/// each trimmed, in their order.
pub proof fn lemma_filter_thinking_lines(content: Seq<char>)
    ensures
        lines_of(filter_thinking_spec(content)) == lines_of(without_thinking(content)).filter(
            |l: Seq<char>| trim(l).len() > 0,
        ).map_values(|l: Seq<char>| trim(l)),
{
    let ls = lines_of(without_thinking(content));
    lemma_trimmed_nonempty_lines(ls);
    lemma_trimmed_nonempty_lines_filter(ls);
    lemma_lines_have_no_newline(without_thinking(content));
    let t = trimmed_nonempty_lines(ls);
    lemma_join_trimmed(t, seq!['\n']);
    assert forall|j: int| 0 <= j < t.len() implies (#[trigger] t[j]).len() > 0 && !t[j].contains('\n')
        && t[j].last() != '\r' by {
        assert('\r' as u32 == 0xD);
        let k = lemma_kept_line_source(ls, j);
        lemma_trim_is_subrange(ls[k]);
        let (a, b) = choose|a: int, b: int| 0 <= a <= b <= ls[k].len() && #[trigger] trim(ls[k]) == ls[k].subrange(a, b);
        assert(!ls[k].contains('\n'));
        if t[j].contains('\n') {
            let i = choose|i: int| 0 <= i < t[j].len() && t[j][i] == '\n';
            assert(ls[k][a + i] == '\n');
        }
    }
    lemma_lines_of_join(t);
}

/// Each kept line is the trimmed form of some line.
proof fn lemma_kept_line_source(ls: Seq<Seq<char>>, j: int) -> (k: int)
    requires
        0 <= j < trimmed_nonempty_lines(ls).len(),
    ensures
        0 <= k < ls.len(),
        trimmed_nonempty_lines(ls)[j] == trim(ls[k]),
    decreases ls.len(),
{
    let front = ls.drop_last();
    let r = trimmed_nonempty_lines(front);
    if j < r.len() {
        let k = lemma_kept_line_source(front, j);
        assert(front[k] == ls[k]);
        k
    } else {
        (ls.len() - 1) as int
    }
}

/// What `process_reasoning_content` returns.
pub open spec fn process_reasoning_spec(content: Seq<char>) -> Seq<char> {
    if trim(filter_thinking_spec(content)).len() > 0 {
        filter_thinking_spec(content)
    } else {
        "The AI response appears to contain only thinking content."@
    }
}

/// The answer without its think blocks, or a notice when nothing else is left.
pub fn process_reasoning(content: &str) -> (r: String)
    ensures
        r@ == process_reasoning_spec(content@),
{
    let filtered = filter_thinking(content);
    let chars = to_chars(filtered.as_str());
    let t = trim_chars(chars.as_slice());
    if t.len() > 0 {
        filtered
    } else {
        String::from_str("The AI response appears to contain only thinking content.")
    }
}

} // verus!
