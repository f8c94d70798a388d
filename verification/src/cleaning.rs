//! Turning subtitle files (WebVTT) and web pages (HTML) into plain text.
use vstd::prelude::*;
use crate::text::{
    all_numeric, all_numeric_chars, append_part, char_is_numeric, collapse_ws, collapse_ws_chars,
    contains_chars, contains_pat, find_from, first_occurrence, from_chars, join_sep,
    lemma_first_occurrence, lemma_join_sep_push, lines, lines_of, matches_at, occurs_at, replace_all,
    replace_chars, slice_chars, squeeze_ws, starts_with, take_at_most, take_chars, to_chars,
    trim, trim_chars, is_white_space, spaces_only, single_spaced, ws_free, trim_start, trim_end,
    split_on, lemma_lines_chars, lemma_lines_have_no_newline, lemma_trim_is_subrange,
    lemma_trim_ends, lemma_trim_fixed, lemma_trim_idempotent, lemma_trim_end_keeps,
    lemma_squeeze_shape, lemma_squeeze_lacks, lemma_squeeze_keeps, lemma_squeeze_fixed,
    lemma_squeeze_occurs, lemma_squeeze_prefix, lemma_join_first, lemma_join_occurs,
    lemma_join_lacks, lemma_join_prefix, lemma_split_on_whole, lemma_join_contains,
    lemma_squeeze_keeps_window, lemma_trim_keeps_window,
};

verus! {

pub open spec fn webvtt() -> Seq<char> {
    seq!['W', 'E', 'B', 'V', 'T', 'T']
}

pub open spec fn note() -> Seq<char> {
    seq!['N', 'O', 'T', 'E']
}

pub open spec fn arrow() -> Seq<char> {
    seq!['-', '-', '>']
}

/// Whether `a` and `b` hold the same characters.
pub fn eq_chars(a: &[char], b: &[char]) -> (r: bool)
    ensures
        r == (a@ == b@),
{
    if a.len() != b.len() {
        return false;
    }
    let r = matches_at(a, b, 0);
    assert(a@.subrange(0, b@.len() as int) =~= a@);
    r
}

/// One line of a WebVTT file, as the ranking command reads it: blank lines,
/// the header, notes and cue numbers are skipped; a timing line opens the
/// cue text; text lines are kept once a cue has opened.
pub open spec fn cue_step(state: (Seq<Seq<char>>, bool), raw: Seq<char>) -> (
    Seq<Seq<char>>,
    bool,
) {
    let (kept, in_cue) = state;
    let line = trim(raw);
    if line.len() == 0 || line == webvtt() || starts_with(line, note()) {
        state
    } else if contains_pat(line, arrow()) {
        (kept, true)
    } else if all_numeric(line) {
        state
    } else if in_cue {
        (kept.push(line), in_cue)
    } else {
        state
    }
}

pub open spec fn cue_fold(ls: Seq<Seq<char>>) -> (Seq<Seq<char>>, bool)
    decreases ls.len(),
{
    if ls.len() == 0 {
        (Seq::empty(), false)
    } else {
        cue_step(cue_fold(ls.drop_last()), ls.last())
    }
}

/// The cue text of a WebVTT file, lines joined by spaces.
pub open spec fn cue_text(vtt: Seq<char>) -> Seq<char> {
    join_sep(cue_fold(lines_of(vtt)).0, seq![' '])
}

/// The cue text of a WebVTT file, lines joined by spaces.
pub fn vtt_cue_text(vtt: &str) -> (r: String)
    ensures
        r@ == cue_text(vtt@),
{
    let chars = to_chars(vtt);
    let ls = lines(chars.as_slice());
    let ghost sl = lines_of(vtt@);
    let header = vec!['W', 'E', 'B', 'V', 'T', 'T'];
    let note_word = vec!['N', 'O', 'T', 'E'];
    let timing = vec!['-', '-', '>'];
    let mut out: Vec<char> = Vec::new();
    let mut count: usize = 0;
    let mut in_cue = false;
    let ghost mut kept: Seq<Seq<char>> = Seq::empty();
    let mut i: usize = 0;
    while i < ls.len()
        invariant
            i <= ls@.len(),
            sl == lines_of(vtt@),
            ls@.len() == sl.len(),
            forall|k: int| 0 <= k < ls@.len() ==> (#[trigger] ls@[k])@ == sl[k],
            header@ == webvtt(),
            note_word@ == note(),
            timing@ == arrow(),
            cue_fold(sl.take(i as int)) == (kept, in_cue),
            out@ == join_sep(kept, seq![' ']),
            count == kept.len(),
            count <= i,
        decreases ls@.len() - i,
    {
        assert(sl.take(i + 1).drop_last() =~= sl.take(i as int));
        assert(sl.take(i + 1).last() == ls@[i as int]@);
        let line = trim_chars(ls[i].as_slice());
        if line.len() == 0 || eq_chars(line.as_slice(), header.as_slice()) || matches_at(
            line.as_slice(),
            note_word.as_slice(),
            0,
        ) {
        } else if contains_chars(line.as_slice(), timing.as_slice()) {
            in_cue = true;
        } else if all_numeric_chars(line.as_slice()) {
        } else if in_cue {
            proof {
                lemma_join_sep_push(kept, line@, seq![' ']);
                kept = kept.push(line@);
            }
            append_part(&mut out, count == 0, line.as_slice(), &[' ']);
            count = count + 1;
        }
        i = i + 1;
    }
    assert(sl.take(ls@.len() as int) =~= sl);
    from_chars(out.as_slice())
}

proof fn lemma_cue_fold_take(ls: Seq<Seq<char>>, m: int)
    requires
        0 <= m < ls.len(),
    ensures
        cue_fold(ls.take(m + 1)) == cue_step(cue_fold(ls.take(m)), ls[m]),
{
    assert(ls.take(m + 1).drop_last() =~= ls.take(m));
    assert(ls.take(m + 1).last() == ls[m]);
}

/// Once a cue has opened it stays open, and kept lines are only ever added
/// after the ones kept so far.
proof fn lemma_cue_fold_grows(ls: Seq<Seq<char>>, m: int, n: int)
    requires
        0 <= m <= n <= ls.len(),
    ensures
        cue_fold(ls.take(m)).1 ==> cue_fold(ls.take(n)).1,
        cue_fold(ls.take(m)).0.len() <= cue_fold(ls.take(n)).0.len(),
        forall|i: int|
            0 <= i < cue_fold(ls.take(m)).0.len() ==> cue_fold(ls.take(n)).0[i] == #[trigger] cue_fold(
                ls.take(m),
            ).0[i],
    decreases n - m,
{
    if m < n {
        lemma_cue_fold_grows(ls, m, n - 1);
        lemma_cue_fold_take(ls, n - 1);
        let a = cue_fold(ls.take(n - 1)).0;
        let b = cue_fold(ls.take(n)).0;
        assert forall|i: int| 0 <= i < cue_fold(ls.take(m)).0.len() implies b[i] == #[trigger] cue_fold(
            ls.take(m),
        ).0[i] by {
            assert(b[i] == a[i]);
        }
    }
}

/// After a timing line, every cue-text line shows up in the cue text: a
/// line that, trimmed, is not empty, not the header, not a note, not a
/// timing line and not made only of numeric characters is never dropped.
pub proof fn lemma_cue_text_keeps_line(vtt: Seq<char>, j: int, k: int)
    requires
        0 <= j < k < lines_of(vtt).len(),
        trim(lines_of(vtt)[j]).len() > 0,
        trim(lines_of(vtt)[j]) != webvtt(),
        !starts_with(trim(lines_of(vtt)[j]), note()),
        contains_pat(trim(lines_of(vtt)[j]), arrow()),
        trim(lines_of(vtt)[k]).len() > 0,
        trim(lines_of(vtt)[k]) != webvtt(),
        !starts_with(trim(lines_of(vtt)[k]), note()),
        !contains_pat(trim(lines_of(vtt)[k]), arrow()),
        exists|i: int|
            0 <= i < trim(lines_of(vtt)[k]).len() && !char_is_numeric(
                #[trigger] trim(lines_of(vtt)[k])[i],
            ),
    ensures
        contains_pat(cue_text(vtt), trim(lines_of(vtt)[k])),
{
    let ls = lines_of(vtt);
    let line = trim(ls[k]);
    lemma_cue_fold_take(ls, j);
    assert(cue_fold(ls.take(j + 1)).1);
    lemma_cue_fold_grows(ls, j + 1, k);
    lemma_cue_fold_take(ls, k);
    assert(!all_numeric(line));
    let before = cue_fold(ls.take(k)).0;
    assert(cue_fold(ls.take(k + 1)).0 == before.push(line));
    lemma_cue_fold_grows(ls, k + 1, ls.len() as int);
    assert(ls.take(ls.len() as int) =~= ls);
    let all = cue_fold(ls).0;
    assert(all[before.len() as int] == before.push(line)[before.len() as int]);
    lemma_join_contains(all, seq![' '], before.len() as int);
}

proof fn lemma_cue_fold_closed(ls: Seq<Seq<char>>)
    requires
        forall|k: int| 0 <= k < ls.len() ==> !contains_pat(trim(#[trigger] ls[k]), arrow()),
    ensures
        cue_fold(ls) == (Seq::<Seq<char>>::empty(), false),
    decreases ls.len(),
{
    if ls.len() > 0 {
        let front = ls.drop_last();
        assert forall|k: int| 0 <= k < front.len() implies !contains_pat(trim(#[trigger] front[k]), arrow()) by {
            assert(front[k] == ls[k]);
        }
        lemma_cue_fold_closed(front);
        assert(ls[ls.len() - 1] == ls.last());
    }
}

/// Text only counts once a cue has opened: a file without any timing line
/// has no cue text.
pub proof fn lemma_cue_text_needs_timing(vtt: Seq<char>)
    requires
        forall|k: int|
            0 <= k < lines_of(vtt).len() ==> !contains_pat(trim(#[trigger] lines_of(vtt)[k]), arrow()),
    ensures
        cue_text(vtt).len() == 0,
{
    lemma_cue_fold_closed(lines_of(vtt));
}

/// The tags that the summary command strips from subtitle lines, in order.
pub open spec fn cue_tags() -> Seq<Seq<char>> {
    seq![
        seq!['<', 'c', '>'],
        seq!['<', '/', 'c', '>'],
        seq!['<', 'v', ' '],
        seq!['<', '/', 'v', '>'],
        seq!['<', 'b', '>'],
        seq!['<', '/', 'b', '>'],
        seq!['<', 'i', '>'],
        seq!['<', '/', 'i', '>'],
        seq!['<', 'u', '>'],
        seq!['<', '/', 'u', '>'],
    ]
}

/// A character of an inline timestamp such as `00:00:01.000`.
pub open spec fn is_time_char(c: char) -> bool {
    ('0' <= c && c <= '9') || c == ':' || c == '.'
}

/// Where the run of timestamp characters that starts at `k` ends.
pub open spec fn time_run_end(s: Seq<char>, k: int) -> int
    decreases s.len() - k,
{
    if 0 <= k < s.len() && is_time_char(s[k]) {
        time_run_end(s, k + 1)
    } else {
        k
    }
}

/// The position of the `>` that closes an inline timestamp tag such as
/// `<00:00:01.000>` opening at `i`, if one does.
pub open spec fn timestamp_tag_end(s: Seq<char>, i: int) -> Option<int> {
    let e = time_run_end(s, i + 1);
    if 0 <= i < s.len() && s[i] == '<' && e > i + 1 && e < s.len() && s[e] == '>' {
        Some(e)
    } else {
        None
    }
}

/// `s` from `i` on, with its inline timestamp tags removed.
pub open spec fn strip_timestamps_from(s: Seq<char>, i: int) -> Seq<char>
    decreases s.len() - i,
{
    if i < 0 || i >= s.len() {
        Seq::empty()
    } else {
        match timestamp_tag_end(s, i) {
            Some(e) => if e > i {
                strip_timestamps_from(s, e + 1)
            } else {
                seq![s[i]] + strip_timestamps_from(s, i + 1)
            },
            None => seq![s[i]] + strip_timestamps_from(s, i + 1),
        }
    }
}

/// `s` with its inline timestamp tags (`<` digits, colons and dots `>`)
/// removed.
pub open spec fn strip_timestamps(s: Seq<char>) -> Seq<char> {
    strip_timestamps_from(s, 0)
}

proof fn lemma_time_run_end_bounds(s: Seq<char>, k: int)
    requires
        0 <= k,
    ensures
        k <= time_run_end(s, k),
        k <= s.len() ==> time_run_end(s, k) <= s.len(),
        forall|j: int| k <= j < time_run_end(s, k) ==> is_time_char(#[trigger] s[j]),
    decreases s.len() - k,
{
    if 0 <= k < s.len() && is_time_char(s[k]) {
        lemma_time_run_end_bounds(s, k + 1);
    }
}

/// Removes the inline timestamp tags of a subtitle line.
fn strip_timestamp_tags(s: &[char]) -> (r: Vec<char>)
    ensures
        r@ == strip_timestamps(s@),
{
    let mut out: Vec<char> = Vec::new();
    let mut i: usize = 0;
    assert(out@ + strip_timestamps_from(s@, 0) =~= strip_timestamps_from(s@, 0));
    while i < s.len()
        invariant
            i <= s@.len(),
            out@ + strip_timestamps_from(s@, i as int) == strip_timestamps(s@),
        decreases s@.len() - i,
    {
        let mut closed_at: Option<usize> = None;
        if s[i] == '<' {
            let mut j: usize = i + 1;
            while j < s.len() && (('0' <= s[j] && s[j] <= '9') || s[j] == ':' || s[j] == '.')
                invariant
                    i < s@.len(),
                    i + 1 <= j <= s@.len(),
                    time_run_end(s@, j as int) == time_run_end(s@, i + 1),
                decreases s@.len() - j,
            {
                j = j + 1;
            }
            assert(time_run_end(s@, j as int) == j as int);
            if j > i + 1 && j < s.len() && s[j] == '>' {
                closed_at = Some(j);
            }
        }
        proof {
            lemma_time_run_end_bounds(s@, i + 1);
        }
        match closed_at {
            Some(e) => {
                assert(timestamp_tag_end(s@, i as int) == Some(e as int));
                assert(strip_timestamps_from(s@, i as int) == strip_timestamps_from(s@, e + 1));
                i = e + 1;
            },
            None => {
                assert(timestamp_tag_end(s@, i as int) is None);
                let ghost before = out@;
                out.push(s[i]);
                assert(out@ + strip_timestamps_from(s@, i + 1) =~= before + (seq![s@[i as int]] + strip_timestamps_from(s@, i + 1)));
                i = i + 1;
            },
        }
    }
    assert(out@ + Seq::<char>::empty() =~= out@);
    out
}

/// Every occurrence of each tag removed, one tag after the other.
pub open spec fn remove_each(s: Seq<char>, tags: Seq<Seq<char>>) -> Seq<char>
    decreases tags.len(),
{
    if tags.len() == 0 {
        s
    } else {
        remove_each(replace_all(s, tags[0], Seq::empty()), tags.drop_first())
    }
}

/// Only digits (numeric characters), colons, dots and spaces: a timing or
/// cue-number line.
pub open spec fn timing_like(s: Seq<char>) -> bool {
    forall|i: int|
        0 <= i < s.len() ==> char_is_numeric(#[trigger] s[i]) || s[i] == ':' || s[i] == '.'
            || s[i] == ' '
}

/// A subtitle line that the summary command drops before any tag removal.
pub open spec fn skipped_subtitle_line(line: Seq<char>) -> bool {
    line.len() == 0 || starts_with(line, webvtt()) || starts_with(line, note()) || contains_pat(
        line,
        arrow(),
    ) || timing_like(line)
}

pub open spec fn subtitle_step(kept: Seq<Seq<char>>, raw: Seq<char>) -> Seq<Seq<char>> {
    let line = trim(raw);
    if skipped_subtitle_line(line) {
        kept
    } else {
        let cleaned = trim(remove_each(strip_timestamps(line), cue_tags()));
        if cleaned.len() > 0 {
            kept.push(cleaned)
        } else {
            kept
        }
    }
}

pub open spec fn subtitle_fold(ls: Seq<Seq<char>>) -> Seq<Seq<char>>
    decreases ls.len(),
{
    if ls.len() == 0 {
        Seq::empty()
    } else {
        subtitle_step(subtitle_fold(ls.drop_last()), ls.last())
    }
}

/// The spoken text of a subtitle file, as the summary command extracts it:
/// kept lines stripped of inline timestamp tags and styling tags, joined,
/// runs of whitespace collapsed.
pub open spec fn subtitle_text(vtt: Seq<char>) -> Seq<char> {
    collapse_ws(join_sep(subtitle_fold(lines_of(vtt)), seq![' ']))
}

fn timing_like_chars(s: &[char]) -> (b: bool)
    ensures
        b == timing_like(s@),
{
    let mut i: usize = 0;
    while i < s.len()
        invariant
            i <= s@.len(),
            forall|j: int|
                0 <= j < i ==> char_is_numeric(#[trigger] s@[j]) || s@[j] == ':' || s@[j] == '.'
                    || s@[j] == ' ',
        decreases s@.len() - i,
    {
        let c = s[i];
        if !(c.is_numeric() || c == ':' || c == '.' || c == ' ') {
            return false;
        }
        i = i + 1;
    }
    true
}

fn cue_tag_list() -> (tags: Vec<Vec<char>>)
    ensures
        tags@.len() == cue_tags().len(),
        forall|k: int| 0 <= k < tags@.len() ==> (#[trigger] tags@[k])@ == cue_tags()[k],
{
    let tags = vec![
        vec!['<', 'c', '>'],
        vec!['<', '/', 'c', '>'],
        vec!['<', 'v', ' '],
        vec!['<', '/', 'v', '>'],
        vec!['<', 'b', '>'],
        vec!['<', '/', 'b', '>'],
        vec!['<', 'i', '>'],
        vec!['<', '/', 'i', '>'],
        vec!['<', 'u', '>'],
        vec!['<', '/', 'u', '>'],
    ];
    tags
}

fn remove_tags(line: &[char], tags: &Vec<Vec<char>>) -> (r: Vec<char>)
    requires
        forall|k: int| 0 <= k < tags@.len() ==> (#[trigger] tags@[k])@.len() > 0,
    ensures
        r@ == remove_each(line@, Seq::new(tags@.len(), |k: int| tags@[k]@)),
{
    let ghost ts = Seq::new(tags@.len(), |k: int| tags@[k]@);
    let mut cur: Vec<char> = slice_chars(line, 0, line.len());
    assert(line@.subrange(0, line@.len() as int) =~= line@);
    let mut i: usize = 0;
    assert(ts.skip(0) =~= ts);
    while i < tags.len()
        invariant
            i <= tags@.len(),
            ts == Seq::new(tags@.len(), |k: int| tags@[k]@),
            forall|k: int| 0 <= k < tags@.len() ==> (#[trigger] tags@[k])@.len() > 0,
            remove_each(line@, ts) == remove_each(cur@, ts.skip(i as int)),
        decreases tags@.len() - i,
    {
        assert(ts.skip(i as int)[0] == tags@[i as int]@);
        assert(ts.skip(i as int).drop_first() =~= ts.skip(i + 1));
        let ghost before = cur@;
        let nothing: Vec<char> = Vec::new();
        cur = replace_chars(cur.as_slice(), tags[i].as_slice(), nothing.as_slice());
        assert(nothing@ =~= Seq::<char>::empty());
        assert(remove_each(before, ts.skip(i as int)) == remove_each(
            replace_all(before, ts.skip(i as int)[0], Seq::empty()),
            ts.skip(i as int).drop_first(),
        ));
        i = i + 1;
    }
    assert(ts.skip(tags@.len() as int) =~= Seq::<Seq<char>>::empty());
    cur
}

/// The spoken text of a subtitle file.
pub fn vtt_subtitle_text(vtt: &str) -> (r: String)
    ensures
        r@ == subtitle_text(vtt@),
{
    let chars = to_chars(vtt);
    let ls = lines(chars.as_slice());
    let ghost sl = lines_of(vtt@);
    let header = vec!['W', 'E', 'B', 'V', 'T', 'T'];
    let note_word = vec!['N', 'O', 'T', 'E'];
    let timing = vec!['-', '-', '>'];
    let tags = cue_tag_list();
    assert(Seq::new(tags@.len(), |k: int| tags@[k]@) =~= cue_tags());
    let mut out: Vec<char> = Vec::new();
    let mut count: usize = 0;
    let ghost mut kept: Seq<Seq<char>> = Seq::empty();
    let mut i: usize = 0;
    while i < ls.len()
        invariant
            i <= ls@.len(),
            sl == lines_of(vtt@),
            ls@.len() == sl.len(),
            forall|k: int| 0 <= k < ls@.len() ==> (#[trigger] ls@[k])@ == sl[k],
            header@ == webvtt(),
            note_word@ == note(),
            timing@ == arrow(),
            Seq::new(tags@.len(), |k: int| tags@[k]@) == cue_tags(),
            tags@.len() == cue_tags().len(),
            forall|k: int| 0 <= k < tags@.len() ==> (#[trigger] tags@[k])@ == cue_tags()[k],
            subtitle_fold(sl.take(i as int)) == kept,
            out@ == join_sep(kept, seq![' ']),
            count == kept.len(),
            count <= i,
        decreases ls@.len() - i,
    {
        assert(sl.take(i + 1).drop_last() =~= sl.take(i as int));
        assert(sl.take(i + 1).last() == ls@[i as int]@);
        let line = trim_chars(ls[i].as_slice());
        let skip = line.len() == 0 || matches_at(line.as_slice(), header.as_slice(), 0)
            || matches_at(line.as_slice(), note_word.as_slice(), 0) || contains_chars(
            line.as_slice(),
            timing.as_slice(),
        ) || timing_like_chars(line.as_slice());
        if !skip {
            assert forall|k: int| 0 <= k < tags@.len() implies (#[trigger] tags@[k])@.len() > 0 by {
                assert(tags@[k]@ == cue_tags()[k]);
            }
            let untimed = strip_timestamp_tags(line.as_slice());
            let stripped = remove_tags(untimed.as_slice(), &tags);
            let cleaned = trim_chars(stripped.as_slice());
            if cleaned.len() > 0 {
                proof {
                    lemma_join_sep_push(kept, cleaned@, seq![' ']);
                    kept = kept.push(cleaned@);
                }
                append_part(&mut out, count == 0, cleaned.as_slice(), &[' ']);
                count = count + 1;
            }
        }
        i = i + 1;
    }
    assert(sl.take(ls@.len() as int) =~= sl);
    let collapsed = collapse_ws_chars(out.as_slice());
    from_chars(collapsed.as_slice())
}

/// A character of subtitle text without tags: not `<`, and `White_Space`
/// only as a space or a line feed.
pub open spec fn untagged_char(c: char) -> bool {
    c != '<' && (is_white_space(c) ==> c == ' ' || c == '\n')
}

/// A line as the subtitle fold keeps it: non-empty, trimmed, not a line that
/// is skipped, without `<`, its only `White_Space` single spaces.
spec fn kept_line(e: Seq<char>) -> bool {
    &&& e.len() > 0
    &&& !is_white_space(e[0])
    &&& !is_white_space(e.last())
    &&& !skipped_subtitle_line(e)
    &&& forall|i: int| 0 <= i < e.len() ==> #[trigger] e[i] != '<'
    &&& spaces_only(e)
}

proof fn lemma_strip_timestamps_from_untagged(s: Seq<char>, i: int)
    requires
        0 <= i <= s.len(),
        forall|k: int| 0 <= k < s.len() ==> #[trigger] s[k] != '<',
    ensures
        strip_timestamps_from(s, i) == s.skip(i),
    decreases s.len() - i,
{
    if i < s.len() {
        assert(timestamp_tag_end(s, i) is None);
        lemma_strip_timestamps_from_untagged(s, i + 1);
        assert(seq![s[i]] + s.skip(i + 1) =~= s.skip(i));
    } else {
        assert(s.skip(i) =~= Seq::<char>::empty());
    }
}

proof fn lemma_remove_each_untagged(s: Seq<char>, tags: Seq<Seq<char>>)
    requires
        forall|k: int| 0 <= k < s.len() ==> #[trigger] s[k] != '<',
        forall|k: int| 0 <= k < tags.len() ==> (#[trigger] tags[k]).len() > 0 && tags[k][0] == '<',
    ensures
        remove_each(s, tags) == s,
    decreases tags.len(),
{
    if tags.len() > 0 {
        let pat = tags[0];
        lemma_first_occurrence(s, pat, 0);
        match first_occurrence(s, pat, 0) {
            Some(k) => {
                assert(s.subrange(k, k + pat.len())[0] == pat[0]);
            },
            None => {},
        }
        let rest = tags.drop_first();
        assert forall|k: int| 0 <= k < rest.len() implies (#[trigger] rest[k]).len() > 0
            && rest[k][0] == '<' by {
            assert(rest[k] == tags[k + 1]);
        }
        lemma_remove_each_untagged(s, rest);
    }
}

proof fn lemma_cue_tags_open()
    ensures
        forall|k: int|
            0 <= k < cue_tags().len() ==> (#[trigger] cue_tags()[k]).len() > 0 && cue_tags()[k][0]
                == '<',
{
    assert forall|k: int| 0 <= k < cue_tags().len() implies (#[trigger] cue_tags()[k]).len() > 0
        && cue_tags()[k][0] == '<' by {
        let t = cue_tags()[k];
        if k == 0 {
            assert(t == seq!['<', 'c', '>']);
        } else if k == 1 {
            assert(t == seq!['<', '/', 'c', '>']);
        } else if k == 2 {
            assert(t == seq!['<', 'v', ' ']);
        } else if k == 3 {
            assert(t == seq!['<', '/', 'v', '>']);
        } else if k == 4 {
            assert(t == seq!['<', 'b', '>']);
        } else if k == 5 {
            assert(t == seq!['<', '/', 'b', '>']);
        } else if k == 6 {
            assert(t == seq!['<', 'i', '>']);
        } else if k == 7 {
            assert(t == seq!['<', '/', 'i', '>']);
        } else if k == 8 {
            assert(t == seq!['<', 'u', '>']);
        } else {
            assert(t == seq!['<', '/', 'u', '>']);
        }
    }
}

proof fn lemma_markers_ws_free()
    ensures
        ws_free(webvtt()),
        ws_free(note()),
        ws_free(arrow()),
{
    let w = webvtt();
    assert forall|i: int| 0 <= i < w.len() implies !is_white_space(#[trigger] w[i]) by {
        assert(w[0] == 'W' && w[1] == 'E' && w[2] == 'B' && w[3] == 'V' && w[4] == 'T' && w[5] == 'T');
    }
    let n = note();
    assert forall|i: int| 0 <= i < n.len() implies !is_white_space(#[trigger] n[i]) by {
        assert(n[0] == 'N' && n[1] == 'O' && n[2] == 'T' && n[3] == 'E');
    }
    let a = arrow();
    assert forall|i: int| 0 <= i < a.len() implies !is_white_space(#[trigger] a[i]) by {
        assert(a[0] == '-' && a[1] == '-' && a[2] == '>');
    }
}

proof fn lemma_subtitle_fold_kept(ls: Seq<Seq<char>>)
    requires
        forall|k: int, j: int|
            0 <= k < ls.len() && 0 <= j < ls[k].len() ==> #[trigger] ls[k][j] != '<'
                && (is_white_space(ls[k][j]) ==> ls[k][j] == ' '),
    ensures
        forall|k: int| 0 <= k < subtitle_fold(ls).len() ==> kept_line(#[trigger] subtitle_fold(ls)[k]),
    decreases ls.len(),
{
    if ls.len() > 0 {
        let before = ls.drop_last();
        assert forall|k: int, j: int| 0 <= k < before.len() && 0 <= j < before[k].len() implies #[trigger] before[k][j] != '<'
            && (is_white_space(before[k][j]) ==> before[k][j] == ' ') by {
            assert(before[k] == ls[k]);
        }
        lemma_subtitle_fold_kept(before);
        let kept = subtitle_fold(before);
        let raw = ls.last();
        let line = trim(raw);
        lemma_trim_is_subrange(raw);
        let (a, b) = choose|a: int, b: int| 0 <= a <= b <= raw.len() && #[trigger] trim(raw) == raw.subrange(a, b);
        assert forall|i: int| 0 <= i < line.len() implies #[trigger] line[i] != '<' && (
        is_white_space(line[i]) ==> line[i] == ' ') by {
            assert(line[i] == raw[a + i]);
            assert(ls[ls.len() - 1][a + i] == raw[a + i]);
        }
        if !skipped_subtitle_line(line) {
            lemma_strip_timestamps_from_untagged(line, 0);
            assert(line.skip(0) =~= line);
            lemma_cue_tags_open();
            lemma_remove_each_untagged(line, cue_tags());
            lemma_trim_idempotent(raw);
            lemma_trim_ends(raw);
            if line.len() > 0 {
                let out = kept.push(line);
                assert(subtitle_fold(ls) == out);
                assert forall|k: int| 0 <= k < out.len() implies kept_line(#[trigger] out[k]) by {
                    if k < kept.len() {
                        assert(out[k] == kept[k]);
                    }
                }
            }
        }
    }
}

proof fn lemma_subtitle_fold_grows(ls: Seq<Seq<char>>, m: int, n: int)
    requires
        0 <= m <= n <= ls.len(),
    ensures
        subtitle_fold(ls.take(m)).len() <= subtitle_fold(ls.take(n)).len(),
        forall|i: int|
            0 <= i < subtitle_fold(ls.take(m)).len() ==> subtitle_fold(ls.take(n))[i]
                == #[trigger] subtitle_fold(ls.take(m))[i],
    decreases n - m,
{
    if m < n {
        lemma_subtitle_fold_grows(ls, m, n - 1);
        assert(ls.take(n).drop_last() =~= ls.take(n - 1));
        let a = subtitle_fold(ls.take(n - 1));
        let b = subtitle_fold(ls.take(n));
        assert forall|i: int| 0 <= i < subtitle_fold(ls.take(m)).len() implies b[i]
            == #[trigger] subtitle_fold(ls.take(m))[i] by {
            assert(b[i] == a[i]);
        }
    }
}

/// No line of spoken text is lost: a subtitle line that, trimmed, is not
/// empty, not a header, note or timing line, holds a character other than a
/// digit, colon, dot or space, and has no tag and only single spaces, shows
/// up in the text the summary command extracts.
pub proof fn lemma_subtitle_text_keeps_line(vtt: Seq<char>, k: int)
    requires
        0 <= k < lines_of(vtt).len(),
        trim(lines_of(vtt)[k]).len() > 0,
        !starts_with(trim(lines_of(vtt)[k]), webvtt()),
        !starts_with(trim(lines_of(vtt)[k]), note()),
        !contains_pat(trim(lines_of(vtt)[k]), arrow()),
        exists|i: int|
            0 <= i < trim(lines_of(vtt)[k]).len() && !(char_is_numeric(
                #[trigger] trim(lines_of(vtt)[k])[i],
            ) || trim(lines_of(vtt)[k])[i] == ':' || trim(lines_of(vtt)[k])[i] == '.' || trim(
                lines_of(vtt)[k],
            )[i] == ' '),
        forall|i: int|
            0 <= i < trim(lines_of(vtt)[k]).len() ==> #[trigger] trim(lines_of(vtt)[k])[i] != '<',
        spaces_only(trim(lines_of(vtt)[k])),
        single_spaced(trim(lines_of(vtt)[k])),
    ensures
        contains_pat(subtitle_text(vtt), trim(lines_of(vtt)[k])),
{
    let ls = lines_of(vtt);
    let raw = ls[k];
    let line = trim(raw);
    assert(!timing_like(line));
    assert(!skipped_subtitle_line(line));
    lemma_strip_timestamps_from_untagged(line, 0);
    assert(line.skip(0) =~= line);
    lemma_cue_tags_open();
    lemma_remove_each_untagged(line, cue_tags());
    lemma_trim_idempotent(raw);
    lemma_trim_ends(raw);
    assert(ls.take(k + 1).drop_last() =~= ls.take(k));
    assert(ls.take(k + 1).last() == raw);
    let before = subtitle_fold(ls.take(k));
    assert(subtitle_fold(ls.take(k + 1)) == before.push(line));
    lemma_subtitle_fold_grows(ls, k + 1, ls.len() as int);
    assert(ls.take(ls.len() as int) =~= ls);
    let all = subtitle_fold(ls);
    assert(all[before.len() as int] == before.push(line)[before.len() as int]);
    lemma_join_contains(all, seq![' '], before.len() as int);
    let joined = join_sep(all, seq![' ']);
    let i = choose|i: int| occurs_at(joined, line, i);
    lemma_squeeze_keeps_window(joined, line, i);
    let q = squeeze_ws(joined);
    let i2 = choose|i2: int| occurs_at(q, line, i2);
    lemma_trim_keeps_window(q, line, i2);
}

/// Cleaning subtitle text is idempotent: the text that `subtitle_text`
/// extracts from a file without tags, whose only `White_Space` is spaces and
/// line feeds, is left unchanged by a second cleaning.
pub proof fn lemma_subtitle_text_idempotent(vtt: Seq<char>)
    requires
        forall|i: int| 0 <= i < vtt.len() ==> untagged_char(#[trigger] vtt[i]),
    ensures
        subtitle_text(subtitle_text(vtt)) == subtitle_text(vtt),
{
    let ls = lines_of(vtt);
    lemma_lines_chars(vtt, |c: char| untagged_char(c));
    lemma_lines_have_no_newline(vtt);
    assert forall|k: int, j: int| 0 <= k < ls.len() && 0 <= j < ls[k].len() implies #[trigger] ls[k][j] != '<'
        && (is_white_space(ls[k][j]) ==> ls[k][j] == ' ') by {
        assert(untagged_char(ls[k][j]));
        assert(!ls[k].contains('\n'));
    }
    lemma_subtitle_fold_kept(ls);
    let parts = subtitle_fold(ls);
    let space = seq![' '];
    assert(is_white_space(space[0]));
    let joined = join_sep(parts, space);
    let q = squeeze_ws(joined);
    let o = subtitle_text(vtt);
    assert(o == trim(q));
    if parts.len() == 0 {
        assert(o =~= Seq::<char>::empty());
        assert(lines_of(o) =~= Seq::<Seq<char>>::empty());
    } else {
        let first = parts[0];
        assert(kept_line(first));
        lemma_join_first(parts, space);
        assert(joined[0] == joined.take(first.len() as int)[0]);
        lemma_squeeze_shape(joined);
        assert(trim_start(q) == q);
        lemma_trim_end_keeps(q, 0);
        lemma_trim_ends(q);
        let n = o.len() as int;
        assert(o == q.take(n));
        // What `o` holds: no `<`, single spaces only, hence no line feed.
        assert forall|k: int, j: int| 0 <= k < parts.len() && 0 <= j < parts[k].len() implies #[trigger] parts[k][j] != '<' by {
            assert(kept_line(parts[k]));
        }
        lemma_join_lacks(parts, space, '<');
        lemma_squeeze_lacks(joined, '<');
        assert forall|i: int| 0 <= i < o.len() implies #[trigger] o[i] != '<' && (is_white_space(o[i]) ==> o[i] == ' ') by {
            assert(o[i] == q[i]);
        }
        assert(spaces_only(o));
        assert(single_spaced(o)) by {
            assert forall|j: int, k: int| 0 <= j && k == j + 1 && k < o.len() implies !(
            is_white_space(#[trigger] o[j]) && is_white_space(#[trigger] o[k])) by {
                assert(o[j] == q[j] && o[k] == q[k]);
            }
        }
        assert(!o.contains('\n')) by {
            if o.contains('\n') {
                let i = choose|i: int| 0 <= i < o.len() && o[i] == '\n';
                assert(is_white_space(o[i]));
            }
        }
        // A second pass sees `o` as its only line.
        lemma_split_on_whole(o, '\n');
        assert(lines_of(o) =~= seq![o]);
        assert(seq![o].drop_last() =~= Seq::<Seq<char>>::empty());
        lemma_trim_fixed(o);
        // That line is not skipped.
        lemma_markers_ws_free();
        assert(!starts_with(o, webvtt())) by {
            if starts_with(o, webvtt()) {
                assert(q.subrange(0, webvtt().len() as int) =~= o.subrange(0, webvtt().len() as int));
                lemma_squeeze_prefix(joined, webvtt());
                lemma_join_prefix(parts, space, webvtt());
            }
        }
        assert(!starts_with(o, note())) by {
            if starts_with(o, note()) {
                assert(q.subrange(0, note().len() as int) =~= o.subrange(0, note().len() as int));
                lemma_squeeze_prefix(joined, note());
                lemma_join_prefix(parts, space, note());
            }
        }
        assert(!contains_pat(o, arrow())) by {
            if contains_pat(o, arrow()) {
                let i = choose|i: int| occurs_at(o, arrow(), i);
                assert(q.subrange(i, i + arrow().len()) =~= o.subrange(i, i + arrow().len()));
                lemma_squeeze_occurs(joined, arrow(), i);
                let j = choose|j: int| occurs_at(joined, arrow(), j);
                lemma_join_occurs(parts, space, arrow(), j);
                let k = choose|k: int| 0 <= k < parts.len() && contains_pat(#[trigger] parts[k], arrow());
                assert(kept_line(parts[k]));
            }
        }
        assert(!timing_like(o)) by {
            if timing_like(o) {
                assert forall|i: int| 0 <= i < first.len() implies char_is_numeric(#[trigger] first[i])
                    || first[i] == ':' || first[i] == '.' || first[i] == ' ' by {
                    if !is_white_space(first[i]) {
                        assert(joined[i] == joined.take(first.len() as int)[i]);
                        lemma_squeeze_keeps(joined, i);
                        let k = choose|k: int| 0 <= k < q.len() && q[k] == joined[i];
                        lemma_trim_end_keeps(q, k);
                        assert(o[k] == q[k]);
                    }
                }
                assert(timing_like(first));
            }
        }
        assert(!skipped_subtitle_line(o));
        // Cleaning the line leaves it as it is, and so does joining and collapsing.
        lemma_strip_timestamps_from_untagged(o, 0);
        assert(o.skip(0) =~= o);
        lemma_cue_tags_open();
        lemma_remove_each_untagged(o, cue_tags());
        assert(strip_timestamps(o) == o);
        assert(remove_each(strip_timestamps(o), cue_tags()) == o);
        assert(subtitle_step(Seq::<Seq<char>>::empty(), o) =~= seq![o]);
        assert(subtitle_fold(Seq::<Seq<char>>::empty()) == Seq::<Seq<char>>::empty());
        assert(seq![o].last() == o);
        assert(subtitle_fold(seq![o]) == seq![o]);
        assert(join_sep(seq![o], space) == o);
        lemma_squeeze_fixed(o);
    }
}

/// `s` with every HTML tag replaced by a space, as the regex `<[^>]+>`
/// replaced by `" "` leaves it: a `<` followed by at least one character
/// other than `>` and then a `>` is a tag, ending at the first `>`.
pub open spec fn replace_tags(s: Seq<char>) -> Seq<char>
    decreases s.len(),
{
    if s.len() == 0 {
        Seq::empty()
    } else if s[0] == '<' && s.len() >= 2 && s[1] != '>' {
        match first_occurrence(s, seq!['>'], 1) {
            Some(j) => if 1 <= j < s.len() {
                seq![' '] + replace_tags(s.skip(j + 1))
            } else {
                s
            },
            None => seq![s[0]] + replace_tags(s.drop_first()),
        }
    } else {
        seq![s[0]] + replace_tags(s.drop_first())
    }
}

/// `regex::Regex::replace_all` with the pattern `<[^>]+>` and the
/// replacement `" "`: the contract claims leftmost-first, non-overlapping
/// matches of that pattern, each replaced by one space.
#[verifier::external_body]
fn regex_replace_tags(s: &str) -> (r: String)
    ensures
        r@ == replace_tags(s@),
{
    let re = regex::Regex::new(r"<[^>]+>").unwrap();
    re.replace_all(s, " ").into_owned()
}

/// `regex::Regex::replace_all` with the pattern `\s+` and the replacement
/// `" "`: the contract claims that every maximal run of Unicode
/// `White_Space` characters (what `\s` means in the regex crate) becomes one
/// space.
#[verifier::external_body]
fn regex_squeeze_whitespace(s: &str) -> (r: String)
    ensures
        r@ == squeeze_ws(s@),
{
    let re = regex::Regex::new(r"\s+").unwrap();
    re.replace_all(s, " ").into_owned()
}

/// The entity that starts `s`, if any, among `&amp;`, `&lt;`, `&gt;`,
/// `&quot;`, `&#39;` and `&nbsp;`: its length and the character it stands for.
pub open spec fn leading_entity(s: Seq<char>) -> Option<(int, char)> {
    if occurs_at(s, seq!['&', 'a', 'm', 'p', ';'], 0) {
        Some((5, '&'))
    } else if occurs_at(s, seq!['&', 'l', 't', ';'], 0) {
        Some((4, '<'))
    } else if occurs_at(s, seq!['&', 'g', 't', ';'], 0) {
        Some((4, '>'))
    } else if occurs_at(s, seq!['&', 'q', 'u', 'o', 't', ';'], 0) {
        Some((6, '"'))
    } else if occurs_at(s, seq!['&', '#', '3', '9', ';'], 0) {
        Some((5, '\''))
    } else if occurs_at(s, seq!['&', 'n', 'b', 's', 'p', ';'], 0) {
        Some((6, ' '))
    } else {
        None
    }
}

/// HTML entity decoding in one pass from left to right: each of the six
/// entities is replaced by its character once, and what a replacement
/// produces is never read again (so `&amp;lt;` becomes `&lt;`).
pub open spec fn decode_entities(s: Seq<char>) -> Seq<char>
    decreases s.len(),
{
    if s.len() == 0 {
        Seq::empty()
    } else {
        match leading_entity(s) {
            Some((n, c)) => if 0 < n <= s.len() {
                seq![c] + decode_entities(s.skip(n))
            } else {
                seq![s[0]] + decode_entities(s.skip(1))
            },
            None => seq![s[0]] + decode_entities(s.skip(1)),
        }
    }
}

/// Text without `<` holds no tag, so tag replacement leaves it unchanged.
proof fn lemma_replace_tags_untagged(s: Seq<char>)
    requires
        forall|i: int| 0 <= i < s.len() ==> #[trigger] s[i] != '<',
    ensures
        replace_tags(s) == s,
    decreases s.len(),
{
    if s.len() > 0 {
        let t = s.drop_first();
        assert forall|i: int| 0 <= i < t.len() implies #[trigger] t[i] != '<' by {
            assert(t[i] == s[i + 1]);
        }
        lemma_replace_tags_untagged(t);
        assert(seq![s[0]] + t =~= s);
    }
}

/// No entity starts at a character other than `&`.
proof fn lemma_no_leading_entity(s: Seq<char>)
    requires
        s.len() > 0,
        s[0] != '&',
    ensures
        leading_entity(s) is None,
{
    let pats = seq![
        seq!['&', 'a', 'm', 'p', ';'],
        seq!['&', 'l', 't', ';'],
        seq!['&', 'g', 't', ';'],
        seq!['&', 'q', 'u', 'o', 't', ';'],
        seq!['&', '#', '3', '9', ';'],
        seq!['&', 'n', 'b', 's', 'p', ';'],
    ];
    assert forall|k: int| 0 <= k < 6 implies !occurs_at(s, #[trigger] pats[k], 0) by {
        if occurs_at(s, pats[k], 0) {
            assert(s.subrange(0, pats[k].len() as int)[0] == s[0]);
            assert(pats[k][0] == '&');
        }
    }
    assert(!occurs_at(s, pats[0], 0));
    assert(!occurs_at(s, pats[1], 0));
    assert(!occurs_at(s, pats[2], 0));
    assert(!occurs_at(s, pats[3], 0));
    assert(!occurs_at(s, pats[4], 0));
    assert(!occurs_at(s, pats[5], 0));
}

/// Text without `&` passes through entity decoding unchanged, and the text
/// after it is decoded on its own.
pub proof fn lemma_decode_entities_plain_prefix(w: Seq<char>, t: Seq<char>)
    requires
        forall|i: int| 0 <= i < w.len() ==> #[trigger] w[i] != '&',
    ensures
        decode_entities(w + t) == w + decode_entities(t),
    decreases w.len(),
{
    if w.len() > 0 {
        let s = w + t;
        lemma_no_leading_entity(s);
        let w1 = w.drop_first();
        assert forall|i: int| 0 <= i < w1.len() implies #[trigger] w1[i] != '&' by {
            assert(w1[i] == w[i + 1]);
        }
        lemma_decode_entities_plain_prefix(w1, t);
        assert(s.skip(1) =~= w1 + t);
        assert(seq![w[0]] + (w1 + decode_entities(t)) =~= w + decode_entities(t));
    } else {
        assert(w + t =~= t);
        assert(w + decode_entities(t) =~= decode_entities(t));
    }
}

/// Escaped markup is text, never a tag: for a page without `<`, the plain
/// text is its entity decoding with whitespace collapsed, whatever `<` and
/// `>` the decoding produces.
pub proof fn lemma_page_text_without_tags(html: Seq<char>)
    requires
        forall|i: int| 0 <= i < html.len() ==> #[trigger] html[i] != '<',
    ensures
        page_text(html) == trim(squeeze_ws(decode_entities(html))),
{
    lemma_replace_tags_untagged(html);
}

/// An escaped tag name comes out as the tag itself: `&lt;name&gt;` gives
/// `<name>` for every name without whitespace, `<` or `&`.
pub proof fn lemma_page_text_escaped_tag(name: Seq<char>)
    requires
        ws_free(name),
        forall|i: int| 0 <= i < name.len() ==> #[trigger] name[i] != '<' && name[i] != '&',
    ensures
        page_text(seq!['&', 'l', 't', ';'] + name + seq!['&', 'g', 't', ';']) == seq!['<'] + name
            + seq!['>'],
{
    let lt = seq!['&', 'l', 't', ';'];
    let gt = seq!['&', 'g', 't', ';'];
    let html = lt + name + gt;
    assert forall|i: int| 0 <= i < html.len() implies #[trigger] html[i] != '<' by {
        if i < 4 {
            assert(html[i] == lt[i]);
        } else if i < 4 + name.len() {
            assert(html[i] == name[i - 4]);
        } else {
            assert(html[i] == gt[i - 4 - name.len()]);
        }
    }
    lemma_page_text_without_tags(html);
    // decoding
    assert(occurs_at(html, lt, 0)) by {
        assert(html.subrange(0, 4) =~= lt);
    }
    assert(leading_entity(html) == Some((4int, '<'))) by {
        assert(!occurs_at(html, seq!['&', 'a', 'm', 'p', ';'], 0)) by {
            if occurs_at(html, seq!['&', 'a', 'm', 'p', ';'], 0) {
                assert(html.subrange(0, 5)[1] == html[1]);
            }
        }
    }
    assert(html.skip(4) =~= name + gt);
    lemma_decode_entities_plain_prefix(name, gt);
    assert(occurs_at(gt, seq!['&', 'a', 'm', 'p', ';'], 0) == false);
    assert(!occurs_at(gt, seq!['&', 'l', 't', ';'], 0)) by {
        if occurs_at(gt, seq!['&', 'l', 't', ';'], 0) {
            assert(gt.subrange(0, 4)[1] == gt[1]);
        }
    }
    assert(occurs_at(gt, gt, 0)) by {
        assert(gt.subrange(0, 4) =~= gt);
    }
    assert(leading_entity(gt) == Some((4int, '>')));
    assert(gt.skip(4) =~= Seq::<char>::empty());
    assert(decode_entities(Seq::<char>::empty()) == Seq::<char>::empty());
    assert(decode_entities(gt) == seq!['>'] + decode_entities(gt.skip(4)));
    assert(decode_entities(gt) =~= seq!['>']);
    let d = seq!['<'] + name + seq!['>'];
    assert(decode_entities(html) =~= d);
    // nothing to collapse or trim
    assert(ws_free(d)) by {
        assert forall|i: int| 0 <= i < d.len() implies !is_white_space(#[trigger] d[i]) by {
            if 0 < i < d.len() - 1 {
                assert(d[i] == name[i - 1]);
            }
        }
    }
    assert(single_spaced(d));
    assert(spaces_only(d));
    lemma_squeeze_fixed(d);
    lemma_trim_fixed(d);
}

/// Decodes `&amp;`, `&lt;`, `&gt;`, `&quot;`, `&#39;` and `&nbsp;` in one
/// pass.
pub fn decode_entities_chars(s: &[char]) -> (r: Vec<char>)
    ensures
        r@ == decode_entities(s@),
{
    let amp = ['&', 'a', 'm', 'p', ';'];
    let lt = ['&', 'l', 't', ';'];
    let gt = ['&', 'g', 't', ';'];
    let quot = ['&', 'q', 'u', 'o', 't', ';'];
    let apos = ['&', '#', '3', '9', ';'];
    let nbsp = ['&', 'n', 'b', 's', 'p', ';'];
    assert(amp@ =~= seq!['&', 'a', 'm', 'p', ';']);
    assert(lt@ =~= seq!['&', 'l', 't', ';']);
    assert(gt@ =~= seq!['&', 'g', 't', ';']);
    assert(quot@ =~= seq!['&', 'q', 'u', 'o', 't', ';']);
    assert(apos@ =~= seq!['&', '#', '3', '9', ';']);
    assert(nbsp@ =~= seq!['&', 'n', 'b', 's', 'p', ';']);
    let mut out: Vec<char> = Vec::new();
    let mut i: usize = 0;
    assert(s@.skip(0) =~= s@);
    assert(out@ + decode_entities(s@) =~= decode_entities(s@));
    while i < s.len()
        invariant
            i <= s@.len(),
            amp@ == seq!['&', 'a', 'm', 'p', ';'],
            lt@ == seq!['&', 'l', 't', ';'],
            gt@ == seq!['&', 'g', 't', ';'],
            quot@ == seq!['&', 'q', 'u', 'o', 't', ';'],
            apos@ == seq!['&', '#', '3', '9', ';'],
            nbsp@ == seq!['&', 'n', 'b', 's', 'p', ';'],
            out@ + decode_entities(s@.skip(i as int)) == decode_entities(s@),
        decreases s@.len() - i,
    {
        let ghost rest = s@.skip(i as int);
        proof {
            assert forall|pat: Seq<char>| occurs_at(s@, pat, i as int) == occurs_at(rest, pat, 0) by {
                if i + pat.len() <= s@.len() {
                    assert(s@.subrange(i as int, i + pat.len()) =~= rest.subrange(0, pat.len() as int));
                }
            }
        }
        let (n, c): (usize, char) = if matches_at(s, &amp, i) {
            (5, '&')
        } else if matches_at(s, &lt, i) {
            (4, '<')
        } else if matches_at(s, &gt, i) {
            (4, '>')
        } else if matches_at(s, &quot, i) {
            (6, '"')
        } else if matches_at(s, &apos, i) {
            (5, '\'')
        } else if matches_at(s, &nbsp, i) {
            (6, ' ')
        } else {
            (1, s[i])
        };
        proof {
            assert(rest.len() > 0);
            assert(rest[0] == s@[i as int]);
            assert(n <= rest.len());
            assert(rest.skip(n as int) =~= s@.skip(i + n));
            assert(decode_entities(rest) == seq![c] + decode_entities(rest.skip(n as int)));
        }
        let ghost before = out@;
        out.push(c);
        assert(out@ =~= before + seq![c]);
        assert(out@ + decode_entities(s@.skip(i + n)) =~= before + (seq![c] + decode_entities(rest.skip(n as int))));
        i = i + n;
    }
    assert(s@.skip(s@.len() as int) =~= Seq::<char>::empty());
    assert(out@ + Seq::<char>::empty() =~= out@);
    out
}

/// The plain text of a page, as the ranking command extracts it: tags become
/// spaces, entities are decoded, whitespace runs become one space, the ends
/// are trimmed.
pub open spec fn page_text(html: Seq<char>) -> Seq<char> {
    trim(squeeze_ws(decode_entities(replace_tags(html))))
}

/// The plain text of a page.
pub fn html_page_text(html: &str) -> (r: String)
    ensures
        r@ == page_text(html@),
{
    let untagged = regex_replace_tags(html);
    let chars = to_chars(untagged.as_str());
    let decoded = decode_entities_chars(chars.as_slice());
    let decoded_str = from_chars(decoded.as_slice());
    let squeezed = regex_squeeze_whitespace(decoded_str.as_str());
    let squeezed_chars = to_chars(squeezed.as_str());
    let t = trim_chars(squeezed_chars.as_slice());
    from_chars(t.as_slice())
}

pub open spec fn title_open() -> Seq<char> {
    seq!['<', 't', 'i', 't', 'l', 'e']
}

pub open spec fn title_close() -> Seq<char> {
    seq!['<', '/', 't', 'i', 't', 'l', 'e', '>']
}

/// The first capture of the regex `<title[^>]*>(.*?)</title>` searched from
/// position `from`: an opening `<title` up to the first `>` after it, then
/// the text up to the first `</title>`, which must hold no line feed (`.`
/// does not match one); when it does, the search moves past that `<title`.
pub open spec fn title_from(s: Seq<char>, from: int) -> Option<Seq<char>>
    decreases s.len() - from,
{
    match first_occurrence(s, title_open(), from) {
        None => None,
        Some(i) => if i < from || i >= s.len() {
            None
        } else {
            match first_occurrence(s, seq!['>'], i + 6) {
                None => None,
                Some(g) => match first_occurrence(s, title_close(), g + 1) {
                    None => None,
                    Some(j) => if g + 1 <= j && !s.subrange(g + 1, j).contains('\n') {
                        Some(s.subrange(g + 1, j))
                    } else {
                        title_from(s, i + 1)
                    },
                },
            }
        },
    }
}

/// The text between `<title…>` and `</title>`, as the title regex captures it.
pub open spec fn title_capture(html: Seq<char>) -> Option<Seq<char>> {
    title_from(html, 0)
}

/// `regex::Regex::captures` with the pattern `<title[^>]*>(.*?)</title>`,
/// group 1: the contract claims the leftmost match with the shortest title
/// text, as `title_capture` spells out.
#[verifier::external_body]
fn regex_title_capture(html: &str) -> (r: Option<String>)
    ensures
        match r {
            Some(t) => title_capture(html@) == Some(t@),
            None => title_capture(html@) is None,
        },
{
    let re = regex::Regex::new(r"<title[^>]*>(.*?)</title>").unwrap();
    re.captures(html).and_then(|caps| caps.get(1)).map(|m| m.as_str().to_string())
}

/// The page title: the captured title text, cleaned as page text.
pub open spec fn page_title(html: Seq<char>) -> Option<Seq<char>> {
    match title_capture(html) {
        Some(t) => Some(page_text(t)),
        None => None,
    }
}

/// The page title, if the page has one.
pub fn html_title(html: &str) -> (r: Option<String>)
    ensures
        match r {
            Some(t) => page_title(html@) == Some(t@),
            None => page_title(html@) is None,
        },
{
    match regex_title_capture(html) {
        Some(t) => Some(html_page_text(t.as_str())),
        None => None,
    }
}

/// Every block from `open` to the next `close` removed, searching again from
/// the start after each removal; an `open` with no `close` after it stops the
/// removal.
pub open spec fn remove_blocks(s: Seq<char>, open: Seq<char>, close: Seq<char>) -> Seq<char>
    decreases s.len(),
{
    match first_occurrence(s, open, 0) {
        None => s,
        Some(i) => match first_occurrence(s, close, i) {
            None => s,
            Some(j) => if 0 <= i <= j && j + close.len() <= s.len() && close.len() > 0 {
                remove_blocks(s.take(i) + s.skip(j + close.len()), open, close)
            } else {
                s
            },
        },
    }
}

/// Removes every `open`…`close` block.
pub fn remove_blocks_chars(s: &[char], open: &[char], close: &[char]) -> (r: Vec<char>)
    requires
        close@.len() > 0,
    ensures
        r@ == remove_blocks(s@, open@, close@),
{
    let mut cur: Vec<char> = slice_chars(s, 0, s.len());
    assert(s@.subrange(0, s@.len() as int) =~= s@);
    loop
        invariant
            close@.len() > 0,
            remove_blocks(cur@, open@, close@) == remove_blocks(s@, open@, close@),
        decreases cur@.len(),
    {
        let i = match find_from(cur.as_slice(), open, 0) {
            Some(i) => i,
            None => {
                return cur;
            },
        };
        proof {
            lemma_first_occurrence(cur@, open@, 0);
        }
        let j = match find_from(cur.as_slice(), close, i) {
            Some(j) => j,
            None => {
                return cur;
            },
        };
        proof {
            lemma_first_occurrence(cur@, close@, i as int);
        }
        assert(cur@.len() == cur.len());
        let mut next = slice_chars(cur.as_slice(), 0, i);
        let tail = slice_chars(cur.as_slice(), j + close.len(), cur.len());
        crate::text::push_all(&mut next, tail.as_slice());
        assert(next@ =~= cur@.take(i as int) + cur@.skip(j + close@.len()));
        cur = next;
    }
}

pub open spec fn script_open() -> Seq<char> {
    seq!['<', 's', 'c', 'r', 'i', 'p', 't']
}

pub open spec fn script_close() -> Seq<char> {
    seq!['<', '/', 's', 'c', 'r', 'i', 'p', 't', '>']
}

pub open spec fn style_open() -> Seq<char> {
    seq!['<', 's', 't', 'y', 'l', 'e']
}

pub open spec fn style_close() -> Seq<char> {
    seq!['<', '/', 's', 't', 'y', 'l', 'e', '>']
}

/// The plain text of a page, as the summary command extracts it: script and
/// style blocks removed, tags replaced by spaces, words joined by single
/// spaces, at most `max_chars` characters.
pub open spec fn summary_page_text(html: Seq<char>, max_chars: nat) -> Seq<char> {
    let no_scripts = remove_blocks(html, script_open(), script_close());
    let no_styles = remove_blocks(no_scripts, style_open(), style_close());
    take_at_most(collapse_ws(replace_tags(no_styles)), max_chars)
}

/// The plain text of a page for summarising.
pub fn html_summary_text(html: &str, max_chars: usize) -> (r: String)
    ensures
        r@ == summary_page_text(html@, max_chars as nat),
{
    let chars = to_chars(html);
    let so = ['<', 's', 'c', 'r', 'i', 'p', 't'];
    let sc = ['<', '/', 's', 'c', 'r', 'i', 'p', 't', '>'];
    let yo = ['<', 's', 't', 'y', 'l', 'e'];
    let yc = ['<', '/', 's', 't', 'y', 'l', 'e', '>'];
    assert(so@ =~= script_open());
    assert(sc@ =~= script_close());
    assert(yo@ =~= style_open());
    assert(yc@ =~= style_close());
    let a = remove_blocks_chars(chars.as_slice(), &so, &sc);
    let b = remove_blocks_chars(a.as_slice(), &yo, &yc);
    let b_str = from_chars(b.as_slice());
    let untagged = regex_replace_tags(b_str.as_str());
    let u = to_chars(untagged.as_str());
    let collapsed = collapse_ws_chars(u.as_slice());
    let limited = take_chars(collapsed.as_slice(), max_chars);
    from_chars(limited.as_slice())
}

} // verus!
