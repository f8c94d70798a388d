//! Character-level building blocks shared by the command modules.
//!
//! Strings are modelled by their views, `Seq<char>`.  Byte lengths are the
//! UTF-8 lengths of those sequences, which is what `str::len` reports.
use vstd::prelude::*;

verus! {

broadcast use vstd::string::group_string_axioms;

/// `std::io::Error`, carried opaquely.
#[verifier::external_type_specification]
#[verifier::external_body]
pub struct ExIoError(std::io::Error);

/// `String::push` appends one character.
pub assume_specification[ String::push ](s: &mut String, ch: char)
    ensures
        final(s)@ == old(s)@.push(ch),
;

/// The characters with the Unicode `White_Space` property (PropList.txt).
pub open spec fn is_white_space(c: char) -> bool {
    let u = c as u32;
    ||| 0x9 <= u <= 0xD
    ||| u == 0x20
    ||| u == 0x85
    ||| u == 0xA0
    ||| u == 0x1680
    ||| 0x2000 <= u <= 0x200A
    ||| u == 0x2028
    ||| u == 0x2029
    ||| u == 0x202F
    ||| u == 0x205F
    ||| u == 0x3000
}

/// `char::is_whitespace` is true exactly of the `White_Space` characters.
pub assume_specification[ char::is_whitespace ](c: char) -> (b: bool)
    ensures
        b == is_white_space(c),
;

/// Number of bytes that UTF-8 uses for `c`.
pub open spec fn char_utf8_width(c: char) -> nat {
    let u = c as u32;
    if u < 0x80 {
        1
    } else if u < 0x800 {
        2
    } else if u < 0x10000 {
        3
    } else {
        4
    }
}

/// Byte length of the UTF-8 encoding of `s` (what `str::len` reports).
pub open spec fn utf8_len(s: Seq<char>) -> nat
    decreases s.len(),
{
    if s.len() == 0 {
        0
    } else {
        utf8_len(s.drop_last()) + char_utf8_width(s.last())
    }
}

pub proof fn lemma_utf8_len_concat(a: Seq<char>, b: Seq<char>)
    ensures
        utf8_len(a + b) == utf8_len(a) + utf8_len(b),
    decreases b.len(),
{
    if b.len() == 0 {
        assert(a + b =~= a);
    } else {
        lemma_utf8_len_concat(a, b.drop_last());
        assert((a + b).drop_last() =~= a + b.drop_last());
    }
}

pub proof fn lemma_utf8_len_bounds(s: Seq<char>)
    ensures
        s.len() <= utf8_len(s) <= 4 * s.len(),
    decreases s.len(),
{
    if s.len() > 0 {
        lemma_utf8_len_bounds(s.drop_last());
    }
}

/// The byte length of a subrange never exceeds that of the whole.
pub proof fn lemma_utf8_len_subrange(s: Seq<char>, a: int, b: int)
    requires
        0 <= a <= b <= s.len(),
    ensures
        utf8_len(s.subrange(a, b)) <= utf8_len(s),
{
    lemma_utf8_len_concat(s.take(a), s.subrange(a, b));
    lemma_utf8_len_concat(s.take(b), s.skip(b));
    assert(s.take(a) + s.subrange(a, b) =~= s.take(b));
    assert(s.take(b) + s.skip(b) =~= s);
}

/// Width in bytes of the UTF-8 encoding of `c`.
pub fn char_width(c: char) -> (w: u128)
    ensures
        w == char_utf8_width(c),
{
    let u = c as u32;
    if u < 0x80 {
        1
    } else if u < 0x800 {
        2
    } else if u < 0x10000 {
        3
    } else {
        4
    }
}

/// Byte length of the UTF-8 encoding of `s`, computed without overflow.
pub fn utf8_len_of(s: &[char]) -> (n: u128)
    ensures
        n == utf8_len(s@),
        n <= 4 * s@.len(),
{
    let mut n: u128 = 0;
    let mut i: usize = 0;
    while i < s.len()
        invariant
            i <= s@.len(),
            n == utf8_len(s@.take(i as int)),
            n <= 4 * i,
        decreases s@.len() - i,
    {
        let w = char_width(s[i]);
        assert(s@.take(i + 1).drop_last() =~= s@.take(i as int));
        n = n + w;
        i = i + 1;
    }
    assert(s@.take(s@.len() as int) =~= s@);
    n
}

/// The characters of `s`, in order.
pub fn to_chars(s: &str) -> (v: Vec<char>)
    ensures
        v@ == s@,
{
    let mut v: Vec<char> = Vec::new();
    for c in it: s.chars()
        invariant
            it.seq() == s@,
            v@ == s@.take(it.index() as int),
    {
        v.push(c);
    }
    assert(v@ =~= s@);
    v
}

/// The string made of the characters of `v`.
pub fn from_chars(v: &[char]) -> (s: String)
    ensures
        s@ == v@,
{
    let mut s = String::new();
    let mut i: usize = 0;
    while i < v.len()
        invariant
            i <= v@.len(),
            s@ == v@.take(i as int),
        decreases v@.len() - i,
    {
        s.push(v[i]);
        assert(v@.take(i + 1) =~= v@.take(i as int).push(v@[i as int]));
        i = i + 1;
    }
    assert(v@.take(v@.len() as int) =~= v@);
    s
}

/// Leading `White_Space` removed.
pub open spec fn trim_start(s: Seq<char>) -> Seq<char>
    decreases s.len(),
{
    if s.len() > 0 && is_white_space(s[0]) {
        trim_start(s.drop_first())
    } else {
        s
    }
}

/// Trailing `White_Space` removed.
pub open spec fn trim_end(s: Seq<char>) -> Seq<char>
    decreases s.len(),
{
    if s.len() > 0 && is_white_space(s.last()) {
        trim_end(s.drop_last())
    } else {
        s
    }
}

/// Leading and trailing `White_Space` removed, as `str::trim` does.
pub open spec fn trim(s: Seq<char>) -> Seq<char> {
    trim_end(trim_start(s))
}

/// Bounds `[a, b)` such that `trim(s) == s.subrange(a, b)`.
pub fn trim_bounds(s: &[char]) -> (r: (usize, usize))
    ensures
        r.0 <= r.1 <= s@.len(),
        trim(s@) == s@.subrange(r.0 as int, r.1 as int),
{
    let mut a: usize = 0;
    assert(s@.skip(0) =~= s@);
    while a < s.len() && s[a].is_whitespace()
        invariant
            a <= s@.len(),
            trim_start(s@) == trim_start(s@.skip(a as int)),
        decreases s@.len() - a,
    {
        assert(s@.skip(a as int).drop_first() =~= s@.skip(a + 1));
        a = a + 1;
    }
    let ghost t = s@.skip(a as int);
    assert(trim_start(s@) == t);
    let mut b: usize = s.len();
    while b > a && s[b - 1].is_whitespace()
        invariant
            a <= b <= s@.len(),
            t == s@.skip(a as int),
            trim_end(t) == trim_end(s@.subrange(a as int, b as int)),
        decreases b,
    {
        assert(s@.subrange(a as int, b as int).drop_last() =~= s@.subrange(a as int, b - 1));
        b = b - 1;
    }
    assert(t =~= s@.subrange(a as int, s@.len() as int));
    (a, b)
}

/// `trim` keeps a subrange, so it never adds bytes or line breaks.
pub proof fn lemma_trim_is_subrange(s: Seq<char>)
    ensures
        exists|a: int, b: int|
            0 <= a <= b <= s.len() && #[trigger] trim(s) == s.subrange(a, b),
    decreases s.len(),
{
    lemma_trim_start_is_suffix(s);
    let a = s.len() - trim_start(s).len();
    lemma_trim_end_is_prefix(trim_start(s));
    let b = a + trim(s).len();
    assert(trim(s) =~= s.subrange(a, b));
}

proof fn lemma_trim_start_is_suffix(s: Seq<char>)
    ensures
        trim_start(s).len() <= s.len(),
        trim_start(s) =~= s.skip(s.len() - trim_start(s).len()),
    decreases s.len(),
{
    if s.len() > 0 && is_white_space(s[0]) {
        lemma_trim_start_is_suffix(s.drop_first());
    }
}

proof fn lemma_trim_end_is_prefix(s: Seq<char>)
    ensures
        trim_end(s).len() <= s.len(),
        trim_end(s) =~= s.take(trim_end(s).len() as int),
    decreases s.len(),
{
    if s.len() > 0 && is_white_space(s.last()) {
        lemma_trim_end_is_prefix(s.drop_last());
    }
}

/// The trimmed characters of `s`.
pub fn trim_chars(s: &[char]) -> (r: Vec<char>)
    ensures
        r@ == trim(s@),
{
    let (a, b) = trim_bounds(s);
    let mut r: Vec<char> = Vec::new();
    let mut i: usize = a;
    while i < b
        invariant
            a <= i <= b <= s@.len(),
            r@ == s@.subrange(a as int, i as int),
        decreases b - i,
    {
        r.push(s[i]);
        assert(s@.subrange(a as int, i + 1) =~= s@.subrange(a as int, i as int).push(s@[i as int]));
        i = i + 1;
    }
    r
}

/// `str::trim`, as an owned string.
pub fn trim_str(s: &str) -> (r: String)
    ensures
        r@ == trim(s@),
{
    let v = to_chars(s);
    let t = trim_chars(v.as_slice());
    from_chars(t.as_slice())
}

/// The pieces of `s` between occurrences of `sep`, as `str::split` gives them.
pub open spec fn split_on(s: Seq<char>, sep: char) -> Seq<Seq<char>>
    decreases s.len(),
{
    if s.len() == 0 {
        seq![Seq::<char>::empty()]
    } else {
        let r = split_on(s.drop_last(), sep);
        if s.last() == sep {
            r.push(Seq::<char>::empty())
        } else {
            r.update(r.len() - 1, r.last().push(s.last()))
        }
    }
}

pub proof fn lemma_split_on_shape(s: Seq<char>, sep: char)
    ensures
        split_on(s, sep).len() >= 1,
        forall|k: int|
            0 <= k < split_on(s, sep).len() ==> !(#[trigger] split_on(s, sep)[k]).contains(sep),
    decreases s.len(),
{
    if s.len() > 0 {
        lemma_split_on_shape(s.drop_last(), sep);
        let r = split_on(s.drop_last(), sep);
        if s.last() != sep {
            assert forall|k: int| 0 <= k < split_on(s, sep).len() implies !(
            #[trigger] split_on(s, sep)[k]).contains(sep) by {
                if k == r.len() - 1 {
                    let p = r.last().push(s.last());
                    assert(split_on(s, sep)[k] == p);
                    if p.contains(sep) {
                        let j = choose|j: int| 0 <= j < p.len() && p[j] == sep;
                        assert(r.last()[j] == sep);
                    }
                } else {
                    assert(split_on(s, sep)[k] == r[k]);
                }
            }
        } else {
            assert forall|k: int| 0 <= k < split_on(s, sep).len() implies !(
            #[trigger] split_on(s, sep)[k]).contains(sep) by {
                if k < r.len() {
                    assert(split_on(s, sep)[k] == r[k]);
                }
            }
        }
    }
}

/// One trailing carriage return removed.
pub open spec fn strip_cr(line: Seq<char>) -> Seq<char> {
    if line.len() > 0 && line.last() == '\r' {
        line.drop_last()
    } else {
        line
    }
}

/// The lines of `s`, as `str::lines` gives them: split at `'\n'`, each
/// terminated line loses a trailing `'\r'`, and a final empty piece is no line.
pub open spec fn lines_of(s: Seq<char>) -> Seq<Seq<char>> {
    let p = split_on(s, '\n');
    let body = Seq::new((p.len() - 1) as nat, |k: int| strip_cr(p[k]));
    if p.last().len() > 0 {
        body.push(p.last())
    } else {
        body
    }
}

/// No line contains a line feed.
pub proof fn lemma_lines_have_no_newline(s: Seq<char>)
    ensures
        forall|k: int| 0 <= k < lines_of(s).len() ==> !(#[trigger] lines_of(s)[k]).contains('\n'),
{
    lemma_split_on_shape(s, '\n');
    let p = split_on(s, '\n');
    assert forall|k: int| 0 <= k < lines_of(s).len() implies !(
    #[trigger] lines_of(s)[k]).contains('\n') by {
        if k < p.len() - 1 {
            assert(!p[k].contains('\n'));
            let l = strip_cr(p[k]);
            if l.contains('\n') {
                let j = choose|j: int| 0 <= j < l.len() && l[j] == '\n';
                assert(p[k][j] == '\n');
            }
        } else {
            assert(lines_of(s)[k] == p[p.len() - 1]);
        }
    }
}

/// The lines of `s`, as `str::lines` gives them.
pub fn lines(s: &[char]) -> (r: Vec<Vec<char>>)
    ensures
        r@.len() == lines_of(s@).len(),
        forall|k: int| 0 <= k < r@.len() ==> (#[trigger] r@[k])@ == lines_of(s@)[k],
{
    let mut done: Vec<Vec<char>> = Vec::new();
    let mut cur: Vec<char> = Vec::new();
    let mut i: usize = 0;
    proof {
        lemma_split_on_shape(s@.take(0), '\n');
    }
    while i < s.len()
        invariant
            i <= s@.len(),
            done@.len() + 1 == split_on(s@.take(i as int), '\n').len(),
            forall|k: int|
                0 <= k < done@.len() ==> (#[trigger] done@[k])@ == strip_cr(
                    split_on(s@.take(i as int), '\n')[k],
                ),
            cur@ == split_on(s@.take(i as int), '\n').last(),
        decreases s@.len() - i,
    {
        let ghost prev = split_on(s@.take(i as int), '\n');
        proof {
            lemma_split_on_shape(s@.take(i as int), '\n');
            assert(s@.take(i + 1).drop_last() =~= s@.take(i as int));
            assert(s@.take(i + 1).last() == s@[i as int]);
        }
        let c = s[i];
        if c == '\n' {
            if cur.len() > 0 && cur[cur.len() - 1] == '\r' {
                cur.pop();
            }
            let piece = cur;
            cur = Vec::new();
            done.push(piece);
            assert forall|k: int| 0 <= k < done@.len() implies (#[trigger] done@[k])@ == strip_cr(
                split_on(s@.take(i + 1), '\n')[k],
            ) by {
                if k < done@.len() - 1 {
                    assert(split_on(s@.take(i + 1), '\n')[k] == prev[k]);
                }
            }
        } else {
            cur.push(c);
            assert forall|k: int| 0 <= k < done@.len() implies (#[trigger] done@[k])@ == strip_cr(
                split_on(s@.take(i + 1), '\n')[k],
            ) by {
                assert(split_on(s@.take(i + 1), '\n')[k] == prev[k]);
            }
        }
        i = i + 1;
    }
    assert(s@.take(s@.len() as int) =~= s@);
    if cur.len() > 0 {
        done.push(cur);
    }
    done
}

/// Appends the characters of `t` to `v`.
pub fn push_all(v: &mut Vec<char>, t: &[char])
    ensures
        final(v)@ == old(v)@ + t@,
{
    let mut i: usize = 0;
    while i < t.len()
        invariant
            i <= t@.len(),
            v@ == old(v)@ + t@.take(i as int),
        decreases t@.len() - i,
    {
        v.push(t[i]);
        assert(t@.take(i + 1) =~= t@.take(i as int).push(t@[i as int]));
        i = i + 1;
    }
    assert(t@.take(t@.len() as int) =~= t@);
}

/// `pat` occurs in `s` at position `i`.
pub open spec fn occurs_at(s: Seq<char>, pat: Seq<char>, i: int) -> bool {
    0 <= i && i + pat.len() <= s.len() && s.subrange(i, i + pat.len()) == pat
}

/// `s` begins with `pat`.
pub open spec fn starts_with(s: Seq<char>, pat: Seq<char>) -> bool {
    occurs_at(s, pat, 0)
}

/// `pat` occurs somewhere in `s`.
pub open spec fn contains_pat(s: Seq<char>, pat: Seq<char>) -> bool {
    exists|i: int| occurs_at(s, pat, i)
}

/// The first position at or after `from` where `pat` occurs in `s`.
pub open spec fn first_occurrence(s: Seq<char>, pat: Seq<char>, from: int) -> Option<int>
    decreases s.len() - from,
{
    if from < 0 || from + pat.len() > s.len() {
        None
    } else if occurs_at(s, pat, from) {
        Some(from)
    } else if from < s.len() {
        first_occurrence(s, pat, from + 1)
    } else {
        None
    }
}

/// What `first_occurrence` finds is an occurrence, and there is none
/// between `from` and it; when it finds none, there is none at or after `from`.
pub proof fn lemma_first_occurrence(s: Seq<char>, pat: Seq<char>, from: int)
    requires
        0 <= from,
    ensures
        match first_occurrence(s, pat, from) {
            Some(i) => from <= i && occurs_at(s, pat, i) && forall|k: int|
                from <= k < i ==> !occurs_at(s, pat, k),
            None => forall|k: int| from <= k ==> !occurs_at(s, pat, k),
        },
    decreases s.len() - from,
{
    if from + pat.len() > s.len() {
    } else if occurs_at(s, pat, from) {
    } else if from < s.len() {
        lemma_first_occurrence(s, pat, from + 1);
    } else {
        assert(pat.len() == 0);
        assert(s.subrange(from, from) =~= pat);
    }
}

/// Whether `pat` occurs in `s` at position `i`.
pub fn matches_at(s: &[char], pat: &[char], i: usize) -> (b: bool)
    ensures
        b == occurs_at(s@, pat@, i as int),
{
    if pat.len() > s.len() || i > s.len() - pat.len() {
        return false;
    }
    let mut k: usize = 0;
    while k < pat.len()
        invariant
            k <= pat@.len(),
            i + pat@.len() <= s@.len(),
            s@.len() == s.len(),
            forall|j: int| 0 <= j < k ==> s@[i + j] == pat@[j],
        decreases pat@.len() - k,
    {
        if s[i + k] != pat[k] {
            assert(s@.subrange(i as int, i + pat@.len())[k as int] != pat@[k as int]);
            return false;
        }
        k = k + 1;
    }
    assert(s@.subrange(i as int, i + pat@.len()) =~= pat@);
    true
}

/// The first position at or after `from` where `pat` occurs in `s`.
pub fn find_from(s: &[char], pat: &[char], from: usize) -> (r: Option<usize>)
    ensures
        match r {
            Some(i) => first_occurrence(s@, pat@, from as int) == Some(i as int),
            None => first_occurrence(s@, pat@, from as int) is None,
        },
{
    if pat.len() > s.len() {
        return None;
    }
    let mut i: usize = from;
    while i <= s.len() - pat.len()
        invariant
            from <= i,
            pat@.len() <= s@.len(),
            first_occurrence(s@, pat@, from as int) == first_occurrence(s@, pat@, i as int),
        decreases s@.len() - i,
    {
        if matches_at(s, pat, i) {
            return Some(i);
        }
        if i == s.len() {
            return None;
        }
        i = i + 1;
    }
    None
}

/// Whether `pat` occurs anywhere in `s`.
pub fn contains_chars(s: &[char], pat: &[char]) -> (b: bool)
    ensures
        b == contains_pat(s@, pat@),
{
    proof {
        lemma_first_occurrence(s@, pat@, 0);
    }
    match find_from(s, pat, 0) {
        Some(_) => true,
        None => false,
    }
}

/// `s` with every non-overlapping occurrence of `pat` replaced by `rep`,
/// scanning from the left, as `str::replace` does.
pub open spec fn replace_all(s: Seq<char>, pat: Seq<char>, rep: Seq<char>) -> Seq<char>
    decreases s.len(),
{
    if pat.len() == 0 {
        s
    } else {
        match first_occurrence(s, pat, 0) {
            Some(i) => if 0 <= i && i + pat.len() <= s.len() {
                s.take(i) + rep + replace_all(s.skip(i + pat.len()), pat, rep)
            } else {
                s
            },
            None => s,
        }
    }
}

/// `str::replace` for a non-empty pattern.
pub fn replace_chars(s: &[char], pat: &[char], rep: &[char]) -> (r: Vec<char>)
    requires
        pat@.len() > 0,
    ensures
        r@ == replace_all(s@, pat@, rep@),
{
    let mut r: Vec<char> = Vec::new();
    let mut start: usize = 0;
    let mut done = false;
    assert(s@.skip(0) =~= s@);
    while !done
        invariant
            pat@.len() > 0,
            start <= s@.len(),
            s@.len() == s.len(),
            !done ==> r@ + replace_all(s@.skip(start as int), pat@, rep@) == replace_all(
                s@,
                pat@,
                rep@,
            ),
            done ==> r@ == replace_all(s@, pat@, rep@),
        decreases s@.len() - start + (if done {
            0int
        } else {
            1int
        }),
    {
        let ghost rest = s@.skip(start as int);
        match find_from(s, pat, start) {
            Some(i) => {
                proof {
                    lemma_first_occurrence(s@, pat@, start as int);
                    lemma_first_occurrence(rest, pat@, 0);
                    assert forall|k: int| 0 <= k < i - start implies !occurs_at(rest, pat@, k) by {
                        assert(!occurs_at(s@, pat@, start + k));
                        if occurs_at(rest, pat@, k) {
                            assert(s@.subrange(start + k, start + k + pat@.len()) =~= rest.subrange(
                                k,
                                k + pat@.len(),
                            ));
                        }
                    }
                    assert(rest.subrange(i - start, i - start + pat@.len()) =~= s@.subrange(
                        i as int,
                        i + pat@.len(),
                    ));
                    assert(occurs_at(rest, pat@, i - start));
                    assert(first_occurrence(rest, pat@, 0) == Some(i - start));
                    assert(rest.take(i - start) =~= s@.subrange(start as int, i as int));
                    assert(rest.skip(i - start + pat@.len()) =~= s@.skip(i + pat@.len()));
                }
                let ghost r0 = r@;
                let mut k: usize = start;
                while k < i
                    invariant
                        start <= k <= i,
                        i <= s@.len(),
                        r@ == r0 + s@.subrange(start as int, k as int),
                    decreases i - k,
                {
                    r.push(s[k]);
                    assert(s@.subrange(start as int, k + 1) =~= s@.subrange(start as int, k as int).push(s@[k as int]));
                    k = k + 1;
                }
                push_all(&mut r, rep);
                proof {
                    let tail = replace_all(s@.skip(i + pat@.len()), pat@, rep@);
                    assert(replace_all(rest, pat@, rep@) == rest.take(i - start) + rep@ + tail);
                    assert(r@ + tail =~= r0 + replace_all(rest, pat@, rep@));
                }
                start = i + pat.len();
            },
            None => {
                proof {
                    lemma_first_occurrence(s@, pat@, start as int);
                    lemma_first_occurrence(rest, pat@, 0);
                    if first_occurrence(rest, pat@, 0) is Some {
                        let j = first_occurrence(rest, pat@, 0)->0;
                        assert(s@.subrange(start + j, start + j + pat@.len()) =~= rest.subrange(
                            j,
                            j + pat@.len(),
                        ));
                        assert(occurs_at(s@, pat@, start + j));
                    }
                }
                let ghost r0 = r@;
                let mut k: usize = start;
                while k < s.len()
                    invariant
                        start <= k <= s@.len(),
                        r@ == r0 + s@.subrange(start as int, k as int),
                    decreases s@.len() - k,
                {
                    r.push(s[k]);
                    assert(s@.subrange(start as int, k + 1) =~= s@.subrange(start as int, k as int).push(s@[k as int]));
                    k = k + 1;
                }
                assert(s@.subrange(start as int, s@.len() as int) =~= rest);
                assert(replace_all(rest, pat@, rep@) == rest);
                done = true;
            },
        }
    }
    r
}

/// The parts joined with `sep` between them, as `join` does.
pub open spec fn join_sep(parts: Seq<Seq<char>>, sep: Seq<char>) -> Seq<char>
    decreases parts.len(),
{
    if parts.len() == 0 {
        Seq::empty()
    } else if parts.len() == 1 {
        parts[0]
    } else {
        join_sep(parts.drop_last(), sep) + sep + parts.last()
    }
}

pub proof fn lemma_join_sep_push(parts: Seq<Seq<char>>, p: Seq<char>, sep: Seq<char>)
    ensures
        join_sep(parts.push(p), sep) == (if parts.len() == 0 {
            p
        } else {
            join_sep(parts, sep) + sep + p
        }),
{
    assert(parts.push(p).drop_last() =~= parts);
}

/// Appends `part` to a joined accumulator, after `sep` unless it is the first part.
pub fn append_part(acc: &mut Vec<char>, first: bool, part: &[char], sep: &[char])
    ensures
        final(acc)@ == (if first {
            old(acc)@ + part@
        } else {
            old(acc)@ + sep@ + part@
        }),
{
    if !first {
        push_all(acc, sep);
    }
    push_all(acc, part);
}

/// The parts joined with `sep`.
pub fn join_chars(parts: &Vec<Vec<char>>, sep: &[char]) -> (r: Vec<char>)
    ensures
        r@ == join_sep(Seq::new(parts@.len(), |k: int| parts@[k]@), sep@),
{
    let ghost ps = Seq::new(parts@.len(), |k: int| parts@[k]@);
    let mut r: Vec<char> = Vec::new();
    let mut i: usize = 0;
    while i < parts.len()
        invariant
            i <= parts@.len(),
            ps == Seq::new(parts@.len(), |k: int| parts@[k]@),
            r@ == join_sep(ps.take(i as int), sep@),
        decreases parts@.len() - i,
    {
        proof {
            lemma_join_sep_push(ps.take(i as int), ps[i as int], sep@);
            assert(ps.take(i + 1) =~= ps.take(i as int).push(ps[i as int]));
        }
        append_part(&mut r, i == 0, parts[i].as_slice(), sep);
        i = i + 1;
    }
    assert(ps.take(parts@.len() as int) =~= ps);
    r
}

/// Whether `char::is_numeric` holds of `c` (Unicode general categories Nd,
/// Nl and No).
pub uninterp spec fn char_is_numeric(c: char) -> bool;

/// `char::is_numeric`: the contract names its result and states, as its
/// documentation does, that among ASCII characters exactly the digits are
/// numeric.
pub assume_specification[ char::is_numeric ](c: char) -> (b: bool)
    ensures
        b == char_is_numeric(c),
        (c as u32) < 0x80 ==> (b <==> ('0' <= c && c <= '9')),
;

/// Whether `char::is_uppercase` holds of `c` (the Unicode `Uppercase`
/// property).
pub uninterp spec fn char_is_uppercase(c: char) -> bool;

/// `char::is_uppercase`: the contract names its result and states, as its
/// documentation does, that among ASCII characters exactly `A` to `Z` are
/// uppercase.
pub assume_specification[ char::is_uppercase ](c: char) -> (b: bool)
    ensures
        b == char_is_uppercase(c),
        (c as u32) < 0x80 ==> (b <==> ('A' <= c && c <= 'Z')),
;

/// Every character of `s` is numeric (vacuously true of the empty sequence).
pub open spec fn all_numeric(s: Seq<char>) -> bool {
    forall|i: int| 0 <= i < s.len() ==> char_is_numeric(#[trigger] s[i])
}

/// Whether every character of `s` is numeric.
pub fn all_numeric_chars(s: &[char]) -> (b: bool)
    ensures
        b == all_numeric(s@),
{
    let mut i: usize = 0;
    while i < s.len()
        invariant
            i <= s@.len(),
            forall|j: int| 0 <= j < i ==> char_is_numeric(#[trigger] s@[j]),
        decreases s@.len() - i,
    {
        if !s[i].is_numeric() {
            return false;
        }
        i = i + 1;
    }
    true
}

/// Every maximal run of `White_Space` replaced by one space, as the regex
/// `\s+` replaced by `" "` leaves it.
pub open spec fn squeeze_ws(s: Seq<char>) -> Seq<char>
    decreases s.len(),
{
    if s.len() == 0 {
        Seq::empty()
    } else {
        let r = squeeze_ws(s.drop_last());
        if is_white_space(s.last()) {
            if s.len() >= 2 && is_white_space(s[s.len() - 2]) {
                r
            } else {
                r.push(' ')
            }
        } else {
            r.push(s.last())
        }
    }
}

/// The words of `s` joined by single spaces, as
/// `split_whitespace().collect::<Vec<_>>().join(" ")` gives them.
pub open spec fn collapse_ws(s: Seq<char>) -> Seq<char> {
    trim(squeeze_ws(s))
}

/// Runs of whitespace squeezed to one space.
pub fn squeeze_ws_chars(s: &[char]) -> (r: Vec<char>)
    ensures
        r@ == squeeze_ws(s@),
{
    let mut r: Vec<char> = Vec::new();
    let mut i: usize = 0;
    while i < s.len()
        invariant
            i <= s@.len(),
            r@ == squeeze_ws(s@.take(i as int)),
        decreases s@.len() - i,
    {
        let c = s[i];
        let ghost t = s@.take(i + 1);
        assert(t.drop_last() =~= s@.take(i as int));
        if c.is_whitespace() {
            if i == 0 || !s[i - 1].is_whitespace() {
                r.push(' ');
            } else {
                assert(t[t.len() - 2] == s@[i - 1]);
            }
        } else {
            r.push(c);
        }
        i = i + 1;
    }
    assert(s@.take(s@.len() as int) =~= s@);
    r
}

/// The words of `s` joined by single spaces.
pub fn collapse_ws_chars(s: &[char]) -> (r: Vec<char>)
    ensures
        r@ == collapse_ws(s@),
{
    let q = squeeze_ws_chars(s);
    trim_chars(q.as_slice())
}

/// The first `n` characters of `s`, or all of them when it is shorter.
pub open spec fn take_at_most(s: Seq<char>, n: nat) -> Seq<char> {
    if s.len() <= n {
        s
    } else {
        s.take(n as int)
    }
}

/// The first `n` characters of `s`, or all of them.
pub fn take_chars(s: &[char], n: usize) -> (r: Vec<char>)
    ensures
        r@ == take_at_most(s@, n as nat),
{
    let end = if s.len() <= n {
        s.len()
    } else {
        n
    };
    let mut r: Vec<char> = Vec::new();
    let mut i: usize = 0;
    while i < end
        invariant
            i <= end <= s@.len(),
            r@ == s@.take(i as int),
        decreases end - i,
    {
        r.push(s[i]);
        assert(s@.take(i + 1) =~= s@.take(i as int).push(s@[i as int]));
        i = i + 1;
    }
    assert(s@.take(s@.len() as int) =~= s@);
    r
}

/// The characters of `s` in `[a, b)`.
pub fn slice_chars(s: &[char], a: usize, b: usize) -> (r: Vec<char>)
    requires
        a <= b <= s@.len(),
    ensures
        r@ == s@.subrange(a as int, b as int),
{
    let mut r: Vec<char> = Vec::new();
    let mut i: usize = a;
    while i < b
        invariant
            a <= i <= b <= s@.len(),
            r@ == s@.subrange(a as int, i as int),
        decreases b - i,
    {
        r.push(s[i]);
        assert(s@.subrange(a as int, i + 1) =~= s@.subrange(a as int, i as int).push(s@[i as int]));
        i = i + 1;
    }
    r
}

/// Searching a suffix is searching the whole from the suffix's start.
pub proof fn lemma_first_occurrence_skip(s: Seq<char>, pat: Seq<char>, i: int, f: int)
    requires
        0 <= i <= s.len(),
        0 <= f,
    ensures
        first_occurrence(s.skip(i), pat, f) == (match first_occurrence(s, pat, i + f) {
            Some(x) => Some(x - i),
            None => None,
        }),
    decreases s.len() - i - f,
{
    let t = s.skip(i);
    if f + pat.len() <= t.len() {
        assert(t.subrange(f, f + pat.len()) =~= s.subrange(i + f, i + f + pat.len()));
        if !occurs_at(t, pat, f) && f < t.len() {
            lemma_first_occurrence_skip(s, pat, i, f + 1);
        }
    }
}

/// The decimal digit for `d < 10`.
pub open spec fn digit_char(d: nat) -> char {
    if d == 0 {
        '0'
    } else if d == 1 {
        '1'
    } else if d == 2 {
        '2'
    } else if d == 3 {
        '3'
    } else if d == 4 {
        '4'
    } else if d == 5 {
        '5'
    } else if d == 6 {
        '6'
    } else if d == 7 {
        '7'
    } else if d == 8 {
        '8'
    } else {
        '9'
    }
}

/// The decimal representation of `n`, as `format!("{}", n)` writes it.
pub open spec fn decimal(n: nat) -> Seq<char>
    decreases n,
{
    if n < 10 {
        seq![digit_char(n)]
    } else {
        decimal(n / 10).push(digit_char(n % 10))
    }
}

fn digit_of(d: u128) -> (c: char)
    requires
        d < 10,
    ensures
        c == digit_char(d as nat),
{
    if d == 0 {
        '0'
    } else if d == 1 {
        '1'
    } else if d == 2 {
        '2'
    } else if d == 3 {
        '3'
    } else if d == 4 {
        '4'
    } else if d == 5 {
        '5'
    } else if d == 6 {
        '6'
    } else if d == 7 {
        '7'
    } else if d == 8 {
        '8'
    } else {
        '9'
    }
}

/// The decimal representation of `n`.
pub fn decimal_chars(n: u128) -> (r: Vec<char>)
    ensures
        r@ == decimal(n as nat),
    decreases n,
{
    if n < 10 {
        let mut r: Vec<char> = Vec::new();
        r.push(digit_of(n));
        r
    } else {
        let mut r = decimal_chars(n / 10);
        r.push(digit_of(n % 10));
        r
    }
}

/// The words of `s`: its maximal runs of characters other than `White_Space`,
/// as `str::split_whitespace` gives them.
pub open spec fn words(s: Seq<char>) -> Seq<Seq<char>>
    decreases s.len(),
{
    if s.len() == 0 {
        Seq::empty()
    } else {
        let w = words(s.drop_last());
        if is_white_space(s.last()) {
            w
        } else if s.len() >= 2 && !is_white_space(s[s.len() - 2]) && w.len() > 0 {
            w.update(w.len() - 1, w.last().push(s.last()))
        } else {
            w.push(seq![s.last()])
        }
    }
}

/// Every word is non-empty and holds no whitespace.
pub proof fn lemma_words_shape(s: Seq<char>)
    ensures
        forall|k: int|
            0 <= k < words(s).len() ==> (#[trigger] words(s)[k]).len() > 0 && forall|j: int|
                0 <= j < words(s)[k].len() ==> !is_white_space(#[trigger] words(s)[k][j]),
    decreases s.len(),
{
    if s.len() > 0 {
        lemma_words_shape(s.drop_last());
        let w = words(s.drop_last());
        if !is_white_space(s.last()) {
            if s.len() >= 2 && !is_white_space(s[s.len() - 2]) && w.len() > 0 {
                let u = w.update(w.len() - 1, w.last().push(s.last()));
                assert forall|k: int| 0 <= k < u.len() implies (#[trigger] u[k]).len() > 0 && forall|
                    j: int,
                | 0 <= j < u[k].len() ==> !is_white_space(#[trigger] u[k][j]) by {
                    if k == w.len() - 1 {
                        assert forall|j: int| 0 <= j < u[k].len() implies !is_white_space(
                            #[trigger] u[k][j],
                        ) by {
                            if j < w.last().len() {
                                assert(u[k][j] == w[k][j]);
                            }
                        }
                    } else {
                        assert(u[k] == w[k]);
                    }
                }
            } else {
                let u = w.push(seq![s.last()]);
                assert forall|k: int| 0 <= k < u.len() implies (#[trigger] u[k]).len() > 0 && forall|
                    j: int,
                | 0 <= j < u[k].len() ==> !is_white_space(#[trigger] u[k][j]) by {
                    if k < w.len() {
                        assert(u[k] == w[k]);
                    }
                }
            }
        }
    }
}

/// The words of `s`, as `str::split_whitespace` gives them.
pub fn words_of(s: &[char]) -> (r: Vec<Vec<char>>)
    ensures
        r@.len() == words(s@).len(),
        forall|k: int| 0 <= k < r@.len() ==> (#[trigger] r@[k])@ == words(s@)[k],
{
    let mut r: Vec<Vec<char>> = Vec::new();
    let mut cur: Vec<char> = Vec::new();
    let mut i: usize = 0;
    while i < s.len()
        invariant
            i <= s@.len(),
            cur@.len() > 0 ==> i > 0 && !is_white_space(s@[i - 1]),
            i > 0 && !is_white_space(s@[i - 1]) ==> cur@.len() > 0,
            cur@.len() > 0 ==> words(s@.take(i as int)).len() == r@.len() + 1 && words(
                s@.take(i as int),
            ).last() == cur@,
            cur@.len() == 0 ==> words(s@.take(i as int)).len() == r@.len(),
            forall|k: int| 0 <= k < r@.len() ==> (#[trigger] r@[k])@ == words(s@.take(i as int))[k],
        decreases s@.len() - i,
    {
        let c = s[i];
        let ghost t = s@.take(i + 1);
        let ghost w = words(s@.take(i as int));
        assert(t.drop_last() =~= s@.take(i as int));
        if c.is_whitespace() {
            if cur.len() > 0 {
                let ghost r0 = r@;
                let done = cur;
                cur = Vec::new();
                r.push(done);
                assert forall|k: int| 0 <= k < r@.len() implies (#[trigger] r@[k])@ == words(t)[k] by {
                    if k < r@.len() - 1 {
                        assert(r@[k] == r0[k]);
                    }
                }
            }
        } else {
            if cur.len() > 0 {
                assert(t[t.len() - 2] == s@[i - 1]);
                cur.push(c);
                assert forall|k: int| 0 <= k < r@.len() implies (#[trigger] r@[k])@ == words(t)[k] by {
                    assert(words(t)[k] == w[k]);
                }
            } else {
                cur.push(c);
                assert(cur@ =~= seq![c]);
                assert forall|k: int| 0 <= k < r@.len() implies (#[trigger] r@[k])@ == words(t)[k] by {
                    assert(words(t)[k] == w[k]);
                }
            }
        }
        i = i + 1;
    }
    assert(s@.take(s@.len() as int) =~= s@);
    if cur.len() > 0 {
        r.push(cur);
    }
    r
}

/// Appends the characters of `s` to `v`.
pub fn push_str(v: &mut Vec<char>, s: &str)
    ensures
        final(v)@ == old(v)@ + s@,
{
    let c = to_chars(s);
    push_all(v, c.as_slice());
}

/// Byte lengths of prefixes grow strictly with the prefix.
pub proof fn lemma_utf8_len_prefix_strict(s: Seq<char>, a: int, b: int)
    requires
        0 <= a < b <= s.len(),
    ensures
        utf8_len(s.take(a)) < utf8_len(s.take(b)),
{
    lemma_utf8_len_concat(s.take(a), s.subrange(a, b));
    assert(s.take(a) + s.subrange(a, b) =~= s.take(b));
    lemma_utf8_len_bounds(s.subrange(a, b));
}

/// `b` bytes is a character boundary of `s`.
pub open spec fn byte_boundary(s: Seq<char>, b: nat) -> bool {
    exists|k: int| 0 <= k <= s.len() && utf8_len(#[trigger] s.take(k)) == b
}

/// Whether `b` bytes into `s` a character ends (as `str::is_char_boundary`
/// says).
pub fn has_byte_boundary(s: &[char], b: u128) -> (r: bool)
    ensures
        r == byte_boundary(s@, b as nat),
{
    let mut bytes: u128 = 0;
    let mut k: usize = 0;
    while k < s.len() && bytes < b
        invariant
            k <= s@.len(),
            bytes == utf8_len(s@.take(k as int)),
            forall|j: int| 0 <= j < k ==> utf8_len(#[trigger] s@.take(j)) < b,
        decreases s@.len() - k,
    {
        assert(s@.take(k + 1).drop_last() =~= s@.take(k as int));
        proof {
            lemma_utf8_len_bounds(s@.take(k as int));
        }
        bytes = bytes + char_width(s[k]);
        k = k + 1;
    }
    if bytes == b {
        return true;
    }
    proof {
        assert forall|j: int| 0 <= j <= s@.len() implies utf8_len(#[trigger] s@.take(j)) != b by {
            if j > k {
                lemma_utf8_len_prefix_strict(s@, k as int, j);
            }
        }
    }
    false
}

/// The prefix of `s` that is `b` bytes long, as `&s[..b]` gives it.
pub open spec fn byte_prefix(s: Seq<char>, b: nat) -> Seq<char> {
    s.take(choose|k: int| 0 <= k <= s.len() && utf8_len(#[trigger] s.take(k)) == b)
}

/// The prefix of `s` that is `max` bytes long.
pub fn prefix_bytes(s: &[char], max: u128) -> (r: Vec<char>)
    requires
        byte_boundary(s@, max as nat),
    ensures
        r@ == byte_prefix(s@, max as nat),
{
    let ghost kstar = choose|k: int| 0 <= k <= s@.len() && utf8_len(#[trigger] s@.take(k)) == max;
    let mut bytes: u128 = 0;
    let mut k: usize = 0;
    while bytes < max
        invariant
            0 <= kstar <= s@.len(),
            utf8_len(s@.take(kstar)) == max,
            k <= kstar,
            bytes == utf8_len(s@.take(k as int)),
        decreases kstar - k,
    {
        assert(k < kstar);
        proof {
            lemma_utf8_len_prefix_strict(s@, k as int, kstar);
            lemma_utf8_len_prefix_strict(s@, k as int, k + 1);
            if k + 1 < kstar {
                lemma_utf8_len_prefix_strict(s@, k + 1, kstar);
            }
        }
        assert(s@.take(k + 1).drop_last() =~= s@.take(k as int));
        bytes = bytes + char_width(s[k]);
        k = k + 1;
    }
    proof {
        if k < kstar {
            lemma_utf8_len_prefix_strict(s@, k as int, kstar);
        }
    }
    take_chars(s, k)
}

/// Whether `pat` occurs in `s`, as `str::contains` tells.
pub fn contains_str(s: &str, pat: &str) -> (b: bool)
    ensures
        b == contains_pat(s@, pat@),
{
    let a = to_chars(s);
    let p = to_chars(pat);
    contains_chars(a.as_slice(), p.as_slice())
}

/// Whether `s` begins with `pat`, as `str::starts_with` tells.
pub fn starts_with_str(s: &str, pat: &str) -> (b: bool)
    ensures
        b == starts_with(s@, pat@),
{
    let a = to_chars(s);
    let p = to_chars(pat);
    matches_at(a.as_slice(), p.as_slice(), 0)
}

/// `s` followed by `t`.
pub fn concat_str(s: &str, t: &str) -> (r: String)
    ensures
        r@ == s@ + t@,
{
    let mut v = to_chars(s);
    push_str(&mut v, t);
    from_chars(v.as_slice())
}

/// The decimal representation of `n`, with a minus sign when negative.
pub open spec fn signed_decimal(n: int) -> Seq<char> {
    if n < 0 {
        seq!['-'] + decimal((-n) as nat)
    } else {
        decimal(n as nat)
    }
}

/// The decimal representation of `n`, as `format!("{}", n)` writes it.
pub fn signed_decimal_chars(n: i64) -> (r: Vec<char>)
    ensures
        r@ == signed_decimal(n as int),
{
    if n < 0 {
        let m: u64 = if n == i64::MIN {
            9223372036854775808u64
        } else {
            (-n) as u64
        };
        let mut r: Vec<char> = Vec::new();
        r.push('-');
        let d = decimal_chars(m as u128);
        push_all(&mut r, d.as_slice());
        r
    } else {
        decimal_chars(n as u128)
    }
}

/// The decimal representation of `n`, as a string.
pub fn decimal_string(n: u64) -> (r: String)
    ensures
        r@ == decimal(n as nat),
{
    let d = decimal_chars(n as u128);
    from_chars(d.as_slice())
}

/// No two neighbouring characters of `s` are both `White_Space`.
pub open spec fn single_spaced(s: Seq<char>) -> bool {
    forall|j: int, k: int|
        0 <= j && k == j + 1 && k < s.len() ==> !(is_white_space(#[trigger] s[j])
            && is_white_space(#[trigger] s[k]))
}

/// The only `White_Space` character in `s` is the plain space.
pub open spec fn spaces_only(s: Seq<char>) -> bool {
    forall|i: int| 0 <= i < s.len() && is_white_space(#[trigger] s[i]) ==> s[i] == ' '
}

/// No character of `p` is `White_Space`.
pub open spec fn ws_free(p: Seq<char>) -> bool {
    forall|i: int| 0 <= i < p.len() ==> !is_white_space(#[trigger] p[i])
}

proof fn lemma_trim_start_first(s: Seq<char>)
    ensures
        trim_start(s).len() == 0 || !is_white_space(trim_start(s)[0]),
    decreases s.len(),
{
    if s.len() > 0 && is_white_space(s[0]) {
        lemma_trim_start_first(s.drop_first());
    }
}

proof fn lemma_trim_end_last(s: Seq<char>)
    ensures
        trim_end(s).len() == 0 || !is_white_space(trim_end(s).last()),
    decreases s.len(),
{
    if s.len() > 0 && is_white_space(s.last()) {
        lemma_trim_end_last(s.drop_last());
    }
}

/// What `trim` gives back is empty or begins and ends with a character
/// other than `White_Space`.
pub proof fn lemma_trim_ends(s: Seq<char>)
    ensures
        trim(s).len() == 0 || (!is_white_space(trim(s)[0]) && !is_white_space(trim(s).last())),
{
    let t = trim_start(s);
    lemma_trim_start_first(s);
    lemma_trim_end_last(t);
    lemma_trim_end_is_prefix(t);
    if trim(s).len() > 0 {
        assert(trim(s)[0] == t[0]);
    }
}

/// A sequence with nothing to trim is its own `trim`.
pub proof fn lemma_trim_fixed(s: Seq<char>)
    requires
        s.len() == 0 || (!is_white_space(s[0]) && !is_white_space(s.last())),
    ensures
        trim(s) == s,
{
}

/// `trim` is idempotent.
pub proof fn lemma_trim_idempotent(s: Seq<char>)
    ensures
        trim(trim(s)) == trim(s),
{
    lemma_trim_ends(s);
    lemma_trim_fixed(trim(s));
}

/// `trim_end` keeps every position up to the last character that is not
/// `White_Space`.
pub proof fn lemma_trim_end_keeps(s: Seq<char>, k: int)
    requires
        0 <= k < s.len(),
        !is_white_space(s[k]),
    ensures
        k < trim_end(s).len(),
        trim_end(s).len() <= s.len(),
        trim_end(s) == s.take(trim_end(s).len() as int),
    decreases s.len(),
{
    lemma_trim_end_is_prefix(s);
    if s.len() > 0 && is_white_space(s.last()) {
        lemma_trim_end_keeps(s.drop_last(), k);
    }
}

/// The shape of `squeeze_ws`: no longer than its input, its first and last
/// characters follow the input's, its only `White_Space` is single spaces.
pub proof fn lemma_squeeze_shape(s: Seq<char>)
    ensures
        squeeze_ws(s).len() <= s.len(),
        s.len() > 0 ==> squeeze_ws(s).len() > 0 && is_white_space(squeeze_ws(s).last())
            == is_white_space(s.last()) && squeeze_ws(s)[0] == (if is_white_space(s[0]) {
            ' '
        } else {
            s[0]
        }),
        spaces_only(squeeze_ws(s)),
        single_spaced(squeeze_ws(s)),
    decreases s.len(),
{
    if s.len() > 0 {
        let t = s.drop_last();
        lemma_squeeze_shape(t);
        let r = squeeze_ws(t);
        let q = squeeze_ws(s);
        assert(' ' as u32 == 0x20);
        if t.len() > 0 {
            assert(t[0] == s[0]);
            assert(t.last() == s[s.len() - 2]);
        }
        assert forall|i: int| 0 <= i < q.len() && is_white_space(#[trigger] q[i]) implies q[i]
            == ' ' by {
            if i < r.len() {
                assert(q[i] == r[i]);
            }
        }
        assert forall|j: int, k: int|
            0 <= j && k == j + 1 && k < q.len() implies !(is_white_space(#[trigger] q[j])
            && is_white_space(#[trigger] q[k])) by {
            if k < r.len() {
                assert(q[j] == r[j] && q[k] == r[k]);
            } else {
                assert(q[j] == r[j]);
            }
        }
    }
}

/// A character other than `White_Space` that `s` lacks, `squeeze_ws(s)` lacks too.
pub proof fn lemma_squeeze_lacks(s: Seq<char>, c: char)
    requires
        !is_white_space(c),
        forall|i: int| 0 <= i < s.len() ==> s[i] != c,
    ensures
        forall|k: int| 0 <= k < squeeze_ws(s).len() ==> squeeze_ws(s)[k] != c,
    decreases s.len(),
{
    if s.len() > 0 {
        let t = s.drop_last();
        lemma_squeeze_lacks(t, c);
        assert(' ' as u32 == 0x20);
        let r = squeeze_ws(t);
        assert forall|k: int| 0 <= k < squeeze_ws(s).len() implies squeeze_ws(s)[k] != c by {
            if k < r.len() {
                assert(squeeze_ws(s)[k] == r[k]);
            }
        }
    }
}

/// Every character of `s` other than `White_Space` shows up in `squeeze_ws(s)`.
pub proof fn lemma_squeeze_keeps(s: Seq<char>, j: int)
    requires
        0 <= j < s.len(),
        !is_white_space(s[j]),
    ensures
        exists|k: int| 0 <= k < squeeze_ws(s).len() && squeeze_ws(s)[k] == s[j],
    decreases s.len(),
{
    let t = s.drop_last();
    let q = squeeze_ws(s);
    if j == s.len() - 1 {
        assert(q[q.len() - 1] == s[j]);
    } else {
        lemma_squeeze_keeps(t, j);
        let k = choose|k: int| 0 <= k < squeeze_ws(t).len() && squeeze_ws(t)[k] == t[j];
        assert(q[k] == s[j]);
    }
}

/// `White_Space` in `s` leaves `White_Space` in `squeeze_ws(s)`.
pub proof fn lemma_squeeze_keeps_space(s: Seq<char>, j: int)
    requires
        0 <= j < s.len(),
        is_white_space(s[j]),
    ensures
        exists|k: int| 0 <= k < squeeze_ws(s).len() && is_white_space(squeeze_ws(s)[k]),
    decreases s.len(),
{
    let t = s.drop_last();
    let q = squeeze_ws(s);
    assert(' ' as u32 == 0x20);
    if j == s.len() - 1 {
        if s.len() >= 2 && is_white_space(s[s.len() - 2]) {
            lemma_squeeze_keeps_space(t, j - 1);
            let k = choose|k: int| 0 <= k < squeeze_ws(t).len() && is_white_space(squeeze_ws(t)[k]);
            assert(q[k] == squeeze_ws(t)[k]);
        } else {
            assert(is_white_space(q[q.len() - 1]));
        }
    } else {
        lemma_squeeze_keeps_space(t, j);
        let k = choose|k: int| 0 <= k < squeeze_ws(t).len() && is_white_space(squeeze_ws(t)[k]);
        assert(q[k] == squeeze_ws(t)[k]);
    }
}

/// Text that is already single-spaced with plain spaces is left as it is.
pub proof fn lemma_squeeze_fixed(s: Seq<char>)
    requires
        single_spaced(s),
        spaces_only(s),
    ensures
        squeeze_ws(s) == s,
    decreases s.len(),
{
    if s.len() > 0 {
        let t = s.drop_last();
        assert forall|j: int, k: int|
            0 <= j && k == j + 1 && k < t.len() implies !(is_white_space(#[trigger] t[j])
            && is_white_space(#[trigger] t[k])) by {
            assert(t[j] == s[j] && t[k] == s[k]);
        }
        assert forall|i: int| 0 <= i < t.len() && is_white_space(#[trigger] t[i]) implies t[i]
            == ' ' by {
            assert(t[i] == s[i]);
        }
        lemma_squeeze_fixed(t);
        if s.len() >= 2 {
            assert(!(is_white_space(s[s.len() - 2]) && is_white_space(s[s.len() - 1])));
        }
        assert(t.push(s.last()) =~= s);
    }
}

/// A run without `White_Space` at the end of `squeeze_ws(s)` ends `s` too.
pub proof fn lemma_squeeze_suffix(s: Seq<char>, p: Seq<char>)
    requires
        ws_free(p),
        p.len() <= squeeze_ws(s).len(),
        squeeze_ws(s).skip(squeeze_ws(s).len() - p.len()) == p,
    ensures
        p.len() <= s.len(),
        s.skip(s.len() - p.len()) == p,
    decreases s.len(),
{
    lemma_squeeze_shape(s);
    if p.len() == 0 {
        assert(s.skip(s.len() as int) =~= p);
    } else {
        let t = s.drop_last();
        let r = squeeze_ws(t);
        let q = squeeze_ws(s);
        assert(q.last() == p.last());
        assert(!is_white_space(p[p.len() - 1]));
        assert(!is_white_space(s.last()));
        assert(q == r.push(s.last()));
        let p1 = p.drop_last();
        assert forall|i: int| 0 <= i < p1.len() implies !is_white_space(#[trigger] p1[i]) by {
            assert(p1[i] == p[i]);
        }
        assert(r.skip(r.len() - p1.len()) =~= p1) by {
            assert forall|i: int| 0 <= i < p1.len() implies r.skip(r.len() - p1.len())[i]
                == p1[i] by {
                assert(q.skip(q.len() - p.len())[i] == p[i]);
            }
        }
        lemma_squeeze_suffix(t, p1);
        assert(s.skip(s.len() - p.len()) =~= p) by {
            assert forall|i: int| 0 <= i < p.len() implies s.skip(s.len() - p.len())[i]
                == p[i] by {
                if i < p1.len() {
                    assert(t.skip(t.len() - p1.len())[i] == p1[i]);
                }
            }
        }
    }
}

/// A run without `White_Space` in `squeeze_ws(s)` occurs in `s`.
pub proof fn lemma_squeeze_occurs(s: Seq<char>, p: Seq<char>, i: int)
    requires
        ws_free(p),
        occurs_at(squeeze_ws(s), p, i),
    ensures
        contains_pat(s, p),
    decreases s.len(),
{
    let q = squeeze_ws(s);
    lemma_squeeze_shape(s);
    if i + p.len() == q.len() {
        assert(q.skip(q.len() - p.len()) =~= p) by {
            assert forall|k: int| 0 <= k < p.len() implies q.skip(q.len() - p.len())[k]
                == p[k] by {
                assert(q.subrange(i, i + p.len())[k] == p[k]);
            }
        }
        lemma_squeeze_suffix(s, p);
        assert(occurs_at(s, p, s.len() - p.len()));
    } else {
        let t = s.drop_last();
        let r = squeeze_ws(t);
        assert(q.len() == r.len() || q.len() == r.len() + 1);
        assert(q.subrange(0, r.len() as int) =~= r);
        assert(r.subrange(i, i + p.len()) =~= q.subrange(i, i + p.len()));
        lemma_squeeze_occurs(t, p, i);
        let j = choose|j: int| occurs_at(t, p, j);
        assert(s.subrange(j, j + p.len()) =~= t.subrange(j, j + p.len()));
        assert(occurs_at(s, p, j));
    }
}

/// A beginning without `White_Space` of `squeeze_ws(s)` begins `s` too.
pub proof fn lemma_squeeze_prefix(s: Seq<char>, p: Seq<char>)
    requires
        ws_free(p),
        starts_with(squeeze_ws(s), p),
    ensures
        starts_with(s, p),
    decreases s.len(),
{
    let q = squeeze_ws(s);
    lemma_squeeze_shape(s);
    if p.len() == 0 {
        assert(s.subrange(0, 0) =~= p);
    } else if p.len() == q.len() {
        assert(q =~= p) by {
            assert forall|k: int| 0 <= k < p.len() implies q[k] == p[k] by {
                assert(q.subrange(0, p.len() as int)[k] == p[k]);
            }
        }
        if exists|j: int| 0 <= j < s.len() && is_white_space(s[j]) {
            let j = choose|j: int| 0 <= j < s.len() && is_white_space(s[j]);
            lemma_squeeze_keeps_space(s, j);
        } else {
            lemma_squeeze_fixed(s);
        }
        assert(s.subrange(0, p.len() as int) =~= p);
    } else {
        let t = s.drop_last();
        let r = squeeze_ws(t);
        assert(q.subrange(0, r.len() as int) =~= r);
        assert(r.subrange(0, p.len() as int) =~= q.subrange(0, p.len() as int));
        lemma_squeeze_prefix(t, p);
        assert(s.subrange(0, p.len() as int) =~= t.subrange(0, p.len() as int));
    }
}

/// The first part begins the joined text; a second part follows after the
/// separator.
pub proof fn lemma_join_first(parts: Seq<Seq<char>>, sep: Seq<char>)
    requires
        parts.len() >= 1,
        sep.len() == 1,
    ensures
        parts[0].len() <= join_sep(parts, sep).len(),
        join_sep(parts, sep).take(parts[0].len() as int) == parts[0],
        parts.len() >= 2 ==> parts[0].len() < join_sep(parts, sep).len() && join_sep(parts, sep)[parts[0].len() as int] == sep[0],
    decreases parts.len(),
{
    if parts.len() >= 2 {
        let ps = parts.drop_last();
        lemma_join_first(ps, sep);
        let j = join_sep(ps, sep);
        assert(ps[0] == parts[0]);
        assert(join_sep(parts, sep) == j + sep + parts.last());
        assert(join_sep(parts, sep).take(parts[0].len() as int) =~= j.take(parts[0].len() as int));
    }
}

/// A run without `White_Space` in text joined by a `White_Space` separator
/// lies within one part.
pub proof fn lemma_join_occurs(parts: Seq<Seq<char>>, sep: Seq<char>, p: Seq<char>, i: int)
    requires
        sep.len() == 1,
        is_white_space(sep[0]),
        ws_free(p),
        p.len() > 0,
        occurs_at(join_sep(parts, sep), p, i),
    ensures
        exists|k: int| 0 <= k < parts.len() && contains_pat(#[trigger] parts[k], p),
    decreases parts.len(),
{
    let js = join_sep(parts, sep);
    if parts.len() == 1 {
        assert(contains_pat(parts[0], p));
    } else if parts.len() >= 2 {
        let ps = parts.drop_last();
        let j = join_sep(ps, sep);
        let n = j.len() as int;
        assert(js == j + sep + parts.last());
        if i + p.len() <= n {
            assert(j.subrange(i, i + p.len()) =~= js.subrange(i, i + p.len()));
            lemma_join_occurs(ps, sep, p, i);
            let k = choose|k: int| 0 <= k < ps.len() && contains_pat(#[trigger] ps[k], p);
            assert(parts[k] == ps[k]);
        } else if i > n {
            let l = parts.last();
            assert(l.subrange(i - n - 1, i - n - 1 + p.len()) =~= js.subrange(i, i + p.len()));
            assert(occurs_at(l, p, i - n - 1));
            assert(parts[parts.len() - 1] == l);
        } else {
            assert(js.subrange(i, i + p.len())[n - i] == js[n]);
            assert(!is_white_space(p[n - i]));
        }
    }
}

/// A text without `sep` is a single piece.
pub proof fn lemma_split_on_whole(s: Seq<char>, sep: char)
    requires
        !s.contains(sep),
    ensures
        split_on(s, sep) == seq![s],
    decreases s.len(),
{
    if s.len() > 0 {
        let t = s.drop_last();
        assert(!t.contains(sep)) by {
            if t.contains(sep) {
                let j = choose|j: int| 0 <= j < t.len() && t[j] == sep;
                assert(s[j] == sep);
            }
        }
        lemma_split_on_whole(t, sep);
        assert(s.last() != sep);
        assert(t.push(s.last()) =~= s);
        assert(split_on(s, sep) =~= seq![s]);
    } else {
        assert(s =~= Seq::<char>::empty());
    }
}

/// Every character of a piece of `split_on(s, sep)` is a character of `s`
/// that has the property `f`, when all of `s` does.
pub proof fn lemma_split_on_chars(s: Seq<char>, sep: char, f: spec_fn(char) -> bool)
    requires
        forall|i: int| 0 <= i < s.len() ==> f(#[trigger] s[i]),
    ensures
        forall|k: int, j: int|
            0 <= k < split_on(s, sep).len() && 0 <= j < split_on(s, sep)[k].len() ==> f(
                #[trigger] split_on(s, sep)[k][j],
            ),
    decreases s.len(),
{
    lemma_split_on_shape(s, sep);
    if s.len() > 0 {
        let t = s.drop_last();
        lemma_split_on_chars(t, sep, f);
        lemma_split_on_shape(t, sep);
        let r = split_on(t, sep);
        assert(f(s.last()));
        assert forall|k: int, j: int|
            0 <= k < split_on(s, sep).len() && 0 <= j < split_on(s, sep)[k].len() implies f(
            #[trigger] split_on(s, sep)[k][j],
        ) by {
            if s.last() == sep {
                if k < r.len() {
                    assert(split_on(s, sep)[k] == r[k]);
                }
            } else {
                if k < r.len() - 1 {
                    assert(split_on(s, sep)[k] == r[k]);
                } else {
                    assert(split_on(s, sep)[k] == r.last().push(s.last()));
                    if j < r.last().len() {
                        assert(r[r.len() - 1][j] == r.last()[j]);
                    }
                }
            }
        }
    }
}

/// Every character of a line of `s` is a character of `s` that has the
/// property `f`, when all of `s` does.
pub proof fn lemma_lines_chars(s: Seq<char>, f: spec_fn(char) -> bool)
    requires
        forall|i: int| 0 <= i < s.len() ==> f(#[trigger] s[i]),
    ensures
        forall|k: int, j: int|
            0 <= k < lines_of(s).len() && 0 <= j < lines_of(s)[k].len() ==> f(
                #[trigger] lines_of(s)[k][j],
            ),
{
    lemma_split_on_chars(s, '\n', f);
    lemma_split_on_shape(s, '\n');
    let p = split_on(s, '\n');
    assert forall|k: int, j: int|
        0 <= k < lines_of(s).len() && 0 <= j < lines_of(s)[k].len() implies f(
        #[trigger] lines_of(s)[k][j],
    ) by {
        if k < p.len() - 1 {
            assert(lines_of(s)[k] == strip_cr(p[k]));
            assert(strip_cr(p[k])[j] == p[k][j]);
        } else {
            assert(lines_of(s)[k] == p.last());
            assert(p[p.len() - 1][j] == p.last()[j]);
        }
    }
}

/// A character that neither the parts nor the separator hold is not in the
/// joined text.
pub proof fn lemma_join_lacks(parts: Seq<Seq<char>>, sep: Seq<char>, c: char)
    requires
        forall|i: int| 0 <= i < sep.len() ==> sep[i] != c,
        forall|k: int, j: int|
            0 <= k < parts.len() && 0 <= j < parts[k].len() ==> #[trigger] parts[k][j] != c,
    ensures
        forall|i: int| 0 <= i < join_sep(parts, sep).len() ==> join_sep(parts, sep)[i] != c,
    decreases parts.len(),
{
    if parts.len() == 1 {
        assert forall|i: int| 0 <= i < join_sep(parts, sep).len() implies join_sep(parts, sep)[i]
            != c by {
            assert(parts[0][i] != c);
        }
    } else if parts.len() >= 2 {
        let ps = parts.drop_last();
        assert forall|k: int, j: int| 0 <= k < ps.len() && 0 <= j < ps[k].len() implies #[trigger] ps[k][j] != c by {
            assert(ps[k] == parts[k]);
        }
        lemma_join_lacks(ps, sep, c);
        let jn = join_sep(ps, sep);
        let l = parts.last();
        assert(join_sep(parts, sep) == jn + sep + l);
        assert forall|i: int| 0 <= i < join_sep(parts, sep).len() implies join_sep(parts, sep)[i]
            != c by {
            if i >= jn.len() + sep.len() {
                assert(parts[parts.len() - 1][i - jn.len() - sep.len()] != c);
            }
        }
    }
}

/// A beginning without `White_Space` of text joined by a `White_Space`
/// separator begins the first part.
pub proof fn lemma_join_prefix(parts: Seq<Seq<char>>, sep: Seq<char>, p: Seq<char>)
    requires
        parts.len() >= 1,
        sep.len() == 1,
        is_white_space(sep[0]),
        ws_free(p),
        starts_with(join_sep(parts, sep), p),
    ensures
        starts_with(parts[0], p),
{
    lemma_join_first(parts, sep);
    let js = join_sep(parts, sep);
    let n = parts[0].len() as int;
    if p.len() <= n {
        assert(parts[0].subrange(0, p.len() as int) =~= js.subrange(0, p.len() as int)) by {
            assert forall|k: int| 0 <= k < p.len() implies parts[0][k] == js[k] by {
                assert(js.take(n)[k] == js[k]);
            }
        }
    } else {
        if parts.len() == 1 {
            assert(js.take(n) =~= js);
        } else {
            assert(js.subrange(0, p.len() as int)[n] == js[n]);
            assert(!is_white_space(p[n]));
        }
    }
}

/// A word written after nothing or after `White_Space` becomes the last word.
pub proof fn lemma_words_append_word(x: Seq<char>, w: Seq<char>)
    requires
        w.len() > 0,
        ws_free(w),
        x.len() == 0 || is_white_space(x.last()),
    ensures
        words(x + w) == words(x).push(w),
    decreases w.len(),
{
    let s = x + w;
    if w.len() == 1 {
        assert(s.drop_last() =~= x);
        assert(s.last() == w[0]);
        if s.len() >= 2 {
            assert(s[s.len() - 2] == x.last());
        }
        assert(seq![w[0]] =~= w);
    } else {
        let w1 = w.drop_last();
        assert forall|i: int| 0 <= i < w1.len() implies !is_white_space(#[trigger] w1[i]) by {
            assert(w1[i] == w[i]);
        }
        lemma_words_append_word(x, w1);
        assert(s.drop_last() =~= x + w1);
        assert(s[s.len() - 2] == w[w.len() - 2]);
        assert(!is_white_space(w[w.len() - 1]));
        assert(!is_white_space(w[w.len() - 2]));
        assert(w1.push(w.last()) =~= w);
        assert(words(s) =~= words(x).push(w));
    }
}

/// A trailing space adds no word.
pub proof fn lemma_words_push_space(x: Seq<char>)
    ensures
        words(x.push(' ')) == words(x),
{
    assert(x.push(' ').drop_last() =~= x);
    assert(is_white_space(' '));
}

/// Every part occurs in the joined text.
pub proof fn lemma_join_contains(parts: Seq<Seq<char>>, sep: Seq<char>, j: int)
    requires
        0 <= j < parts.len(),
    ensures
        contains_pat(join_sep(parts, sep), parts[j]),
    decreases parts.len(),
{
    let js = join_sep(parts, sep);
    if parts.len() == 1 {
        assert(js.subrange(0, js.len() as int) =~= js);
        assert(occurs_at(js, parts[j], 0));
    } else {
        let front = parts.drop_last();
        let jf = join_sep(front, sep);
        assert(js == jf + sep + parts.last());
        if j == parts.len() - 1 {
            let i: int = (jf.len() + sep.len()) as int;
            assert(js.subrange(i, i + parts[j].len()) =~= parts[j]);
            assert(occurs_at(js, parts[j], i));
        } else {
            lemma_join_contains(front, sep, j);
            let i = choose|i: int| occurs_at(jf, front[j], i);
            assert(js.subrange(i, i + front[j].len()) =~= jf.subrange(i, i + front[j].len()));
            assert(occurs_at(js, parts[j], i));
        }
    }
}

/// Joining parts that begin and end with a character other than
/// `White_Space` leaves nothing to trim.
pub proof fn lemma_join_trimmed(parts: Seq<Seq<char>>, sep: Seq<char>)
    requires
        sep.len() == 1,
        forall|k: int|
            0 <= k < parts.len() ==> (#[trigger] parts[k]).len() > 0 && !is_white_space(parts[k][0])
                && !is_white_space(parts[k].last()),
    ensures
        trim(join_sep(parts, sep)) == join_sep(parts, sep),
{
    let js = join_sep(parts, sep);
    if parts.len() > 0 {
        lemma_join_first(parts, sep);
        assert(js[0] == js.take(parts[0].len() as int)[0]);
        assert(js.last() == parts.last().last()) by {
            if parts.len() >= 2 {
                assert(js == join_sep(parts.drop_last(), sep) + sep + parts.last());
            }
        }
        assert(parts[parts.len() - 1] == parts.last());
    }
    lemma_trim_fixed(js);
}

/// Splitting text joined at one separator gives the pieces of both sides.
pub proof fn lemma_split_on_concat(a: Seq<char>, b: Seq<char>, c: char)
    ensures
        split_on(a + seq![c] + b, c) == split_on(a, c) + split_on(b, c),
    decreases b.len(),
{
    let s = a + seq![c] + b;
    if b.len() == 0 {
        assert(s =~= a.push(c));
        assert(s.drop_last() =~= a);
        assert(split_on(b, c) =~= seq![Seq::<char>::empty()]);
        assert(split_on(s, c) =~= split_on(a, c) + split_on(b, c));
    } else {
        let b1 = b.drop_last();
        lemma_split_on_concat(a, b1, c);
        lemma_split_on_shape(b1, c);
        assert(s.drop_last() =~= a + seq![c] + b1);
        assert(s.last() == b.last());
        let x = split_on(a, c);
        let y = split_on(b1, c);
        if b.last() == c {
            assert(split_on(s, c) =~= x + y.push(Seq::<char>::empty()));
        } else {
            assert((x + y).last() == y.last());
            assert(split_on(s, c) =~= x + y.update(y.len() - 1, y.last().push(b.last())));
        }
    }
}

/// Splitting joined parts that hold no separator gives the parts back.
pub proof fn lemma_split_on_join(parts: Seq<Seq<char>>, c: char)
    requires
        parts.len() >= 1,
        forall|k: int| 0 <= k < parts.len() ==> !(#[trigger] parts[k]).contains(c),
    ensures
        split_on(join_sep(parts, seq![c]), c) == parts,
    decreases parts.len(),
{
    if parts.len() == 1 {
        lemma_split_on_whole(parts[0], c);
        assert(parts =~= seq![parts[0]]);
    } else {
        let front = parts.drop_last();
        assert forall|k: int| 0 <= k < front.len() implies !(#[trigger] front[k]).contains(c) by {
            assert(front[k] == parts[k]);
        }
        lemma_split_on_join(front, c);
        assert(parts[parts.len() - 1] == parts.last());
        lemma_split_on_whole(parts.last(), c);
        lemma_split_on_concat(join_sep(front, seq![c]), parts.last(), c);
        assert(front + seq![parts.last()] =~= parts);
    }
}

/// The lines of parts joined by line feeds are the parts themselves, when
/// none is empty, holds a line feed or ends with a carriage return.
pub proof fn lemma_lines_of_join(parts: Seq<Seq<char>>)
    requires
        forall|k: int|
            0 <= k < parts.len() ==> (#[trigger] parts[k]).len() > 0 && !parts[k].contains('\n')
                && parts[k].last() != '\r',
    ensures
        lines_of(join_sep(parts, seq!['\n'])) == parts,
{
    if parts.len() == 0 {
        assert(lines_of(Seq::<char>::empty()) =~= parts);
    } else {
        lemma_split_on_join(parts, '\n');
        let p = split_on(join_sep(parts, seq!['\n']), '\n');
        assert(p[p.len() - 1] == parts.last());
        assert(lines_of(join_sep(parts, seq!['\n'])) =~= parts);
    }
}

/// `squeeze_ws` of a prefix is a prefix of `squeeze_ws`.
pub proof fn lemma_squeeze_prefix_of(s: Seq<char>, n: int)
    requires
        0 <= n <= s.len(),
    ensures
        squeeze_ws(s.take(n)).len() <= squeeze_ws(s).len(),
        squeeze_ws(s).take(squeeze_ws(s.take(n)).len() as int) == squeeze_ws(s.take(n)),
    decreases s.len() - n,
{
    if n < s.len() {
        let t = s.take(n + 1);
        lemma_squeeze_prefix_of(s, n + 1);
        assert(t.drop_last() =~= s.take(n));
        let a = squeeze_ws(s.take(n));
        let b = squeeze_ws(t);
        assert(b.take(a.len() as int) =~= a);
        assert(squeeze_ws(s).take(a.len() as int) =~= squeeze_ws(s).take(b.len() as int).take(a.len() as int));
    } else {
        assert(s.take(n) =~= s);
        assert(squeeze_ws(s).take(squeeze_ws(s).len() as int) =~= squeeze_ws(s));
    }
}

/// Single-spaced text that begins with a character other than
/// `White_Space` and ends `s` also ends `squeeze_ws(s)`.
proof fn lemma_squeeze_keeps_suffix(s: Seq<char>, p: Seq<char>)
    requires
        p.len() > 0,
        !is_white_space(p[0]),
        spaces_only(p),
        single_spaced(p),
        p.len() <= s.len(),
        s.skip(s.len() - p.len()) == p,
    ensures
        p.len() <= squeeze_ws(s).len(),
        squeeze_ws(s).skip(squeeze_ws(s).len() - p.len()) == p,
    decreases p.len(),
{
    let t = s.drop_last();
    let c = s.last();
    assert(c == p.last()) by {
        assert(s.skip(s.len() - p.len())[p.len() - 1] == s[s.len() - 1]);
    }
    if p.len() == 1 {
        assert(!is_white_space(c));
        assert(squeeze_ws(s) == squeeze_ws(t).push(c));
        assert(squeeze_ws(s).skip(squeeze_ws(s).len() - 1) =~= p);
    } else {
        let p1 = p.drop_last();
        assert forall|i: int| 0 <= i < p1.len() && is_white_space(#[trigger] p1[i]) implies p1[i] == ' ' by {
            assert(p1[i] == p[i]);
        }
        assert forall|a: int, b: int| 0 <= a && b == a + 1 && b < p1.len() implies !(is_white_space(#[trigger] p1[a]) && is_white_space(#[trigger] p1[b])) by {
            assert(p1[a] == p[a] && p1[b] == p[b]);
        }
        assert(t.skip(t.len() - p1.len()) =~= p1) by {
            assert forall|i: int| 0 <= i < p1.len() implies t.skip(t.len() - p1.len())[i] == p1[i] by {
                assert(s.skip(s.len() - p.len())[i] == p[i]);
            }
        }
        lemma_squeeze_keeps_suffix(t, p1);
        let r = squeeze_ws(t);
        assert(t.last() == p[p.len() - 2]) by {
            assert(t.skip(t.len() - p1.len())[p1.len() - 1] == t[t.len() - 1]);
        }
        if is_white_space(c) {
            assert(c == ' ');
            assert(!is_white_space(p[p.len() - 2])) by {
                assert(!(is_white_space(p[p.len() - 2]) && is_white_space(p[p.len() - 1])));
            }
            assert(s[s.len() - 2] == t.last());
            assert(squeeze_ws(s) == r.push(' '));
        } else {
            assert(squeeze_ws(s) == r.push(c));
        }
        assert(squeeze_ws(s).skip(squeeze_ws(s).len() - p.len()) =~= p) by {
            assert forall|i: int| 0 <= i < p.len() implies squeeze_ws(s).skip(squeeze_ws(s).len() - p.len())[i] == p[i] by {
                if i < p1.len() {
                    assert(r.skip(r.len() - p1.len())[i] == p1[i]);
                }
            }
        }
    }
}

/// Single-spaced text with plain spaces that begins with a character other
/// than `White_Space` survives `squeeze_ws` wherever it occurs.
pub proof fn lemma_squeeze_keeps_window(s: Seq<char>, p: Seq<char>, i: int)
    requires
        p.len() > 0,
        !is_white_space(p[0]),
        spaces_only(p),
        single_spaced(p),
        occurs_at(s, p, i),
    ensures
        contains_pat(squeeze_ws(s), p),
{
    let n = i + p.len();
    let t = s.take(n);
    assert(t.skip(t.len() - p.len()) =~= p) by {
        assert forall|k: int| 0 <= k < p.len() implies t.skip(t.len() - p.len())[k] == p[k] by {
            assert(s.subrange(i, i + p.len())[k] == p[k]);
        }
    }
    lemma_squeeze_keeps_suffix(t, p);
    lemma_squeeze_prefix_of(s, n);
    let q = squeeze_ws(t);
    let at = q.len() - p.len();
    assert(squeeze_ws(s).subrange(at, at + p.len()) =~= p) by {
        assert forall|k: int| 0 <= k < p.len() implies squeeze_ws(s).subrange(at, at + p.len())[k] == p[k] by {
            assert(squeeze_ws(s).take(q.len() as int)[at + k] == q[at + k]);
            assert(q.skip(at)[k] == p[k]);
        }
    }
    assert(occurs_at(squeeze_ws(s), p, at));
}

proof fn lemma_trim_start_keeps(s: Seq<char>, k: int)
    requires
        0 <= k < s.len(),
        !is_white_space(s[k]),
    ensures
        s.len() - trim_start(s).len() <= k,
    decreases s.len(),
{
    lemma_trim_start_is_suffix(s);
    if s.len() > 0 && is_white_space(s[0]) {
        lemma_trim_start_keeps(s.drop_first(), k - 1);
    }
}

/// A run that begins and ends with characters other than `White_Space`
/// survives `trim` wherever it occurs.
pub proof fn lemma_trim_keeps_window(s: Seq<char>, p: Seq<char>, i: int)
    requires
        p.len() > 0,
        !is_white_space(p[0]),
        !is_white_space(p.last()),
        occurs_at(s, p, i),
    ensures
        contains_pat(trim(s), p),
{
    assert(s[i] == p[0]) by {
        assert(s.subrange(i, i + p.len())[0] == s[i]);
    }
    assert(s[i + p.len() - 1] == p.last()) by {
        assert(s.subrange(i, i + p.len())[p.len() - 1] == s[i + p.len() - 1]);
    }
    lemma_trim_start_keeps(s, i);
    lemma_trim_start_is_suffix(s);
    let a = s.len() - trim_start(s).len();
    let u = trim_start(s);
    assert(u[i + p.len() - 1 - a] == s[i + p.len() - 1]);
    lemma_trim_end_keeps(u, i + p.len() - 1 - a);
    let v = trim_end(u);
    assert(v.subrange(i - a, i - a + p.len()) =~= p) by {
        assert forall|k: int| 0 <= k < p.len() implies v.subrange(i - a, i - a + p.len())[k] == p[k] by {
            assert(v[i - a + k] == u.take(v.len() as int)[i - a + k]);
            assert(u[i - a + k] == s[i + k]);
            assert(s.subrange(i, i + p.len())[k] == p[k]);
        }
    }
    assert(occurs_at(trim(s), p, i - a));
}

} // verus!
