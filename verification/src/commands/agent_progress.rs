//! What the agent shows while a tool call's arguments stream in: the code
//! and description read from the partial arguments, the progress text of
//! each call, and the running buffer in which every call has its block.
use vstd::prelude::*;
use crate::commands::agent::ToolArguments;
use crate::text::{
    byte_boundary, byte_prefix, contains_pat, contains_str, decimal, decimal_chars, find_from,
    first_occurrence, from_chars, lemma_first_occurrence, lines, lines_of, matches_at, occurs_at, prefix_bytes,
    push_all, push_str, replace_all, replace_chars, slice_chars, to_chars, utf8_len, utf8_len_of,
};

verus! {

/// Where the first unescaped `q` stands in `r` from `i` on (a backslash
/// escapes the character after it), or the length of `r` when there is none.
pub open spec fn quote_scan(r: Seq<char>, q: char, i: int, escaped: bool) -> int
    decreases r.len() - i,
{
    if i < 0 || i >= r.len() {
        r.len() as int
    } else if escaped {
        quote_scan(r, q, i + 1, false)
    } else if r[i] == '\\' {
        quote_scan(r, q, i + 1, true)
    } else if r[i] == q {
        i
    } else {
        quote_scan(r, q, i + 1, false)
    }
}

/// The escapes that the preview undoes, in order.
pub open spec fn unescape_preview(s: Seq<char>) -> Seq<char> {
    let a = replace_all(s, seq!['\\', 'n'], seq!['\n']);
    let b = replace_all(a, seq!['\\', '"'], seq!['"']);
    let c = replace_all(b, seq!['\\', '\\'], seq!['\\']);
    let d = replace_all(c, seq!['\\', 't'], seq!['\t']);
    replace_all(d, seq!['\\', '\''], seq!['\''])
}

/// What the code pattern `p` (whose strings are quoted with `q`) finds in
/// the arguments: `None` to try the next pattern, `Some(None)` when the cut
/// falls inside a character, else the raw code.  The scan counts
/// characters while the cut counts bytes, as the bot does.
pub open spec fn code_after(args: Seq<char>, p: Seq<char>, q: char) -> Option<Option<Seq<char>>> {
    match first_occurrence(args, p, 0) {
        None => None,
        Some(s) => {
            let st = s + p.len();
            if st >= args.len() {
                None
            } else {
                let r = args.skip(st);
                let k = quote_scan(r, q, 0, false);
                if k > 0 {
                    if byte_boundary(r, k as nat) {
                        Some(Some(byte_prefix(r, k as nat)))
                    } else {
                        Some(None)
                    }
                } else {
                    None
                }
            }
        }
    }
}

/// The code patterns, in the order they are tried, with their quote.
pub open spec fn code_patterns() -> Seq<(Seq<char>, char)> {
    seq![
        (seq!['"', 'c', 'o', 'd', 'e', '"', ':', '"'], '"'),
        (seq!['"', 'c', 'o', 'd', 'e', '"', ':', ' ', '"'], '"'),
        (seq!['\'', 'c', 'o', 'd', 'e', '\'', ':', '\''], '\''),
        (seq!['\'', 'c', 'o', 'd', 'e', '\'', ':', ' ', '\''], '\''),
    ]
}

/// The first of the patterns from `i` on that finds something.
pub open spec fn first_code(args: Seq<char>, pats: Seq<(Seq<char>, char)>, i: int) -> Option<Option<Seq<char>>>
    decreases pats.len() - i,
{
    if i < 0 || i >= pats.len() {
        None
    } else {
        match code_after(args, pats[i].0, pats[i].1) {
            Some(x) => Some(x),
            None => first_code(args, pats, i + 1),
        }
    }
}

/// The arguments look like code although no pattern matched.
pub open spec fn looks_like_code(args: Seq<char>) -> bool {
    utf8_len(args) > 50 && (contains_pat(args, "function"@) || contains_pat(args, "const "@)
        || contains_pat(args, "let "@) || contains_pat(args, "var "@) || contains_pat(args, "canvas"@)
        || contains_pat(args, "document"@))
}

/// The code preview of partial arguments (`None` when a cut would split a
/// character): the unescaped code after the first pattern that finds some,
/// else the whole arguments when they look like code, else nothing.
pub open spec fn code_preview_spec(args: Seq<char>) -> Option<Seq<char>> {
    match first_code(args, code_patterns(), 0) {
        Some(Some(c)) => Some(unescape_preview(c)),
        Some(None) => None,
        None => if looks_like_code(args) {
            Some(args)
        } else {
            Some(Seq::empty())
        },
    }
}

fn scan_quote(r: &[char], q: char) -> (k: usize)
    ensures
        k as int == quote_scan(r@, q, 0, false),
        k <= r@.len(),
{
    let mut i: usize = 0;
    let mut escaped = false;
    while i < r.len()
        invariant
            i <= r@.len(),
            quote_scan(r@, q, 0, false) == quote_scan(r@, q, i as int, escaped),
        decreases r@.len() - i,
    {
        if escaped {
            escaped = false;
        } else if r[i] == '\\' {
            escaped = true;
        } else if r[i] == q {
            return i;
        }
        i = i + 1;
    }
    r.len()
}

fn code_after_exec(args: &[char], p: &[char], q: char) -> (r: Option<Option<Vec<char>>>)
    ensures
        match (r, code_after(args@, p@, q)) {
            (None, None) => true,
            (Some(None), Some(None)) => true,
            (Some(Some(c)), Some(Some(d))) => c@ == d,
            _ => false,
        },
{
    proof {
        lemma_first_occurrence(args@, p@, 0);
    }
    let n = args.len();
    match find_from(args, p, 0) {
        None => None,
        Some(s) => {
            assert(occurs_at(args@, p@, s as int));
            assert(s + p@.len() <= n);
            let st = s + p.len();
            if st >= args.len() {
                return None;
            }
            let r = slice_chars(args, st, args.len());
            assert(r@ =~= args@.skip(st as int));
            let k = scan_quote(r.as_slice(), q);
            if k > 0 {
                if crate::text::has_byte_boundary(r.as_slice(), k as u128) {
                    Some(Some(prefix_bytes(r.as_slice(), k as u128)))
                } else {
                    Some(None)
                }
            } else {
                None
            }
        },
    }
}

fn unescape_exec(s: &[char]) -> (r: Vec<char>)
    ensures
        r@ == unescape_preview(s@),
{
    let p1 = ['\\', 'n'];
    let r1 = ['\n'];
    let p2 = ['\\', '"'];
    let r2 = ['"'];
    let p3 = ['\\', '\\'];
    let r3 = ['\\'];
    let p4 = ['\\', 't'];
    let r4 = ['\t'];
    let p5 = ['\\', '\''];
    let r5 = ['\''];
    assert(p1@ =~= seq!['\\', 'n'] && r1@ =~= seq!['\n']);
    assert(p2@ =~= seq!['\\', '"'] && r2@ =~= seq!['"']);
    assert(p3@ =~= seq!['\\', '\\'] && r3@ =~= seq!['\\']);
    assert(p4@ =~= seq!['\\', 't'] && r4@ =~= seq!['\t']);
    assert(p5@ =~= seq!['\\', '\''] && r5@ =~= seq!['\'']);
    let a = replace_chars(s, &p1, &r1);
    let b = replace_chars(a.as_slice(), &p2, &r2);
    let c = replace_chars(b.as_slice(), &p3, &r3);
    let d = replace_chars(c.as_slice(), &p4, &r4);
    replace_chars(d.as_slice(), &p5, &r5)
}

/// Reads the code out of partially streamed arguments.
pub fn code_preview(args: &str) -> (r: Option<String>)
    ensures
        match r {
            Some(c) => code_preview_spec(args@) == Some(c@),
            None => code_preview_spec(args@) is None,
        },
{
    let a = to_chars(args);
    let pats: [([char; 9], usize, char); 4] = [
        (['"', 'c', 'o', 'd', 'e', '"', ':', '"', ' '], 8, '"'),
        (['"', 'c', 'o', 'd', 'e', '"', ':', ' ', '"'], 9, '"'),
        (['\'', 'c', 'o', 'd', 'e', '\'', ':', '\'', ' '], 8, '\''),
        (['\'', 'c', 'o', 'd', 'e', '\'', ':', ' ', '\''], 9, '\''),
    ];
    let mut i: usize = 0;
    while i < 4
        invariant
            i <= 4,
            a@ == args@,
            pats@.len() == 4,
            forall|j: int| 0 <= j < 4 ==> (#[trigger] pats@[j]).1 <= 9 && pats@[j].0@.take(pats@[j].1 as int) == code_patterns()[j].0 && pats@[j].2 == code_patterns()[j].1,
            first_code(args@, code_patterns(), 0) == first_code(args@, code_patterns(), i as int),
        decreases 4 - i,
    {
        let (pat, n, q) = pats[i];
        let p = slice_chars(&pat, 0, n);
        match code_after_exec(a.as_slice(), p.as_slice(), q) {
            Some(Some(c)) => {
                let u = unescape_exec(c.as_slice());
                return Some(from_chars(u.as_slice()));
            },
            Some(None) => {
                return None;
            },
            None => {},
        }
        i = i + 1;
    }
    let long = utf8_len_of(a.as_slice()) > 50;
    if long && (contains_str(args, "function") || contains_str(args, "const ") || contains_str(args, "let ")
        || contains_str(args, "var ") || contains_str(args, "canvas") || contains_str(args, "document")) {
        Some(String::from_str(args))
    } else {
        Some(String::new())
    }
}

/// What the description pattern `p` finds: the text after it up to the next
/// `q`, when there is one.
pub open spec fn description_after(args: Seq<char>, p: Seq<char>, q: char) -> Option<Seq<char>> {
    match first_occurrence(args, p, 0) {
        None => None,
        Some(s) => {
            let st = s + p.len();
            if st >= args.len() {
                None
            } else {
                let r = args.skip(st);
                match first_occurrence(r, seq![q], 0) {
                    Some(e) => Some(r.take(e)),
                    None => None,
                }
            }
        }
    }
}

/// The description patterns, in the order they are tried, with their quote.
pub open spec fn description_patterns() -> Seq<(Seq<char>, char)> {
    seq![
        ("\"description\":\""@, '"'),
        ("\"description\": \""@, '"'),
        ("'description':'"@, '\''),
        ("'description': '"@, '\''),
    ]
}

pub open spec fn first_description(args: Seq<char>, pats: Seq<(Seq<char>, char)>, i: int) -> Seq<char>
    decreases pats.len() - i,
{
    if i < 0 || i >= pats.len() {
        Seq::empty()
    } else {
        match description_after(args, pats[i].0, pats[i].1) {
            Some(d) => d,
            None => first_description(args, pats, i + 1),
        }
    }
}

/// The description read from partial arguments, empty when none is found.
pub open spec fn description_preview_spec(args: Seq<char>) -> Seq<char> {
    first_description(args, description_patterns(), 0)
}

fn description_after_exec(args: &[char], p: &str, q: char) -> (r: Option<Vec<char>>)
    ensures
        match r {
            Some(d) => description_after(args@, p@, q) == Some(d@),
            None => description_after(args@, p@, q) is None,
        },
{
    let pc = to_chars(p);
    proof {
        lemma_first_occurrence(args@, p@, 0);
    }
    let n = args.len();
    match find_from(args, pc.as_slice(), 0) {
        None => None,
        Some(s) => {
            assert(occurs_at(args@, p@, s as int));
            let st = s + pc.len();
            if st >= args.len() {
                return None;
            }
            let r = slice_chars(args, st, args.len());
            assert(r@ =~= args@.skip(st as int));
            let qa = [q];
            assert(qa@ =~= seq![q]);
            proof {
                lemma_first_occurrence(r@, seq![q], 0);
            }
            match find_from(r.as_slice(), &qa, 0) {
                Some(e) => {
                    let d = slice_chars(r.as_slice(), 0, e);
                    assert(d@ =~= r@.take(e as int));
                    Some(d)
                },
                None => None,
            }
        },
    }
}

/// Reads the description out of partially streamed arguments.
pub fn description_preview(args: &str) -> (r: String)
    ensures
        r@ == description_preview_spec(args@),
{
    let a = to_chars(args);
    let ghost pats = description_patterns();
    proof {
        reveal_with_fuel(first_description, 5);
        assert(pats[0].0 == "\"description\":\""@ && pats[0].1 == '"');
        assert(pats[1].0 == "\"description\": \""@ && pats[1].1 == '"');
        assert(pats[2].0 == "'description':'"@ && pats[2].1 == '\'');
        assert(pats[3].0 == "'description': '"@ && pats[3].1 == '\'');
    }
    match description_after_exec(a.as_slice(), "\"description\":\"", '"') {
        Some(d) => {
            return from_chars(d.as_slice());
        },
        None => {},
    }
    match description_after_exec(a.as_slice(), "\"description\": \"", '"') {
        Some(d) => {
            return from_chars(d.as_slice());
        },
        None => {},
    }
    match description_after_exec(a.as_slice(), "'description':'", '\'') {
        Some(d) => {
            return from_chars(d.as_slice());
        },
        None => {},
    }
    match description_after_exec(a.as_slice(), "'description': '", '\'') {
        Some(d) => {
            return from_chars(d.as_slice());
        },
        None => {},
    }
    String::new()
}

/// `s` cut to `n` bytes with `...` appended when it is longer (`None` when
/// the cut would split a character).
pub open spec fn cut_with_dots(s: Seq<char>, n: nat) -> Option<Seq<char>> {
    if utf8_len(s) > n {
        if byte_boundary(s, n) {
            Some(byte_prefix(s, n) + "..."@)
        } else {
            None
        }
    } else {
        Some(s)
    }
}

fn cut_dots(s: &[char], n: usize) -> (r: Option<Vec<char>>)
    ensures
        match r {
            Some(c) => cut_with_dots(s@, n as nat) == Some(c@),
            None => cut_with_dots(s@, n as nat) is None,
        },
{
    if utf8_len_of(s) > n as u128 {
        if crate::text::has_byte_boundary(s, n as u128) {
            let mut c = prefix_bytes(s, n as u128);
            push_str(&mut c, "...");
            Some(c)
        } else {
            None
        }
    } else {
        let c = slice_chars(s, 0, s.len());
        assert(c@ =~= s@);
        Some(c)
    }
}

/// The progress text of a streaming JavaScript call (`None` when a preview
/// cut would split a character): the description and the code read so far,
/// or, before any code is recognised, the raw start of the arguments.
pub open spec fn js_progress_spec(args: Seq<char>) -> Option<Seq<char>> {
    let d = description_preview_spec(args);
    let shown = if d.len() > 0 {
        d
    } else {
        "JavaScript execution"@
    };
    match code_preview_spec(args) {
        None => None,
        Some(code) => if code.len() > 0 && utf8_len(code) > 20 {
            match cut_with_dots(code, 800) {
                None => None,
                Some(p) => Some(
                    "📊 **Status:** Streaming JavaScript code...\n📝 **Description:** "@ + shown + "\n📈 **Progress:** "@
                        + decimal(utf8_len(code)) + " chars, "@ + decimal(lines_of(code).len()) + " lines\n\n💻 **Live Code Preview:**\n```javascript\n"@
                        + p + "\n```\n"@ + (if utf8_len(code) > 800 {
                        "\n🔄 **Still streaming...**"@
                    } else {
                        Seq::empty()
                    }),
                ),
            }
        } else {
            match cut_with_dots(args, 100) {
                None => None,
                Some(p) => Some(
                    "📊 **Status:** Receiving JavaScript arguments...\n📝 **Description:** "@ + shown + "\n📈 **Progress:** "@
                        + decimal(utf8_len(args)) + " chars received\n\n🔄 **Parsing JavaScript code...**\n\n📋 **Raw Preview:** "@ + p,
                ),
            }
        },
    }
}

/// Writes the progress text of a streaming JavaScript call.
pub fn js_progress(args: &str) -> (r: Option<String>)
    ensures
        match r {
            Some(t) => js_progress_spec(args@) == Some(t@),
            None => js_progress_spec(args@) is None,
        },
{
    let d = description_preview(args);
    let shown = if d.as_str().is_empty() {
        String::from_str("JavaScript execution")
    } else {
        d
    };
    let code = match code_preview(args) {
        None => {
            return None;
        },
        Some(c) => c,
    };
    let cc = to_chars(code.as_str());
    let code_bytes = utf8_len_of(cc.as_slice());
    if cc.len() > 0 && code_bytes > 20 {
        let p = match cut_dots(cc.as_slice(), 800) {
            None => {
                return None;
            },
            Some(p) => p,
        };
        let ls = lines(cc.as_slice());
        let mut out = to_chars("📊 **Status:** Streaming JavaScript code...\n📝 **Description:** ");
        push_str(&mut out, shown.as_str());
        push_str(&mut out, "\n📈 **Progress:** ");
        let n1 = decimal_chars(code_bytes);
        push_all(&mut out, n1.as_slice());
        push_str(&mut out, " chars, ");
        let n2 = decimal_chars(ls.len() as u128);
        push_all(&mut out, n2.as_slice());
        push_str(&mut out, " lines\n\n💻 **Live Code Preview:**\n```javascript\n");
        push_all(&mut out, p.as_slice());
        push_str(&mut out, "\n```\n");
        if code_bytes > 800 {
            push_str(&mut out, "\n🔄 **Still streaming...**");
        }
        Some(from_chars(out.as_slice()))
    } else {
        let a = to_chars(args);
        let p = match cut_dots(a.as_slice(), 100) {
            None => {
                return None;
            },
            Some(p) => p,
        };
        let mut out = to_chars("📊 **Status:** Receiving JavaScript arguments...\n📝 **Description:** ");
        push_str(&mut out, shown.as_str());
        push_str(&mut out, "\n📈 **Progress:** ");
        let n1 = decimal_chars(utf8_len_of(a.as_slice()));
        push_all(&mut out, n1.as_slice());
        push_str(&mut out, " chars received\n\n🔄 **Parsing JavaScript code...**\n\n📋 **Raw Preview:** ");
        push_all(&mut out, p.as_slice());
        Some(from_chars(out.as_slice()))
    }
}

/// The progress text of any other streaming call: a bar of one block per
/// hundred bytes (twenty at most) and the byte count.
pub open spec fn args_progress_spec(args_len: nat) -> Seq<char> {
    let n = if args_len / 100 < 20 {
        args_len / 100
    } else {
        20
    };
    "📊 **Progress:** "@ + Seq::new(n, |i: int| '█') + " ("@ + decimal(args_len)
        + " chars)\n📋 **Building function arguments...**\n"@
}

/// Writes the progress text of a non-JavaScript call.
pub fn args_progress(args_len: u128) -> (r: String)
    ensures
        r@ == args_progress_spec(args_len as nat),
{
    let n: u128 = if args_len / 100 < 20 {
        args_len / 100
    } else {
        20
    };
    let mut out = to_chars("📊 **Progress:** ");
    let ghost start = out@;
    let mut i: u128 = 0;
    while i < n
        invariant
            i <= n,
            out@ == start + Seq::new(i as nat, |j: int| '█'),
        decreases n - i,
    {
        out.push('█');
        assert(Seq::new((i + 1) as nat, |j: int| '█') =~= Seq::new(i as nat, |j: int| '█').push('█'));
        i = i + 1;
    }
    push_str(&mut out, " (");
    let d = decimal_chars(args_len);
    push_all(&mut out, d.as_slice());
    push_str(&mut out, " chars)\n📋 **Building function arguments...**\n");
    from_chars(out.as_slice())
}

/// The last position at or before `i` where `pat` occurs in `s`.
pub open spec fn last_occurrence_from(s: Seq<char>, pat: Seq<char>, i: int) -> Option<int>
    decreases i + 1,
{
    if i < 0 {
        None
    } else if occurs_at(s, pat, i) {
        Some(i)
    } else {
        last_occurrence_from(s, pat, i - 1)
    }
}

/// The last position where `pat` occurs in `s`.
pub open spec fn last_occurrence(s: Seq<char>, pat: Seq<char>) -> Option<int> {
    last_occurrence_from(s, pat, s.len() - pat.len())
}

fn find_last_occurrence(s: &[char], pat: &[char]) -> (r: Option<usize>)
    ensures
        match r {
            Some(i) => last_occurrence(s@, pat@) == Some(i as int) && i + pat@.len() <= s@.len(),
            None => last_occurrence(s@, pat@) is None,
        },
{
    if pat.len() > s.len() {
        assert(last_occurrence_from(s@, pat@, s@.len() - pat@.len()) is None);
        return None;
    }
    if pat.len() == 0 {
        assert(s@.subrange(s@.len() as int, s@.len() as int) =~= pat@);
        assert(occurs_at(s@, pat@, s@.len() as int));
        return Some(s.len());
    }
    let mut i: usize = s.len() - pat.len() + 1;
    while i > 0
        invariant
            i <= s@.len() - pat@.len() + 1,
            pat@.len() <= s@.len(),
            last_occurrence(s@, pat@) == last_occurrence_from(s@, pat@, i - 1),
        decreases i,
    {
        if matches_at(s, pat, i - 1) {
            return Some(i - 1);
        }
        i = i - 1;
    }
    None
}

/// The heading of a call's block in the running buffer.
pub open spec fn call_marker(name: Seq<char>) -> Seq<char> {
    "🔧 **Function Call:** "@ + name
}

/// The buffer with the block of call `name` replaced: from the call's last
/// heading (or the start of the buffer, when it has none) up to the next
/// call's heading, or to the end.
pub open spec fn replace_block_spec(buffer: Seq<char>, name: Seq<char>, content: Seq<char>) -> Seq<char> {
    let start = match last_occurrence(buffer, call_marker(name)) {
        Some(i) => i,
        None => 0,
    };
    let block = call_marker(name) + "\n"@ + content;
    match first_occurrence(buffer, "\n🔧 **Function Call:**"@, start) {
        Some(e) => buffer.take(start) + block + buffer.skip(e),
        None => buffer.take(start) + block,
    }
}

/// Replaces the block of a call in the running buffer.
pub fn replace_function_block(buffer: &str, name: &str, content: &str) -> (r: String)
    ensures
        r@ == replace_block_spec(buffer@, name@, content@),
{
    let b = to_chars(buffer);
    let mut marker = to_chars("🔧 **Function Call:** ");
    push_str(&mut marker, name);
    let start: usize = match find_last_occurrence(b.as_slice(), marker.as_slice()) {
        Some(i) => i,
        None => 0,
    };
    let next = to_chars("\n🔧 **Function Call:**");
    proof {
        lemma_first_occurrence(b@, next@, start as int);
    }
    let mut out = slice_chars(b.as_slice(), 0, start);
    assert(out@ =~= b@.take(start as int));
    push_all(&mut out, marker.as_slice());
    push_str(&mut out, "\n");
    push_str(&mut out, content);
    match find_from(b.as_slice(), next.as_slice(), start) {
        Some(e) => {
            let tail = slice_chars(b.as_slice(), e, b.len());
            assert(tail@ =~= b@.skip(e as int));
            push_all(&mut out, tail.as_slice());
        },
        None => {},
    }
    from_chars(out.as_slice())
}

/// The line added to the buffer when a call's name first arrives.
pub fn call_started_text(name: &str) -> (r: String)
    ensures
        r@ == "\n🔧 **Function Call:** "@ + name@ + "\n📝 **Status:** Receiving arguments via SSE stream...\n"@,
{
    let mut out = to_chars("\n🔧 **Function Call:** ");
    push_str(&mut out, name);
    push_str(&mut out, "\n📝 **Status:** Receiving arguments via SSE stream...\n");
    from_chars(out.as_slice())
}

/// The buffer after more arguments of call `name` arrived (`None` when a
/// preview cut would split a character): the call's block shows the
/// JavaScript progress, or the progress bar for other tools.
pub open spec fn call_progress_spec(buffer: Seq<char>, name: Seq<char>, args: Seq<char>) -> Option<Seq<char>> {
    if name == "execute_js_code"@ {
        match js_progress_spec(args) {
            Some(p) => Some(replace_block_spec(buffer, name, p)),
            None => None,
        }
    } else {
        Some(replace_block_spec(buffer, name, args_progress_spec(utf8_len(args))))
    }
}

/// Shows the progress of a streaming call in the running buffer.
pub fn call_progress(buffer: &str, name: &str, args: &str) -> (r: Option<String>)
    ensures
        match r {
            Some(b) => call_progress_spec(buffer@, name@, args@) == Some(b@),
            None => call_progress_spec(buffer@, name@, args@) is None,
        },
{
    let n = to_chars(name);
    let js = to_chars("execute_js_code");
    if crate::cleaning::eq_chars(n.as_slice(), js.as_slice()) {
        match js_progress(args) {
            Some(p) => Some(replace_function_block(buffer, name, p.as_str())),
            None => None,
        }
    } else {
        let a = to_chars(args);
        let len = utf8_len_of(a.as_slice());
        let p = args_progress(len);
        Some(replace_function_block(buffer, name, p.as_str()))
    }
}

/// The block text of a call once all its arguments arrived: for JavaScript
/// with readable code, the code and its statistics; otherwise the size.
pub open spec fn completion_spec(name: Seq<char>, parsed: Option<ToolArguments>, args_len: nat) -> Seq<char> {
    let code = match parsed {
        Some(a) => match a.code {
            Some(c) => c@,
            None => Seq::empty(),
        },
        None => Seq::empty(),
    };
    let desc = match parsed {
        Some(a) => match a.description {
            Some(d) => d@,
            None => Seq::empty(),
        },
        None => Seq::empty(),
    };
    if name == "execute_js_code"@ && code.len() > 0 {
        "✅ **Status:** JavaScript code ready for execution\n📝 **Description:** "@ + (if desc.len() > 0 {
            desc
        } else {
            "JavaScript execution"@
        }) + "\n📊 **Code Stats:** "@ + decimal(utf8_len(code)) + " chars, "@ + decimal(lines_of(code).len())
            + " lines\n\n💻 **Complete JavaScript Code:**\n```javascript\n"@ + code + "\n```\n\n🚀 **Executing code...**"@
    } else {
        "✅ **Status:** Arguments received successfully\n📊 **Total Size:** "@ + decimal(args_len)
            + " characters\n🚀 **Ready for execution**\n"@
    }
}

/// Writes the block text of a call whose arguments are complete; `parsed`
/// holds the arguments' fields when they parse as JSON.
pub fn completion_text(name: &str, parsed: &Option<ToolArguments>, args_len: u128) -> (r: String)
    ensures
        r@ == completion_spec(name@, *parsed, args_len as nat),
{
    let empty = String::new();
    let code: &String = match parsed {
        Some(a) => match &a.code {
            Some(c) => c,
            None => &empty,
        },
        None => &empty,
    };
    let desc: &String = match parsed {
        Some(a) => match &a.description {
            Some(d) => d,
            None => &empty,
        },
        None => &empty,
    };
    let n = to_chars(name);
    let js = to_chars("execute_js_code");
    if crate::cleaning::eq_chars(n.as_slice(), js.as_slice()) && !code.as_str().is_empty() {
        let cc = to_chars(code.as_str());
        let ls = lines(cc.as_slice());
        let mut out = to_chars("✅ **Status:** JavaScript code ready for execution\n📝 **Description:** ");
        if desc.as_str().is_empty() {
            push_str(&mut out, "JavaScript execution");
        } else {
            push_str(&mut out, desc.as_str());
        }
        push_str(&mut out, "\n📊 **Code Stats:** ");
        let n1 = decimal_chars(utf8_len_of(cc.as_slice()));
        push_all(&mut out, n1.as_slice());
        push_str(&mut out, " chars, ");
        let n2 = decimal_chars(ls.len() as u128);
        push_all(&mut out, n2.as_slice());
        push_str(&mut out, " lines\n\n💻 **Complete JavaScript Code:**\n```javascript\n");
        push_str(&mut out, code.as_str());
        push_str(&mut out, "\n```\n\n🚀 **Executing code...**");
        from_chars(out.as_slice())
    } else {
        let mut out = to_chars("✅ **Status:** Arguments received successfully\n📊 **Total Size:** ");
        let d = decimal_chars(args_len);
        push_all(&mut out, d.as_slice());
        push_str(&mut out, " characters\n🚀 **Ready for execution**\n");
        from_chars(out.as_slice())
    }
}

/// Streamed text collected in segments: once it grows past the limit
/// (in bytes) at the end of a network chunk, the segment is written out and
/// the buffer starts afresh.
pub struct SegmentBuffer {
    pub text: String,
    pub limit: usize,
}

impl SegmentBuffer {
    /// Adds streamed text.
    pub fn push(&mut self, content: &str)
        ensures
            final(self).text@ == old(self).text@ + content@,
            final(self).limit == old(self).limit,
    {
        let mut c = to_chars(self.text.as_str());
        push_str(&mut c, content);
        self.text = from_chars(c.as_slice());
    }

    /// Ends a network chunk: when the buffer is longer than the limit it is
    /// emptied and its length in bytes returned.
    pub fn end_of_chunk(&mut self) -> (r: Option<u128>)
        ensures
            final(self).limit == old(self).limit,
            utf8_len(old(self).text@) > old(self).limit ==> r == Some(utf8_len(old(self).text@) as u128)
                && final(self).text@.len() == 0,
            utf8_len(old(self).text@) <= old(self).limit ==> r is None && final(self).text@ == old(self).text@,
    {
        let c = to_chars(self.text.as_str());
        let n = utf8_len_of(c.as_slice());
        if n > self.limit as u128 {
            self.text = String::new();
            Some(n)
        } else {
            None
        }
    }
}

/// A tool call as it streams in: the index the stream gives it, its name,
/// and the arguments received so far.
pub struct PendingCall {
    pub index: u64,
    pub name: String,
    pub arguments: String,
}

/// A pending call as index, name and arguments.
pub open spec fn pending_view(c: PendingCall) -> (u64, Seq<char>, Seq<char>) {
    (c.index, c.name@, c.arguments@)
}

pub open spec fn pending_views(cs: Seq<PendingCall>) -> Seq<(u64, Seq<char>, Seq<char>)> {
    Seq::new(cs.len(), |i: int| pending_view(cs[i]))
}

/// The first position at or after `i` of the call with stream index `index`.
pub open spec fn call_position_from(cs: Seq<(u64, Seq<char>, Seq<char>)>, index: u64, i: int) -> Option<int>
    decreases cs.len() - i,
{
    if i < 0 || i >= cs.len() {
        None
    } else if cs[i].0 == index {
        Some(i)
    } else {
        call_position_from(cs, index, i + 1)
    }
}

/// The line shown when a call's name first arrives.
pub open spec fn call_started_spec(name: Seq<char>) -> Seq<char> {
    "\n🔧 **Function Call:** "@ + name + "\n📝 **Status:** Receiving arguments via SSE stream...\n"@
}

/// Shown text and calls after a delta that may name a call: a name for an
/// index not seen yet announces a new call with no arguments.
pub open spec fn announce_spec(
    text: Seq<char>,
    calls: Seq<(u64, Seq<char>, Seq<char>)>,
    index: u64,
    name: Option<Seq<char>>,
) -> (Seq<char>, Seq<(u64, Seq<char>, Seq<char>)>) {
    match name {
        Some(n) => if call_position_from(calls, index, 0) is None {
            (text + call_started_spec(n), calls.push((index, n, Seq::empty())))
        } else {
            (text, calls)
        },
        None => (text, calls),
    }
}

/// Shown text, calls and outcome after one tool-call delta of the stream.
/// A named call is announced first; an argument fragment then joins the
/// arguments of the call with that index, whose block shows the progress;
/// for a tool other than JavaScript, shown text longer than `limit` bytes is
/// sent off as a segment of that many bytes and the shown text starts over.
/// The outcome is `None` when the preview would split a character, else the
/// size of the segment sent, if one was.
pub open spec fn tool_delta_spec(
    text: Seq<char>,
    calls: Seq<(u64, Seq<char>, Seq<char>)>,
    limit: nat,
    index: u64,
    name: Option<Seq<char>>,
    fragment: Option<Seq<char>>,
) -> (Seq<char>, Seq<(u64, Seq<char>, Seq<char>)>, Option<Option<u128>>) {
    let (t1, c1) = announce_spec(text, calls, index, name);
    match fragment {
        None => (t1, c1, Some(None)),
        Some(f) => match call_position_from(c1, index, 0) {
            None => (t1, c1, Some(None)),
            Some(k) => {
                let call = (c1[k].0, c1[k].1, c1[k].2 + f);
                let c2 = c1.update(k, call);
                match call_progress_spec(t1, call.1, call.2) {
                    None => (t1, c2, None),
                    Some(b) => if call.1 != "execute_js_code"@ && utf8_len(b) > limit {
                        (Seq::empty(), c2, Some(Some(utf8_len(b) as u128)))
                    } else {
                        (b, c2, Some(None))
                    },
                }
            },
        },
    }
}

/// What a tool-call delta did.
pub enum DeltaStep {
    /// The delta was taken in; when the shown text passed the limit, a
    /// segment of this many bytes was sent.
    Taken(Option<u128>),
    /// The argument preview would split a character.
    PreviewSplitsChar,
}

pub open spec fn opt_chars(o: Option<&str>) -> Option<Seq<char>> {
    match o {
        Some(s) => Some(s@),
        None => None,
    }
}

/// The answer of a tool-calling request as it streams in: the text shown
/// since the last segment was sent, and the calls announced so far.
pub struct CallStream {
    pub segment: SegmentBuffer,
    pub calls: Vec<PendingCall>,
}

impl CallStream {
    /// Nothing shown and no calls yet; segments are sent past `limit` bytes.
    pub fn new(limit: usize) -> (s: Self)
        ensures
            s.segment.text@.len() == 0,
            s.segment.limit == limit,
            s.calls@.len() == 0,
    {
        CallStream { segment: SegmentBuffer { text: String::new(), limit }, calls: Vec::new() }
    }

    fn find_call(&self, index: u64) -> (r: Option<usize>)
        ensures
            match r {
                Some(k) => call_position_from(pending_views(self.calls@), index, 0) == Some(k as int),
                None => call_position_from(pending_views(self.calls@), index, 0) is None,
            },
    {
        let ghost cs = pending_views(self.calls@);
        let mut i: usize = 0;
        while i < self.calls.len()
            invariant
                i <= self.calls@.len(),
                cs == pending_views(self.calls@),
                call_position_from(cs, index, 0) == call_position_from(cs, index, i as int),
            decreases self.calls@.len() - i,
        {
            if self.calls[i].index == index {
                return Some(i);
            }
            i = i + 1;
        }
        None
    }

    /// Takes in one tool-call delta of the stream: its index, the call's name
    /// when the delta carries one, and a fragment of its arguments.
    pub fn tool_delta(&mut self, index: u64, name: Option<&str>, fragment: Option<&str>) -> (r: DeltaStep)
        ensures
            final(self).segment.limit == old(self).segment.limit,
            ({
                let (t, c, o) = tool_delta_spec(
                    old(self).segment.text@,
                    pending_views(old(self).calls@),
                    old(self).segment.limit as nat,
                    index,
                    opt_chars(name),
                    opt_chars(fragment),
                );
                &&& final(self).segment.text@ == t
                &&& pending_views(final(self).calls@) == c
                &&& match r {
                    DeltaStep::Taken(Some(n)) => o == Some(Some(n)),
                    DeltaStep::Taken(None) => o == Some(None::<u128>),
                    DeltaStep::PreviewSplitsChar => o is None,
                }
            }),
    {
        let ghost c0 = pending_views(self.calls@);
        let mut pos = self.find_call(index);
        match name {
            Some(n) => {
                if pos.is_none() {
                    let started = call_started_text(n);
                    self.segment.push(started.as_str());
                    self.calls.push(PendingCall { index, name: String::from_str(n), arguments: String::new() });
                    let ghost c1 = pending_views(self.calls@);
                    assert(c1 =~= c0.push((index, n@, Seq::<char>::empty())));
                    assert(call_position_from(c1, index, c0.len() as int) == Some(c0.len() as int));
                    proof {
                        lemma_call_position_skip(c0, c1, index, 0);
                    }
                    pos = Some(self.calls.len() - 1);
                }
            },
            None => {},
        }
        let ghost t1 = self.segment.text@;
        let ghost c1 = pending_views(self.calls@);
        assert((t1, c1) == announce_spec(old(self).segment.text@, c0, index, opt_chars(name)));
        assert(match pos {
            Some(k) => call_position_from(c1, index, 0) == Some(k as int),
            None => call_position_from(c1, index, 0) is None,
        });
        if let Some(k) = pos {
            proof {
                lemma_call_position_bounds(c1, index, 0);
            }
            assert(k < self.calls@.len());
        }
        match fragment {
            None => DeltaStep::Taken(None),
            Some(f) => match pos {
                None => DeltaStep::Taken(None),
                Some(k) => {
                    let mut args = to_chars(self.calls[k].arguments.as_str());
                    push_str(&mut args, f);
                    let args_s = from_chars(args.as_slice());
                    let name_s = self.calls[k].name.clone();
                    let idx = self.calls[k].index;
                    let progress = call_progress(self.segment.text.as_str(), name_s.as_str(), args_s.as_str());
                    let is_js = crate::cleaning::eq_chars(to_chars(name_s.as_str()).as_slice(), to_chars("execute_js_code").as_slice());
                    assert(name_s@ == c1[k as int].1);
                    assert(args_s@ == c1[k as int].2 + f@);
                    assert(idx == c1[k as int].0);
                    self.calls.set(k, PendingCall { index: idx, name: name_s, arguments: args_s });
                    assert(pending_views(self.calls@) =~= c1.update(k as int, (c1[k as int].0, c1[k as int].1, c1[k as int].2 + f@)));
                    match progress {
                        None => DeltaStep::PreviewSplitsChar,
                        Some(b) => {
                            self.segment.text = b;
                            if !is_js {
                                match self.segment.end_of_chunk() {
                                    Some(n) => {
                                        DeltaStep::Taken(Some(n))
                                    },
                                    None => DeltaStep::Taken(None),
                                }
                            } else {
                                DeltaStep::Taken(None)
                            }
                        },
                    }
                },
            },
        }
    }
    /// Completes call `k` once the stream has ended: a call that received
    /// arguments gets its final block (`parsed` holds what they parse to),
    /// and shown text longer than the limit is sent off as a segment.
    pub fn complete_call(&mut self, k: usize, parsed: &Option<ToolArguments>) -> (r: Option<u128>)
        requires
            k < old(self).calls@.len(),
        ensures
            final(self).calls@ == old(self).calls@,
            final(self).segment.limit == old(self).segment.limit,
            ({
                let call = pending_view(old(self).calls@[k as int]);
                let text = old(self).segment.text@;
                let b = replace_block_spec(text, call.1, completion_spec(call.1, *parsed, utf8_len(call.2)));
                if call.2.len() == 0 {
                    r is None && final(self).segment.text@ == text
                } else if utf8_len(b) > old(self).segment.limit {
                    r == Some(utf8_len(b) as u128) && final(self).segment.text@.len() == 0
                } else {
                    r is None && final(self).segment.text@ == b
                }
            }),
    {
        let args = to_chars(self.calls[k].arguments.as_str());
        if args.len() == 0 {
            return None;
        }
        let len = utf8_len_of(args.as_slice());
        let block = completion_text(self.calls[k].name.as_str(), parsed, len);
        self.segment.text = replace_function_block(self.segment.text.as_str(), self.calls[k].name.as_str(), block.as_str());
        self.segment.end_of_chunk()
    }
}

/// Appending a call with index `index` leaves the first such call where it
/// was, or makes the new one the first.
proof fn lemma_call_position_skip(
    c0: Seq<(u64, Seq<char>, Seq<char>)>,
    c1: Seq<(u64, Seq<char>, Seq<char>)>,
    index: u64,
    j: int,
)
    requires
        0 <= j <= c0.len(),
        c1.len() == c0.len() + 1,
        forall|i: int| 0 <= i < c0.len() ==> c1[i] == c0[i],
        call_position_from(c0, index, 0) is None,
    ensures
        call_position_from(c1, index, j) == call_position_from(c1, index, c0.len() as int),
    decreases c0.len() - j,
{
    if j < c0.len() {
        lemma_call_position_none(c0, index, 0, j);
        assert(c1[j].0 != index);
        lemma_call_position_skip(c0, c1, index, j + 1);
    }
}

proof fn lemma_call_position_bounds(cs: Seq<(u64, Seq<char>, Seq<char>)>, index: u64, i: int)
    requires
        0 <= i,
    ensures
        match call_position_from(cs, index, i) {
            Some(k) => i <= k < cs.len(),
            None => true,
        },
    decreases cs.len() - i,
{
    if 0 <= i < cs.len() && cs[i].0 != index {
        lemma_call_position_bounds(cs, index, i + 1);
    }
}

proof fn lemma_call_position_none(cs: Seq<(u64, Seq<char>, Seq<char>)>, index: u64, i: int, j: int)
    requires
        0 <= i <= j < cs.len(),
        call_position_from(cs, index, i) is None,
    ensures
        cs[j].0 != index,
    decreases j - i,
{
    if i < j {
        lemma_call_position_none(cs, index, i + 1, j);
    }
}

} // verus!
