//! The stand-alone subtitle fetcher: video ids, the player response of a
//! watch page, the choice of a caption track, the cues of a timed-text XML
//! document and the SRT text built from them.
use vstd::prelude::*;
use crate::cleaning::{decode_entities, decode_entities_chars};
use crate::context::{lowercase, to_lowercase};
use crate::text::{
    contains_pat, contains_str, decimal, decimal_chars, find_from, first_occurrence, from_chars,
    lemma_first_occurrence, lemma_first_occurrence_skip, occurs_at, push_all, push_str,
    slice_chars, to_chars,
};

verus! {

/// Why a URL yields no video id.
pub enum VideoIdError {
    /// Neither a `youtube.com/watch` URL with `v=` nor a `youtu.be/` URL.
    InvalidUrl,
}

impl VideoIdError {
    /// The message shown for the error.
    pub fn message(&self) -> (m: String)
        ensures
            m@ == "Invalid YouTube URL format"@,
    {
        String::from_str("Invalid YouTube URL format")
    }
}

/// The last position of `c` in `s`.
pub open spec fn last_index_of(s: Seq<char>, c: char) -> Option<int>
    decreases s.len(),
{
    if s.len() == 0 {
        None
    } else if s.last() == c {
        Some(s.len() - 1)
    } else {
        last_index_of(s.drop_last(), c)
    }
}

/// The text from `start` up to the first `stop` after it, or to the end.
pub open spec fn field_until(s: Seq<char>, start: int, stop: char) -> Seq<char> {
    match first_occurrence(s, seq![stop], start) {
        Some(e) => s.subrange(start, e),
        None => s.skip(start),
    }
}

/// The video id in a YouTube URL: after the first `v=` of a
/// `youtube.com/watch` URL up to `&`, or after the last `/` of a `youtu.be/`
/// URL up to `?`.
pub open spec fn video_id_spec(url: Seq<char>) -> Option<Seq<char>> {
    if contains_pat(url, "youtube.com/watch"@) && first_occurrence(url, "v="@, 0) is Some {
        Some(field_until(url, first_occurrence(url, "v="@, 0)->0 + 2, '&'))
    } else if contains_pat(url, "youtu.be/"@) && last_index_of(url, '/') is Some {
        Some(field_until(url, last_index_of(url, '/')->0 + 1, '?'))
    } else {
        None
    }
}

pub(crate) fn last_index(s: &[char], c: char) -> (r: Option<usize>)
    ensures
        match r {
            Some(i) => last_index_of(s@, c) == Some(i as int),
            None => last_index_of(s@, c) is None,
        },
{
    let mut i: usize = s.len();
    assert(s@.take(s@.len() as int) =~= s@);
    while i > 0
        invariant
            i <= s@.len(),
            last_index_of(s@, c) == last_index_of(s@.take(i as int), c),
        decreases i,
    {
        assert(s@.take(i as int).drop_last() =~= s@.take(i - 1));
        if s[i - 1] == c {
            return Some(i - 1);
        }
        i = i - 1;
    }
    None
}

fn field_from(s: &[char], start: usize, stop: char) -> (r: Vec<char>)
    requires
        start <= s@.len(),
    ensures
        r@ == field_until(s@, start as int, stop),
{
    let stop_seq = [stop];
    assert(stop_seq@ =~= seq![stop]);
    match find_from(s, &stop_seq, start) {
        Some(e) => {
            proof {
                lemma_first_occurrence(s@, seq![stop], start as int);
            }
            slice_chars(s, start, e)
        },
        None => {
            let r = slice_chars(s, start, s.len());
            assert(r@ =~= s@.skip(start as int));
            r
        },
    }
}

/// Extracts the video id from a `youtube.com/watch?v=…` or `youtu.be/…` URL.
pub fn extract_video_id(url: &str) -> (r: Result<String, VideoIdError>)
    ensures
        match r {
            Ok(id) => video_id_spec(url@) == Some(id@),
            Err(_) => video_id_spec(url@) is None,
        },
{
    let chars = to_chars(url);
    let vkey = ['v', '='];
    proof {
        reveal_strlit("v=");
    }
    assert(vkey@ =~= "v="@);
    assert(vkey@.len() == 2);
    assert(chars@.len() == chars.len());
    if contains_str(url, "youtube.com/watch") {
        match find_from(chars.as_slice(), &vkey, 0) {
            Some(v) => {
                proof {
                    lemma_first_occurrence(chars@, vkey@, 0);
                }
                let id = field_from(chars.as_slice(), v + 2, '&');
                return Ok(from_chars(id.as_slice()));
            },
            None => {},
        }
    }
    if contains_str(url, "youtu.be/") {
        match last_index(chars.as_slice(), '/') {
            Some(slash) => {
                proof {
                    assert(slash < chars@.len()) by {
                        lemma_last_index_bound(chars@, '/');
                    }
                }
                let id = field_from(chars.as_slice(), slash + 1, '?');
                return Ok(from_chars(id.as_slice()));
            },
            None => {},
        }
    }
    Err(VideoIdError::InvalidUrl)
}

/// A last occurrence lies inside the sequence.
pub proof fn lemma_last_index_bound(s: Seq<char>, c: char)
    ensures
        match last_index_of(s, c) {
            Some(i) => 0 <= i < s.len() && s[i] == c,
            None => true,
        },
    decreases s.len(),
{
    if s.len() > 0 && s.last() != c {
        lemma_last_index_bound(s.drop_last(), c);
    }
}

/// The field that starts at `start` and runs up to the first `stop` or the
/// end: it lies in `s` from `start` on, holds no `stop`, and is followed by
/// `stop` or by the end of `s`.
proof fn lemma_field_until(s: Seq<char>, start: int, stop: char)
    requires
        0 <= start <= s.len(),
    ensures
        start + field_until(s, start, stop).len() <= s.len(),
        s.subrange(start, start + field_until(s, start, stop).len()) == field_until(s, start, stop),
        !field_until(s, start, stop).contains(stop),
        start + field_until(s, start, stop).len() == s.len() || s[start + field_until(s, start, stop).len()]
            == stop,
{
    lemma_first_occurrence(s, seq![stop], start);
    let f = field_until(s, start, stop);
    match first_occurrence(s, seq![stop], start) {
        Some(e) => {
            assert(s.subrange(e, e + 1)[0] == s[e]);
            if f.contains(stop) {
                let j = choose|j: int| 0 <= j < f.len() && f[j] == stop;
                assert(f[j] == s[start + j]);
                assert(s.subrange(start + j, start + j + 1) =~= seq![stop]);
                assert(occurs_at(s, seq![stop], start + j));
            }
        },
        None => {
            assert(f =~= s.subrange(start, s.len() as int));
            if f.contains(stop) {
                let j = choose|j: int| 0 <= j < f.len() && f[j] == stop;
                assert(f[j] == s[start + j]);
                assert(s.subrange(start + j, start + j + 1) =~= seq![stop]);
                assert(occurs_at(s, seq![stop], start + j));
            }
        },
    }
}

/// A `youtube.com/watch` URL with `v=` always yields a video id: the text
/// right after the first `v=`, up to the first `&` after it or to the end
/// of the URL.
pub proof fn lemma_watch_url_video_id(url: Seq<char>, p: int)
    requires
        contains_pat(url, "youtube.com/watch"@),
        occurs_at(url, "v="@, p),
        forall|q: int| 0 <= q < p ==> !occurs_at(url, "v="@, q),
    ensures
        video_id_spec(url) matches Some(id) && p + 2 + id.len() <= url.len() && url.subrange(
            p + 2,
            p + 2 + id.len(),
        ) == id && !id.contains('&') && (p + 2 + id.len() == url.len() || url[p + 2 + id.len()]
            == '&'),
{
    reveal_strlit("v=");
    lemma_first_occurrence(url, "v="@, 0);
    let f = first_occurrence(url, "v="@, 0);
    assert(f == Some(p)) by {
        match f {
            Some(i) => {
                if i < p {
                } else if i > p {
                    assert(!occurs_at(url, "v="@, p));
                }
            },
            None => {
                assert(!occurs_at(url, "v="@, p));
            },
        }
    }
    lemma_field_until(url, p + 2, '&');
}

/// Where `c` last occurs: there, and nowhere after.
proof fn lemma_last_index_of(s: Seq<char>, c: char, q: int)
    requires
        0 <= q < s.len(),
        s[q] == c,
        forall|j: int| q < j < s.len() ==> s[j] != c,
    ensures
        last_index_of(s, c) == Some(q),
    decreases s.len(),
{
    if s.last() != c {
        lemma_last_index_of(s.drop_last(), c, q);
    }
}

/// A `youtu.be/` URL that is no `youtube.com/watch` URL with `v=` always
/// yields a video id: the text after its last `/`, up to the first `?` after
/// it or to the end of the URL.
pub proof fn lemma_short_url_video_id(url: Seq<char>, q: int)
    requires
        contains_pat(url, "youtu.be/"@),
        !contains_pat(url, "youtube.com/watch"@) || !contains_pat(url, "v="@),
        0 <= q < url.len(),
        url[q] == '/',
        forall|j: int| q < j < url.len() ==> url[j] != '/',
    ensures
        video_id_spec(url) matches Some(id) && q + 1 + id.len() <= url.len() && url.subrange(
            q + 1,
            q + 1 + id.len(),
        ) == id && !id.contains('?') && (q + 1 + id.len() == url.len() || url[q + 1 + id.len()]
            == '?'),
{
    lemma_first_occurrence(url, "v="@, 0);
    lemma_last_index_of(url, '/', q);
    lemma_field_until(url, q + 1, '?');
}

/// Decodes `&amp;`, `&lt;`, `&gt;`, `&quot;`, `&#39;` and `&nbsp;`, each
/// entity once, from left to right.
pub fn decode_html_entities(text: &str) -> (r: String)
    ensures
        r@ == decode_entities(text@),
{
    let chars = to_chars(text);
    let decoded = decode_entities_chars(chars.as_slice());
    from_chars(decoded.as_slice())
}

/// Why no player response was found.
#[derive(PartialEq, Eq, Structural, Clone, Copy, Debug)]
pub enum PlayerResponseError {
    /// The regex crate refuses the pattern the fetcher searches with.
    PatternRejected,
    /// The page holds no player response.
    NotFound,
}

impl PlayerResponseError {
    /// The message shown for the error.
    pub fn message(&self) -> (m: String)
        ensures
            m@ == match self {
                PlayerResponseError::PatternRejected => "Failed to compile regex pattern"@,
                PlayerResponseError::NotFound => "Could not find player response in HTML"@,
            },
    {
        match self {
            PlayerResponseError::PatternRejected => String::from_str("Failed to compile regex pattern"),
            PlayerResponseError::NotFound => String::from_str("Could not find player response in HTML"),
        }
    }
}

/// `regex::Regex::new` on `var ytInitialPlayerResponse = ({.+?});`, then
/// `captures` on the page.  The contract states what the regex crate's parser
/// shows: the pattern is refused, since the `{` right after `(` has nothing
/// to repeat.  What a capture would give is therefore never reached.
#[verifier::external_body]
fn regex_player_response(html: &str) -> (r: Result<Option<String>, ()>)
    ensures
        r is Err,
{
    match regex::Regex::new(r#"var ytInitialPlayerResponse = ({.+?});"#) {
        Ok(re) => Ok(re.captures(html).and_then(|c| c.get(1)).map(|m| m.as_str().to_string())),
        Err(_) => Err(()),
    }
}

/// Looks for the player response in a watch page.  The search pattern is
/// refused by the regex crate, so every page gives `PatternRejected`.
pub fn extract_player_response(html: &str) -> (r: Result<String, PlayerResponseError>)
    ensures
        r == Err::<String, PlayerResponseError>(PlayerResponseError::PatternRejected),
{
    match regex_player_response(html) {
        Ok(Some(p)) => Ok(p),
        Ok(None) => Err(PlayerResponseError::NotFound),
        Err(()) => Err(PlayerResponseError::PatternRejected),
    }
}

/// A caption track of a video, as the player response lists it.
pub struct SubtitleTrack {
    pub base_url: Option<String>,
    pub name: Option<String>,
    pub language_code: Option<String>,
}

/// Why no caption track can be fetched.
#[derive(PartialEq, Eq, Structural, Clone, Copy, Debug)]
pub enum TrackError {
    /// The player response lists no tracks.
    NoTracks,
    /// The list of tracks is empty.
    NoneAvailable,
    /// The chosen track has no URL.
    NoUrl,
}

impl TrackError {
    /// The message shown for the error.
    pub fn message(&self) -> (m: String)
        ensures
            m@ == match self {
                TrackError::NoTracks => "No subtitle tracks found"@,
                TrackError::NoneAvailable => "No subtitle tracks available"@,
                TrackError::NoUrl => "No subtitle URL found"@,
            },
    {
        match self {
            TrackError::NoTracks => String::from_str("No subtitle tracks found"),
            TrackError::NoneAvailable => String::from_str("No subtitle tracks available"),
            TrackError::NoUrl => String::from_str("No subtitle URL found"),
        }
    }
}

/// An English track: language code `en`, or a name that mentions English.
pub open spec fn is_english(t: SubtitleTrack) -> bool {
    (t.language_code matches Some(c) && c@ == "en"@) || (t.name matches Some(n) && contains_pat(
        lowercase(n@),
        "english"@,
    ))
}

/// The track the fetcher takes: the first English one, else the first.
pub open spec fn chosen_track(ts: Seq<SubtitleTrack>) -> Option<int> {
    if exists|i: int| 0 <= i < ts.len() && is_english(#[trigger] ts[i]) {
        Some(choose|i: int| 0 <= i < ts.len() && is_english(#[trigger] ts[i]) && forall|j: int| 0 <= j < i ==> !is_english(#[trigger] ts[j]))
    } else if ts.len() > 0 {
        Some(0)
    } else {
        None
    }
}

fn english(t: &SubtitleTrack) -> (b: bool)
    ensures
        b == is_english(*t),
{
    proof {
        reveal_strlit("en");
    }
    match &t.language_code {
        Some(c) => {
            let cc = to_chars(c.as_str());
            if cc.len() == 2 && cc[0] == 'e' && cc[1] == 'n' {
                assert(cc@ =~= "en"@);
                return true;
            }
            assert(c@ != "en"@) by {
                if c@ == "en"@ {
                    assert(cc@[0] == 'e' && cc@[1] == 'n');
                }
            }
        },
        None => {},
    }
    match &t.name {
        Some(n) => {
            let l = to_lowercase(n.as_str());
            contains_str(l.as_str(), "english")
        },
        None => false,
    }
}

/// The URL of the caption track to fetch.
pub fn subtitle_track_url(tracks: &Option<Vec<SubtitleTrack>>) -> (r: Result<String, TrackError>)
    ensures
        match tracks {
            None => r == Err::<String, TrackError>(TrackError::NoTracks),
            Some(ts) => match chosen_track(ts@) {
                None => r == Err::<String, TrackError>(TrackError::NoneAvailable),
                Some(i) => match ts@[i].base_url {
                    Some(u) => r matches Ok(x) && x@ == u@,
                    None => r == Err::<String, TrackError>(TrackError::NoUrl),
                },
            },
        },
{
    let ts = match tracks {
        None => {
            return Err(TrackError::NoTracks);
        },
        Some(ts) => ts,
    };
    let mut i: usize = 0;
    let mut found: Option<usize> = None;
    while i < ts.len() && found.is_none()
        invariant
            i <= ts@.len(),
            found matches Some(k) ==> k < ts@.len() && is_english(ts@[k as int]) && forall|j: int|
                0 <= j < k ==> !is_english(#[trigger] ts@[j]),
            found is None ==> forall|j: int| 0 <= j < i ==> !is_english(#[trigger] ts@[j]),
        decreases ts@.len() - i + (if found is None { 1int } else { 0int }),
    {
        if english(&ts[i]) {
            found = Some(i);
        } else {
            i = i + 1;
        }
    }
    let pick: usize = match found {
        Some(k) => {
            proof {
                let c = choose|c: int| 0 <= c < ts@.len() && is_english(#[trigger] ts@[c]) && forall|j: int| 0 <= j < c ==> !is_english(#[trigger] ts@[j]);
                if c < k {
                    assert(!is_english(ts@[c]));
                } else if c > k {
                    assert(!is_english(ts@[k as int]));
                }
            }
            k
        },
        None => {
            if ts.len() == 0 {
                return Err(TrackError::NoneAvailable);
            }
            0
        },
    };
    assert(chosen_track(ts@) == Some(pick as int));
    match &ts[pick].base_url {
        Some(u) => Ok(u.clone()),
        None => Err(TrackError::NoUrl),
    }
}

/// The pieces of `s` between the occurrences of `pat`, as `str::split` gives
/// them.
pub open spec fn split_pat(s: Seq<char>, pat: Seq<char>) -> Seq<Seq<char>>
    decreases s.len(),
{
    if pat.len() == 0 {
        seq![s]
    } else {
        match first_occurrence(s, pat, 0) {
            Some(i) => if 0 <= i && i + pat.len() <= s.len() {
                seq![s.take(i)] + split_pat(s.skip(i + pat.len()), pat)
            } else {
                seq![s]
            },
            None => seq![s],
        }
    }
}

/// The value of an attribute such as `start="`: the text after its first
/// occurrence, up to the next `"` (what `start="([^"]*)` captures).
pub open spec fn attr_value(part: Seq<char>, key: Seq<char>) -> Option<Seq<char>> {
    match first_occurrence(part, key, 0) {
        Some(i) => Some(field_until(part, i + key.len(), '"')),
        None => None,
    }
}

/// `regex::Regex::captures` with `start="([^"]*)`: the contract states, as
/// the regex crate documents leftmost-first matching and `[^"]` any character
/// but a quote, that the capture is the text after the first `start="` up to
/// the next quote.
#[verifier::external_body]
fn regex_start_attr(part: &str) -> (r: Option<String>)
    ensures
        match r {
            Some(v) => attr_value(part@, "start=\""@) == Some(v@),
            None => attr_value(part@, "start=\""@) is None,
        },
{
    let re = regex::Regex::new(r#"start="([^"]*)"#).unwrap();
    re.captures(part).and_then(|c| c.get(1)).map(|m| m.as_str().to_string())
}

/// `regex::Regex::captures` with `dur="([^"]*)`: as for `start="`.
#[verifier::external_body]
fn regex_dur_attr(part: &str) -> (r: Option<String>)
    ensures
        match r {
            Some(v) => attr_value(part@, "dur=\""@) == Some(v@),
            None => attr_value(part@, "dur=\""@) is None,
        },
{
    let re = regex::Regex::new(r#"dur="([^"]*)"#).unwrap();
    re.captures(part).and_then(|c| c.get(1)).map(|m| m.as_str().to_string())
}

/// One cue of a timed-text document: its start and duration as written (in
/// seconds), and its text with entities decoded.
pub struct SubtitleCue {
    pub start: Option<String>,
    pub duration: Option<String>,
    pub text: String,
}

/// The cue in the text after a `<text`: the text runs from after the first
/// `>` to the next `</text>`; there is none without both.
pub open spec fn cue_of(part: Seq<char>) -> Option<(Option<Seq<char>>, Option<Seq<char>>, Seq<char>)> {
    match first_occurrence(part, ">"@, 0) {
        Some(ts) => match first_occurrence(part, "</text>"@, ts) {
            Some(te) => Some(
                (
                    attr_value(part, "start=\""@),
                    attr_value(part, "dur=\""@),
                    decode_entities(part.subrange(ts + 1, te)),
                ),
            ),
            None => None,
        },
        None => None,
    }
}

/// The cues of the pieces, in order, skipping those without one.
pub open spec fn cues_of(parts: Seq<Seq<char>>) -> Seq<(Option<Seq<char>>, Option<Seq<char>>, Seq<char>)>
    decreases parts.len(),
{
    if parts.len() == 0 {
        Seq::empty()
    } else {
        let r = cues_of(parts.drop_last());
        match cue_of(parts.last()) {
            Some(c) => r.push(c),
            None => r,
        }
    }
}

/// The cues of a timed-text document: the pieces after each `<text`.
pub open spec fn document_cues(xml: Seq<char>) -> Seq<(Option<Seq<char>>, Option<Seq<char>>, Seq<char>)> {
    cues_of(split_pat(xml, "<text"@).skip(1))
}

pub open spec fn cue_view(c: SubtitleCue) -> (Option<Seq<char>>, Option<Seq<char>>, Seq<char>) {
    (
        match c.start {
            Some(s) => Some(s@),
            None => None,
        },
        match c.duration {
            Some(d) => Some(d@),
            None => None,
        },
        c.text@,
    )
}

fn split_text_tags(xml: &[char]) -> (r: Vec<Vec<char>>)
    ensures
        r@.len() == split_pat(xml@, "<text"@).len(),
        forall|k: int| 0 <= k < r@.len() ==> (#[trigger] r@[k])@ == split_pat(xml@, "<text"@)[k],
{
    let pat = ['<', 't', 'e', 'x', 't'];
    proof {
        reveal_strlit("<text");
    }
    assert(pat@ =~= "<text"@);
    let ghost p = "<text"@;
    let mut r: Vec<Vec<char>> = Vec::new();
    let mut pos: usize = 0;
    assert(xml@.skip(0) =~= xml@);
    let n = xml.len();
    loop
        invariant
            pos <= xml@.len(),
            n == xml@.len(),
            p == "<text"@,
            pat@ == p,
            p.len() == 5,
            forall|k: int| 0 <= k < r@.len() ==> (#[trigger] r@[k])@ == split_pat(xml@, p)[k],
            split_pat(xml@, p) == Seq::new(r@.len() as nat, |k: int| r@[k]@) + split_pat(xml@.skip(pos as int), p),
        decreases xml@.len() - pos,
    {
        proof {
            lemma_first_occurrence_skip(xml@, p, pos as int, 0);
            lemma_first_occurrence(xml@, p, pos as int);
        }
        match find_from(xml, &pat, pos) {
            Some(i) => {
                assert(occurs_at(xml@, p, i as int));
                assert(i + 5 <= xml@.len());
                let piece = slice_chars(xml, pos, i);
                let ghost rest = xml@.skip(pos as int);
                assert(piece@ =~= rest.take(i - pos));
                assert(rest.skip(i - pos + 5) =~= xml@.skip(i + 5));
                let ghost before = Seq::new(r@.len() as nat, |k: int| r@[k]@);
                r.push(piece);
                assert(Seq::new(r@.len() as nat, |k: int| r@[k]@) =~= before.push(piece@));
                assert(split_pat(rest, p) == seq![rest.take(i - pos)] + split_pat(rest.skip(i - pos + 5), p));
                assert(split_pat(xml@, p) =~= Seq::new(r@.len() as nat, |k: int| r@[k]@) + split_pat(xml@.skip(i + 5), p));
                pos = i + 5;
            },
            None => {
                let piece = slice_chars(xml, pos, xml.len());
                assert(piece@ =~= xml@.skip(pos as int));
                assert(first_occurrence(xml@.skip(pos as int), p, 0) is None);
                assert(split_pat(xml@.skip(pos as int), p) == seq![xml@.skip(pos as int)]);
                let ghost before = Seq::new(r@.len() as nat, |k: int| r@[k]@);
                r.push(piece);
                assert(Seq::new(r@.len() as nat, |k: int| r@[k]@) =~= before.push(piece@));
                assert(split_pat(xml@, p) =~= Seq::new(r@.len() as nat, |k: int| r@[k]@));
                return r;
            },
        }
    }
}

/// The cues of a timed-text XML document, in order.
pub fn subtitle_cues(xml: &str) -> (r: Vec<SubtitleCue>)
    ensures
        r@.len() == document_cues(xml@).len(),
        forall|k: int| 0 <= k < r@.len() ==> cue_view(#[trigger] r@[k]) == document_cues(xml@)[k],
{
    let chars = to_chars(xml);
    let parts = split_text_tags(chars.as_slice());
    let ghost all = split_pat(xml@, "<text"@);
    let ghost tail = all.skip(1);
    let gt = ['>'];
    let close = ['<', '/', 't', 'e', 'x', 't', '>'];
    proof {
        reveal_strlit(">");
        reveal_strlit("</text>");
    }
    assert(gt@ =~= ">"@);
    assert(close@ =~= "</text>"@);
    let mut r: Vec<SubtitleCue> = Vec::new();
    if parts.len() == 0 {
        assert(tail =~= Seq::<Seq<char>>::empty());
        return r;
    }
    let mut k: usize = 1;
    assert(tail.take(0) =~= Seq::<Seq<char>>::empty());
    while k < parts.len()
        invariant
            1 <= k <= parts@.len(),
            parts@.len() == all.len(),
            tail == all.skip(1),
            gt@ == ">"@,
            close@ == "</text>"@,
            forall|j: int| 0 <= j < parts@.len() ==> (#[trigger] parts@[j])@ == all[j],
            r@.len() == cues_of(tail.take(k - 1)).len(),
            forall|j: int| 0 <= j < r@.len() ==> cue_view(#[trigger] r@[j]) == cues_of(tail.take(k - 1))[j],
        decreases parts@.len() - k,
    {
        assert(tail.take(k as int).drop_last() =~= tail.take(k - 1));
        assert(tail.take(k as int).last() == parts@[k as int]@);
        let part = &parts[k];
        let ghost pv = part@;
        let plen = part.len();
        match find_from(part.as_slice(), &gt, 0) {
            Some(ts) => {
                proof {
                    lemma_first_occurrence(pv, ">"@, 0);
                }
                match find_from(part.as_slice(), &close, ts) {
                    Some(te) => {
                        proof {
                            lemma_first_occurrence(pv, "</text>"@, ts as int);
                            reveal_strlit(">");
                            reveal_strlit("</text>");
                            assert(pv.subrange(ts as int, ts + 1) == ">"@);
                            assert(pv.subrange(ts as int, ts + 1)[0] == pv[ts as int]);
                            assert(pv[ts as int] == '>');
                            assert(pv.subrange(te as int, te + 7) == "</text>"@);
                            assert(pv.subrange(te as int, te + 7)[0] == pv[te as int]);
                            assert(pv[te as int] == '<');
                            assert(ts < te);
                        }
                        let inner = slice_chars(part.as_slice(), ts + 1, te);
                        let text = decode_entities_chars(inner.as_slice());
                        let part_str = from_chars(part.as_slice());
                        let start = regex_start_attr(part_str.as_str());
                        let duration = regex_dur_attr(part_str.as_str());
                        let cue = SubtitleCue { start, duration, text: from_chars(text.as_slice()) };
                        let ghost before = r@;
                        r.push(cue);
                        assert forall|j: int| 0 <= j < r@.len() implies cue_view(#[trigger] r@[j]) == cues_of(tail.take(k as int))[j] by {
                            if j < before.len() {
                                assert(r@[j] == before[j]);
                            }
                        }
                    },
                    None => {},
                }
            },
            None => {},
        }
        k = k + 1;
    }
    assert(tail.take(parts@.len() - 1) =~= tail);
    r
}

/// A cue with its times already formatted.
pub struct TimedCue {
    pub start: String,
    pub end: String,
    pub text: String,
}

/// One SRT entry, numbered from 1.
pub open spec fn srt_entry(number: nat, start: Seq<char>, end: Seq<char>, text: Seq<char>) -> Seq<char> {
    decimal(number) + "\n"@ + start + " --> "@ + end + "\n"@ + text + "\n\n"@
}

/// The SRT entries of the cues, in order.
pub open spec fn srt_text(cues: Seq<TimedCue>) -> Seq<char>
    decreases cues.len(),
{
    if cues.len() == 0 {
        Seq::empty()
    } else {
        srt_text(cues.drop_last()) + srt_entry(
            cues.len(),
            cues.last().start@,
            cues.last().end@,
            cues.last().text@,
        )
    }
}

/// Why a timed-text document gave no subtitles.
#[derive(PartialEq, Eq, Structural, Clone, Copy, Debug)]
pub enum SubtitleXmlError {
    NoContent,
}

impl SubtitleXmlError {
    /// The message shown for the error.
    pub fn message(&self) -> (m: String)
        ensures
            m@ == "No subtitle content found in XML"@,
    {
        String::from_str("No subtitle content found in XML")
    }
}

/// The SRT text of the cues; refused when there are none.
pub fn format_srt(cues: &Vec<TimedCue>) -> (r: Result<String, SubtitleXmlError>)
    ensures
        match r {
            Ok(t) => cues@.len() > 0 && t@ == srt_text(cues@),
            Err(_) => cues@.len() == 0,
        },
{
    if cues.len() == 0 {
        return Err(SubtitleXmlError::NoContent);
    }
    let mut out: Vec<char> = Vec::new();
    let mut i: usize = 0;
    assert(cues@.take(0) =~= Seq::<TimedCue>::empty());
    while i < cues.len()
        invariant
            i <= cues@.len(),
            out@ == srt_text(cues@.take(i as int)),
        decreases cues@.len() - i,
    {
        assert(cues@.take(i + 1).drop_last() =~= cues@.take(i as int));
        let n = decimal_chars(i as u128 + 1);
        push_all(&mut out, n.as_slice());
        push_str(&mut out, "\n");
        push_str(&mut out, cues[i].start.as_str());
        push_str(&mut out, " --> ");
        push_str(&mut out, cues[i].end.as_str());
        push_str(&mut out, "\n");
        push_str(&mut out, cues[i].text.as_str());
        push_str(&mut out, "\n\n");
        i = i + 1;
    }
    assert(cues@.take(cues@.len() as int) =~= cues@);
    Ok(from_chars(out.as_slice()))
}

/// The stand-in text written when no subtitles could be fetched; the time
/// of writing comes formatted.
pub open spec fn mock_subtitles_spec(video_id: Seq<char>, generated_at: Seq<char>) -> Seq<char> {
    "Subtitles for video: "@ + video_id
        + "\n\n1\n00:00:01,000 --> 00:00:04,000\nWelcome to this YouTube video!\n\n2\n00:00:04,000 --> 00:00:08,000\nThis is a demonstration of subtitle scraping.\n\n3\n00:00:08,000 --> 00:00:12,000\nIn a real implementation, this would contain\nthe actual subtitles from the video.\n\nNote: This is a mock output. For actual subtitle scraping,\nyou would need to implement proper YouTube API integration\nor web scraping techniques that comply with YouTube's terms of service.\n\nVideo ID: "@
        + video_id + "\nGenerated at: "@ + generated_at + "\n"@
}

/// Writes the stand-in subtitles.
pub fn generate_mock_subtitles(video_id: &str, generated_at: &str) -> (r: String)
    ensures
        r@ == mock_subtitles_spec(video_id@, generated_at@),
{
    let mut out = to_chars("Subtitles for video: ");
    push_str(&mut out, video_id);
    push_str(&mut out, "\n\n1\n00:00:01,000 --> 00:00:04,000\nWelcome to this YouTube video!\n\n2\n00:00:04,000 --> 00:00:08,000\nThis is a demonstration of subtitle scraping.\n\n3\n00:00:08,000 --> 00:00:12,000\nIn a real implementation, this would contain\nthe actual subtitles from the video.\n\nNote: This is a mock output. For actual subtitle scraping,\nyou would need to implement proper YouTube API integration\nor web scraping techniques that comply with YouTube's terms of service.\n\nVideo ID: ");
    push_str(&mut out, video_id);
    push_str(&mut out, "\nGenerated at: ");
    push_str(&mut out, generated_at);
    push_str(&mut out, "\n");
    from_chars(out.as_slice())
}

/// Whether a URL is taken as a YouTube link: it names `youtube.com` or
/// `youtu.be`.
pub fn is_youtube_url(url: &str) -> (b: bool)
    ensures
        b == (contains_pat(url@, "youtube.com"@) || contains_pat(url@, "youtu.be"@)),
{
    crate::text::contains_str(url, "youtube.com") || crate::text::contains_str(url, "youtu.be")
}

/// The file the subtitles of a video are saved to: `.srt` for fetched ones,
/// `_mock.txt` for the stand-in.
pub fn subtitles_file_name(video_id: &str, mock: bool) -> (r: String)
    ensures
        r@ == "subtitles_"@ + video_id@ + (if mock { "_mock.txt"@ } else { ".srt"@ }),
{
    let mut out = to_chars("subtitles_");
    push_str(&mut out, video_id);
    if mock {
        push_str(&mut out, "_mock.txt");
    } else {
        push_str(&mut out, ".srt");
    }
    from_chars(out.as_slice())
}

} // verus!
