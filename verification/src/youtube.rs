//! YouTube transcripts: cache keys, video ids, `yt-dlp` outcomes and the
//! checks on a downloaded subtitle file.
use vstd::prelude::*;
use crate::chunking::views;
use crate::cleaning::{subtitle_text, vtt_subtitle_text};
use crate::text::{concat_str, contains_pat, contains_str, from_chars, push_str, to_chars, trim, trim_chars};

verus! {

/// The lowercase hexadecimal SHA-256 digest of the UTF-8 bytes of `s`.
pub uninterp spec fn sha256_hex(s: Seq<char>) -> Seq<char>;

/// `sha2::Sha256::digest` of the string's bytes, formatted with `{:x}`: the
/// contract names the digest and states that it is written as 64 lowercase
/// hexadecimal digits.
#[verifier::external_body]
fn sha256_hex_of(s: &str) -> (r: String)
    ensures
        r@ == sha256_hex(s@),
        r@.len() == 64,
        forall|i: int| 0 <= i < r@.len() ==> ('0' <= #[trigger] r@[i] <= '9' || 'a' <= r@[i] <= 'f'),
{
    format!("{:x}", <sha2::Sha256 as sha2::Digest>::digest(s.as_bytes()))
}

/// The cache key of a video URL: the hex SHA-256 digest of the URL.
pub fn generate_youtube_cache_key(url: &str) -> (key: String)
    ensures
        key@ == sha256_hex(url@),
        key@.len() == 64,
{
    sha256_hex_of(url)
}

/// Whether `yt-dlp` reported rate limiting.
pub open spec fn rate_limited(stderr: Seq<char>) -> bool {
    contains_pat(stderr, "429"@) || contains_pat(stderr, "Too Many Requests"@)
}

/// Whether `yt-dlp` reported rate limiting (HTTP 429).
pub fn is_rate_limited(stderr: &str) -> (b: bool)
    ensures
        b == rate_limited(stderr@),
{
    contains_str(stderr, "429") || contains_str(stderr, "Too Many Requests")
}

/// What to do after a failed `yt-dlp` run.
pub enum DownloadStep {
    /// Wait this many seconds, then start the next attempt.
    RetryAfter(u64),
    /// Run the manual-subtitles variant of the command in this attempt.
    TryManualSubtitles,
    /// Start the next attempt at once.
    NextAttempt,
    /// No attempt is left.
    GiveUp,
}

/// The decision after a failed run: a rate-limited run waits `5 × attempt`
/// seconds before the next attempt while attempts remain; otherwise a failed
/// automatic-captions run falls back to manual subtitles, and a failed manual
/// run moves on to the next attempt, if any.
pub open spec fn download_step_spec(
    attempt: u64,
    max_attempts: u64,
    manual: bool,
    stderr: Seq<char>,
) -> DownloadStep {
    if rate_limited(stderr) && attempt < max_attempts {
        DownloadStep::RetryAfter((attempt * 5) as u64)
    } else if !manual {
        DownloadStep::TryManualSubtitles
    } else if attempt < max_attempts {
        DownloadStep::NextAttempt
    } else {
        DownloadStep::GiveUp
    }
}

/// Decides what follows a failed `yt-dlp` run.
pub fn next_download_step(attempt: u64, max_attempts: u64, manual: bool, stderr: &str) -> (s:
    DownloadStep)
    requires
        1 <= attempt <= max_attempts <= u64::MAX / 5,
    ensures
        s == download_step_spec(attempt, max_attempts, manual, stderr@),
{
    if is_rate_limited(stderr) && attempt < max_attempts {
        DownloadStep::RetryAfter(attempt * 5)
    } else if !manual {
        DownloadStep::TryManualSubtitles
    } else if attempt < max_attempts {
        DownloadStep::NextAttempt
    } else {
        DownloadStep::GiveUp
    }
}

/// The message for a transcript download that failed with `last_error`,
/// from the most specific known cause to the generic one.
pub open spec fn transcript_failure_spec(e: Seq<char>) -> Seq<char> {
    if contains_pat(e, "Did not get any data blocks"@) {
        "YouTube subtitles extraction failed: 'Did not get any data blocks'. This is usually caused by YouTube's anti-bot measures or an outdated yt-dlp version. Try updating yt-dlp with: yt-dlp -U"@
    } else if contains_pat(e, "Sign in to confirm you're not a bot"@) {
        "YouTube is blocking requests: 'Sign in to confirm you're not a bot'. This is a temporary YouTube restriction. Try again later or use a different video."@
    } else if contains_pat(e, "Private video"@) || contains_pat(e, "Video unavailable"@) {
        "Video is private or unavailable. Please check the URL and try again."@
    } else if rate_limited(e) {
        "YouTube is rate limiting requests. Please wait a few minutes and try again, or try a different video."@
    } else if contains_pat(e, "403"@) || contains_pat(e, "Forbidden"@) {
        "YouTube is blocking access to this video (403 Forbidden). This could be due to:\n• Video is age-restricted or private\n• YouTube's anti-bot measures\n• Regional restrictions\n• Try updating yt-dlp: `yt-dlp -U`\n• Try a different video or wait and retry later."@
    } else if contains_pat(e, "fragment 1 not found"@) {
        "YouTube video fragment not found. This usually indicates:\n• Video is being processed or temporarily unavailable\n• YouTube's servers are having issues\n• Try again in a few minutes\n• If persistent, try updating yt-dlp: `yt-dlp -U`"@
    } else if contains_pat(e, "No subtitles"@) || contains_pat(e, "no automatic captions"@) {
        "This video has no automatic captions or subtitles available."@
    } else if contains_pat(e, "This video is not available"@) {
        "This video is not available in your region or has been made private."@
    } else {
        "yt-dlp failed to extract subtitles: "@ + e
    }
}

/// Explains why `yt-dlp` could not fetch subtitles.
pub fn transcript_failure_message(last_error: &str) -> (m: String)
    ensures
        m@ == transcript_failure_spec(last_error@),
{
    if contains_str(last_error, "Did not get any data blocks") {
        String::from_str("YouTube subtitles extraction failed: 'Did not get any data blocks'. This is usually caused by YouTube's anti-bot measures or an outdated yt-dlp version. Try updating yt-dlp with: yt-dlp -U")
    } else if contains_str(last_error, "Sign in to confirm you're not a bot") {
        String::from_str("YouTube is blocking requests: 'Sign in to confirm you're not a bot'. This is a temporary YouTube restriction. Try again later or use a different video.")
    } else if contains_str(last_error, "Private video") || contains_str(last_error, "Video unavailable") {
        String::from_str("Video is private or unavailable. Please check the URL and try again.")
    } else if is_rate_limited(last_error) {
        String::from_str("YouTube is rate limiting requests. Please wait a few minutes and try again, or try a different video.")
    } else if contains_str(last_error, "403") || contains_str(last_error, "Forbidden") {
        String::from_str("YouTube is blocking access to this video (403 Forbidden). This could be due to:\n• Video is age-restricted or private\n• YouTube's anti-bot measures\n• Regional restrictions\n• Try updating yt-dlp: `yt-dlp -U`\n• Try a different video or wait and retry later.")
    } else if contains_str(last_error, "fragment 1 not found") {
        String::from_str("YouTube video fragment not found. This usually indicates:\n• Video is being processed or temporarily unavailable\n• YouTube's servers are having issues\n• Try again in a few minutes\n• If persistent, try updating yt-dlp: `yt-dlp -U`")
    } else if contains_str(last_error, "No subtitles") || contains_str(last_error, "no automatic captions") {
        String::from_str("This video has no automatic captions or subtitles available.")
    } else if contains_str(last_error, "This video is not available") {
        String::from_str("This video is not available in your region or has been made private.")
    } else {
        concat_str("yt-dlp failed to extract subtitles: ", last_error)
    }
}

/// The subtitle files that `yt-dlp` may have written for output name
/// `base`, in the order they are looked for.
pub open spec fn subtitle_candidates_spec(dir: Seq<char>, base: Seq<char>) -> Seq<Seq<char>> {
    let prefix = dir + "/"@ + base;
    seq![prefix + ".en.vtt"@, prefix + ".en-auto.vtt"@, prefix + ".en-manual.vtt"@, prefix + ".vtt"@]
}

/// The subtitle files that `yt-dlp` may have written, in search order.
pub fn subtitle_candidates(dir: &str, base: &str) -> (r: Vec<String>)
    ensures
        r@.len() == 4,
        forall|k: int| 0 <= k < 4 ==> (#[trigger] r@[k])@ == subtitle_candidates_spec(dir@, base@)[k],
{
    let mut prefix = to_chars(dir);
    push_str(&mut prefix, "/");
    push_str(&mut prefix, base);
    let mut a = prefix.clone();
    push_str(&mut a, ".en.vtt");
    let mut b = prefix.clone();
    push_str(&mut b, ".en-auto.vtt");
    let mut c = prefix.clone();
    push_str(&mut c, ".en-manual.vtt");
    let mut d = prefix.clone();
    push_str(&mut d, ".vtt");
    let mut r: Vec<String> = Vec::new();
    r.push(from_chars(a.as_slice()));
    r.push(from_chars(b.as_slice()));
    r.push(from_chars(c.as_slice()));
    r.push(from_chars(d.as_slice()));
    r
}

/// Why a downloaded subtitle file was refused.
pub enum SubtitleFileError {
    /// The file holds only whitespace.
    Empty,
    /// The file has no `WEBVTT` marker.
    NotVtt,
    /// Nothing readable is left after cleaning.
    NoText,
}

impl SubtitleFileError {
    /// The message shown for the refusal.
    pub fn message(&self) -> (m: String)
        ensures
            m@ == match self {
                SubtitleFileError::Empty => "Downloaded subtitle file is empty"@,
                SubtitleFileError::NotVtt => "Downloaded file is not a valid VTT subtitle file"@,
                SubtitleFileError::NoText => "No readable text found in subtitle file after cleaning"@,
            },
    {
        match self {
            SubtitleFileError::Empty => String::from_str("Downloaded subtitle file is empty"),
            SubtitleFileError::NotVtt => String::from_str(
                "Downloaded file is not a valid VTT subtitle file",
            ),
            SubtitleFileError::NoText => String::from_str(
                "No readable text found in subtitle file after cleaning",
            ),
        }
    }
}

/// The checks on a downloaded subtitle file, in order: not blank, marked
/// `WEBVTT`, and some text left after cleaning; the cleaned text on success.
pub open spec fn check_subtitle_spec(content: Seq<char>) -> Result<Seq<char>, SubtitleFileError> {
    if trim(content).len() == 0 {
        Err(SubtitleFileError::Empty)
    } else if !contains_pat(content, "WEBVTT"@) {
        Err(SubtitleFileError::NotVtt)
    } else if trim(subtitle_text(content)).len() == 0 {
        Err(SubtitleFileError::NoText)
    } else {
        Ok(subtitle_text(content))
    }
}

/// Checks a downloaded subtitle file and returns its cleaned text.
pub fn check_subtitle_file(content: &str) -> (r: Result<String, SubtitleFileError>)
    ensures
        match (r, check_subtitle_spec(content@)) {
            (Ok(t), Ok(u)) => t@ == u,
            (Err(e), Err(f)) => e == f,
            _ => false,
        },
{
    let chars = to_chars(content);
    if trim_chars(chars.as_slice()).len() == 0 {
        return Err(SubtitleFileError::Empty);
    }
    if !contains_str(content, "WEBVTT") {
        return Err(SubtitleFileError::NotVtt);
    }
    let cleaned = vtt_subtitle_text(content);
    let cleaned_chars = to_chars(cleaned.as_str());
    if trim_chars(cleaned_chars.as_slice()).len() == 0 {
        return Err(SubtitleFileError::NoText);
    }
    Ok(cleaned)
}

/// The `yt-dlp` arguments that fetch English VTT subtitles of `url` into
/// `output` (a path without extension): automatic and manual subtitles, or
/// manual ones only, with pauses, retries and a browser user agent.
pub open spec fn ytdlp_args_spec(manual_only: bool, output: Seq<char>, url: Seq<char>) -> Seq<Seq<char>> {
    (if manual_only {
        seq!["--write-sub"@]
    } else {
        seq!["--write-auto-sub"@, "--write-sub"@]
    }) + seq![
        "--sub-langs"@,
        "en"@,
        "--sub-format"@,
        "vtt"@,
        "--skip-download"@,
        "--no-warnings"@,
        "--no-playlist"@,
        "--sleep-interval"@,
        "2"@,
        "--max-sleep-interval"@,
        "5"@,
        "--retries"@,
        "3"@,
        "--fragment-retries"@,
        "3"@,
        "--user-agent"@,
        "Mozilla/5.0 (Windows NT 10.0; Win64; x64) AppleWebKit/537.36 (KHTML, like Gecko) Chrome/120.0.0.0 Safari/537.36"@,
        "--output"@,
        output,
        url,
    ]
}

/// The `yt-dlp` arguments of one download attempt.
pub fn ytdlp_args(manual_only: bool, output: &str, url: &str) -> (args: Vec<String>)
    ensures
        views(args@) == ytdlp_args_spec(manual_only, output@, url@),
{
    let mut v: Vec<String> = Vec::new();
    if !manual_only {
        v.push(String::from_str("--write-auto-sub"));
    }
    v.push(String::from_str("--write-sub"));
    let rest = vec![
        "--sub-langs",
        "en",
        "--sub-format",
        "vtt",
        "--skip-download",
        "--no-warnings",
        "--no-playlist",
        "--sleep-interval",
        "2",
        "--max-sleep-interval",
        "5",
        "--retries",
        "3",
        "--fragment-retries",
        "3",
        "--user-agent",
        "Mozilla/5.0 (Windows NT 10.0; Win64; x64) AppleWebKit/537.36 (KHTML, like Gecko) Chrome/120.0.0.0 Safari/537.36",
        "--output",
        output,
        url,
    ];
    let ghost head = views(v@);
    let ghost tail = Seq::new(rest@.len(), |k: int| rest@[k]@);
    let mut i: usize = 0;
    while i < rest.len()
        invariant
            i <= rest@.len(),
            tail == Seq::new(rest@.len(), |k: int| rest@[k]@),
            views(v@) == head + tail.take(i as int),
        decreases rest@.len() - i,
    {
        let ghost before = views(v@);
        v.push(String::from_str(rest[i]));
        assert(views(v@) =~= before.push(rest@[i as int]@));
        assert(tail.take(i + 1) =~= tail.take(i as int).push(rest@[i as int]@));
        i = i + 1;
    }
    assert(tail.take(rest@.len() as int) =~= tail);
    assert(views(v@) =~= ytdlp_args_spec(manual_only, output@, url@));
    v
}

/// Why a transcript download could not start or left no file.
#[derive(PartialEq, Eq, Structural, Clone, Copy, Debug)]
pub enum TranscriptSetupError {
    /// `yt-dlp` could not be run.
    NotInstalled,
    /// `yt-dlp --version` failed.
    NotWorking,
    /// No subtitle file was written.
    NoFile,
}

impl TranscriptSetupError {
    /// The message shown for the error.
    pub fn message(&self) -> (m: String)
        ensures
            m@ == match self {
                TranscriptSetupError::NotInstalled => "yt-dlp is not installed. Please install yt-dlp to use YouTube summarization."@,
                TranscriptSetupError::NotWorking => "yt-dlp is not working properly"@,
                TranscriptSetupError::NoFile => "Subtitle file was not created by yt-dlp. The video may not have automatic captions available."@,
            },
    {
        match self {
            TranscriptSetupError::NotInstalled => String::from_str("yt-dlp is not installed. Please install yt-dlp to use YouTube summarization."),
            TranscriptSetupError::NotWorking => String::from_str("yt-dlp is not working properly"),
            TranscriptSetupError::NoFile => String::from_str("Subtitle file was not created by yt-dlp. The video may not have automatic captions available."),
        }
    }
}

} // verus!
