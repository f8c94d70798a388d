//! The `^rank` command: transcript and page cleaning, answer chunking.
use vstd::prelude::*;
use crate::chunking::{chunk_ok, split_by_lines, split_message_spec, views};
use crate::cleaning::{cue_text, html_page_text, html_title, page_text, page_title, vtt_cue_text};
use crate::text::{
    byte_boundary, byte_prefix, contains_pat, contains_str, decimal, decimal_chars, from_chars,
    prefix_bytes, push_all, push_str, starts_with, starts_with_str, to_chars, trim, utf8_len,
    utf8_len_of,
};
use crate::youtube::sha256_hex;

verus! {

/// The command group of the ranking command.
pub struct Rank;

impl Rank {
    pub fn new() -> (r: Self)
        ensures
            r == Rank,
    {
        Rank
    }
}

/// Splits an answer into Discord-sized chunks at line boundaries: lines are
/// packed greedily while a chunk stays within `max_len` bytes, and a single
/// line longer than that is kept whole.
pub fn split_message(content: &str, max_len: usize) -> (chunks: Vec<String>)
    ensures
        views(chunks@) == split_message_spec(content@, max_len as nat),
        forall|k: int|
            0 <= k < chunks@.len() ==> (#[trigger] chunks@[k])@.len() > 0 && chunk_ok(
                chunks@[k]@,
                max_len as nat,
            ),
{
    split_by_lines(content, max_len)
}

/// A chat message sent to the model.
#[derive(Clone, Debug)]
pub struct ChatMessage {
    pub role: String,
    pub content: String,
}

/// The cue text of a WebVTT file: header, notes, timing lines and cue
/// numbers dropped, text lines after the first timing line kept, joined by
/// spaces.
pub fn clean_vtt_content(vtt: &str) -> (r: String)
    ensures
        r@ == cue_text(vtt@),
{
    vtt_cue_text(vtt)
}

/// The plain text of a web page: tags become spaces, entities are decoded,
/// runs of whitespace become one space, the ends are trimmed.
pub fn clean_html(html: &str) -> (r: String)
    ensures
        r@ == page_text(html@),
{
    html_page_text(html)
}

/// The cleaned text of the page's `<title>`, if it has one.
pub fn extract_title_from_html(html: &str) -> (r: Option<String>)
    ensures
        match r {
            Some(t) => page_title(html@) == Some(t@),
            None => page_title(html@) is None,
        },
{
    html_title(html)
}

/// The title shown for a page: its own, or `Unknown Title`.
pub fn page_title_or_unknown(html: &str) -> (r: String)
    ensures
        r@ == match page_title(html@) {
            Some(t) => t,
            None => "Unknown Title"@,
        },
{
    match html_title(html) {
        Some(t) => t,
        None => String::from_str("Unknown Title"),
    }
}

/// The cache key of a video URL: the hex SHA-256 digest of the URL.
pub fn generate_youtube_cache_key(url: &str) -> (key: String)
    ensures
        key@ == sha256_hex(url@),
        key@.len() == 64,
{
    crate::youtube::generate_youtube_cache_key(url)
}

/// Where the subtitles of a video are cached: `subtitles/<key>.vtt`.
pub fn subtitle_cache_path(url: &str) -> (path: String)
    ensures
        path@ == "subtitles/"@ + sha256_hex(url@) + ".vtt"@,
{
    let key = generate_youtube_cache_key(url);
    let mut p = to_chars("subtitles/");
    push_str(&mut p, key.as_str());
    push_str(&mut p, ".vtt");
    from_chars(p.as_slice())
}

/// What a `^rank` invocation asks for.
#[derive(PartialEq, Eq, Structural, Clone, Copy)]
pub enum RankRequest {
    /// No URL, `--help` or `-h`: show the help.
    Help,
    /// Not an `http://` or `https://` URL.
    InvalidUrl,
    /// A YouTube video.
    YouTube,
    /// Any other web page.
    WebPage,
}

/// How the bot reads a `^rank` invocation (its trimmed text is the URL).
pub open spec fn rank_request_spec(raw: Seq<char>) -> RankRequest {
    let input = trim(raw);
    if input.len() == 0 || input == "--help"@ || input == "-h"@ {
        RankRequest::Help
    } else if !starts_with(input, "http://"@) && !starts_with(input, "https://"@) {
        RankRequest::InvalidUrl
    } else if contains_pat(input, "youtube.com"@) || contains_pat(input, "youtu.be"@) {
        RankRequest::YouTube
    } else {
        RankRequest::WebPage
    }
}

fn same(a: &str, b: &str) -> (r: bool)
    ensures
        r == (a@ == b@),
{
    let x = to_chars(a);
    let y = to_chars(b);
    crate::cleaning::eq_chars(x.as_slice(), y.as_slice())
}

/// Reads a `^rank` invocation; the URL is the trimmed input.
pub fn classify_rank_request(raw: &str) -> (r: (RankRequest, String))
    ensures
        r.0 == rank_request_spec(raw@),
        r.1@ == trim(raw@),
{
    let input = crate::text::trim_str(raw);
    let s = input.as_str();
    let kind = if s.is_empty() || same(s, "--help") || same(s, "-h") {
        RankRequest::Help
    } else if !starts_with_str(s, "http://") && !starts_with_str(s, "https://") {
        RankRequest::InvalidUrl
    } else if contains_str(s, "youtube.com") || contains_str(s, "youtu.be") {
        RankRequest::YouTube
    } else {
        RankRequest::WebPage
    };
    (kind, input)
}

/// The help of the ranking command.
pub fn rank_help() -> (m: String)
    ensures
        m@ == "**📊 Content Ranking Command**\n\n**Usage:** `^rank <url>`\n\n**Features:**\n• **Multi-dimensional ranking** across 5 key factors\n• **1-10 scale scoring** with detailed explanations\n• **YouTube and webpage support** with specialized analysis\n• **RAG processing** for comprehensive content analysis\n• **Streaming responses** with real-time ranking updates\n• **Actionable feedback** with strengths and improvement suggestions\n\n**Examples:**\n• `^rank https://youtube.com/watch?v=...`\n• `^rank https://example.com`\n\n**Requirements:** yt-dlp installed for YouTube support"@,
{
    String::from_str("**📊 Content Ranking Command**\n\n**Usage:** `^rank <url>`\n\n**Features:**\n• **Multi-dimensional ranking** across 5 key factors\n• **1-10 scale scoring** with detailed explanations\n• **YouTube and webpage support** with specialized analysis\n• **RAG processing** for comprehensive content analysis\n• **Streaming responses** with real-time ranking updates\n• **Actionable feedback** with strengths and improvement suggestions\n\n**Examples:**\n• `^rank https://youtube.com/watch?v=...`\n• `^rank https://example.com`\n\n**Requirements:** yt-dlp installed for YouTube support")
}

/// The reply to a `^rank` invocation that is not a URL.
pub fn invalid_url_reply() -> (m: String)
    ensures
        m@ == "**❌ Invalid URL Format**\n\nPlease provide a valid URL starting with `http://` or `https://`\n\n**Examples:**\n• `^rank https://youtube.com/watch?v=...`\n• `^rank https://example.com`\n• `^rank https://github.com/username/repo`"@,
{
    String::from_str("**❌ Invalid URL Format**\n\nPlease provide a valid URL starting with `http://` or `https://`\n\n**Examples:**\n• `^rank https://youtube.com/watch?v=...`\n• `^rank https://example.com`\n• `^rank https://github.com/username/repo`")
}

/// At most the first 1000 bytes of the content, marked when cut.
pub open spec fn content_preview_spec(content: Seq<char>) -> Seq<char> {
    if utf8_len(content) > 1000 {
        byte_prefix(content, 1000) + "..."@
    } else {
        content
    }
}

/// The user prompt of a ranking request.
pub open spec fn ranking_prompt_spec(is_youtube: bool, url: Seq<char>, content: Seq<char>) -> Seq<char> {
    "Please analyze and rank the following content:\n\nContent Type: "@ + (if is_youtube {
        "YouTube Video"@
    } else {
        "Webpage"@
    }) + "\nURL: "@ + url + "\n\nContent:\n"@ + content_preview_spec(content)
        + "\n\nProvide a comprehensive ranking analysis with:\n1. Overall Score (1-10)\n2. Detailed breakdown by category\n3. Strengths and weaknesses\n4. Recommendations for improvement\n5. Summary conclusion"@
}

/// Builds the user prompt of a ranking request; the content preview is cut
/// at 1000 bytes, which must fall on a character boundary.
pub fn ranking_prompt(is_youtube: bool, url: &str, content: &str) -> (p: String)
    requires
        utf8_len(content@) > 1000 ==> byte_boundary(content@, 1000),
    ensures
        p@ == ranking_prompt_spec(is_youtube, url@, content@),
{
    let c = to_chars(content);
    let mut out = to_chars("Please analyze and rank the following content:\n\nContent Type: ");
    if is_youtube {
        push_str(&mut out, "YouTube Video");
    } else {
        push_str(&mut out, "Webpage");
    }
    push_str(&mut out, "\nURL: ");
    push_str(&mut out, url);
    push_str(&mut out, "\n\nContent:\n");
    if utf8_len_of(c.as_slice()) > 1000 {
        let head = prefix_bytes(c.as_slice(), 1000);
        push_all(&mut out, head.as_slice());
        push_str(&mut out, "...");
    } else {
        push_all(&mut out, c.as_slice());
    }
    push_str(&mut out, "\n\nProvide a comprehensive ranking analysis with:\n1. Overall Score (1-10)\n2. Detailed breakdown by category\n3. Strengths and weaknesses\n4. Recommendations for improvement\n5. Summary conclusion");
    from_chars(out.as_slice())
}

/// Ranking chunk `index` of `count`, with its heading.
pub open spec fn ranking_part(index: nat, count: nat, chunk: Seq<char>) -> Seq<char> {
    if count == 1 {
        "**📊 Content Ranking Analysis**\n\n"@ + chunk
    } else {
        "**📊 Content Ranking Analysis (Part "@ + decimal(index + 1) + "/"@ + decimal(count) + ")**\n\n"@
            + chunk
    }
}

/// The messages that carry a ranking analysis.
pub fn format_ranking(analysis: &str, max_len: usize) -> (messages: Vec<String>)
    ensures
        messages@.len() == split_message_spec(analysis@, max_len as nat).len(),
        forall|k: int|
            0 <= k < messages@.len() ==> (#[trigger] messages@[k])@ == ranking_part(
                k as nat,
                messages@.len() as nat,
                split_message_spec(analysis@, max_len as nat)[k],
            ),
{
    let chunks = split_message(analysis, max_len);
    let n = chunks.len();
    let mut out: Vec<String> = Vec::new();
    let mut i: usize = 0;
    while i < n
        invariant
            i <= n,
            n == chunks@.len(),
            views(chunks@) == split_message_spec(analysis@, max_len as nat),
            out@.len() == i,
            forall|k: int|
                0 <= k < i ==> (#[trigger] out@[k])@ == ranking_part(
                    k as nat,
                    n as nat,
                    split_message_spec(analysis@, max_len as nat)[k],
                ),
        decreases n - i,
    {
        assert(views(chunks@)[i as int] == chunks@[i as int]@);
        let mut m: Vec<char> = Vec::new();
        if n == 1 {
            push_str(&mut m, "**📊 Content Ranking Analysis**\n\n");
        } else {
            push_str(&mut m, "**📊 Content Ranking Analysis (Part ");
            let a = decimal_chars(i as u128 + 1);
            push_all(&mut m, a.as_slice());
            push_str(&mut m, "/");
            let b = decimal_chars(n as u128);
            push_all(&mut m, b.as_slice());
            push_str(&mut m, ")**\n\n");
        }
        push_str(&mut m, chunks[i].as_str());
        out.push(from_chars(m.as_slice()));
        i = i + 1;
    }
    out
}

/// What the ranking command reports along the way.
pub enum RankNotice {
    /// The settings could not be loaded; the loader's error.
    ConfigError(String),
    /// The first message, for a video or a page.
    Started(bool),
    /// The transcript is being downloaded.
    DownloadingTranscript,
    /// The page is being fetched.
    FetchingPage,
    /// The transcript could not be fetched: the error and the URL.
    TranscriptFailed(String, String),
    /// The page could not be fetched: the error and the URL.
    PageFailed(String, String),
    /// The analysis starts on this many bytes of content.
    Analyzing(usize),
    /// The analysis failed: the error and the URL.
    AnalysisFailed(String, String),
}

/// The text of a notice.
pub open spec fn rank_notice_spec(n: RankNotice) -> Seq<char> {
    match n {
        RankNotice::ConfigError(e) => "**❌ Configuration Error**\n\nFailed to load LM Studio configuration: "@ + e@
            + "\n\n**Solutions:**\n• **Check lmapiconf.txt**: Ensure the file exists and contains all required settings\n• **Verify Settings**: Check that all required configuration values are present\n• **File Location**: Make sure lmapiconf.txt is in the project root directory\n\n**Required Settings:**\n• LM_STUDIO_BASE_URL\n• LM_STUDIO_TIMEOUT\n• DEFAULT_RANKING_MODEL\n• DEFAULT_TEMPERATURE\n• DEFAULT_MAX_TOKENS\n• MAX_DISCORD_MESSAGE_LENGTH\n• RESPONSE_FORMAT_PADDING"@,
        RankNotice::Started(v) => if v {
            "🎥 **YouTube Video Ranking**\n\nProcessing YouTube video for ranking analysis..."@
        } else {
            "📄 **Webpage Ranking**\n\nProcessing webpage for ranking analysis..."@
        },
        RankNotice::DownloadingTranscript => "🎥 **YouTube Video Ranking**\n\n📥 Downloading video transcript..."@,
        RankNotice::FetchingPage => "📄 **Webpage Ranking**\n\n📥 Fetching webpage content..."@,
        RankNotice::TranscriptFailed(e, u) => "**❌ YouTube Processing Error**\n\nFailed to extract video transcript: "@ + e@
            + "\n\n**Solutions:**\n• **Install yt-dlp**: `pip install yt-dlp` or download from https://github.com/yt-dlp/yt-dlp\n• **Check Video**: Ensure the video is public and has captions/subtitles\n• **Try Again**: Some videos may have temporary issues\n• **Alternative**: Try a different video or webpage\n\n**URL:** "@
            + u@,
        RankNotice::PageFailed(e, u) => "**❌ Webpage Processing Error**\n\nFailed to fetch webpage content: "@ + e@
            + "\n\n**Solutions:**\n• **Check URL**: Ensure the URL is accessible and valid\n• **Network**: Verify your internet connection\n• **Try Again**: Some websites may have temporary issues\n• **Alternative**: Try a different webpage\n\n**URL:** "@
            + u@,
        RankNotice::Analyzing(n) => "🎯 **Content Ranking Analysis**\n\n📊 Analyzing "@ + decimal(n as nat)
            + " characters of content..."@,
        RankNotice::AnalysisFailed(e, u) => "**❌ Ranking Analysis Error**\n\nFailed to complete ranking analysis: "@ + e@
            + "\n\n**Solutions:**\n• **Check LM Studio**: Ensure LM Studio is running and responsive\n• **Model Loaded**: Verify the ranking model is loaded\n• **Try Again**: Some content may be too complex for analysis\n• **Reduce Content**: Try a shorter video or webpage\n\n**URL:** "@
            + u@,
    }
}

fn with_error(head: &str, e: &String, middle: &str, u: &String) -> (m: String)
    ensures
        m@ == head@ + e@ + middle@ + u@,
{
    let mut out = to_chars(head);
    push_str(&mut out, e.as_str());
    push_str(&mut out, middle);
    push_str(&mut out, u.as_str());
    from_chars(out.as_slice())
}

/// Writes a notice.
pub fn rank_notice_text(n: &RankNotice) -> (m: String)
    ensures
        m@ == rank_notice_spec(*n),
{
    match n {
        RankNotice::ConfigError(e) => {
            let mut out = to_chars("**❌ Configuration Error**\n\nFailed to load LM Studio configuration: ");
            push_str(&mut out, e.as_str());
            push_str(&mut out, "\n\n**Solutions:**\n• **Check lmapiconf.txt**: Ensure the file exists and contains all required settings\n• **Verify Settings**: Check that all required configuration values are present\n• **File Location**: Make sure lmapiconf.txt is in the project root directory\n\n**Required Settings:**\n• LM_STUDIO_BASE_URL\n• LM_STUDIO_TIMEOUT\n• DEFAULT_RANKING_MODEL\n• DEFAULT_TEMPERATURE\n• DEFAULT_MAX_TOKENS\n• MAX_DISCORD_MESSAGE_LENGTH\n• RESPONSE_FORMAT_PADDING");
            from_chars(out.as_slice())
        },
        RankNotice::Started(v) => if *v {
            String::from_str("🎥 **YouTube Video Ranking**\n\nProcessing YouTube video for ranking analysis...")
        } else {
            String::from_str("📄 **Webpage Ranking**\n\nProcessing webpage for ranking analysis...")
        },
        RankNotice::DownloadingTranscript => String::from_str("🎥 **YouTube Video Ranking**\n\n📥 Downloading video transcript..."),
        RankNotice::FetchingPage => String::from_str("📄 **Webpage Ranking**\n\n📥 Fetching webpage content..."),
        RankNotice::TranscriptFailed(e, u) => with_error(
            "**❌ YouTube Processing Error**\n\nFailed to extract video transcript: ",
            e,
            "\n\n**Solutions:**\n• **Install yt-dlp**: `pip install yt-dlp` or download from https://github.com/yt-dlp/yt-dlp\n• **Check Video**: Ensure the video is public and has captions/subtitles\n• **Try Again**: Some videos may have temporary issues\n• **Alternative**: Try a different video or webpage\n\n**URL:** ",
            u,
        ),
        RankNotice::PageFailed(e, u) => with_error(
            "**❌ Webpage Processing Error**\n\nFailed to fetch webpage content: ",
            e,
            "\n\n**Solutions:**\n• **Check URL**: Ensure the URL is accessible and valid\n• **Network**: Verify your internet connection\n• **Try Again**: Some websites may have temporary issues\n• **Alternative**: Try a different webpage\n\n**URL:** ",
            u,
        ),
        RankNotice::Analyzing(n) => {
            let mut out = to_chars("🎯 **Content Ranking Analysis**\n\n📊 Analyzing ");
            let d = decimal_chars(*n as u128);
            push_all(&mut out, d.as_slice());
            push_str(&mut out, " characters of content...");
            from_chars(out.as_slice())
        },
        RankNotice::AnalysisFailed(e, u) => with_error(
            "**❌ Ranking Analysis Error**\n\nFailed to complete ranking analysis: ",
            e,
            "\n\n**Solutions:**\n• **Check LM Studio**: Ensure LM Studio is running and responsive\n• **Model Loaded**: Verify the ranking model is loaded\n• **Try Again**: Some content may be too complex for analysis\n• **Reduce Content**: Try a shorter video or webpage\n\n**URL:** ",
            u,
        ),
    }
}

/// The `yt-dlp` arguments that download a video's subtitles to `path`.
pub fn rank_ytdlp_args(path: &str, url: &str) -> (args: Vec<String>)
    ensures
        views(args@) == seq![
            "--write-sub"@,
            "--write-auto-sub"@,
            "--sub-format"@,
            "vtt"@,
            "--skip-download"@,
            "--output"@,
            path@,
            url@,
        ],
{
    let v = vec![
        String::from_str("--write-sub"),
        String::from_str("--write-auto-sub"),
        String::from_str("--sub-format"),
        String::from_str("vtt"),
        String::from_str("--skip-download"),
        String::from_str("--output"),
        String::from_str(path),
        String::from_str(url),
    ];
    assert(views(v@) =~= seq![
        "--write-sub"@,
        "--write-auto-sub"@,
        "--sub-format"@,
        "vtt"@,
        "--skip-download"@,
        "--output"@,
        path@,
        url@,
    ]);
    v
}

/// A cached subtitle file is used when its cleaned text is not blank.
pub fn cached_transcript(content: &str) -> (r: Option<String>)
    ensures
        match r {
            Some(t) => t@ == cue_text(content@) && trim(t@).len() > 0,
            None => trim(cue_text(content@)).len() == 0,
        },
{
    let cleaned = clean_vtt_content(content);
    let c = to_chars(cleaned.as_str());
    if crate::text::trim_chars(c.as_slice()).len() == 0 {
        None
    } else {
        Some(cleaned)
    }
}

/// The transcript from a freshly downloaded subtitle file: its cleaned
/// text, refused when blank.
pub fn downloaded_transcript(content: &str) -> (r: Result<String, String>)
    ensures
        match r {
            Ok(t) => t@ == cue_text(content@) && trim(t@).len() > 0,
            Err(e) => trim(cue_text(content@)).len() == 0 && e@ == "No subtitle content found after cleaning"@,
        },
{
    match cached_transcript(content) {
        Some(t) => Ok(t),
        None => Err(String::from_str("No subtitle content found after cleaning")),
    }
}

/// The error when `yt-dlp` fails: its exit status as displayed and its
/// error output.
pub fn ytdlp_failure(status: &str, stderr: &str) -> (m: String)
    ensures
        m@ == "yt-dlp failed: "@ + status@ + "\n\nError output:\n"@ + stderr@,
{
    let mut out = to_chars("yt-dlp failed: ");
    push_str(&mut out, status);
    push_str(&mut out, "\n\nError output:\n");
    push_str(&mut out, stderr);
    from_chars(out.as_slice())
}

/// What a fetched page gives the ranking: its title (or `Unknown Title`)
/// and its cleaned text.
pub fn ranked_page(html: &str) -> (r: (String, String))
    ensures
        r.0@ == (match page_title(html@) {
            Some(t) => t,
            None => "Unknown Title"@,
        }),
        r.1@ == page_text(html@),
{
    (page_title_or_unknown(html), clean_html(html))
}

/// Ranking's verdict on the chat endpoint's probe: only a success status
/// shows the API is up; any other status fails with its code and body.
pub fn rank_endpoint_failure(code: u16, status: &str, body: &str) -> (r: Option<String>)
    ensures
        (200 <= code && code <= 299) ==> r is None,
        !(200 <= code && code <= 299) ==> (r matches Some(m) && m@ == "API endpoint test failed: HTTP "@ + status@ + " - "@ + body@),
{
    if 200 <= code && code <= 299 {
        None
    } else {
        let mut out = to_chars("API endpoint test failed: HTTP ");
        push_str(&mut out, status);
        push_str(&mut out, " - ");
        push_str(&mut out, body);
        Some(from_chars(out.as_slice()))
    }
}

/// Ranking's error when the chat endpoint's probe could not be sent.
pub fn rank_endpoint_unreachable(error_text: &str) -> (m: String)
    ensures
        m@ == "API endpoint connectivity test failed: "@ + error_text@,
{
    let mut out = to_chars("API endpoint connectivity test failed: ");
    push_str(&mut out, error_text);
    from_chars(out.as_slice())
}

/// The system prompt for ranking when no prompt file can be read.
pub fn fallback_ranking_prompt(is_youtube: bool) -> (p: String)
    ensures
        p@ == if is_youtube {
            "You are an expert video content analyst. Analyze YouTube video transcripts and provide comprehensive ranking across multiple dimensions including content quality, educational value, engagement, and technical excellence."@
        } else {
            "You are an expert content analyst and evaluator. Your task is to rank and analyze content across multiple dimensions. Provide detailed, objective analysis with specific scores and actionable feedback."@
        },
{
    if is_youtube {
        String::from_str("You are an expert video content analyst. Analyze YouTube video transcripts and provide comprehensive ranking across multiple dimensions including content quality, educational value, engagement, and technical excellence.")
    } else {
        String::from_str("You are an expert content analyst and evaluator. Your task is to rank and analyze content across multiple dimensions. Provide detailed, objective analysis with specific scores and actionable feedback.")
    }
}

/// The error of a ranking request that failed; the request's error.
pub fn ranking_failed(error: &str) -> (m: String)
    ensures
        m@ == "Ranking analysis failed: "@ + error@,
{
    crate::text::concat_str("Ranking analysis failed: ", error)
}

/// The error when the downloaded subtitle file cannot be read.
pub fn subtitle_read_failed(error: &str) -> (m: String)
    ensures
        m@ == "Failed to read subtitle file: "@ + error@,
{
    crate::text::concat_str("Failed to read subtitle file: ", error)
}

/// The error when the page answers with a failure status: the status as
/// displayed, then its code.
pub fn page_http_error(status: &str, code: u16) -> (m: String)
    ensures
        m@ == "HTTP "@ + status@ + ": "@ + decimal(code as nat),
{
    let mut out = to_chars("HTTP ");
    push_str(&mut out, status);
    push_str(&mut out, ": ");
    let d = decimal_chars(code as u128);
    push_all(&mut out, d.as_slice());
    from_chars(out.as_slice())
}

} // verus!
