use meri_bot::ytsubs::{decode_html_entities, extract_video_id};
use meri_bot::youtube::{ytdlp_args, TranscriptSetupError, check_subtitle_file, is_rate_limited, next_download_step, subtitle_candidates, transcript_failure_message, DownloadStep, SubtitleFileError};

#[test]
fn video_ids_are_extracted() {
    assert_eq!(extract_video_id("https://www.youtube.com/watch?v=dQw4w9WgXcQ&t=42").ok().unwrap(), "dQw4w9WgXcQ");
    assert_eq!(extract_video_id("https://youtu.be/abc123?si=x").ok().unwrap(), "abc123");
    assert_eq!(extract_video_id("https://youtu.be/abc123").ok().unwrap(), "abc123");
    let err = extract_video_id("https://example.com/").err().unwrap();
    assert_eq!(err.message(), "Invalid YouTube URL format");
}

#[test]
fn entities_are_decoded_in_order() {
    assert_eq!(decode_html_entities("&lt;b&gt; &amp;amp; &#39;x&#39; &quot;y&quot;&nbsp;"), "<b> &amp; 'x' \"y\" ");
}

#[test]
fn rate_limits_wait_then_retry() {
    assert!(is_rate_limited("HTTP Error 429: Too Many Requests"));
    assert!(matches!(next_download_step(1, 3, false, "HTTP Error 429"), DownloadStep::RetryAfter(5)));
    assert!(matches!(next_download_step(2, 3, true, "429"), DownloadStep::RetryAfter(10)));
    assert!(matches!(next_download_step(3, 3, false, "429"), DownloadStep::TryManualSubtitles));
    assert!(matches!(next_download_step(1, 3, true, "other"), DownloadStep::NextAttempt));
    assert!(matches!(next_download_step(3, 3, true, "other"), DownloadStep::GiveUp));
}

#[test]
fn failures_are_explained() {
    assert_eq!(transcript_failure_message("ERROR: Private video"), "Video is private or unavailable. Please check the URL and try again.");
    assert_eq!(transcript_failure_message("weird"), "yt-dlp failed to extract subtitles: weird");
}

#[test]
fn subtitle_files_are_looked_for_in_order() {
    let c = subtitle_candidates("subtitles", "yt_1");
    assert_eq!(c, vec![
        "subtitles/yt_1.en.vtt".to_string(),
        "subtitles/yt_1.en-auto.vtt".to_string(),
        "subtitles/yt_1.en-manual.vtt".to_string(),
        "subtitles/yt_1.vtt".to_string(),
    ]);
}

#[test]
fn downloaded_files_are_checked() {
    assert!(matches!(check_subtitle_file("  \n"), Err(SubtitleFileError::Empty)));
    assert!(matches!(check_subtitle_file("hello"), Err(SubtitleFileError::NotVtt)));
    assert!(matches!(check_subtitle_file("WEBVTT\n\n00:01.000 --> 00:02.000\n"), Err(SubtitleFileError::NoText)));
    assert_eq!(check_subtitle_file("WEBVTT\n\n00:01.000 --> 00:02.000\nhi there").ok().unwrap(), "hi there");
    assert_eq!(SubtitleFileError::NotVtt.message(), "Downloaded file is not a valid VTT subtitle file");
}

#[test]
fn ytdlp_arguments_follow_the_mode() {
    let a = ytdlp_args(false, "subtitles/t", "https://y");
    assert_eq!(&a[..3], &["--write-auto-sub".to_string(), "--write-sub".to_string(), "--sub-langs".to_string()]);
    assert_eq!(a.len(), 22);
    assert_eq!(a[a.len() - 2], "subtitles/t");
    let m = ytdlp_args(true, "o", "u");
    assert_eq!(m[0], "--write-sub");
    assert_eq!(m.len(), 21);
    assert_eq!(TranscriptSetupError::NotWorking.message(), "yt-dlp is not working properly");
}

#[test]
fn entities_are_decoded_once() {
    assert_eq!(decode_html_entities("&amp;lt;"), "&lt;");
    assert_eq!(decode_html_entities("&amp;amp;"), "&amp;");
    assert_eq!(decode_html_entities("x &lt;&gt; y&nbsp;&#39;"), "x <> y '");
    assert_eq!(decode_html_entities("&ampersand; &"), "&ampersand; &");
}
