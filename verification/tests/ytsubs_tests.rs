use meri_bot::ytsubs::{is_youtube_url, subtitles_file_name, extract_player_response, format_srt, generate_mock_subtitles, subtitle_cues, subtitle_track_url, PlayerResponseError, SubtitleTrack, SubtitleXmlError, TimedCue, TrackError};

fn track(url: Option<&str>, name: Option<&str>, code: Option<&str>) -> SubtitleTrack {
    SubtitleTrack {
        base_url: url.map(|s| s.to_string()),
        name: name.map(|s| s.to_string()),
        language_code: code.map(|s| s.to_string()),
    }
}

#[test]
fn player_response_pattern_is_refused() {
    let page = "<script>var ytInitialPlayerResponse = {\"captions\":{}};</script>";
    assert!(extract_player_response(page) == Err(PlayerResponseError::PatternRejected));
    assert_eq!(PlayerResponseError::PatternRejected.message(), "Failed to compile regex pattern");
}

#[test]
fn english_track_is_preferred() {
    assert!(subtitle_track_url(&None) == Err(TrackError::NoTracks));
    assert!(subtitle_track_url(&Some(vec![])) == Err(TrackError::NoneAvailable));
    let ts = vec![
        track(Some("u-de"), Some("Deutsch"), Some("de")),
        track(Some("u-en"), Some("English (auto)"), Some("en-US")),
        track(Some("u-en2"), None, Some("en")),
    ];
    assert_eq!(subtitle_track_url(&Some(ts)), Ok("u-en".to_string()));
    let ts = vec![track(Some("u-fr"), Some("Français"), Some("fr"))];
    assert_eq!(subtitle_track_url(&Some(ts)), Ok("u-fr".to_string()));
    let ts = vec![track(None, None, Some("en"))];
    assert!(subtitle_track_url(&Some(ts)) == Err(TrackError::NoUrl));
    assert_eq!(TrackError::NoUrl.message(), "No subtitle URL found");
}

#[test]
fn timed_text_cues_are_read() {
    let xml = "<?xml version=\"1.0\"?><transcript><text start=\"1.5\" dur=\"2.25\">Hello &amp; welcome</text><text dur=\"3\">No start</text><text start=\"9\">broken<text start=\"10\">Last &#39;one&#39;</text></transcript>";
    let cues = subtitle_cues(xml);
    assert_eq!(cues.len(), 3);
    assert_eq!(cues[0].start.as_deref(), Some("1.5"));
    assert_eq!(cues[0].duration.as_deref(), Some("2.25"));
    assert_eq!(cues[0].text, "Hello & welcome");
    assert_eq!(cues[1].start, None);
    assert_eq!(cues[1].text, "No start");
    assert_eq!(cues[2].start.as_deref(), Some("10"));
    assert_eq!(cues[2].duration, None);
    assert_eq!(cues[2].text, "Last 'one'");
    assert!(subtitle_cues("<transcript></transcript>").is_empty());
}

#[test]
fn srt_is_numbered() {
    let cues = vec![
        TimedCue { start: "00:00:01,500".to_string(), end: "00:00:03,750".to_string(), text: "Hi".to_string() },
        TimedCue { start: "00:00:04,000".to_string(), end: "00:00:07,000".to_string(), text: "Bye".to_string() },
    ];
    assert_eq!(
        format_srt(&cues),
        Ok("1\n00:00:01,500 --> 00:00:03,750\nHi\n\n2\n00:00:04,000 --> 00:00:07,000\nBye\n\n".to_string())
    );
    assert!(format_srt(&vec![]) == Err(SubtitleXmlError::NoContent));
    assert_eq!(SubtitleXmlError::NoContent.message(), "No subtitle content found in XML");
}

#[test]
fn mock_subtitles_name_the_video() {
    let m = generate_mock_subtitles("abc", "2024-01-01 00:00:00 UTC");
    assert!(m.starts_with("Subtitles for video: abc\n\n1\n00:00:01,000 --> 00:00:04,000\nWelcome to this YouTube video!\n"));
    assert!(m.ends_with("\n\nVideo ID: abc\nGenerated at: 2024-01-01 00:00:00 UTC\n"));
}

#[test]
fn subtitle_cli_helpers() {
    assert!(is_youtube_url("https://www.youtube.com/watch?v=abc"));
    assert!(is_youtube_url("https://youtu.be/abc"));
    assert!(!is_youtube_url("https://example.com"));
    assert_eq!(subtitles_file_name("abc", false), "subtitles_abc.srt");
    assert_eq!(subtitles_file_name("abc", true), "subtitles_abc_mock.txt");
}
