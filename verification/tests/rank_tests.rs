use meri_bot::config::LmSettings;
use meri_bot::commands::rank::{ChatMessage, page_http_error, ranking_failed, subtitle_read_failed, fallback_ranking_prompt, rank_endpoint_failure, rank_endpoint_unreachable, cached_transcript, downloaded_transcript, rank_notice_text, rank_ytdlp_args, ranked_page, ytdlp_failure, RankNotice, classify_rank_request, invalid_url_reply, rank_help, Rank, RankRequest, format_ranking, ranking_prompt, clean_html, clean_vtt_content, extract_title_from_html, generate_youtube_cache_key, page_title_or_unknown, split_message, subtitle_cache_path};

#[test]
fn rank_test_clean_vtt() {
    let vtt_content = "WEBVTT\n\n1\n00:00:01.000 --> 00:00:05.000\nHello world\n\n2\n00:00:06.000 --> 00:00:10.000\nThis is a test";
    let cleaned = clean_vtt_content(vtt_content);
    assert_eq!(cleaned, "Hello world This is a test");
}

#[test]
fn rank_test_clean_html() {
    let html = "<html><body><h1>Title</h1><p>Content with <strong>bold</strong> text</p></body></html>";
    let cleaned = clean_html(html);
    assert_eq!(cleaned, "Title Content with bold text");
}

#[test]
fn rank_test_webpage_content_processing() {
    let html = r#"
        <html>
        <head><title>Test Page</title></head>
        <body>
            <h1>Main Title</h1>
            <p>This is some content with <strong>bold</strong> text.</p>
            <p>Another paragraph with <em>italic</em> text.</p>
        </body>
        </html>
        "#;
    let cleaned = clean_html(html);
    assert!(cleaned.contains("Test Page"));
    assert!(cleaned.contains("Main Title"));
    assert!(cleaned.contains("This is some content with bold text"));
    assert!(cleaned.contains("Another paragraph with italic text"));
}

#[test]
fn rank_test_split_message_functionality() {
    let short_content = "This is a short message.";
    let chunks = split_message(short_content, 50);
    assert_eq!(chunks.len(), 1);
    assert_eq!(chunks[0], short_content);

    let long_content = vec![
        "This is the first line of a longer message.",
        "This is the second line with more content.",
        "This is the third line that should be split.",
        "This is the fourth line to test chunking.",
        "This is the fifth line to complete the test.",
    ]
    .join("\n");
    let chunks = split_message(&long_content, 80);
    assert!(chunks.len() > 1, "Long content should be split into multiple chunks");
    for chunk in &chunks {
        assert!(chunk.len() <= 80, "Chunk exceeds maximum length: {}", chunk.len());
    }

    let single_long_line = "This is a very long line that should not be split because it exceeds the maximum length but we want to keep it as one chunk for testing purposes.";
    let chunks = split_message(single_long_line, 50);
    assert_eq!(chunks.len(), 1, "Single long line should remain as one chunk");
}

#[test]
fn vtt_text_before_first_cue_is_dropped() {
    let vtt = "WEBVTT\nKind: captions\nNOTE something\n\n00:00.000 --> 00:01.000\n  first  \n2\nsecond";
    assert_eq!(clean_vtt_content(vtt), "first second");
}

#[test]
fn entities_are_decoded_after_tags() {
    assert_eq!(clean_html("<p>a &amp;lt; b</p>&nbsp;&quot;q&quot;"), "a &lt; b \"q\"");
    assert_eq!(clean_html("1 <> 2 < 3"), "1 <> 2 < 3");
}

#[test]
fn titles_are_found() {
    assert_eq!(
        extract_title_from_html("<head><title lang=\"en\"> A &amp; B </title></head>"),
        Some("A & B".to_string())
    );
    assert_eq!(extract_title_from_html("<title>broken\nline</title>"), None);
    assert_eq!(page_title_or_unknown("<p>none</p>"), "Unknown Title");
}

#[test]
fn cache_keys_are_sha256() {
    assert_eq!(
        generate_youtube_cache_key("abc"),
        "ba7816bf8f01cfea414140de5dae2223b00361a396177a9cb410ff61f20015ad"
    );
    assert_eq!(
        subtitle_cache_path("abc"),
        "subtitles/ba7816bf8f01cfea414140de5dae2223b00361a396177a9cb410ff61f20015ad.vtt"
    );
}

#[test]
fn rank_requests_are_classified() {
    let _ = Rank::new();
    assert!(classify_rank_request("  ").0 == RankRequest::Help);
    assert!(classify_rank_request("-h").0 == RankRequest::Help);
    assert!(classify_rank_request("--help").0 == RankRequest::Help);
    assert!(classify_rank_request("example.com").0 == RankRequest::InvalidUrl);
    let (k, u) = classify_rank_request(" https://youtu.be/abc ");
    assert!(k == RankRequest::YouTube);
    assert_eq!(u, "https://youtu.be/abc");
    assert!(classify_rank_request("http://example.com").0 == RankRequest::WebPage);
    assert!(rank_help().starts_with("**📊 Content Ranking Command**"));
    assert!(invalid_url_reply().starts_with("**❌ Invalid URL Format**"));
}

#[test]
fn ranking_prompt_and_parts() {
    let p = ranking_prompt(true, "https://y", "body");
    assert!(p.starts_with("Please analyze and rank the following content:\n\nContent Type: YouTube Video\nURL: https://y\n\nContent:\nbody\n\nProvide"));
    let long = "a".repeat(1500);
    let p = ranking_prompt(false, "u", &long);
    let expected_preview = format!("Content:\n{}...\n\nProvide", "a".repeat(1000));
    assert!(p.contains(&expected_preview));
    assert!(p.contains("Content Type: Webpage"));
    assert_eq!(format_ranking("ok", 2000), vec!["**📊 Content Ranking Analysis**\n\nok".to_string()]);
    let two = format_ranking("line one\nline two", 10);
    assert_eq!(two.len(), 2);
    assert_eq!(two[0], "**📊 Content Ranking Analysis (Part 1/2)**\n\nline one");
    assert_eq!(two[1], "**📊 Content Ranking Analysis (Part 2/2)**\n\nline two");
}

#[test]
fn rank_notices_and_downloads() {
    assert_eq!(rank_notice_text(&RankNotice::Analyzing(42)), "🎯 **Content Ranking Analysis**\n\n📊 Analyzing 42 characters of content...");
    assert!(rank_notice_text(&RankNotice::Started(true)).starts_with("🎥 **YouTube Video Ranking**"));
    assert!(rank_notice_text(&RankNotice::PageFailed("e".to_string(), "u".to_string())).ends_with("**URL:** u"));
    let args = rank_ytdlp_args("subtitles/k.vtt", "https://y");
    assert_eq!(args, vec!["--write-sub", "--write-auto-sub", "--sub-format", "vtt", "--skip-download", "--output", "subtitles/k.vtt", "https://y"]);
    assert_eq!(cached_transcript("WEBVTT\n\n"), None);
    assert_eq!(cached_transcript("WEBVTT\n\n00:00:01.000 --> 00:00:02.000\nHello\n"), Some("Hello".to_string()));
    assert_eq!(downloaded_transcript(""), Err("No subtitle content found after cleaning".to_string()));
    assert_eq!(ytdlp_failure("exit status: 1", "boom"), "yt-dlp failed: exit status: 1\n\nError output:\nboom");
    let (title, text) = ranked_page("<html><title>T</title><body>x</body></html>");
    assert_eq!(title, "T");
    assert_eq!(text, "T x");
}

#[test]
fn ranking_probe_verdicts() {
    assert_eq!(rank_endpoint_failure(204, "204 No Content", ""), None);
    assert_eq!(
        rank_endpoint_failure(400, "400 Bad Request", "bad"),
        Some("API endpoint test failed: HTTP 400 Bad Request - bad".to_string())
    );
    assert_eq!(rank_endpoint_unreachable("timeout"), "API endpoint connectivity test failed: timeout");
}

#[test]
fn ranking_fallback_prompts() {
    assert!(fallback_ranking_prompt(true).starts_with("You are an expert video content analyst."));
    assert!(fallback_ranking_prompt(false).starts_with("You are an expert content analyst and evaluator."));
}

#[test]
fn ranking_error_texts() {
    assert_eq!(ranking_failed("boom"), "Ranking analysis failed: boom");
    assert_eq!(subtitle_read_failed("gone"), "Failed to read subtitle file: gone");
    assert_eq!(page_http_error("404 Not Found", 404), "HTTP 404 Not Found: 404");
}

#[test]
fn rank_test_lm_config_structure() {
    let config = LmSettings {
        base_url: "http://localhost:1234".to_string(),
        timeout: 300,
        default_model: "test-model".to_string(),
        default_reason_model: "reason-model".to_string(),
        default_summarization_model: "sum-model".to_string(),
        default_ranking_model: "rank-model".to_string(),
        default_temperature_text: "0.8".to_string(),
        default_max_tokens: 4000,
        max_discord_message_length: 2000,
        response_format_padding: 100,
        default_vision_model: "vision-model".to_string(),
        default_seed: Some(42),
    };
    assert_eq!(config.base_url, "http://localhost:1234");
    assert_eq!(config.timeout, 300);
    assert_eq!(config.default_ranking_model, "rank-model");
    assert_eq!(config.default_temperature_text.parse::<f32>().unwrap(), 0.8);
    assert_eq!(config.default_max_tokens, 4000);
    assert_eq!(config.max_discord_message_length, 2000);
    assert_eq!(config.response_format_padding, 100);
    assert_eq!(config.default_seed, Some(42));
}

#[test]
fn rank_test_chat_message_structure() {
    let message = ChatMessage { role: "user".to_string(), content: "Test message".to_string() };
    assert_eq!(message.role, "user");
    assert_eq!(message.content, "Test message");
    let mut map = serde_json::Map::new();
    map.insert("role".to_string(), serde_json::Value::String(message.role.clone()));
    map.insert("content".to_string(), serde_json::Value::String(message.content.clone()));
    let json = serde_json::to_string(&map).unwrap();
    let value: serde_json::Value = serde_json::from_str(&json).unwrap();
    let deserialized = ChatMessage {
        role: value["role"].as_str().unwrap().to_string(),
        content: value["content"].as_str().unwrap().to_string(),
    };
    assert_eq!(deserialized.role, message.role);
    assert_eq!(deserialized.content, message.content);
}
