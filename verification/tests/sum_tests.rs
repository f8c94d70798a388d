use meri_bot::commands::sum::{clean_vtt_content, file_read_error, summary_status_error, join_summaries, summary_messages, chunk_failure_message, chunk_system_prompt, progress_text, request_failure_message, section_failure_message, section_system_prompt, streaming_error_message, sum_notice_text, PageFetchError, RequestFailure, SumNotice, chunk_prompt, chunk_summary_or_content, classify_sum_request, direct_summary_prompt, fallback_summary_prompt, file_summary_prompt, final_summary_prompt, needs_sections, sum_request_reply, summary_chunk_size, Sum, SumRequest, group_sections, label_section, section_prompt, chunk_words, clean_html, limit_combined_summaries, split_message, truncate_content};
use meri_bot::config::LmSettings;
use meri_bot::commands::search::ChatMessage;

#[test]
fn sum_test_clean_vtt() {
    let vtt = r#"WEBVTT

00:00:00.000 --> 00:00:03.000
Hello world

00:00:03.000 --> 00:00:06.000
This is a test"#;
    let cleaned = clean_vtt_content(vtt);
    assert_eq!(cleaned, "Hello world This is a test");
}

#[test]
fn sum_test_clean_html() {
    let html = "<p>Hello <b>world</b></p><script>alert('test');</script>";
    let cleaned = clean_html(html);
    assert_eq!(cleaned, "Hello world");
}

#[test]
fn sum_test_webpage_content_processing() {
    let test_content = "This is a test webpage content with some information about various topics. It contains multiple sentences and should be processed properly for summarization.";
    let max_content_length = 20000;
    let truncated_content = truncate_content(test_content, max_content_length);
    assert_eq!(truncated_content, test_content);
    let chunk_size = 8000;
    let chunks = chunk_words(&truncated_content, chunk_size);
    assert_eq!(chunks.len(), 1);
    assert_eq!(chunks[0], test_content);
}

#[test]
fn test_html_file_processing() {
    let test_html = r#"<html><head><title>Test Page</title></head><body><h1>Hello World</h1><p>This is a <b>test</b> paragraph.</p><script>alert('test');</script><style>body { color: red; }</style></body></html>"#;
    let cleaned = clean_html(test_html);
    assert!(cleaned.contains("Hello World"));
    assert!(cleaned.contains("This is a test paragraph"));
    assert!(!cleaned.contains("<script>"));
    assert!(!cleaned.contains("<style>"));
    assert!(!cleaned.contains("<html>"));
    assert!(!cleaned.contains("<b>"));
}

#[test]
fn sum_test_split_message_functionality() {
    let lines = vec![
        "This is line 1 with some text that makes it moderately long to test splitting.",
        "This is line 2 with additional content that should also be quite lengthy.",
        "This is line 3 with even more text to ensure we exceed the character limit.",
        "This is line 4 which continues to add content for comprehensive testing.",
        "This is line 5 that should definitely push us over the max_len limit.",
        "This is line 6 with final content to ensure proper multi-chunk splitting.",
        "This is line 7 with additional verification content for thorough testing.",
        "This is line 8 providing the last bit of content for split verification.",
    ];
    let long_content = lines.join("\n");
    let max_len = 200;
    assert!(long_content.len() > max_len, "Test content should be longer than max_len for proper testing");
    let chunks = split_message(&long_content, max_len);
    assert!(chunks.len() > 1, "Content of {} chars with {} lines should split with max_len {}", long_content.len(), lines.len(), max_len);
    for (i, chunk) in chunks.iter().enumerate() {
        if i < chunks.len() - 1 {
            assert!(chunk.len() <= max_len, "Chunk {} exceeds max length: {} > {}", i, chunk.len(), max_len);
        }
    }
    let combined = chunks.join("\n");
    let original_words: Vec<&str> = long_content.split_whitespace().collect();
    let combined_words: Vec<&str> = combined.split_whitespace().collect();
    assert_eq!(original_words.len(), combined_words.len());
    let short_content = "Short message";
    let short_chunks = split_message(short_content, max_len);
    assert_eq!(short_chunks.len(), 1, "Short content should not be split");
    assert_eq!(short_chunks[0], short_content);
    let single_long_line = "This is a very long single line that exceeds the max_len but has no line breaks so it cannot be split by the line-based splitting algorithm.".repeat(5);
    let single_line_chunks = split_message(&single_long_line, max_len);
    assert_eq!(single_line_chunks.len(), 1, "Single long line should not be split");
}

#[test]
fn long_content_is_truncated_on_a_boundary() {
    let content = "abcdef";
    assert_eq!(truncate_content(content, 3), "abc [Content truncated due to length]");
    assert_eq!(truncate_content("añb", 3), "añ [Content truncated due to length]");
}

#[test]
fn combined_summaries_are_limited() {
    let s = "x".repeat(80001);
    let r = limit_combined_summaries(&s);
    assert!(r.starts_with(&"x".repeat(80000)));
    assert!(r.ends_with(" [Content truncated due to size - showing first 80000 characters]"));
    assert_eq!(limit_combined_summaries("short"), "short");
}

#[test]
fn words_are_chunked_within_size() {
    let chunks = chunk_words("aa bb cc dd", 5);
    assert_eq!(chunks, vec!["aa bb".to_string(), "cc dd".to_string()]);
    // "toolong" exceeds half the chunk size and is left out.
    let chunks = chunk_words("a toolong b", 10);
    assert_eq!(chunks, vec!["a b".to_string()]);
}

#[test]
fn subtitle_tags_are_stripped() {
    let vtt = "WEBVTT\n\n00:01.000 --> 00:02.000\n<v Speaker>Hi <c>there</c></v>\n12:34\n<i></i>\n<b>bold</b>  move";
    assert_eq!(clean_vtt_content(vtt), "Speaker>Hi there bold move");
}

#[test]
fn page_text_is_limited_to_fifteen_thousand_chars() {
    let html = format!("<p>{}</p>", "word ".repeat(4000));
    let cleaned = clean_html(&html);
    assert_eq!(cleaned.chars().count(), 15000);
}

#[test]
fn sum_requests_and_prompts() {
    let _ = Sum::new();
    let (k, _) = classify_sum_request("  ");
    assert!(k == SumRequest::MissingUrl);
    assert_eq!(sum_request_reply(k), Some("Please provide a URL to summarize!\n\n**Usage:** `^sum <url>`".to_string()));
    let (k, _) = classify_sum_request("ftp://x");
    assert!(k == SumRequest::InvalidUrl);
    assert!(sum_request_reply(k).unwrap().starts_with("Please provide a valid URL"));
    let (k, u) = classify_sum_request(" https://www.youtube.com/watch?v=abc ");
    assert!(k == SumRequest::YouTube);
    assert_eq!(u, "https://www.youtube.com/watch?v=abc");
    assert!(sum_request_reply(k).is_none());
    assert!(classify_sum_request("https://youtube.com").0 == SumRequest::WebPage);
    assert!(fallback_summary_prompt(true).starts_with("You are an expert at summarizing YouTube"));
    assert!(fallback_summary_prompt(false).starts_with("You are an expert content summarizer."));
    assert_eq!(summary_chunk_size(true), 24000);
    assert_eq!(summary_chunk_size(false), 16000);
    assert_eq!(file_summary_prompt(true, "u", " \n"), Err("File contains no readable content after cleaning".to_string()));
    assert_eq!(
        file_summary_prompt(false, "u", "text"),
        Ok("Please analyze and summarize this webpage HTML content from u:\n\ntext".to_string())
    );
    let (p, body) = direct_summary_prompt(true, "u", "t");
    assert_eq!(p, "Please summarize this YouTube video transcript from u:\n\nt");
    assert_eq!(body, "t");
    let long = "b".repeat(20005);
    let (_, body) = direct_summary_prompt(false, "u", &long);
    assert_eq!(body, format!("{} [Content truncated due to length]", "b".repeat(20000)));
    assert_eq!(
        chunk_prompt(false, "c"),
        "Create a detailed summary of this content chunk from a webpage. Focus on key points, topics, and important information:\n\nc"
    );
    assert_eq!(chunk_summary_or_content(0, "raw", "fine summary"), "fine summary");
    assert_eq!(chunk_summary_or_content(1, "raw", "fallback used"), "Content chunk 2: raw");
    assert!(needs_sections(true, 11));
    assert!(!needs_sections(true, 10));
    assert!(!needs_sections(false, 50));
    assert!(final_summary_prompt(true, "u", "S").starts_with("Create a comprehensive, well-structured summary of this YouTube video from u."));
}

#[test]
fn sum_sections_are_grouped_by_five() {
    let s: Vec<String> = (1..=7).map(|i| i.to_string()).collect();
    let g = group_sections(&s);
    assert_eq!(g, vec!["1\n\n---\n\n2\n\n---\n\n3\n\n---\n\n4\n\n---\n\n5".to_string(), "6\n\n---\n\n7".to_string()]);
    assert!(group_sections(&Vec::new()).is_empty());
    assert_eq!(label_section(0, "x"), "Section 1: x");
    assert!(section_prompt("S").ends_with("important information:\n\nS"));
}

#[test]
fn summary_answers_are_checked_and_split() {
    let long_answer = "<think>plan</think>This is a summary that is long enough to pass the fifty byte check.";
    assert_eq!(
        summary_messages(long_answer, true, "https://y", "m", 2000),
        Ok(vec!["**YouTube Video Summary**\n\nThis is a summary that is long enough to pass the fifty byte check.\n\n*Source: <https://y>*".to_string()])
    );
    let short = summary_messages("tiny", false, "u", "m", 2000).err().unwrap();
    assert!(short.contains("insufficient content (4 characters)"));
    let fb = summary_messages("a fallback answer that is surely longer than fifty bytes in all", false, "u", "mod", 2000).err().unwrap();
    assert!(fb.starts_with("❌ **Summarization Failed**\n\n**Issue:** The AI model `mod` appears"));
    let many = summary_messages("line one of the summary text here\nline two of the summary text here\nline three", false, "u", "m", 40).ok().unwrap();
    assert!(many.len() > 1);
    assert_eq!(many[0], "**Webpage Summary**");
}

#[test]
fn summary_failures_are_explained() {
    assert!(chunk_failure_message(1, 4, "m", "Connection refused").starts_with("❌ **LM Studio Connection Lost During Chunk Processing**\n\nFailed to process chunk 2 of 4"));
    assert!(chunk_failure_message(1, 4, "m", "os error 10013").ends_with("**Progress:** Successfully processed 1 of 4 chunks before failure"));
    assert!(chunk_failure_message(0, 2, "m", "boom").contains("**Error:** boom"));
    assert!(section_failure_message(2, "m", "Connection Error").contains("Failed to process section 3 during"));
    assert!(section_failure_message(0, "m", "x").starts_with("❌ **Section Processing Error**"));
    assert!(request_failure_message(RequestFailure::Timeout, "", 300, "http://h", "m", 12, "u").contains("timed out after 300 seconds"));
    assert!(request_failure_message(RequestFailure::Connect, "", 300, "http://h", "m", 12, "u").starts_with("🚫 **Connection Error**"));
    assert!(request_failure_message(RequestFailure::Other, "os error 10013", 300, "h", "m", 1, "u").starts_with("🚫 **Windows Permission Error (10013)**"));
    assert!(request_failure_message(RequestFailure::Other, "weird", 300, "h", "m", 1, "u").contains("**Error:** weird"));
    assert!(streaming_error_message("eof", "u").starts_with("❌ **Streaming Error**\n\nFailed to read streaming response: eof"));
    assert_eq!(progress_text(7), "🤖 Generating summary... (7s)");
    assert!(chunk_system_prompt().starts_with("You are an expert content summarizer."));
    assert!(section_system_prompt().contains("section summaries"));
    assert_eq!(sum_notice_text(&SumNotice::Fetching), "🔄 Fetching content...");
    assert_eq!(sum_notice_text(&SumNotice::SummaryFailed("x".to_string())), "❌ Failed to generate summary: x");
    assert_eq!(PageFetchError::Http("404 Not Found".to_string()).message(), "HTTP error: 404 Not Found");
}

#[test]
fn summaries_are_joined_with_separator() {
    assert_eq!(join_summaries(&vec!["a".to_string(), "b".to_string()]), "a\n\n---\n\nb");
    assert_eq!(join_summaries(&vec![]), "");
}

#[test]
fn summary_stream_errors() {
    assert_eq!(file_read_error("denied"), "Failed to read file: denied");
    assert_eq!(summary_status_error("500 Internal Server Error"), "API returned error: 500 Internal Server Error");
}

#[test]
fn sum_test_lm_config_structure() {
    let config = LmSettings {
        base_url: "http://localhost:1234".to_string(),
        timeout: 60,
        default_model: "test-model".to_string(),
        default_reason_model: "test-reason-model".to_string(),
        default_summarization_model: "test-sum-model".to_string(),
        default_ranking_model: "test-rank-model".to_string(),
        default_temperature_text: "0.7".to_string(),
        default_max_tokens: 2000,
        max_discord_message_length: 2000,
        response_format_padding: 100,
        default_vision_model: "test-vision-model".to_string(),
        default_seed: Some(42),
    };
    assert_eq!(config.base_url, "http://localhost:1234");
    assert_eq!(config.timeout, 60);
    assert_eq!(config.default_model, "test-model");
    assert_eq!(config.default_summarization_model, "test-sum-model");
    assert_eq!(config.default_temperature_text.parse::<f32>().unwrap(), 0.7);
    assert_eq!(config.default_max_tokens, 2000);
    assert_eq!(config.default_seed, Some(42));
}

#[test]
fn sum_test_chat_message_structure() {
    let message = ChatMessage { role: "user".to_string(), content: "Hello, world!".to_string() };
    assert_eq!(message.role, "user");
    assert_eq!(message.content, "Hello, world!");
    let mut map = serde_json::Map::new();
    map.insert("role".to_string(), serde_json::Value::String(message.role.clone()));
    map.insert("content".to_string(), serde_json::Value::String(message.content.clone()));
    let json = serde_json::to_string(&map).unwrap();
    assert!(json.contains("user"));
    assert!(json.contains("Hello, world!"));
    let value: serde_json::Value = serde_json::from_str(&json).unwrap();
    let deserialized = ChatMessage {
        role: value["role"].as_str().unwrap().to_string(),
        content: value["content"].as_str().unwrap().to_string(),
    };
    assert_eq!(deserialized.role, "user");
    assert_eq!(deserialized.content, "Hello, world!");
}

#[test]
fn inline_timestamp_tags_are_removed() {
    assert_eq!(
        clean_vtt_content("WEBVTT\n\n00:00:00.000 --> 00:00:02.000\nHello<00:00:01.000><c> world</c>"),
        "Hello world"
    );
    assert_eq!(clean_vtt_content("WEBVTT\n\n1\n00:00:00.000 --> 00:00:02.000\n<00:00:00.500>a<01:02.3> b"), "a b");
    // Only digits, colons and dots make a timestamp tag.
    assert_eq!(clean_vtt_content("x <> y <1a> z"), "x <> y <1a> z");
}

#[test]
fn cleaning_subtitles_twice_changes_nothing() {
    let vtt = "WEBVTT\n\n1\n00:00:00.000 --> 00:00:02.000\nHello   there\n\nNOTE skip me\n00:00:02.000 --> 00:00:04.000\n  general  Kenobi  \n";
    let once = clean_vtt_content(vtt);
    assert_eq!(once, "Hello there general Kenobi");
    assert_eq!(clean_vtt_content(&once), once);
}
